use vstd::prelude::*;

use crate::host::AoHost;
use crate::status::AoStatus;
use crate::types::{spec_text, value_view, AoType, ValueView};
use crate::vm::{AoVM, VmView};

verus! {

/// An operand: a register, an indirect access, or an immediate value.
#[derive(Clone, Debug, PartialEq)]
pub enum AoArg {
    /// Program counter.
    PC,
    /// Data pointer.
    DP,
    /// Memory pointer.
    MP,
    /// Bottom of the current frame.
    DSB,
    /// Height of the data stack (read-only).
    DST,
    CA,
    CB,
    /// The data stack slot at `dp`.
    DS,
    /// The memory cell at `mp`.
    MEM,
    /// An immediate value (read-only).
    Imm(AoType),
}

/// An operand with an immediate's text as characters.
pub enum ArgView {
    PC,
    DP,
    MP,
    DSB,
    DST,
    CA,
    CB,
    DS,
    MEM,
    Imm(ValueView),
}

pub open spec fn arg_view(a: AoArg) -> ArgView {
    match a {
        AoArg::PC => ArgView::PC,
        AoArg::DP => ArgView::DP,
        AoArg::MP => ArgView::MP,
        AoArg::DSB => ArgView::DSB,
        AoArg::DST => ArgView::DST,
        AoArg::CA => ArgView::CA,
        AoArg::CB => ArgView::CB,
        AoArg::DS => ArgView::DS,
        AoArg::MEM => ArgView::MEM,
        AoArg::Imm(v) => ArgView::Imm(value_view(v)),
    }
}

/// What an operand reads, `None` where `ds` is read past the top of the stack.
pub open spec fn spec_get(arg: AoArg, s: VmView) -> Option<AoType> {
    match arg {
        AoArg::PC => Some(AoType::AoPtr(s.pc)),
        AoArg::DP => Some(AoType::AoPtr(s.dp)),
        AoArg::MP => Some(AoType::AoPtr(s.mp)),
        AoArg::DSB => Some(AoType::AoPtr(s.dsb)),
        AoArg::DST => Some(AoType::AoPtr(s.ds.len() as u32)),
        AoArg::CA => Some(s.ca),
        AoArg::CB => Some(s.cb),
        AoArg::DS => if s.dp < s.ds.len() {
            Some(s.ds[s.dp as int])
        } else {
            None
        },
        AoArg::MEM => Some(s.mem[s.mp]),
        AoArg::Imm(v) => Some(v),
    }
}

/// Whether writing `v` through `arg` takes state `s` to `t` with status `r`.
/// Pointer registers take only a `Ptr`; `dst` and immediates cannot be
/// written; `ds` needs `dp` inside the stack. A failed write changes nothing.
pub open spec fn spec_set(arg: AoArg, s: VmView, v: AoType, t: VmView, r: AoStatus) -> bool {
    match arg {
        AoArg::PC => match v {
            AoType::AoPtr(p) => r is Success && t == VmView { pc: p, ..s },
            _ => r is SetValueInvalidType && t == s,
        },
        AoArg::DP => match v {
            AoType::AoPtr(p) => r is Success && t == VmView { dp: p, ..s },
            _ => r is SetValueInvalidType && t == s,
        },
        AoArg::MP => match v {
            AoType::AoPtr(p) => r is Success && t == VmView { mp: p, ..s },
            _ => r is SetValueInvalidType && t == s,
        },
        AoArg::DSB => match v {
            AoType::AoPtr(p) => r is Success && t == VmView { dsb: p, ..s },
            _ => r is SetValueInvalidType && t == s,
        },
        AoArg::CA => r is Success && t == VmView { ca: v, ..s },
        AoArg::CB => r is Success && t == VmView { cb: v, ..s },
        AoArg::DS => if s.dp < s.ds.len() {
            r is Success && t == VmView { ds: s.ds.update(s.dp as int, v), ..s }
        } else {
            r is DataStackUnderflow && t == s
        },
        AoArg::MEM => r is Success && t == VmView { mem: s.mem.insert(s.mp, v), ..s },
        AoArg::DST | AoArg::Imm(_) => r is SetValueInvalidTarget && t == s,
    }
}

impl AoArg {
    /// A deep copy.
    pub fn clone(&self) -> (r: AoArg)
        ensures
            r == *self,
    {
        match self {
            AoArg::PC => AoArg::PC,
            AoArg::DP => AoArg::DP,
            AoArg::MP => AoArg::MP,
            AoArg::DSB => AoArg::DSB,
            AoArg::DST => AoArg::DST,
            AoArg::CA => AoArg::CA,
            AoArg::CB => AoArg::CB,
            AoArg::DS => AoArg::DS,
            AoArg::MEM => AoArg::MEM,
            AoArg::Imm(v) => AoArg::Imm(v.clone()),
        }
    }

    /// The value the operand reads (see `spec_get`).
    pub fn get_value<H: AoHost>(&self, vm: &AoVM<H>) -> (r: Option<AoType>)
        ensures
            r == spec_get(*self, vm@),
    {
        match self {
            AoArg::PC => Some(AoType::AoPtr(vm.pc)),
            AoArg::DP => Some(AoType::AoPtr(vm.dp)),
            AoArg::MP => Some(AoType::AoPtr(vm.mp)),
            AoArg::DSB => Some(AoType::AoPtr(vm.dsb)),
            AoArg::DST => Some(AoType::AoPtr(vm.ds.len() as u32)),
            AoArg::CA => Some(vm.ca.clone()),
            AoArg::CB => Some(vm.cb.clone()),
            AoArg::DS => {
                let dp = vm.dp as usize;
                if dp < vm.ds.len() {
                    Some(vm.ds[dp].clone())
                } else {
                    None
                }
            },
            AoArg::MEM => Some(vm.mem.get(vm.mp)),
            AoArg::Imm(v) => Some(v.clone()),
        }
    }

    /// Writes `value` through the operand (see `spec_set`).
    pub fn set_value<H: AoHost>(&self, vm: &mut AoVM<H>, value: AoType) -> (r: AoStatus)
        ensures
            spec_set(*self, old(vm)@, value, final(vm)@, r),
            final(vm).host == old(vm).host,
    {
        match self {
            AoArg::PC => match value {
                AoType::AoPtr(p) => {
                    vm.pc = p;
                    AoStatus::Success
                },
                _ => AoStatus::SetValueInvalidType(
                    String::from_str("cannot set PC to non-pointer value"),
                ),
            },
            AoArg::DP => match value {
                AoType::AoPtr(p) => {
                    vm.dp = p;
                    AoStatus::Success
                },
                _ => AoStatus::SetValueInvalidType(
                    String::from_str("cannot set DP to non-pointer value"),
                ),
            },
            AoArg::MP => match value {
                AoType::AoPtr(p) => {
                    vm.mp = p;
                    AoStatus::Success
                },
                _ => AoStatus::SetValueInvalidType(
                    String::from_str("cannot set MP to non-pointer value"),
                ),
            },
            AoArg::DSB => match value {
                AoType::AoPtr(p) => {
                    vm.dsb = p;
                    AoStatus::Success
                },
                _ => AoStatus::SetValueInvalidType(
                    String::from_str("cannot set DSB to non-pointer value"),
                ),
            },
            AoArg::DST => AoStatus::SetValueInvalidTarget(String::from_str("cannot set DST")),
            AoArg::CA => {
                vm.ca = value;
                AoStatus::Success
            },
            AoArg::CB => {
                vm.cb = value;
                AoStatus::Success
            },
            AoArg::DS => {
                let dp = vm.dp as usize;
                if dp < vm.ds.len() {
                    vm.ds.set(dp, value);
                    AoStatus::Success
                } else {
                    AoStatus::DataStackUnderflow
                }
            },
            AoArg::MEM => {
                vm.mem.set(vm.mp, value);
                AoStatus::Success
            },
            AoArg::Imm(_) => AoStatus::SetValueInvalidTarget(
                String::from_str("cannot set immediate value"),
            ),
        }
    }
}

/// Operand names as the assembly writes them, for building programs by hand.
#[allow(non_camel_case_types)]
pub enum AoArgLowerCase {
    pc,
    dp,
    mp,
    dsb,
    dst,
    ca,
    cb,
    ds,
    mem,
    imm(AoType),
}

impl AoArgLowerCase {
    /// The operand this name stands for.
    pub fn to_aoarg(&self) -> (r: AoArg)
        ensures
            r == match *self {
                AoArgLowerCase::pc => AoArg::PC,
                AoArgLowerCase::dp => AoArg::DP,
                AoArgLowerCase::mp => AoArg::MP,
                AoArgLowerCase::dsb => AoArg::DSB,
                AoArgLowerCase::dst => AoArg::DST,
                AoArgLowerCase::ca => AoArg::CA,
                AoArgLowerCase::cb => AoArg::CB,
                AoArgLowerCase::ds => AoArg::DS,
                AoArgLowerCase::mem => AoArg::MEM,
                AoArgLowerCase::imm(v) => AoArg::Imm(v),
            },
    {
        match self {
            AoArgLowerCase::pc => AoArg::PC,
            AoArgLowerCase::dp => AoArg::DP,
            AoArgLowerCase::mp => AoArg::MP,
            AoArgLowerCase::dsb => AoArg::DSB,
            AoArgLowerCase::dst => AoArg::DST,
            AoArgLowerCase::ca => AoArg::CA,
            AoArgLowerCase::cb => AoArg::CB,
            AoArgLowerCase::ds => AoArg::DS,
            AoArgLowerCase::mem => AoArg::MEM,
            AoArgLowerCase::imm(v) => AoArg::Imm(v.clone()),
        }
    }
}

/// The textual form of an operand: a register's lowercase name, or an
/// immediate's value text.
pub open spec fn spec_arg_text<H: AoHost>(host: H, a: AoArg) -> Seq<char> {
    match a {
        AoArg::PC => seq!['p', 'c'],
        AoArg::DP => seq!['d', 'p'],
        AoArg::MP => seq!['m', 'p'],
        AoArg::DSB => seq!['d', 's', 'b'],
        AoArg::DST => seq!['d', 's', 't'],
        AoArg::CA => seq!['c', 'a'],
        AoArg::CB => seq!['c', 'b'],
        AoArg::DS => seq!['d', 's'],
        AoArg::MEM => seq!['m', 'e', 'm'],
        AoArg::Imm(v) => spec_text(host, v),
    }
}

impl AoArg {
    /// The textual form (see `spec_arg_text`).
    pub fn text<H: AoHost>(&self, host: &H) -> (r: String)
        ensures
            r@ == spec_arg_text(*host, *self),
    {
        proof {
            reveal_strlit("pc");
            reveal_strlit("dp");
            reveal_strlit("mp");
            reveal_strlit("dsb");
            reveal_strlit("dst");
            reveal_strlit("ca");
            reveal_strlit("cb");
            reveal_strlit("ds");
            reveal_strlit("mem");
        }
        match self {
            AoArg::PC => String::from_str("pc"),
            AoArg::DP => String::from_str("dp"),
            AoArg::MP => String::from_str("mp"),
            AoArg::DSB => String::from_str("dsb"),
            AoArg::DST => String::from_str("dst"),
            AoArg::CA => String::from_str("ca"),
            AoArg::CB => String::from_str("cb"),
            AoArg::DS => String::from_str("ds"),
            AoArg::MEM => String::from_str("mem"),
            AoArg::Imm(v) => v.text(host),
        }
    }
}

} // verus!
