use vstd::prelude::*;

use crate::args::{arg_view, spec_arg_text, spec_get, spec_set, AoArg, ArgView};
use crate::bin_oper::{invalid_message, ApplyOutcome, AoTypeBinOper};
use crate::host::{AoFloatOp, AoHost};
use crate::status::AoStatus;
use crate::text::{
    int_text, nat_text, parse_int, parse_ptr, ptr_text, spec_int_text, spec_nat_text,
    spec_parse_int, spec_parse_ptr, spec_ptr_text, text_less, text_lt,
};
use crate::float::{
    float_eq, float_equal, float_less, float_lt, float_to_int, float_to_ptr, int_to_float,
    ptr_to_float, spec_float_to_int, spec_float_to_ptr, spec_int_to_float, spec_ptr_to_float,
    FLOAT_ONE, FLOAT_ZERO,
};
use crate::types::{spec_truthy, AoType};
use crate::vm::{AoVM, VmView, CALL_STACK_LIMIT, DATA_STACK_LIMIT};

verus! {

/// One instruction. Relative jumps count from the jump itself; absolute ones
/// name an instruction index.
#[derive(Clone, Debug, PartialEq)]
pub enum AoOpCode {
    NOP,
    /// Pushes the return address and jumps to an absolute address.
    CALL(u32),
    /// Unwinds the frame and returns to the address on the call stack.
    RET,
    JMP(i32),
    JMPA(u32),
    /// Jumps when `ca` is truthy.
    JT(i32),
    JTA(u32),
    /// Jumps when `ca` is not truthy.
    JF(i32),
    JFA(u32),
    /// `MOV(dst, src)`.
    MOV(AoArg, AoArg),
    /// Host interrupt on the current frame's values; `INT(0)` ends the
    /// program. The frame-base slot is checked before the host is called, and
    /// the frame is unwound afterwards as by `RET`.
    INT(u8),
    PUSH(AoArg),
    /// Pops the data stack, into `ca` when the flag is set.
    POP(bool),
    ADD(AoArg),
    SUB(AoArg),
    MUL(AoArg),
    DIV(AoArg),
    REM(AoArg),
    INC,
    DEC,
    SHL(AoArg),
    SHR(AoArg),
    AND(AoArg),
    OR(AoArg),
    XOR(AoArg),
    NOT,
    BAND(AoArg),
    BOR(AoArg),
    BXOR(AoArg),
    BNOT,
    EQU(AoArg),
    NEQ(AoArg),
    GT(AoArg),
    LT(AoArg),
    GE(AoArg),
    LE(AoArg),
    CSI,
    CSF,
    CSP,
    CSS,
    ISB,
    ISI,
    ISF,
    ISP,
    ISS,
    /// `dp := dsb + offset`.
    ARG(u32),
    /// `dsb := |ds| - argc`.
    CNF(u32),
}

/// A program: instructions indexed from 0.
pub type AoProgram = Vec<AoOpCode>;

/// The operands of an instruction, by shape.
#[allow(non_camel_case_types)]
pub enum OpcodeArgType {
    NoArg,
    u8(u8),
    i32(i32),
    u32(u32),
    bool(bool),
    AoArg(AoArg),
    AoArg2(AoArg, AoArg),
}

/// Operands with immediates' text as characters.
pub enum OperandsView {
    NoArg,
    U8(u8),
    I32(i32),
    U32(u32),
    Bool(bool),
    Arg(ArgView),
    Arg2(ArgView, ArgView),
}

impl OperandsView {
    /// 0 none, 1 `u8`, 2 `i32`, 3 `u32`, 4 `bool`, 5 one operand, 6 two.
    pub open spec fn shape(self) -> nat {
        match self {
            OperandsView::NoArg => 0,
            OperandsView::U8(_) => 1,
            OperandsView::I32(_) => 2,
            OperandsView::U32(_) => 3,
            OperandsView::Bool(_) => 4,
            OperandsView::Arg(_) => 5,
            OperandsView::Arg2(..) => 6,
        }
    }
}

impl OpcodeArgType {
    pub open spec fn view(self) -> OperandsView {
        match self {
            OpcodeArgType::NoArg => OperandsView::NoArg,
            OpcodeArgType::u8(v) => OperandsView::U8(v),
            OpcodeArgType::i32(v) => OperandsView::I32(v),
            OpcodeArgType::u32(v) => OperandsView::U32(v),
            OpcodeArgType::bool(v) => OperandsView::Bool(v),
            OpcodeArgType::AoArg(a) => OperandsView::Arg(arg_view(a)),
            OpcodeArgType::AoArg2(a, b) => OperandsView::Arg2(arg_view(a), arg_view(b)),
        }
    }
}

/// An instruction as its opcode id and operands.
pub struct OpView {
    pub id: u8,
    pub args: OperandsView,
}

/// The saved frame base in slot `dsb - 1`, where that slot exists and holds a
/// pointer.
pub open spec fn frame_base(s: VmView) -> Option<u32> {
    if 1 <= s.dsb && s.dsb <= s.ds.len() {
        match s.ds[s.dsb - 1] {
            AoType::AoPtr(p) => Some(p),
            _ => None,
        }
    } else {
        None
    }
}

/// The state after the current frame is dropped: `dsb` restored from the
/// frame-base slot and the stack cut back to below that slot.
pub open spec fn unwound(s: VmView, base: u32) -> VmView {
    VmView { dsb: base, ds: s.ds.subrange(0, s.dsb - 1), ..s }
}

/// The target of a relative jump `d` fetched from `pc - 1`, wrapping.
pub open spec fn rel_target(pc: u32, d: i32) -> u32 {
    ((pc as int + d as int - 1) % 0x1_0000_0000) as u32
}

/// `l == r` for the comparison instructions: same tag and equal payload
/// (floats as IEEE-754 compares them); different tags are never equal.
pub open spec fn spec_values_equal(l: AoType, r: AoType) -> bool {
    match (l, r) {
        (AoType::AoBool(a), AoType::AoBool(b)) => a == b,
        (AoType::AoInt(a), AoType::AoInt(b)) => a == b,
        (AoType::AoFloat(a), AoType::AoFloat(b)) => float_eq(a, b),
        (AoType::AoPtr(a), AoType::AoPtr(b)) => a == b,
        (AoType::AoString(a), AoType::AoString(b)) => a@ == b@,
        _ => false,
    }
}

/// `l < r` within a tag; `None` for different tags.
pub open spec fn spec_values_less(l: AoType, r: AoType) -> Option<bool> {
    match (l, r) {
        (AoType::AoBool(a), AoType::AoBool(b)) => Some(!a && b),
        (AoType::AoInt(a), AoType::AoInt(b)) => Some(a < b),
        (AoType::AoFloat(a), AoType::AoFloat(b)) => Some(float_lt(a, b)),
        (AoType::AoPtr(a), AoType::AoPtr(b)) => Some(a < b),
        (AoType::AoString(a), AoType::AoString(b)) => Some(text_lt(a@, b@)),
        _ => None,
    }
}

/// Whether `t` is what `csi` makes of `v`.
pub open spec fn cast_int(v: AoType, t: AoType) -> bool {
    match v {
        AoType::AoBool(b) => t == AoType::AoInt(if b { 1 } else { 0 }),
        AoType::AoInt(_) => t == v,
        AoType::AoFloat(f) => t == AoType::AoInt(spec_float_to_int(f)),
        AoType::AoPtr(p) => t == AoType::AoInt(p as i32),
        AoType::AoString(s) => t == AoType::AoInt(
            match spec_parse_int(s@) {
                Some(i) => i,
                None => 0,
            },
        ),
    }
}

/// Whether `t` is what `csf` makes of `v`; text is read as a float by the
/// host, and text that is no float gives `0.0`.
pub open spec fn cast_float<H: AoHost>(host: H, v: AoType, t: AoType) -> bool {
    match v {
        AoType::AoBool(b) => t == AoType::AoFloat(if b { FLOAT_ONE } else { FLOAT_ZERO }),
        AoType::AoInt(i) => t == AoType::AoFloat(spec_int_to_float(i)),
        AoType::AoFloat(_) => t == v,
        AoType::AoPtr(p) => t == AoType::AoFloat(spec_ptr_to_float(p)),
        AoType::AoString(x) => t == AoType::AoFloat(
            match host.spec_float_parse(x) {
                Some(f) => f,
                None => FLOAT_ZERO,
            },
        ),
    }
}

/// Whether `t` is what `csp` makes of `v`.
pub open spec fn cast_ptr(v: AoType, t: AoType) -> bool {
    match v {
        AoType::AoBool(b) => t == AoType::AoPtr(if b { 1 } else { 0 }),
        AoType::AoInt(i) => t == AoType::AoPtr(i as u32),
        AoType::AoFloat(f) => t == AoType::AoPtr(spec_float_to_ptr(f)),
        AoType::AoPtr(_) => t == v,
        AoType::AoString(s) => t == AoType::AoPtr(
            match spec_parse_ptr(s@) {
                Some(p) => p,
                None => 0,
            },
        ),
    }
}

/// Whether `t` is what `css` makes of `v`. A float's digits are the host's.
pub open spec fn cast_string<H: AoHost>(host: H, v: AoType, t: AoType) -> bool {
    match v {
        AoType::AoBool(b) => t matches AoType::AoString(s) && s@ == if b {
            seq!['t', 'r', 'u', 'e']
        } else {
            seq!['f', 'a', 'l', 's', 'e']
        },
        AoType::AoInt(i) => t matches AoType::AoString(s) && s@ == spec_int_text(i as int),
        AoType::AoFloat(f) => t matches AoType::AoString(s) && s@ == host.spec_float_text(f)@,
        AoType::AoPtr(p) => t matches AoType::AoString(s) && s@ == spec_ptr_text(p),
        AoType::AoString(_) => t == v,
    }
}

/// `ca := ca op src` through a binary operator.
pub open spec fn arith_step<H: AoHost>(
    host: H,
    op: AoTypeBinOper,
    src: AoArg,
    s: VmView,
    t: VmView,
    r: AoStatus,
) -> bool {
    match spec_get(src, s) {
        None => r is DataStackUnderflow && t == s,
        Some(v) => match op.spec_apply(s.ca, v) {
            ApplyOutcome::Value(x) => r is Success && t == VmView { ca: x, ..s },
            ApplyOutcome::Text(x) => r is Success && t == VmView { ca: t.ca, ..s } && (
            t.ca matches AoType::AoString(z) && z@ == x),
            ApplyOutcome::Float(f, l, x) => r is Success && t == VmView {
                ca: AoType::AoFloat(host.spec_float_arith(f, l, x)),
                ..s
            },
            ApplyOutcome::Invalid => t == s && (r matches AoStatus::InvalidOperation(m) && m@
                == invalid_message(host, s.ca, op.spec_name(), v)),
        },
    }
}

/// Success with `x` in `ca` and nothing else changed.
pub open spec fn sets_ca(s: VmView, t: VmView, r: AoStatus, x: AoType) -> bool {
    r is Success && t == VmView { ca: x, ..s }
}

impl AoOpCode {
    /// The binary operator behind an arithmetic or bitwise instruction.
    pub open spec fn spec_bin_oper(self) -> Option<AoTypeBinOper> {
        match self {
            AoOpCode::ADD(_) => Some(AoTypeBinOper::Add),
            AoOpCode::SUB(_) => Some(AoTypeBinOper::Sub),
            AoOpCode::MUL(_) => Some(AoTypeBinOper::Mul),
            AoOpCode::DIV(_) => Some(AoTypeBinOper::Div),
            AoOpCode::REM(_) => Some(AoTypeBinOper::Rem),
            AoOpCode::SHL(_) => Some(AoTypeBinOper::Shl),
            AoOpCode::SHR(_) => Some(AoTypeBinOper::Shr),
            AoOpCode::BAND(_) => Some(AoTypeBinOper::Band),
            AoOpCode::BOR(_) => Some(AoTypeBinOper::Bor),
            AoOpCode::BXOR(_) => Some(AoTypeBinOper::Bxor),
            _ => None,
        }
    }

    /// Whether the instruction hands state `s` to the host's interrupt
    /// handler: `int k` with `k != 0` and a frame (`dsb <= |ds|`) to hand over.
    pub open spec fn calls_host(self, s: VmView) -> bool {
        self matches AoOpCode::INT(id) && id != 0 && s.dsb <= s.ds.len()
    }

    /// Whether executing the instruction, with `host` doing the float work,
    /// takes state `s` (fetched, `pc` already advanced) to `t` with status
    /// `r`. A failing instruction changes nothing, except that an interrupt
    /// keeps the handler's reply in `ca` when the frame turns out bad. What
    /// the interrupt handler returns is left open.
    pub open spec fn spec_execute<H: AoHost>(self, host: H, s: VmView, t: VmView, r: AoStatus) -> bool {
        match self {
            AoOpCode::NOP => r is Success && t == s,
            AoOpCode::CALL(a) => if s.cs.len() >= CALL_STACK_LIMIT {
                r is CallStackOverflow && t == s
            } else {
                r is Success && t == VmView { cs: s.cs.push(s.pc), pc: a, ..s }
            },
            AoOpCode::RET => if s.cs.len() == 0 {
                r is CallStackUnderflow && t == s
            } else {
                match frame_base(s) {
                    Some(p) => r is Success && t == VmView {
                        pc: s.cs.last(),
                        cs: s.cs.drop_last(),
                        ..unwound(s, p)
                    },
                    None => r is BadDataStack && t == s,
                }
            },
            AoOpCode::JMP(d) => r is Success && t == VmView { pc: rel_target(s.pc, d), ..s },
            AoOpCode::JMPA(a) => r is Success && t == VmView { pc: a, ..s },
            AoOpCode::JT(d) => r is Success && t == if spec_truthy(s.ca) {
                VmView { pc: rel_target(s.pc, d), ..s }
            } else {
                s
            },
            AoOpCode::JTA(a) => r is Success && t == if spec_truthy(s.ca) {
                VmView { pc: a, ..s }
            } else {
                s
            },
            AoOpCode::JF(d) => r is Success && t == if !spec_truthy(s.ca) {
                VmView { pc: rel_target(s.pc, d), ..s }
            } else {
                s
            },
            AoOpCode::JFA(a) => r is Success && t == if !spec_truthy(s.ca) {
                VmView { pc: a, ..s }
            } else {
                s
            },
            AoOpCode::MOV(dst, src) => match spec_get(src, s) {
                Some(v) => spec_set(dst, s, v, t, r),
                None => r is DataStackUnderflow && t == s,
            },
            AoOpCode::INT(id) => if id == 0 {
                r is Exit && t == s
            } else if s.dsb > s.ds.len() {
                r is BadDataStack && t == s
            } else {
                match frame_base(s) {
                    Some(p) => r is Success && t == VmView { ca: t.ca, ..unwound(s, p) },
                    None => r is BadDataStack && t == VmView { ca: t.ca, ..s },
                }
            },
            AoOpCode::PUSH(src) => if s.ds.len() > DATA_STACK_LIMIT {
                r is DataStackOverflow && t == s
            } else {
                match spec_get(src, s) {
                    None => r is DataStackUnderflow && t == s,
                    Some(v) => r is Success && t == VmView { ds: s.ds.push(v), ..s },
                }
            },
            AoOpCode::POP(to_ca) => if s.ds.len() == 0 {
                r is DataStackUnderflow && t == s
            } else {
                r is Success && t == VmView {
                    ds: s.ds.drop_last(),
                    ca: if to_ca {
                        s.ds.last()
                    } else {
                        s.ca
                    },
                    ..s
                }
            },
            AoOpCode::ADD(src) | AoOpCode::SUB(src) | AoOpCode::MUL(src) | AoOpCode::DIV(src)
            | AoOpCode::REM(src) | AoOpCode::SHL(src) | AoOpCode::SHR(src) | AoOpCode::BAND(src)
            | AoOpCode::BOR(src) | AoOpCode::BXOR(src) => arith_step(
                host,
                self.spec_bin_oper().unwrap(),
                src,
                s,
                t,
                r,
            ),
            AoOpCode::INC | AoOpCode::DEC => match s.ca {
                AoType::AoInt(i) => r is Success && t == VmView {
                    ca: AoType::AoInt(
                        if self is INC {
                            i.wrapping_add(1)
                        } else {
                            i.wrapping_sub(1)
                        },
                    ),
                    ..s
                },
                AoType::AoFloat(f) => r is Success && t == VmView {
                    ca: AoType::AoFloat(
                        host.spec_float_arith(
                            if self is INC {
                                AoFloatOp::Add
                            } else {
                                AoFloatOp::Sub
                            },
                            f,
                            FLOAT_ONE,
                        ),
                    ),
                    ..s
                },
                _ => r is InvalidOperation && t == s,
            },
            AoOpCode::AND(src) | AoOpCode::OR(src) | AoOpCode::XOR(src) => match spec_get(src, s) {
                None => r is DataStackUnderflow && t == s,
                Some(v) => match (s.ca, v) {
                    (AoType::AoBool(a), AoType::AoBool(b)) => sets_ca(
                        s,
                        t,
                        r,
                        AoType::AoBool(
                            if self is AND {
                                a && b
                            } else if self is OR {
                                a || b
                            } else {
                                a != b
                            },
                        ),
                    ),
                    _ => r is InvalidOperation && t == s,
                },
            },
            AoOpCode::NOT => match s.ca {
                AoType::AoBool(b) => r is Success && t == VmView { ca: AoType::AoBool(!b), ..s },
                _ => r is InvalidOperation && t == s,
            },
            AoOpCode::BNOT => match s.ca {
                AoType::AoInt(i) => r is Success && t == VmView { ca: AoType::AoInt(!i), ..s },
                _ => r is InvalidOperation && t == s,
            },
            AoOpCode::EQU(src) | AoOpCode::NEQ(src) => match spec_get(src, s) {
                None => r is DataStackUnderflow && t == s,
                Some(v) => sets_ca(
                    s,
                    t,
                    r,
                    AoType::AoBool(spec_values_equal(s.ca, v) == (self is EQU)),
                ),
            },
            AoOpCode::GT(src) | AoOpCode::LT(src) | AoOpCode::GE(src) | AoOpCode::LE(
                src,
            ) => match spec_get(src, s) {
                None => r is DataStackUnderflow && t == s,
                Some(v) => match (spec_values_less(s.ca, v), spec_values_less(v, s.ca)) {
                    (Some(lt), Some(gt)) => {
                        let eq = spec_values_equal(s.ca, v);
                        sets_ca(
                            s,
                            t,
                            r,
                            AoType::AoBool(
                                match self {
                                    AoOpCode::GT(_) => gt,
                                    AoOpCode::LT(_) => lt,
                                    AoOpCode::GE(_) => gt || eq,
                                    _ => lt || eq,
                                },
                            ),
                        )
                    },
                    _ => r is InvalidOperation && t == s,
                },
            },
            AoOpCode::CSI => r is Success && t == VmView { ca: t.ca, ..s } && cast_int(s.ca, t.ca),
            AoOpCode::CSF => r is Success && t == VmView { ca: t.ca, ..s } && cast_float(
                host,
                s.ca,
                t.ca,
            ),
            AoOpCode::CSP => r is Success && t == VmView { ca: t.ca, ..s } && cast_ptr(s.ca, t.ca),
            AoOpCode::CSS => r is Success && t == VmView { ca: t.ca, ..s } && cast_string(
                host,
                s.ca,
                t.ca,
            ),
            AoOpCode::ISB => r is Success && t == VmView { ca: AoType::AoBool(s.ca is AoBool), ..s },
            AoOpCode::ISI => r is Success && t == VmView { ca: AoType::AoBool(s.ca is AoInt), ..s },
            AoOpCode::ISF => r is Success && t == VmView {
                ca: AoType::AoBool(s.ca is AoFloat),
                ..s
            },
            AoOpCode::ISP => r is Success && t == VmView { ca: AoType::AoBool(s.ca is AoPtr), ..s },
            AoOpCode::ISS => r is Success && t == VmView {
                ca: AoType::AoBool(s.ca is AoString),
                ..s
            },
            AoOpCode::ARG(off) => r is Success && t == VmView { dp: s.dsb.wrapping_add(off), ..s },
            AoOpCode::CNF(argc) => if argc > s.ds.len() {
                r is DataStackUnderflow && t == s
            } else {
                r is Success && t == VmView { dsb: (s.ds.len() - argc) as u32, ..s }
            },
        }
    }
}

/// `l == r` on two values (see `spec_values_equal`).
pub fn values_equal(l: &AoType, r: &AoType) -> (res: bool)
    ensures
        res == spec_values_equal(*l, *r),
{
    match (l, r) {
        (AoType::AoBool(a), AoType::AoBool(b)) => *a == *b,
        (AoType::AoInt(a), AoType::AoInt(b)) => *a == *b,
        (AoType::AoFloat(a), AoType::AoFloat(b)) => float_equal(*a, *b),
        (AoType::AoPtr(a), AoType::AoPtr(b)) => *a == *b,
        (AoType::AoString(a), AoType::AoString(b)) => *a == *b,
        _ => false,
    }
}

/// `l < r` within a tag (see `spec_values_less`).
pub fn values_less(l: &AoType, r: &AoType) -> (res: Option<bool>)
    ensures
        res == spec_values_less(*l, *r),
{
    match (l, r) {
        (AoType::AoBool(a), AoType::AoBool(b)) => Some(!*a && *b),
        (AoType::AoInt(a), AoType::AoInt(b)) => Some(*a < *b),
        (AoType::AoFloat(a), AoType::AoFloat(b)) => Some(float_less(*a, *b)),
        (AoType::AoPtr(a), AoType::AoPtr(b)) => Some(*a < *b),
        (AoType::AoString(a), AoType::AoString(b)) => Some(text_less(a.as_str(), b.as_str())),
        _ => None,
    }
}

fn jump_target(pc: u32, d: i32) -> (r: u32)
    ensures
        r == rel_target(pc, d),
{
    let t: i64 = pc as i64 + d as i64 - 1;
    if t < 0 {
        (t + 0x1_0000_0000) as u32
    } else if t >= 0x1_0000_0000 {
        (t - 0x1_0000_0000) as u32
    } else {
        t as u32
    }
}

pub(crate) fn read_frame_base<H: AoHost>(vm: &AoVM<H>) -> (r: Option<u32>)
    ensures
        r == frame_base(vm@),
{
    let dsb = vm.dsb as usize;
    if 1 <= dsb && dsb <= vm.ds.len() {
        match &vm.ds[dsb - 1] {
            AoType::AoPtr(p) => Some(*p),
            _ => None,
        }
    } else {
        None
    }
}

pub(crate) fn unwind<H: AoHost>(vm: &mut AoVM<H>, base: u32)
    requires
        1 <= old(vm).dsb <= old(vm).ds@.len(),
    ensures
        final(vm)@ == unwound(old(vm)@, base),
        final(vm).host == old(vm).host,
{
    let slot = (vm.dsb - 1) as usize;
    vm.ds.truncate(slot);
    vm.dsb = base;
}

fn arith<H: AoHost>(op: AoTypeBinOper, src: &AoArg, vm: &mut AoVM<H>) -> (r: AoStatus)
    ensures
        arith_step(old(vm).host, op, *src, old(vm)@, final(vm)@, r),
        final(vm).host == old(vm).host,
{
    let v = match src.get_value(vm) {
        Some(v) => v,
        None => return AoStatus::DataStackUnderflow,
    };
    let left = vm.ca.clone();
    match op.apply(left, v, &vm.host) {
        AoStatus::Return(x) => {
            vm.ca = x;
            AoStatus::Success
        },
        other => other,
    }
}

fn cast_to_int(v: &AoType) -> (r: AoType)
    ensures
        cast_int(*v, r),
{
    match v {
        AoType::AoBool(b) => AoType::AoInt(if *b { 1 } else { 0 }),
        AoType::AoInt(i) => AoType::AoInt(*i),
        AoType::AoFloat(f) => AoType::AoInt(float_to_int(*f)),
        AoType::AoPtr(p) => AoType::AoInt(*p as i32),
        AoType::AoString(s) => AoType::AoInt(
            match parse_int(s.as_str()) {
                Some(i) => i,
                None => 0,
            },
        ),
    }
}

fn cast_to_float<H: AoHost>(v: &AoType, host: &H) -> (r: AoType)
    ensures
        cast_float(*host, *v, r),
{
    match v {
        AoType::AoBool(b) => AoType::AoFloat(if *b { FLOAT_ONE } else { FLOAT_ZERO }),
        AoType::AoInt(i) => AoType::AoFloat(int_to_float(*i)),
        AoType::AoFloat(f) => AoType::AoFloat(*f),
        AoType::AoPtr(p) => AoType::AoFloat(ptr_to_float(*p)),
        AoType::AoString(s) => AoType::AoFloat(
            match host.float_parse(s) {
                Some(f) => f,
                None => FLOAT_ZERO,
            },
        ),
    }
}

fn cast_to_ptr(v: &AoType) -> (r: AoType)
    ensures
        cast_ptr(*v, r),
{
    match v {
        AoType::AoBool(b) => AoType::AoPtr(if *b { 1 } else { 0 }),
        AoType::AoInt(i) => AoType::AoPtr(*i as u32),
        AoType::AoFloat(f) => AoType::AoPtr(float_to_ptr(*f)),
        AoType::AoPtr(p) => AoType::AoPtr(*p),
        AoType::AoString(s) => AoType::AoPtr(
            match parse_ptr(s.as_str()) {
                Some(p) => p,
                None => 0,
            },
        ),
    }
}

fn cast_to_string<H: AoHost>(v: &AoType, host: &H) -> (r: AoType)
    ensures
        cast_string(*host, *v, r),
{
    match v {
        AoType::AoBool(b) => {
            proof {
                reveal_strlit("true");
                reveal_strlit("false");
            }
            if *b {
                let s = String::from_str("true");
                assert(s@ =~= seq!['t', 'r', 'u', 'e']);
                AoType::AoString(s)
            } else {
                let s = String::from_str("false");
                assert(s@ =~= seq!['f', 'a', 'l', 's', 'e']);
                AoType::AoString(s)
            }
        },
        AoType::AoInt(i) => AoType::AoString(int_text(*i)),
        AoType::AoFloat(f) => AoType::AoString(host.float_text(*f)),
        AoType::AoPtr(p) => AoType::AoString(ptr_text(*p)),
        AoType::AoString(s) => AoType::AoString(s.clone()),
    }
}

impl AoOpCode {
    /// Executes the instruction on `vm`, whose `pc` has already moved past it
    /// (see `spec_execute`).
    pub fn execute<H: AoHost>(&self, vm: &mut AoVM<H>) -> (r: AoStatus)
        ensures
            self.spec_execute(old(vm).host, old(vm)@, final(vm)@, r),
            !self.calls_host(old(vm)@) ==> final(vm).host == old(vm).host,
    {
        match self {
            AoOpCode::NOP | AoOpCode::CALL(_) | AoOpCode::RET | AoOpCode::JMP(_) | AoOpCode::JMPA(_)
            | AoOpCode::JT(_) | AoOpCode::JTA(_) | AoOpCode::JF(_) | AoOpCode::JFA(_) => {
                self.execute_control(vm)
            },
            AoOpCode::MOV(_, _) | AoOpCode::INT(_) | AoOpCode::PUSH(_) | AoOpCode::POP(_) => {
                self.execute_stack(vm)
            },
            AoOpCode::ADD(_) | AoOpCode::SUB(_) | AoOpCode::MUL(_) | AoOpCode::DIV(_)
            | AoOpCode::REM(_) | AoOpCode::SHL(_) | AoOpCode::SHR(_) | AoOpCode::BAND(_)
            | AoOpCode::BOR(_) | AoOpCode::BXOR(_) | AoOpCode::INC | AoOpCode::DEC => {
                self.execute_arith(vm)
            },
            AoOpCode::AND(_) | AoOpCode::OR(_) | AoOpCode::XOR(_) | AoOpCode::NOT | AoOpCode::BNOT => {
                self.execute_logic(vm)
            },
            AoOpCode::EQU(_) | AoOpCode::NEQ(_) | AoOpCode::GT(_) | AoOpCode::LT(_)
            | AoOpCode::GE(_) | AoOpCode::LE(_) => self.execute_compare(vm),
            AoOpCode::CSI | AoOpCode::CSF | AoOpCode::CSP | AoOpCode::CSS | AoOpCode::ISB
            | AoOpCode::ISI | AoOpCode::ISF | AoOpCode::ISP | AoOpCode::ISS | AoOpCode::ARG(_)
            | AoOpCode::CNF(_) => self.execute_cast(vm),
        }
    }

    fn execute_control<H: AoHost>(&self, vm: &mut AoVM<H>) -> (r: AoStatus)
        requires
            self is NOP || self is CALL || self is RET || self is JMP || self is JMPA || self is JT
                || self is JTA || self is JF || self is JFA,
        ensures
            self.spec_execute(old(vm).host, old(vm)@, final(vm)@, r),
            !self.calls_host(old(vm)@) ==> final(vm).host == old(vm).host,
    {
        match self {
            AoOpCode::NOP => AoStatus::Success,
            AoOpCode::CALL(addr) => {
                if vm.cs.len() >= CALL_STACK_LIMIT {
                    return AoStatus::CallStackOverflow;
                }
                vm.cs.push(vm.pc);
                vm.pc = *addr;
                AoStatus::Success
            },
            AoOpCode::RET => {
                if vm.cs.len() == 0 {
                    return AoStatus::CallStackUnderflow;
                }
                match read_frame_base(vm) {
                    Some(base) => {
                        unwind(vm, base);
                        match vm.cs.pop() {
                            Some(pc) => {
                                vm.pc = pc;
                            },
                            None => {},
                        }
                        AoStatus::Success
                    },
                    None => AoStatus::BadDataStack,
                }
            },
            AoOpCode::JMP(d) => {
                vm.pc = jump_target(vm.pc, *d);
                AoStatus::Success
            },
            AoOpCode::JMPA(a) => {
                vm.pc = *a;
                AoStatus::Success
            },
            AoOpCode::JT(d) => {
                if vm.ca.truthy() {
                    vm.pc = jump_target(vm.pc, *d);
                }
                AoStatus::Success
            },
            AoOpCode::JTA(a) => {
                if vm.ca.truthy() {
                    vm.pc = *a;
                }
                AoStatus::Success
            },
            AoOpCode::JF(d) => {
                if !vm.ca.truthy() {
                    vm.pc = jump_target(vm.pc, *d);
                }
                AoStatus::Success
            },
            AoOpCode::JFA(a) => {
                if !vm.ca.truthy() {
                    vm.pc = *a;
                }
                AoStatus::Success
            },
            _ => AoStatus::InternalError,
        }
    }

    fn execute_stack<H: AoHost>(&self, vm: &mut AoVM<H>) -> (r: AoStatus)
        requires
            self is MOV || self is INT || self is PUSH || self is POP,
        ensures
            self.spec_execute(old(vm).host, old(vm)@, final(vm)@, r),
            !self.calls_host(old(vm)@) ==> final(vm).host == old(vm).host,
    {
        match self {
            AoOpCode::MOV(dst, src) => match src.get_value(vm) {
                Some(v) => dst.set_value(vm, v),
                None => AoStatus::DataStackUnderflow,
            },
            AoOpCode::INT(id) => {
                if *id == 0 {
                    return AoStatus::Exit;
                }
                if vm.dsb as usize > vm.ds.len() {
                    return AoStatus::BadDataStack;
                }
                let args = vm.frame_args();
                let reply = vm.host.interrupt(*id, args);
                vm.finish_interrupt(reply)
            },
            AoOpCode::PUSH(src) => {
                if vm.ds.len() > DATA_STACK_LIMIT {
                    return AoStatus::DataStackOverflow;
                }
                match src.get_value(vm) {
                    Some(v) => {
                        vm.push(v);
                        AoStatus::Success
                    },
                    None => AoStatus::DataStackUnderflow,
                }
            },
            AoOpCode::POP(to_ca) => match vm.pop() {
                Some(v) => {
                    if *to_ca {
                        vm.ca = v;
                    }
                    AoStatus::Success
                },
                None => AoStatus::DataStackUnderflow,
            },
            _ => AoStatus::InternalError,
        }
    }

    fn execute_arith<H: AoHost>(&self, vm: &mut AoVM<H>) -> (r: AoStatus)
        requires
            self is ADD || self is SUB || self is MUL || self is DIV || self is REM || self is SHL
                || self is SHR || self is BAND || self is BOR || self is BXOR || self is INC
                || self is DEC,
        ensures
            self.spec_execute(old(vm).host, old(vm)@, final(vm)@, r),
            !self.calls_host(old(vm)@) ==> final(vm).host == old(vm).host,
    {
        match self {
            AoOpCode::ADD(src) => arith(AoTypeBinOper::Add, src, vm),
            AoOpCode::SUB(src) => arith(AoTypeBinOper::Sub, src, vm),
            AoOpCode::MUL(src) => arith(AoTypeBinOper::Mul, src, vm),
            AoOpCode::DIV(src) => arith(AoTypeBinOper::Div, src, vm),
            AoOpCode::REM(src) => arith(AoTypeBinOper::Rem, src, vm),
            AoOpCode::SHL(src) => arith(AoTypeBinOper::Shl, src, vm),
            AoOpCode::SHR(src) => arith(AoTypeBinOper::Shr, src, vm),
            AoOpCode::BAND(src) => arith(AoTypeBinOper::Band, src, vm),
            AoOpCode::BOR(src) => arith(AoTypeBinOper::Bor, src, vm),
            AoOpCode::BXOR(src) => arith(AoTypeBinOper::Bxor, src, vm),
            AoOpCode::INC | AoOpCode::DEC => {
                let inc = match self {
                    AoOpCode::INC => true,
                    _ => false,
                };
                match &vm.ca {
                    AoType::AoInt(i) => {
                        let v = if inc {
                            i.wrapping_add(1)
                        } else {
                            i.wrapping_sub(1)
                        };
                        vm.ca = AoType::AoInt(v);
                        AoStatus::Success
                    },
                    AoType::AoFloat(f) => {
                        let op = if inc {
                            AoFloatOp::Add
                        } else {
                            AoFloatOp::Sub
                        };
                        let v = vm.host.float_arith(op, *f, FLOAT_ONE);
                        vm.ca = AoType::AoFloat(v);
                        AoStatus::Success
                    },
                    _ => {
                        let mut m = String::from_str(if inc { "inc " } else { "dec " });
                        m.append(vm.ca.text(&vm.host).as_str());
                        AoStatus::InvalidOperation(m)
                    },
                }
            },
            _ => AoStatus::InternalError,
        }
    }

    fn execute_logic<H: AoHost>(&self, vm: &mut AoVM<H>) -> (r: AoStatus)
        requires
            self is AND || self is OR || self is XOR || self is NOT || self is BNOT,
        ensures
            self.spec_execute(old(vm).host, old(vm)@, final(vm)@, r),
            !self.calls_host(old(vm)@) ==> final(vm).host == old(vm).host,
    {
        match self {
            AoOpCode::AND(src) | AoOpCode::OR(src) | AoOpCode::XOR(src) => {
                let v = match src.get_value(vm) {
                    Some(v) => v,
                    None => return AoStatus::DataStackUnderflow,
                };
                let kind: u8 = match self {
                    AoOpCode::AND(_) => 0,
                    AoOpCode::OR(_) => 1,
                    _ => 2,
                };
                match (&vm.ca, &v) {
                    (AoType::AoBool(a), AoType::AoBool(b)) => {
                        let res = if kind == 0 {
                            *a && *b
                        } else if kind == 1 {
                            *a || *b
                        } else {
                            *a != *b
                        };
                        vm.ca = AoType::AoBool(res);
                        AoStatus::Success
                    },
                    _ => {
                        let mut m = vm.ca.text(&vm.host);
                        m.append(
                            if kind == 0 {
                                " && "
                            } else if kind == 1 {
                                " || "
                            } else {
                                " ^ "
                            },
                        );
                        m.append(v.text(&vm.host).as_str());
                        AoStatus::InvalidOperation(m)
                    },
                }
            },
            AoOpCode::NOT => match &vm.ca {
                AoType::AoBool(b) => {
                    vm.ca = AoType::AoBool(!*b);
                    AoStatus::Success
                },
                _ => {
                    let mut m = String::from_str("!");
                    m.append(vm.ca.text(&vm.host).as_str());
                    AoStatus::InvalidOperation(m)
                },
            },
            AoOpCode::BNOT => match &vm.ca {
                AoType::AoInt(i) => {
                    vm.ca = AoType::AoInt(!*i);
                    AoStatus::Success
                },
                _ => {
                    let mut m = String::from_str("~");
                    m.append(vm.ca.text(&vm.host).as_str());
                    AoStatus::InvalidOperation(m)
                },
            },
            _ => AoStatus::InternalError,
        }
    }

    fn execute_compare<H: AoHost>(&self, vm: &mut AoVM<H>) -> (r: AoStatus)
        requires
            self is EQU || self is NEQ || self is GT || self is LT || self is GE || self is LE,
        ensures
            self.spec_execute(old(vm).host, old(vm)@, final(vm)@, r),
            !self.calls_host(old(vm)@) ==> final(vm).host == old(vm).host,
    {
        match self {
            AoOpCode::EQU(src) | AoOpCode::NEQ(src) => {
                let v = match src.get_value(vm) {
                    Some(v) => v,
                    None => return AoStatus::DataStackUnderflow,
                };
                let is_equ = match self {
                    AoOpCode::EQU(_) => true,
                    _ => false,
                };
                let eq = values_equal(&vm.ca, &v);
                vm.ca = AoType::AoBool(eq == is_equ);
                AoStatus::Success
            },
            AoOpCode::GT(src) | AoOpCode::LT(src) | AoOpCode::GE(src) | AoOpCode::LE(src) => {
                let v = match src.get_value(vm) {
                    Some(v) => v,
                    None => return AoStatus::DataStackUnderflow,
                };
                match (values_less(&vm.ca, &v), values_less(&v, &vm.ca)) {
                    (Some(lt), Some(gt)) => {
                        let eq = values_equal(&vm.ca, &v);
                        let res = match self {
                            AoOpCode::GT(_) => gt,
                            AoOpCode::LT(_) => lt,
                            AoOpCode::GE(_) => gt || eq,
                            _ => lt || eq,
                        };
                        vm.ca = AoType::AoBool(res);
                        AoStatus::Success
                    },
                    _ => {
                        let mut m = vm.ca.text(&vm.host);
                        m.append(
                            match self {
                                AoOpCode::GT(_) => " > ",
                                AoOpCode::LT(_) => " < ",
                                AoOpCode::GE(_) => " >= ",
                                _ => " <= ",
                            },
                        );
                        m.append(v.text(&vm.host).as_str());
                        AoStatus::InvalidOperation(m)
                    },
                }
            },
            _ => AoStatus::InternalError,
        }
    }

    fn execute_cast<H: AoHost>(&self, vm: &mut AoVM<H>) -> (r: AoStatus)
        requires
            self is CSI || self is CSF || self is CSP || self is CSS || self is ISB || self is ISI
                || self is ISF || self is ISP || self is ISS || self is ARG || self is CNF,
        ensures
            self.spec_execute(old(vm).host, old(vm)@, final(vm)@, r),
            !self.calls_host(old(vm)@) ==> final(vm).host == old(vm).host,
    {
        match self {
            AoOpCode::CSI => {
                vm.ca = cast_to_int(&vm.ca);
                AoStatus::Success
            },
            AoOpCode::CSF => {
                vm.ca = cast_to_float(&vm.ca, &vm.host);
                AoStatus::Success
            },
            AoOpCode::CSP => {
                vm.ca = cast_to_ptr(&vm.ca);
                AoStatus::Success
            },
            AoOpCode::CSS => {
                vm.ca = cast_to_string(&vm.ca, &vm.host);
                AoStatus::Success
            },
            AoOpCode::ISB => {
                vm.ca = AoType::AoBool(vm.ca.is_bool());
                AoStatus::Success
            },
            AoOpCode::ISI => {
                vm.ca = AoType::AoBool(vm.ca.is_int());
                AoStatus::Success
            },
            AoOpCode::ISF => {
                vm.ca = AoType::AoBool(vm.ca.is_float());
                AoStatus::Success
            },
            AoOpCode::ISP => {
                vm.ca = AoType::AoBool(vm.ca.is_ptr());
                AoStatus::Success
            },
            AoOpCode::ISS => {
                vm.ca = AoType::AoBool(vm.ca.is_string());
                AoStatus::Success
            },
            AoOpCode::ARG(off) => {
                vm.dp = vm.dsb.wrapping_add(*off);
                AoStatus::Success
            },
            AoOpCode::CNF(argc) => {
                let n = vm.ds.len();
                if *argc as usize > n {
                    return AoStatus::DataStackUnderflow;
                }
                vm.dsb = (n - *argc as usize) as u32;
                AoStatus::Success
            },
            _ => AoStatus::InternalError,
        }
    }

}

impl AoOpCode {
    /// The instruction's opcode id and operands, with strings as text.
    pub open spec fn view_op(self) -> OpView {
        match self {
            AoOpCode::NOP => OpView { id: 0x00, args: OperandsView::NoArg },
            AoOpCode::CALL(a) => OpView { id: 0x10, args: OperandsView::U32(a) },
            AoOpCode::RET => OpView { id: 0x11, args: OperandsView::NoArg },
            AoOpCode::JMP(a) => OpView { id: 0x12, args: OperandsView::I32(a) },
            AoOpCode::JMPA(a) => OpView { id: 0x13, args: OperandsView::U32(a) },
            AoOpCode::JT(a) => OpView { id: 0x14, args: OperandsView::I32(a) },
            AoOpCode::JTA(a) => OpView { id: 0x15, args: OperandsView::U32(a) },
            AoOpCode::JF(a) => OpView { id: 0x16, args: OperandsView::I32(a) },
            AoOpCode::JFA(a) => OpView { id: 0x17, args: OperandsView::U32(a) },
            AoOpCode::MOV(a, b) => OpView { id: 0x20, args: OperandsView::Arg2(arg_view(a), arg_view(b)) },
            AoOpCode::INT(a) => OpView { id: 0x21, args: OperandsView::U8(a) },
            AoOpCode::PUSH(a) => OpView { id: 0x22, args: OperandsView::Arg(arg_view(a)) },
            AoOpCode::POP(a) => OpView { id: 0x23, args: OperandsView::Bool(a) },
            AoOpCode::ADD(a) => OpView { id: 0x30, args: OperandsView::Arg(arg_view(a)) },
            AoOpCode::SUB(a) => OpView { id: 0x31, args: OperandsView::Arg(arg_view(a)) },
            AoOpCode::MUL(a) => OpView { id: 0x32, args: OperandsView::Arg(arg_view(a)) },
            AoOpCode::DIV(a) => OpView { id: 0x33, args: OperandsView::Arg(arg_view(a)) },
            AoOpCode::REM(a) => OpView { id: 0x34, args: OperandsView::Arg(arg_view(a)) },
            AoOpCode::INC => OpView { id: 0x35, args: OperandsView::NoArg },
            AoOpCode::DEC => OpView { id: 0x36, args: OperandsView::NoArg },
            AoOpCode::SHL(a) => OpView { id: 0x37, args: OperandsView::Arg(arg_view(a)) },
            AoOpCode::SHR(a) => OpView { id: 0x38, args: OperandsView::Arg(arg_view(a)) },
            AoOpCode::AND(a) => OpView { id: 0x40, args: OperandsView::Arg(arg_view(a)) },
            AoOpCode::OR(a) => OpView { id: 0x41, args: OperandsView::Arg(arg_view(a)) },
            AoOpCode::XOR(a) => OpView { id: 0x42, args: OperandsView::Arg(arg_view(a)) },
            AoOpCode::NOT => OpView { id: 0x43, args: OperandsView::NoArg },
            AoOpCode::BAND(a) => OpView { id: 0x44, args: OperandsView::Arg(arg_view(a)) },
            AoOpCode::BOR(a) => OpView { id: 0x45, args: OperandsView::Arg(arg_view(a)) },
            AoOpCode::BXOR(a) => OpView { id: 0x46, args: OperandsView::Arg(arg_view(a)) },
            AoOpCode::BNOT => OpView { id: 0x47, args: OperandsView::NoArg },
            AoOpCode::EQU(a) => OpView { id: 0x50, args: OperandsView::Arg(arg_view(a)) },
            AoOpCode::NEQ(a) => OpView { id: 0x51, args: OperandsView::Arg(arg_view(a)) },
            AoOpCode::GT(a) => OpView { id: 0x52, args: OperandsView::Arg(arg_view(a)) },
            AoOpCode::LT(a) => OpView { id: 0x53, args: OperandsView::Arg(arg_view(a)) },
            AoOpCode::GE(a) => OpView { id: 0x54, args: OperandsView::Arg(arg_view(a)) },
            AoOpCode::LE(a) => OpView { id: 0x55, args: OperandsView::Arg(arg_view(a)) },
            AoOpCode::CSI => OpView { id: 0x61, args: OperandsView::NoArg },
            AoOpCode::CSF => OpView { id: 0x62, args: OperandsView::NoArg },
            AoOpCode::CSP => OpView { id: 0x63, args: OperandsView::NoArg },
            AoOpCode::CSS => OpView { id: 0x64, args: OperandsView::NoArg },
            AoOpCode::ISB => OpView { id: 0x68, args: OperandsView::NoArg },
            AoOpCode::ISI => OpView { id: 0x69, args: OperandsView::NoArg },
            AoOpCode::ISF => OpView { id: 0x6A, args: OperandsView::NoArg },
            AoOpCode::ISP => OpView { id: 0x6B, args: OperandsView::NoArg },
            AoOpCode::ISS => OpView { id: 0x6C, args: OperandsView::NoArg },
            AoOpCode::ARG(a) => OpView { id: 0x70, args: OperandsView::U32(a) },
            AoOpCode::CNF(a) => OpView { id: 0x71, args: OperandsView::U32(a) },
        }
    }

    /// The operand shape of each opcode id: 0 none, 1 `u8`, 2 `i32`, 3 `u32`,
    /// 4 `bool`, 5 one operand, 6 two operands; `None` for an unknown id.
    pub open spec fn id_shape(id: u8) -> Option<nat> {
        match id {
            0x00 => Some(0nat),
            0x10 => Some(3nat),
            0x11 => Some(0nat),
            0x12 => Some(2nat),
            0x13 => Some(3nat),
            0x14 => Some(2nat),
            0x15 => Some(3nat),
            0x16 => Some(2nat),
            0x17 => Some(3nat),
            0x20 => Some(6nat),
            0x21 => Some(1nat),
            0x22 => Some(5nat),
            0x23 => Some(4nat),
            0x30 => Some(5nat),
            0x31 => Some(5nat),
            0x32 => Some(5nat),
            0x33 => Some(5nat),
            0x34 => Some(5nat),
            0x35 => Some(0nat),
            0x36 => Some(0nat),
            0x37 => Some(5nat),
            0x38 => Some(5nat),
            0x40 => Some(5nat),
            0x41 => Some(5nat),
            0x42 => Some(5nat),
            0x43 => Some(0nat),
            0x44 => Some(5nat),
            0x45 => Some(5nat),
            0x46 => Some(5nat),
            0x47 => Some(0nat),
            0x50 => Some(5nat),
            0x51 => Some(5nat),
            0x52 => Some(5nat),
            0x53 => Some(5nat),
            0x54 => Some(5nat),
            0x55 => Some(5nat),
            0x61 => Some(0nat),
            0x62 => Some(0nat),
            0x63 => Some(0nat),
            0x64 => Some(0nat),
            0x68 => Some(0nat),
            0x69 => Some(0nat),
            0x6A => Some(0nat),
            0x6B => Some(0nat),
            0x6C => Some(0nat),
            0x70 => Some(3nat),
            0x71 => Some(3nat),
            _ => None,
        }
    }

    /// The opcode id.
    pub fn get_id(&self) -> (r: u8)
        ensures
            r == self.view_op().id,
    {
        match self {
            AoOpCode::NOP => 0x00,
            AoOpCode::CALL(_) => 0x10,
            AoOpCode::RET => 0x11,
            AoOpCode::JMP(_) => 0x12,
            AoOpCode::JMPA(_) => 0x13,
            AoOpCode::JT(_) => 0x14,
            AoOpCode::JTA(_) => 0x15,
            AoOpCode::JF(_) => 0x16,
            AoOpCode::JFA(_) => 0x17,
            AoOpCode::MOV(_, _) => 0x20,
            AoOpCode::INT(_) => 0x21,
            AoOpCode::PUSH(_) => 0x22,
            AoOpCode::POP(_) => 0x23,
            AoOpCode::ADD(_) => 0x30,
            AoOpCode::SUB(_) => 0x31,
            AoOpCode::MUL(_) => 0x32,
            AoOpCode::DIV(_) => 0x33,
            AoOpCode::REM(_) => 0x34,
            AoOpCode::INC => 0x35,
            AoOpCode::DEC => 0x36,
            AoOpCode::SHL(_) => 0x37,
            AoOpCode::SHR(_) => 0x38,
            AoOpCode::AND(_) => 0x40,
            AoOpCode::OR(_) => 0x41,
            AoOpCode::XOR(_) => 0x42,
            AoOpCode::NOT => 0x43,
            AoOpCode::BAND(_) => 0x44,
            AoOpCode::BOR(_) => 0x45,
            AoOpCode::BXOR(_) => 0x46,
            AoOpCode::BNOT => 0x47,
            AoOpCode::EQU(_) => 0x50,
            AoOpCode::NEQ(_) => 0x51,
            AoOpCode::GT(_) => 0x52,
            AoOpCode::LT(_) => 0x53,
            AoOpCode::GE(_) => 0x54,
            AoOpCode::LE(_) => 0x55,
            AoOpCode::CSI => 0x61,
            AoOpCode::CSF => 0x62,
            AoOpCode::CSP => 0x63,
            AoOpCode::CSS => 0x64,
            AoOpCode::ISB => 0x68,
            AoOpCode::ISI => 0x69,
            AoOpCode::ISF => 0x6A,
            AoOpCode::ISP => 0x6B,
            AoOpCode::ISS => 0x6C,
            AoOpCode::ARG(_) => 0x70,
            AoOpCode::CNF(_) => 0x71,
        }
    }

    /// The operands.
    pub fn get_args(&self) -> (r: OpcodeArgType)
        ensures
            r.view() == self.view_op().args,
    {
        match self {
            AoOpCode::NOP => OpcodeArgType::NoArg,
            AoOpCode::CALL(a) => OpcodeArgType::u32(*a),
            AoOpCode::RET => OpcodeArgType::NoArg,
            AoOpCode::JMP(a) => OpcodeArgType::i32(*a),
            AoOpCode::JMPA(a) => OpcodeArgType::u32(*a),
            AoOpCode::JT(a) => OpcodeArgType::i32(*a),
            AoOpCode::JTA(a) => OpcodeArgType::u32(*a),
            AoOpCode::JF(a) => OpcodeArgType::i32(*a),
            AoOpCode::JFA(a) => OpcodeArgType::u32(*a),
            AoOpCode::MOV(a, b) => OpcodeArgType::AoArg2(a.clone(), b.clone()),
            AoOpCode::INT(a) => OpcodeArgType::u8(*a),
            AoOpCode::PUSH(a) => OpcodeArgType::AoArg(a.clone()),
            AoOpCode::POP(a) => OpcodeArgType::bool(*a),
            AoOpCode::ADD(a) => OpcodeArgType::AoArg(a.clone()),
            AoOpCode::SUB(a) => OpcodeArgType::AoArg(a.clone()),
            AoOpCode::MUL(a) => OpcodeArgType::AoArg(a.clone()),
            AoOpCode::DIV(a) => OpcodeArgType::AoArg(a.clone()),
            AoOpCode::REM(a) => OpcodeArgType::AoArg(a.clone()),
            AoOpCode::INC => OpcodeArgType::NoArg,
            AoOpCode::DEC => OpcodeArgType::NoArg,
            AoOpCode::SHL(a) => OpcodeArgType::AoArg(a.clone()),
            AoOpCode::SHR(a) => OpcodeArgType::AoArg(a.clone()),
            AoOpCode::AND(a) => OpcodeArgType::AoArg(a.clone()),
            AoOpCode::OR(a) => OpcodeArgType::AoArg(a.clone()),
            AoOpCode::XOR(a) => OpcodeArgType::AoArg(a.clone()),
            AoOpCode::NOT => OpcodeArgType::NoArg,
            AoOpCode::BAND(a) => OpcodeArgType::AoArg(a.clone()),
            AoOpCode::BOR(a) => OpcodeArgType::AoArg(a.clone()),
            AoOpCode::BXOR(a) => OpcodeArgType::AoArg(a.clone()),
            AoOpCode::BNOT => OpcodeArgType::NoArg,
            AoOpCode::EQU(a) => OpcodeArgType::AoArg(a.clone()),
            AoOpCode::NEQ(a) => OpcodeArgType::AoArg(a.clone()),
            AoOpCode::GT(a) => OpcodeArgType::AoArg(a.clone()),
            AoOpCode::LT(a) => OpcodeArgType::AoArg(a.clone()),
            AoOpCode::GE(a) => OpcodeArgType::AoArg(a.clone()),
            AoOpCode::LE(a) => OpcodeArgType::AoArg(a.clone()),
            AoOpCode::CSI => OpcodeArgType::NoArg,
            AoOpCode::CSF => OpcodeArgType::NoArg,
            AoOpCode::CSP => OpcodeArgType::NoArg,
            AoOpCode::CSS => OpcodeArgType::NoArg,
            AoOpCode::ISB => OpcodeArgType::NoArg,
            AoOpCode::ISI => OpcodeArgType::NoArg,
            AoOpCode::ISF => OpcodeArgType::NoArg,
            AoOpCode::ISP => OpcodeArgType::NoArg,
            AoOpCode::ISS => OpcodeArgType::NoArg,
            AoOpCode::ARG(a) => OpcodeArgType::u32(*a),
            AoOpCode::CNF(a) => OpcodeArgType::u32(*a),
        }
    }

    /// Replaces the operands when `args` has this opcode's shape; otherwise
    /// leaves the instruction as it is.
    pub fn set_args(&mut self, args: OpcodeArgType)
        ensures
            args.view().shape() == old(self).view_op().args.shape() ==> final(self).view_op() == (
            OpView { id: old(self).view_op().id, args: args.view() }),
            args.view().shape() != old(self).view_op().args.shape() ==> *final(self) == *old(self),
    {
        match (&*self, args) {
            (AoOpCode::CALL(_), OpcodeArgType::u32(a)) => {
                *self = AoOpCode::CALL(a);
            },
            (AoOpCode::JMP(_), OpcodeArgType::i32(a)) => {
                *self = AoOpCode::JMP(a);
            },
            (AoOpCode::JMPA(_), OpcodeArgType::u32(a)) => {
                *self = AoOpCode::JMPA(a);
            },
            (AoOpCode::JT(_), OpcodeArgType::i32(a)) => {
                *self = AoOpCode::JT(a);
            },
            (AoOpCode::JTA(_), OpcodeArgType::u32(a)) => {
                *self = AoOpCode::JTA(a);
            },
            (AoOpCode::JF(_), OpcodeArgType::i32(a)) => {
                *self = AoOpCode::JF(a);
            },
            (AoOpCode::JFA(_), OpcodeArgType::u32(a)) => {
                *self = AoOpCode::JFA(a);
            },
            (AoOpCode::MOV(_, _), OpcodeArgType::AoArg2(a, b)) => {
                *self = AoOpCode::MOV(a, b);
            },
            (AoOpCode::INT(_), OpcodeArgType::u8(a)) => {
                *self = AoOpCode::INT(a);
            },
            (AoOpCode::PUSH(_), OpcodeArgType::AoArg(a)) => {
                *self = AoOpCode::PUSH(a);
            },
            (AoOpCode::POP(_), OpcodeArgType::bool(a)) => {
                *self = AoOpCode::POP(a);
            },
            (AoOpCode::ADD(_), OpcodeArgType::AoArg(a)) => {
                *self = AoOpCode::ADD(a);
            },
            (AoOpCode::SUB(_), OpcodeArgType::AoArg(a)) => {
                *self = AoOpCode::SUB(a);
            },
            (AoOpCode::MUL(_), OpcodeArgType::AoArg(a)) => {
                *self = AoOpCode::MUL(a);
            },
            (AoOpCode::DIV(_), OpcodeArgType::AoArg(a)) => {
                *self = AoOpCode::DIV(a);
            },
            (AoOpCode::REM(_), OpcodeArgType::AoArg(a)) => {
                *self = AoOpCode::REM(a);
            },
            (AoOpCode::SHL(_), OpcodeArgType::AoArg(a)) => {
                *self = AoOpCode::SHL(a);
            },
            (AoOpCode::SHR(_), OpcodeArgType::AoArg(a)) => {
                *self = AoOpCode::SHR(a);
            },
            (AoOpCode::AND(_), OpcodeArgType::AoArg(a)) => {
                *self = AoOpCode::AND(a);
            },
            (AoOpCode::OR(_), OpcodeArgType::AoArg(a)) => {
                *self = AoOpCode::OR(a);
            },
            (AoOpCode::XOR(_), OpcodeArgType::AoArg(a)) => {
                *self = AoOpCode::XOR(a);
            },
            (AoOpCode::BAND(_), OpcodeArgType::AoArg(a)) => {
                *self = AoOpCode::BAND(a);
            },
            (AoOpCode::BOR(_), OpcodeArgType::AoArg(a)) => {
                *self = AoOpCode::BOR(a);
            },
            (AoOpCode::BXOR(_), OpcodeArgType::AoArg(a)) => {
                *self = AoOpCode::BXOR(a);
            },
            (AoOpCode::EQU(_), OpcodeArgType::AoArg(a)) => {
                *self = AoOpCode::EQU(a);
            },
            (AoOpCode::NEQ(_), OpcodeArgType::AoArg(a)) => {
                *self = AoOpCode::NEQ(a);
            },
            (AoOpCode::GT(_), OpcodeArgType::AoArg(a)) => {
                *self = AoOpCode::GT(a);
            },
            (AoOpCode::LT(_), OpcodeArgType::AoArg(a)) => {
                *self = AoOpCode::LT(a);
            },
            (AoOpCode::GE(_), OpcodeArgType::AoArg(a)) => {
                *self = AoOpCode::GE(a);
            },
            (AoOpCode::LE(_), OpcodeArgType::AoArg(a)) => {
                *self = AoOpCode::LE(a);
            },
            (AoOpCode::ARG(_), OpcodeArgType::u32(a)) => {
                *self = AoOpCode::ARG(a);
            },
            (AoOpCode::CNF(_), OpcodeArgType::u32(a)) => {
                *self = AoOpCode::CNF(a);
            },
            _ => {},
        }
    }
}

/// The operands an instruction starts with, by shape: zero, `false`, or `ca`.
pub open spec fn default_operands(shape: nat) -> OperandsView {
    if shape == 0 {
        OperandsView::NoArg
    } else if shape == 1 {
        OperandsView::U8(0)
    } else if shape == 2 {
        OperandsView::I32(0)
    } else if shape == 3 {
        OperandsView::U32(0)
    } else if shape == 4 {
        OperandsView::Bool(false)
    } else if shape == 5 {
        OperandsView::Arg(ArgView::CA)
    } else {
        OperandsView::Arg2(ArgView::CA, ArgView::CA)
    }
}

/// The instruction with opcode `id` and default operands (zero, `false`,
/// `ca`), or `None` for an unknown id.
pub fn create_opcode_by_id(id: u8) -> (r: Option<AoOpCode>)
    ensures
        r is Some <==> AoOpCode::id_shape(id) is Some,
        r matches Some(op) ==> op.view_op() == (OpView {
            id,
            args: default_operands(AoOpCode::id_shape(id)->0),
        }),
{
    match id {
        0x00 => Some(AoOpCode::NOP),
        0x10 => Some(AoOpCode::CALL(0)),
        0x11 => Some(AoOpCode::RET),
        0x12 => Some(AoOpCode::JMP(0)),
        0x13 => Some(AoOpCode::JMPA(0)),
        0x14 => Some(AoOpCode::JT(0)),
        0x15 => Some(AoOpCode::JTA(0)),
        0x16 => Some(AoOpCode::JF(0)),
        0x17 => Some(AoOpCode::JFA(0)),
        0x20 => Some(AoOpCode::MOV(AoArg::CA, AoArg::CA)),
        0x21 => Some(AoOpCode::INT(0)),
        0x22 => Some(AoOpCode::PUSH(AoArg::CA)),
        0x23 => Some(AoOpCode::POP(false)),
        0x30 => Some(AoOpCode::ADD(AoArg::CA)),
        0x31 => Some(AoOpCode::SUB(AoArg::CA)),
        0x32 => Some(AoOpCode::MUL(AoArg::CA)),
        0x33 => Some(AoOpCode::DIV(AoArg::CA)),
        0x34 => Some(AoOpCode::REM(AoArg::CA)),
        0x35 => Some(AoOpCode::INC),
        0x36 => Some(AoOpCode::DEC),
        0x37 => Some(AoOpCode::SHL(AoArg::CA)),
        0x38 => Some(AoOpCode::SHR(AoArg::CA)),
        0x40 => Some(AoOpCode::AND(AoArg::CA)),
        0x41 => Some(AoOpCode::OR(AoArg::CA)),
        0x42 => Some(AoOpCode::XOR(AoArg::CA)),
        0x43 => Some(AoOpCode::NOT),
        0x44 => Some(AoOpCode::BAND(AoArg::CA)),
        0x45 => Some(AoOpCode::BOR(AoArg::CA)),
        0x46 => Some(AoOpCode::BXOR(AoArg::CA)),
        0x47 => Some(AoOpCode::BNOT),
        0x50 => Some(AoOpCode::EQU(AoArg::CA)),
        0x51 => Some(AoOpCode::NEQ(AoArg::CA)),
        0x52 => Some(AoOpCode::GT(AoArg::CA)),
        0x53 => Some(AoOpCode::LT(AoArg::CA)),
        0x54 => Some(AoOpCode::GE(AoArg::CA)),
        0x55 => Some(AoOpCode::LE(AoArg::CA)),
        0x61 => Some(AoOpCode::CSI),
        0x62 => Some(AoOpCode::CSF),
        0x63 => Some(AoOpCode::CSP),
        0x64 => Some(AoOpCode::CSS),
        0x68 => Some(AoOpCode::ISB),
        0x69 => Some(AoOpCode::ISI),
        0x6A => Some(AoOpCode::ISF),
        0x6B => Some(AoOpCode::ISP),
        0x6C => Some(AoOpCode::ISS),
        0x70 => Some(AoOpCode::ARG(0)),
        0x71 => Some(AoOpCode::CNF(0)),
        _ => None,
    }
}

impl AoOpCode {
    /// The lowercase mnemonic.
    pub open spec fn spec_mnemonic(self) -> Seq<char> {
        match self {
            AoOpCode::NOP => seq!['n', 'o', 'p'],
            AoOpCode::CALL(_) => seq!['c', 'a', 'l', 'l'],
            AoOpCode::RET => seq!['r', 'e', 't'],
            AoOpCode::JMP(_) => seq!['j', 'm', 'p'],
            AoOpCode::JMPA(_) => seq!['j', 'm', 'p', 'a'],
            AoOpCode::JT(_) => seq!['j', 't'],
            AoOpCode::JTA(_) => seq!['j', 't', 'a'],
            AoOpCode::JF(_) => seq!['j', 'f'],
            AoOpCode::JFA(_) => seq!['j', 'f', 'a'],
            AoOpCode::MOV(_, _) => seq!['m', 'o', 'v'],
            AoOpCode::INT(_) => seq!['i', 'n', 't'],
            AoOpCode::PUSH(_) => seq!['p', 'u', 's', 'h'],
            AoOpCode::ADD(_) => seq!['a', 'd', 'd'],
            AoOpCode::SUB(_) => seq!['s', 'u', 'b'],
            AoOpCode::MUL(_) => seq!['m', 'u', 'l'],
            AoOpCode::DIV(_) => seq!['d', 'i', 'v'],
            AoOpCode::REM(_) => seq!['r', 'e', 'm'],
            AoOpCode::INC => seq!['i', 'n', 'c'],
            AoOpCode::DEC => seq!['d', 'e', 'c'],
            AoOpCode::SHL(_) => seq!['s', 'h', 'l'],
            AoOpCode::SHR(_) => seq!['s', 'h', 'r'],
            AoOpCode::AND(_) => seq!['a', 'n', 'd'],
            AoOpCode::OR(_) => seq!['o', 'r'],
            AoOpCode::XOR(_) => seq!['x', 'o', 'r'],
            AoOpCode::NOT => seq!['n', 'o', 't'],
            AoOpCode::BAND(_) => seq!['b', 'a', 'n', 'd'],
            AoOpCode::BOR(_) => seq!['b', 'o', 'r'],
            AoOpCode::BXOR(_) => seq!['b', 'x', 'o', 'r'],
            AoOpCode::BNOT => seq!['b', 'n', 'o', 't'],
            AoOpCode::EQU(_) => seq!['e', 'q', 'u'],
            AoOpCode::NEQ(_) => seq!['n', 'e', 'q'],
            AoOpCode::GT(_) => seq!['g', 't'],
            AoOpCode::LT(_) => seq!['l', 't'],
            AoOpCode::GE(_) => seq!['g', 'e'],
            AoOpCode::LE(_) => seq!['l', 'e'],
            AoOpCode::CSI => seq!['c', 's', 'i'],
            AoOpCode::CSF => seq!['c', 's', 'f'],
            AoOpCode::CSP => seq!['c', 's', 'p'],
            AoOpCode::CSS => seq!['c', 's', 's'],
            AoOpCode::ISB => seq!['i', 's', 'b'],
            AoOpCode::ISI => seq!['i', 's', 'i'],
            AoOpCode::ISF => seq!['i', 's', 'f'],
            AoOpCode::ISP => seq!['i', 's', 'p'],
            AoOpCode::ISS => seq!['i', 's', 's'],
            AoOpCode::ARG(_) => seq!['a', 'r', 'g'],
            AoOpCode::CNF(_) => seq!['c', 'n', 'f'],
            AoOpCode::POP(_) => seq!['p', 'o', 'p'],
        }
    }

    /// The lowercase mnemonic.
    pub fn mnemonic(&self) -> (r: &'static str)
        ensures
            r@ == self.spec_mnemonic(),
    {
        proof {
            reveal_strlit("nop");
            reveal_strlit("call");
            reveal_strlit("ret");
            reveal_strlit("jmp");
            reveal_strlit("jmpa");
            reveal_strlit("jt");
            reveal_strlit("jta");
            reveal_strlit("jf");
            reveal_strlit("jfa");
            reveal_strlit("mov");
            reveal_strlit("int");
            reveal_strlit("push");
            reveal_strlit("pop");
            reveal_strlit("add");
            reveal_strlit("sub");
            reveal_strlit("mul");
            reveal_strlit("div");
            reveal_strlit("rem");
            reveal_strlit("inc");
            reveal_strlit("dec");
            reveal_strlit("shl");
            reveal_strlit("shr");
            reveal_strlit("and");
            reveal_strlit("or");
            reveal_strlit("xor");
            reveal_strlit("not");
            reveal_strlit("band");
            reveal_strlit("bor");
            reveal_strlit("bxor");
            reveal_strlit("bnot");
            reveal_strlit("equ");
            reveal_strlit("neq");
            reveal_strlit("gt");
            reveal_strlit("lt");
            reveal_strlit("ge");
            reveal_strlit("le");
            reveal_strlit("csi");
            reveal_strlit("csf");
            reveal_strlit("csp");
            reveal_strlit("css");
            reveal_strlit("isb");
            reveal_strlit("isi");
            reveal_strlit("isf");
            reveal_strlit("isp");
            reveal_strlit("iss");
            reveal_strlit("arg");
            reveal_strlit("cnf");
        }
        match self {
            AoOpCode::NOP => "nop",
            AoOpCode::CALL(_) => "call",
            AoOpCode::RET => "ret",
            AoOpCode::JMP(_) => "jmp",
            AoOpCode::JMPA(_) => "jmpa",
            AoOpCode::JT(_) => "jt",
            AoOpCode::JTA(_) => "jta",
            AoOpCode::JF(_) => "jf",
            AoOpCode::JFA(_) => "jfa",
            AoOpCode::MOV(_, _) => "mov",
            AoOpCode::INT(_) => "int",
            AoOpCode::PUSH(_) => "push",
            AoOpCode::POP(_) => "pop",
            AoOpCode::ADD(_) => "add",
            AoOpCode::SUB(_) => "sub",
            AoOpCode::MUL(_) => "mul",
            AoOpCode::DIV(_) => "div",
            AoOpCode::REM(_) => "rem",
            AoOpCode::INC => "inc",
            AoOpCode::DEC => "dec",
            AoOpCode::SHL(_) => "shl",
            AoOpCode::SHR(_) => "shr",
            AoOpCode::AND(_) => "and",
            AoOpCode::OR(_) => "or",
            AoOpCode::XOR(_) => "xor",
            AoOpCode::NOT => "not",
            AoOpCode::BAND(_) => "band",
            AoOpCode::BOR(_) => "bor",
            AoOpCode::BXOR(_) => "bxor",
            AoOpCode::BNOT => "bnot",
            AoOpCode::EQU(_) => "equ",
            AoOpCode::NEQ(_) => "neq",
            AoOpCode::GT(_) => "gt",
            AoOpCode::LT(_) => "lt",
            AoOpCode::GE(_) => "ge",
            AoOpCode::LE(_) => "le",
            AoOpCode::CSI => "csi",
            AoOpCode::CSF => "csf",
            AoOpCode::CSP => "csp",
            AoOpCode::CSS => "css",
            AoOpCode::ISB => "isb",
            AoOpCode::ISI => "isi",
            AoOpCode::ISF => "isf",
            AoOpCode::ISP => "isp",
            AoOpCode::ISS => "iss",
            AoOpCode::ARG(_) => "arg",
            AoOpCode::CNF(_) => "cnf",
        }
    }
}

/// The operands' textual form: numbers in decimal, operands by
/// `spec_arg_text`, two operands joined by a comma.
pub open spec fn spec_operands_text<H: AoHost>(host: H, op: AoOpCode) -> Seq<char> {
    match op {
        AoOpCode::CALL(x) | AoOpCode::JMPA(x) | AoOpCode::JTA(x) | AoOpCode::JFA(x)
        | AoOpCode::ARG(x) | AoOpCode::CNF(x) => spec_nat_text(x as nat),
        AoOpCode::JMP(x) | AoOpCode::JT(x) | AoOpCode::JF(x) => spec_int_text(x as int),
        AoOpCode::INT(x) => spec_nat_text(x as nat),
        AoOpCode::MOV(a, b) => spec_arg_text(host, a) + seq![','] + spec_arg_text(host, b),
        AoOpCode::PUSH(a) | AoOpCode::ADD(a) | AoOpCode::SUB(a) | AoOpCode::MUL(a)
        | AoOpCode::DIV(a) | AoOpCode::REM(a) | AoOpCode::SHL(a) | AoOpCode::SHR(a)
        | AoOpCode::AND(a) | AoOpCode::OR(a) | AoOpCode::XOR(a) | AoOpCode::BAND(a)
        | AoOpCode::BOR(a) | AoOpCode::BXOR(a) | AoOpCode::EQU(a) | AoOpCode::NEQ(a)
        | AoOpCode::GT(a) | AoOpCode::LT(a) | AoOpCode::GE(a) | AoOpCode::LE(a) => spec_arg_text(
            host,
            a,
        ),
        AoOpCode::POP(true) => seq!['c', 'a'],
        _ => Seq::empty(),
    }
}

/// The disassembled form: the mnemonic, then a space and the operands where
/// there are any (`pop` and `pop ca` by the flag).
pub open spec fn spec_op_text<H: AoHost>(host: H, op: AoOpCode) -> Seq<char> {
    if spec_operands_text(host, op).len() == 0 {
        op.spec_mnemonic()
    } else {
        op.spec_mnemonic() + seq![' '] + spec_operands_text(host, op)
    }
}

impl AoOpCode {
    fn operands_text<H: AoHost>(&self, host: &H) -> (r: String)
        ensures
            r@ == spec_operands_text(*host, *self),
    {
        match self {
            AoOpCode::CALL(x) | AoOpCode::JMPA(x) | AoOpCode::JTA(x) | AoOpCode::JFA(x)
            | AoOpCode::ARG(x) | AoOpCode::CNF(x) => nat_text(*x),
            AoOpCode::JMP(x) | AoOpCode::JT(x) | AoOpCode::JF(x) => int_text(*x),
            AoOpCode::INT(x) => nat_text(*x as u32),
            AoOpCode::MOV(a, b) => {
                let mut r = a.text(host);
                r.append(",");
                r.append(b.text(host).as_str());
                proof {
                    reveal_strlit(",");
                }
                r
            },
            AoOpCode::PUSH(a) | AoOpCode::ADD(a) | AoOpCode::SUB(a) | AoOpCode::MUL(a)
            | AoOpCode::DIV(a) | AoOpCode::REM(a) | AoOpCode::SHL(a) | AoOpCode::SHR(a)
            | AoOpCode::AND(a) | AoOpCode::OR(a) | AoOpCode::XOR(a) | AoOpCode::BAND(a)
            | AoOpCode::BOR(a) | AoOpCode::BXOR(a) | AoOpCode::EQU(a) | AoOpCode::NEQ(a)
            | AoOpCode::GT(a) | AoOpCode::LT(a) | AoOpCode::GE(a) | AoOpCode::LE(a) => a.text(host),
            AoOpCode::POP(true) => {
                proof {
                    reveal_strlit("ca");
                }
                String::from_str("ca")
            },
            _ => String::new(),
        }
    }

    /// The disassembled form (see `spec_op_text`), e.g. `mov ca,ds`,
    /// `push "Hello"`, `jmp -3`, `pop ca`.
    pub fn text<H: AoHost>(&self, host: &H) -> (r: String)
        ensures
            r@ == spec_op_text(*host, *self),
    {
        let mut r = String::from_str(self.mnemonic());
        let operands = self.operands_text(host);
        if operands.as_str().unicode_len() > 0 {
            r.append(" ");
            r.append(operands.as_str());
            proof {
                reveal_strlit(" ");
            }
        }
        r
    }
}

} // verus!
