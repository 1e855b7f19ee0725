use vstd::prelude::*;

use crate::host::AoHost;
use crate::memory::{zero, Memory};
use crate::opcode::{frame_base, read_frame_base, unwind, unwound, AoOpCode};
use crate::status::AoStatus;
use crate::types::AoType;

verus! {

/// The most return addresses the call stack holds.
pub const CALL_STACK_LIMIT: usize = 100_000;

/// `push` refuses a value once the data stack holds more than this many.
pub const DATA_STACK_LIMIT: usize = 1_000_000;

/// The machine's state as mathematical values.
pub struct VmView {
    pub pc: u32,
    pub dp: u32,
    pub mp: u32,
    pub dsb: u32,
    pub ca: AoType,
    pub cb: AoType,
    pub ds: Seq<AoType>,
    pub cs: Seq<u32>,
    pub mem: Map<u32, AoType>,
}

/// The Aoi virtual machine: registers, data stack, call stack, sparse memory
/// and the host that serves its interrupts and float arithmetic.
pub struct AoVM<H: AoHost> {
    /// Program counter: the index of the next instruction.
    pub pc: u32,
    /// Data pointer: the slot of `ds` that the `ds` operand reads and writes.
    pub dp: u32,
    /// Memory pointer: the cell that the `mem` operand reads and writes.
    pub mp: u32,
    /// Index of the bottom of the current frame in `ds`.
    pub dsb: u32,
    pub ca: AoType,
    pub cb: AoType,
    /// The data stack.
    pub ds: Vec<AoType>,
    /// The call stack of return addresses.
    pub cs: Vec<u32>,
    pub mem: Memory,
    pub host: H,
}

impl<H: AoHost> View for AoVM<H> {
    type V = VmView;

    open spec fn view(&self) -> VmView {
        VmView {
            pc: self.pc,
            dp: self.dp,
            mp: self.mp,
            dsb: self.dsb,
            ca: self.ca,
            cb: self.cb,
            ds: self.ds@,
            cs: self.cs@,
            mem: self.mem@,
        }
    }
}

/// The state of a machine just made or reset.
pub open spec fn initial_view(v: VmView) -> bool {
    &&& v.pc == 0
    &&& v.dp == 0
    &&& v.mp == 0
    &&& v.dsb == 0
    &&& v.ca == AoType::AoInt(0)
    &&& v.cb == AoType::AoInt(0)
    &&& v.ds.len() == 0
    &&& v.cs.len() == 0
    &&& v.mem == Map::new(|i: u32| true, |i: u32| zero())
}

/// Whether one step of `program`, with `host` doing the float work, takes `s`
/// to `t` with status `r`: `Exit` with nothing changed when `pc` is past the
/// end; otherwise the instruction at `pc` executed with `pc` advanced past it.
pub open spec fn spec_step<H: AoHost>(
    program: Seq<AoOpCode>,
    host: H,
    s: VmView,
    t: VmView,
    r: AoStatus,
) -> bool {
    if s.pc >= program.len() {
        r is Exit && t == s
    } else {
        program[s.pc as int].spec_execute(host, VmView { pc: (s.pc + 1) as u32, ..s }, t, r)
    }
}

/// Whether the step of `program` from `s` calls the host's interrupt handler.
pub open spec fn step_calls_host(program: Seq<AoOpCode>, s: VmView) -> bool {
    s.pc < program.len() && program[s.pc as int].calls_host(
        VmView { pc: (s.pc + 1) as u32, ..s },
    )
}

/// Whether one step takes the machine from state `s` and host `sh` to state
/// `t` and host `th` with status `r`; the host changes only in a step that
/// calls its interrupt handler.
pub open spec fn step_to<H: AoHost>(
    program: Seq<AoOpCode>,
    sh: H,
    s: VmView,
    th: H,
    t: VmView,
    r: AoStatus,
) -> bool {
    spec_step(program, sh, s, t, r) && (!step_calls_host(program, s) ==> th == sh)
}

/// Whether `n` successful steps of `program` take state `s` and host `sh` to
/// state `t` and host `th`.
pub open spec fn steps<H: AoHost>(
    program: Seq<AoOpCode>,
    sh: H,
    s: VmView,
    th: H,
    t: VmView,
    n: nat,
) -> bool
    decreases n,
{
    if n == 0 {
        t == s && th == sh
    } else {
        exists|mh: H, m: VmView|
            steps(program, sh, s, mh, m, (n - 1) as nat) && step_to(
                program,
                mh,
                m,
                th,
                t,
                AoStatus::Success,
            )
    }
}

impl<H: AoHost> AoVM<H> {
    /// A machine in its initial state, served by `host`.
    pub fn new(host: H) -> (r: AoVM<H>)
        ensures
            initial_view(r@),
            r.host == host,
    {
        AoVM {
            pc: 0,
            dp: 0,
            mp: 0,
            dsb: 0,
            ca: AoType::default(),
            cb: AoType::default(),
            ds: Vec::new(),
            cs: Vec::new(),
            mem: Memory::new(),
            host,
        }
    }

    /// Pushes `value` onto the data stack; `false`, with nothing pushed, when it
    /// already holds more than `DATA_STACK_LIMIT` values.
    pub fn push(&mut self, value: AoType) -> (r: bool)
        ensures
            r == (old(self).ds@.len() <= DATA_STACK_LIMIT),
            final(self)@ == if r {
                VmView { ds: old(self).ds@.push(value), ..old(self)@ }
            } else {
                old(self)@
            },
            final(self).host == old(self).host,
    {
        if self.ds.len() > DATA_STACK_LIMIT {
            return false;
        }
        self.ds.push(value);
        true
    }

    /// Pops the top of the data stack, `None` when it is empty.
    pub fn pop(&mut self) -> (r: Option<AoType>)
        ensures
            old(self).ds@.len() == 0 ==> r is None && final(self)@ == old(self)@,
            old(self).ds@.len() > 0 ==> r == Some(old(self).ds@.last()) && final(self)@ == (
            VmView { ds: old(self).ds@.drop_last(), ..old(self)@ }),
            final(self).host == old(self).host,
    {
        self.ds.pop()
    }

    /// The top of the data stack, `None` when it is empty.
    pub fn peek(&self) -> (r: Option<&AoType>)
        ensures
            self.ds@.len() == 0 ==> r is None,
            self.ds@.len() > 0 ==> r == Some(&self.ds@.last()),
    {
        self.ds.last()
    }

    /// The values of the current frame, `ds[dsb..]`, in push order: what an
    /// interrupt handler receives.
    pub fn frame_args(&self) -> (r: Vec<AoType>)
        requires
            self.dsb <= self.ds@.len(),
        ensures
            r@ == self.ds@.subrange(self.dsb as int, self.ds@.len() as int),
    {
        let mut args: Vec<AoType> = Vec::new();
        let mut i: usize = self.dsb as usize;
        while i < self.ds.len()
            invariant
                self.dsb <= i <= self.ds@.len(),
                args@ == self.ds@.subrange(self.dsb as int, i as int),
            decreases self.ds@.len() - i,
        {
            args.push(self.ds[i].clone());
            i = i + 1;
            assert(args@ =~= self.ds@.subrange(self.dsb as int, i as int));
        }
        args
    }

    /// Completes an interrupt whose handler gave `reply`: a value replaces
    /// `ca`, none leaves it; then the frame is dropped as by `ret`, or, where
    /// the frame-base slot does not hold a pointer, `BadDataStack` is
    /// reported with the reply kept and nothing else changed.
    pub fn finish_interrupt(&mut self, reply: Option<AoType>) -> (r: AoStatus)
        ensures
            ({
                let s = VmView {
                    ca: match reply {
                        Some(v) => v,
                        None => old(self).ca,
                    },
                    ..old(self)@
                };
                match frame_base(s) {
                    Some(p) => r is Success && final(self)@ == unwound(s, p),
                    None => r is BadDataStack && final(self)@ == s,
                }
            }),
            final(self).host == old(self).host,
    {
        match reply {
            Some(v) => {
                self.ca = v;
            },
            None => {},
        }
        match read_frame_base(self) {
            Some(base) => {
                unwind(self, base);
                AoStatus::Success
            },
            None => AoStatus::BadDataStack,
        }
    }

    /// Returns every register, stack and memory cell to the initial state;
    /// the host stays.
    pub fn reset(&mut self)
        ensures
            initial_view(final(self)@),
            final(self).host == old(self).host,
    {
        self.pc = 0;
        self.dp = 0;
        self.mp = 0;
        self.dsb = 0;
        self.ca = AoType::default();
        self.cb = AoType::default();
        self.ds.clear();
        self.cs.clear();
        self.mem = Memory::new();
    }

    /// Runs one instruction: `Exit` when `pc` is past the end of the program;
    /// otherwise fetches the instruction at `pc`, advances `pc`, and executes
    /// it (see `spec_step`).
    pub fn step(&mut self, program: &[AoOpCode]) -> (r: AoStatus)
        requires
            program@.len() <= u32::MAX,
        ensures
            step_to(program@, old(self).host, old(self)@, final(self).host, final(self)@, r),
    {
        if (self.pc as usize) < program.len() {
            let current = self.pc as usize;
            self.pc = self.pc + 1;
            program[current].execute(self)
        } else {
            AoStatus::Exit
        }
    }

    /// Steps until a step reports anything but `Success`, and returns that
    /// status. Gives up with `InternalError` after `u64::MAX` successful steps.
    pub fn run(&mut self, program: &[AoOpCode]) -> (r: AoStatus)
        requires
            program@.len() <= u32::MAX,
        ensures
            !(r is Success),
            r is InternalError ==> steps(
                program@,
                old(self).host,
                old(self)@,
                final(self).host,
                final(self)@,
                u64::MAX as nat,
            ),
            !(r is InternalError) ==> exists|n: nat, mh: H, m: VmView|
                steps(program@, old(self).host, old(self)@, mh, m, n) && step_to(
                    program@,
                    mh,
                    m,
                    final(self).host,
                    final(self)@,
                    r,
                ),
    {
        let mut budget: u64 = u64::MAX;
        let ghost n: nat = 0;
        while budget > 0
            invariant
                program@.len() <= u32::MAX,
                n + budget == u64::MAX,
                steps(program@, old(self).host, old(self)@, self.host, self@, n),
            decreases budget,
        {
            let ghost bh = self.host;
            let ghost bs = self@;
            let status = self.step(program);
            match status {
                AoStatus::Success => {
                    proof {
                        assert(steps(program@, old(self).host, old(self)@, bh, bs, n));
                        n = n + 1;
                        assert(steps(program@, old(self).host, old(self)@, self.host, self@, n));
                    }
                },
                _ => {
                    proof {
                        assert(steps(program@, old(self).host, old(self)@, bh, bs, n));
                        assert(step_to(program@, bh, bs, self.host, self@, status));
                    }
                    return status;
                },
            }
            budget = budget - 1;
        }
        AoStatus::InternalError
    }
}

} // verus!
