use vstd::prelude::*;

use crate::types::AoType;

verus! {

/// The single-precision operations that a binary operator can ask of the host.
#[derive(Clone, Copy, Debug, PartialEq, Eq, Structural)]
pub enum AoFloatOp {
    Add,
    Sub,
    Mul,
    Div,
    Rem,
}

/// What the machine needs from the program that embeds it.
///
/// Floats travel as IEEE-754 binary32 bit patterns. The machine decides
/// which operation runs on which operands, compares floats and converts them
/// to and from integers; the host performs the floating-point arithmetic, the
/// decimal text of floats and reading floats from text, and the numbered
/// interrupts.
///
/// The float methods are functions of the host and their arguments: their
/// results are named by the `spec_` functions, which the machine's contracts
/// speak of without saying what they are. An implementation gives the same
/// result for the same arguments, and defines each `spec_` function as the
/// float method it names. Interrupts promise nothing.
pub trait AoHost {
    /// What `float_arith` returns.
    spec fn spec_float_arith(&self, op: AoFloatOp, left: u32, right: u32) -> u32;

    /// What `float_text` returns.
    spec fn spec_float_text(&self, bits: u32) -> String;

    /// What `float_parse` returns.
    spec fn spec_float_parse(&self, text: String) -> Option<u32>;

    /// Handles interrupt `id` (never 0), given the values of the current frame in
    /// push order. A returned value is stored in `ca`.
    fn interrupt(&mut self, id: u8, args: Vec<AoType>) -> Option<AoType>;

    /// `left op right` on two floats.
    fn float_arith(&self, op: AoFloatOp, left: u32, right: u32) -> (r: u32)
        ensures
            r == self.spec_float_arith(op, left, right),
    ;

    /// The host's default decimal text of a float.
    fn float_text(&self, bits: u32) -> (r: String)
        ensures
            r@ == self.spec_float_text(bits)@,
    ;

    /// Parses decimal text as a float, `None` where it is not one.
    fn float_parse(&self, text: &String) -> (r: Option<u32>)
        ensures
            r == self.spec_float_parse(*text),
    ;
}

} // verus!
