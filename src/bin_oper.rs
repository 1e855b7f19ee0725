use vstd::prelude::*;

use crate::float::{int_to_float, spec_int_to_float};
use crate::host::{AoFloatOp, AoHost};
use crate::status::AoStatus;
use crate::types::{spec_text, AoType};

verus! {

/// The ten typed binary operators of the machine.
#[derive(Clone, Copy, Debug, PartialEq, Eq, Structural)]
pub enum AoTypeBinOper {
    Add,
    Sub,
    Mul,
    Div,
    Rem,
    Band,
    Bor,
    Bxor,
    Shl,
    Shr,
}

/// What `apply` does with a pair of operands.
pub enum ApplyOutcome {
    /// The result, computed without the host.
    Value(AoType),
    /// A String result, with this text.
    Text(Seq<char>),
    /// The host's float arithmetic on the two operands.
    Float(AoFloatOp, u32, u32),
    /// No function of the operator takes these operands.
    Invalid,
}

/// The message of a failed operation: `<left> <name> <right>`.
pub open spec fn invalid_message<H: AoHost>(
    host: H,
    left: AoType,
    name: Seq<char>,
    right: AoType,
) -> Seq<char> {
    spec_text(host, left) + seq![' '] + name + seq![' '] + spec_text(host, right)
}

/// Whether `r` is what `apply` returns for `outcome` on `left` and `right`,
/// with `host` doing the float arithmetic.
pub open spec fn apply_result<H: AoHost>(
    host: H,
    outcome: ApplyOutcome,
    left: AoType,
    name: Seq<char>,
    right: AoType,
    r: AoStatus,
) -> bool {
    match outcome {
        ApplyOutcome::Value(v) => r == AoStatus::Return(v),
        ApplyOutcome::Text(t) => r matches AoStatus::Return(AoType::AoString(s)) && s@ == t,
        ApplyOutcome::Float(op, l, rr) => r == AoStatus::Return(
            AoType::AoFloat(host.spec_float_arith(op, l, rr)),
        ),
        ApplyOutcome::Invalid => r matches AoStatus::InvalidOperation(m) && m@ == invalid_message(
            host,
            left,
            name,
            right,
        ),
    }
}

pub open spec fn lift_bool(r: Option<bool>) -> ApplyOutcome {
    match r {
        Some(v) => ApplyOutcome::Value(AoType::AoBool(v)),
        None => ApplyOutcome::Invalid,
    }
}

pub open spec fn lift_int(r: Option<i32>) -> ApplyOutcome {
    match r {
        Some(v) => ApplyOutcome::Value(AoType::AoInt(v)),
        None => ApplyOutcome::Invalid,
    }
}

pub open spec fn lift_ptr(r: Option<u32>) -> ApplyOutcome {
    match r {
        Some(v) => ApplyOutcome::Value(AoType::AoPtr(v)),
        None => ApplyOutcome::Invalid,
    }
}

impl AoTypeBinOper {
    /// The operator's symbol.
    pub open spec fn spec_name(self) -> Seq<char> {
        match self {
            AoTypeBinOper::Add => seq!['+'],
            AoTypeBinOper::Sub => seq!['-'],
            AoTypeBinOper::Mul => seq!['*'],
            AoTypeBinOper::Div => seq!['/'],
            AoTypeBinOper::Rem => seq!['%'],
            AoTypeBinOper::Band => seq!['&'],
            AoTypeBinOper::Bor => seq!['|'],
            AoTypeBinOper::Bxor => seq!['^'],
            AoTypeBinOper::Shl => seq!['<', '<'],
            AoTypeBinOper::Shr => seq!['>', '>'],
        }
    }

    /// The Bool function: `||` for `+`, `&&` for `*`.
    pub open spec fn spec_bool(self, l: bool, r: bool) -> Option<bool> {
        match self {
            AoTypeBinOper::Add => Some(l || r),
            AoTypeBinOper::Mul => Some(l && r),
            _ => None,
        }
    }

    /// The Int function. Sums, differences, products and shifts wrap around;
    /// shift amounts are taken modulo 32; division and remainder truncate
    /// toward zero, with `MIN / -1 == MIN` and `MIN % -1 == 0`, and have no
    /// value for a zero divisor.
    pub open spec fn spec_int(self, l: i32, r: i32) -> Option<i32> {
        match self {
            AoTypeBinOper::Add => Some(l.wrapping_add(r)),
            AoTypeBinOper::Sub => Some(l.wrapping_sub(r)),
            AoTypeBinOper::Mul => Some(l.wrapping_mul(r)),
            AoTypeBinOper::Div => if r == 0 {
                None
            } else if l == i32::MIN && r == -1 {
                Some(i32::MIN)
            } else {
                l.checked_div(r)
            },
            AoTypeBinOper::Rem => if r == 0 {
                None
            } else if l == i32::MIN && r == -1 {
                Some(0)
            } else {
                l.checked_rem(r)
            },
            AoTypeBinOper::Band => Some(l & r),
            AoTypeBinOper::Bor => Some(l | r),
            AoTypeBinOper::Bxor => Some(l ^ r),
            AoTypeBinOper::Shl => Some(l.wrapping_shl(r as u32)),
            AoTypeBinOper::Shr => Some(l.wrapping_shr(r as u32)),
        }
    }

    /// The Float function, performed by the host.
    pub open spec fn spec_float(self) -> Option<AoFloatOp> {
        match self {
            AoTypeBinOper::Add => Some(AoFloatOp::Add),
            AoTypeBinOper::Sub => Some(AoFloatOp::Sub),
            AoTypeBinOper::Mul => Some(AoFloatOp::Mul),
            AoTypeBinOper::Div => Some(AoFloatOp::Div),
            AoTypeBinOper::Rem => Some(AoFloatOp::Rem),
            _ => None,
        }
    }

    /// The Ptr function: wrapping `+`, `-` and `*`.
    pub open spec fn spec_ptr(self, l: u32, r: u32) -> Option<u32> {
        match self {
            AoTypeBinOper::Add => Some(l.wrapping_add(r)),
            AoTypeBinOper::Sub => Some(l.wrapping_sub(r)),
            AoTypeBinOper::Mul => Some(l.wrapping_mul(r)),
            _ => None,
        }
    }

    /// The String function: concatenation for `+`.
    pub open spec fn spec_string(self, l: Seq<char>, r: Seq<char>) -> Option<Seq<char>> {
        match self {
            AoTypeBinOper::Add => Some(l + r),
            _ => None,
        }
    }

    pub open spec fn float_outcome(self, l: u32, r: u32) -> ApplyOutcome {
        match self.spec_float() {
            Some(op) => ApplyOutcome::Float(op, l, r),
            None => ApplyOutcome::Invalid,
        }
    }

    /// Dispatch on the operands' tags: same tags use that tag's function;
    /// an Int meeting a Float is promoted to the nearest float; a Ptr on the left takes an Int as a
    /// `u32`, an Int on the left takes a Ptr as an `i32`.
    pub open spec fn spec_apply(self, left: AoType, right: AoType) -> ApplyOutcome {
        match (left, right) {
            (AoType::AoBool(l), AoType::AoBool(r)) => lift_bool(self.spec_bool(l, r)),
            (AoType::AoInt(l), AoType::AoInt(r)) => lift_int(self.spec_int(l, r)),
            (AoType::AoFloat(l), AoType::AoInt(r)) => self.float_outcome(l, spec_int_to_float(r)),
            (AoType::AoInt(l), AoType::AoFloat(r)) => self.float_outcome(spec_int_to_float(l), r),
            (AoType::AoFloat(l), AoType::AoFloat(r)) => self.float_outcome(l, r),
            (AoType::AoPtr(l), AoType::AoPtr(r)) => lift_ptr(self.spec_ptr(l, r)),
            (AoType::AoPtr(l), AoType::AoInt(r)) => lift_ptr(self.spec_ptr(l, r as u32)),
            (AoType::AoInt(l), AoType::AoPtr(r)) => lift_int(self.spec_int(l, r as i32)),
            (AoType::AoString(l), AoType::AoString(r)) => match self.spec_string(l@, r@) {
                Some(v) => ApplyOutcome::Text(v),
                None => ApplyOutcome::Invalid,
            },
            _ => ApplyOutcome::Invalid,
        }
    }

    /// The operator's symbol.
    pub fn name(&self) -> (r: &'static str)
        ensures
            r@ == self.spec_name(),
    {
        proof {
            reveal_strlit("+");
            reveal_strlit("-");
            reveal_strlit("*");
            reveal_strlit("/");
            reveal_strlit("%");
            reveal_strlit("&");
            reveal_strlit("|");
            reveal_strlit("^");
            reveal_strlit("<<");
            reveal_strlit(">>");
        }
        match self {
            AoTypeBinOper::Add => "+",
            AoTypeBinOper::Sub => "-",
            AoTypeBinOper::Mul => "*",
            AoTypeBinOper::Div => "/",
            AoTypeBinOper::Rem => "%",
            AoTypeBinOper::Band => "&",
            AoTypeBinOper::Bor => "|",
            AoTypeBinOper::Bxor => "^",
            AoTypeBinOper::Shl => "<<",
            AoTypeBinOper::Shr => ">>",
        }
    }

    /// The Bool function on two booleans, if the operator has one.
    pub fn apply_bool(&self, left: bool, right: bool) -> (r: Option<bool>)
        ensures
            r == self.spec_bool(left, right),
    {
        match self {
            AoTypeBinOper::Add => Some(left || right),
            AoTypeBinOper::Mul => Some(left && right),
            _ => None,
        }
    }

    /// The Int function on two integers, if the operator has one there.
    pub fn apply_int(&self, left: i32, right: i32) -> (r: Option<i32>)
        ensures
            r == self.spec_int(left, right),
    {
        match self {
            AoTypeBinOper::Add => Some(left.wrapping_add(right)),
            AoTypeBinOper::Sub => Some(left.wrapping_sub(right)),
            AoTypeBinOper::Mul => Some(left.wrapping_mul(right)),
            AoTypeBinOper::Div => if right == 0 {
                None
            } else if left == i32::MIN && right == -1 {
                Some(i32::MIN)
            } else {
                left.checked_div(right)
            },
            AoTypeBinOper::Rem => if right == 0 {
                None
            } else if left == i32::MIN && right == -1 {
                Some(0)
            } else {
                left.checked_rem(right)
            },
            AoTypeBinOper::Band => Some(left & right),
            AoTypeBinOper::Bor => Some(left | right),
            AoTypeBinOper::Bxor => Some(left ^ right),
            AoTypeBinOper::Shl => Some(left.wrapping_shl(right as u32)),
            AoTypeBinOper::Shr => Some(left.wrapping_shr(right as u32)),
        }
    }

    /// The Float function on two floats, computed by the host, if the operator
    /// has one.
    pub fn apply_float<H: AoHost>(&self, left: u32, right: u32, host: &H) -> (r: Option<u32>)
        ensures
            r == match self.spec_float() {
                Some(op) => Some(host.spec_float_arith(op, left, right)),
                None => None,
            },
    {
        match self {
            AoTypeBinOper::Add => Some(host.float_arith(AoFloatOp::Add, left, right)),
            AoTypeBinOper::Sub => Some(host.float_arith(AoFloatOp::Sub, left, right)),
            AoTypeBinOper::Mul => Some(host.float_arith(AoFloatOp::Mul, left, right)),
            AoTypeBinOper::Div => Some(host.float_arith(AoFloatOp::Div, left, right)),
            AoTypeBinOper::Rem => Some(host.float_arith(AoFloatOp::Rem, left, right)),
            _ => None,
        }
    }

    /// The Ptr function on two pointers, if the operator has one.
    pub fn apply_ptr(&self, left: u32, right: u32) -> (r: Option<u32>)
        ensures
            r == self.spec_ptr(left, right),
    {
        match self {
            AoTypeBinOper::Add => Some(left.wrapping_add(right)),
            AoTypeBinOper::Sub => Some(left.wrapping_sub(right)),
            AoTypeBinOper::Mul => Some(left.wrapping_mul(right)),
            _ => None,
        }
    }

    /// The String function on two strings, if the operator has one.
    pub fn apply_string(&self, left: &String, right: &String) -> (r: Option<String>)
        ensures
            match self.spec_string(left@, right@) {
                Some(t) => r matches Some(s) && s@ == t,
                None => r is None,
            },
    {
        match self {
            AoTypeBinOper::Add => {
                let mut s = left.clone();
                s.append(right.as_str());
                Some(s)
            },
            _ => None,
        }
    }

    /// The failure of this operator on `left` and `right`.
    pub fn throw<H: AoHost>(&self, left: &AoType, right: &AoType, host: &H) -> (r: AoStatus)
        ensures
            r matches AoStatus::InvalidOperation(m) && m@ == invalid_message(
                *host,
                *left,
                self.spec_name(),
                *right,
            ),
    {
        let mut m = left.text(host);
        m.append(" ");
        m.append(self.name());
        m.append(" ");
        m.append(right.text(host).as_str());
        proof {
            reveal_strlit(" ");
        }
        AoStatus::InvalidOperation(m)
    }

    /// `left op right` (see `spec_apply`): `Return` with the result, or
    /// `InvalidOperation("<left> <op> <right>")`.
    pub fn apply<H: AoHost>(&self, left: AoType, right: AoType, host: &H) -> (r: AoStatus)
        ensures
            apply_result(*host, self.spec_apply(left, right), left, self.spec_name(), right, r),
    {
        match (&left, &right) {
            (AoType::AoBool(l), AoType::AoBool(r)) => {
                if let Some(v) = self.apply_bool(*l, *r) {
                    return AoStatus::Return(AoType::AoBool(v));
                }
            },
            (AoType::AoInt(l), AoType::AoInt(r)) => {
                if let Some(v) = self.apply_int(*l, *r) {
                    return AoStatus::Return(AoType::AoInt(v));
                }
            },
            (AoType::AoFloat(l), AoType::AoInt(r)) => {
                if self.is_float_op() {
                    let rf = int_to_float(*r);
                    if let Some(v) = self.apply_float(*l, rf, host) {
                        return AoStatus::Return(AoType::AoFloat(v));
                    }
                }
            },
            (AoType::AoInt(l), AoType::AoFloat(r)) => {
                if self.is_float_op() {
                    let lf = int_to_float(*l);
                    if let Some(v) = self.apply_float(lf, *r, host) {
                        return AoStatus::Return(AoType::AoFloat(v));
                    }
                }
            },
            (AoType::AoFloat(l), AoType::AoFloat(r)) => {
                if let Some(v) = self.apply_float(*l, *r, host) {
                    return AoStatus::Return(AoType::AoFloat(v));
                }
            },
            (AoType::AoPtr(l), AoType::AoPtr(r)) => {
                if let Some(v) = self.apply_ptr(*l, *r) {
                    return AoStatus::Return(AoType::AoPtr(v));
                }
            },
            (AoType::AoPtr(l), AoType::AoInt(r)) => {
                if let Some(v) = self.apply_ptr(*l, *r as u32) {
                    return AoStatus::Return(AoType::AoPtr(v));
                }
            },
            (AoType::AoInt(l), AoType::AoPtr(r)) => {
                if let Some(v) = self.apply_int(*l, *r as i32) {
                    return AoStatus::Return(AoType::AoInt(v));
                }
            },
            (AoType::AoString(l), AoType::AoString(r)) => {
                if let Some(v) = self.apply_string(l, r) {
                    return AoStatus::Return(AoType::AoString(v));
                }
            },
            _ => {},
        }
        self.throw(&left, &right, host)
    }

    /// Whether the operator has a Float function.
    pub fn is_float_op(&self) -> (r: bool)
        ensures
            r == self.spec_float() is Some,
    {
        match self {
            AoTypeBinOper::Add | AoTypeBinOper::Sub | AoTypeBinOper::Mul | AoTypeBinOper::Div
            | AoTypeBinOper::Rem => true,
            _ => false,
        }
    }
}

} // verus!
