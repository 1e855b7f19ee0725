use vstd::prelude::*;

use crate::types::AoType;

verus! {

/// The outcome of every fallible step of the machine.
#[derive(Debug, PartialEq)]
pub enum AoStatus {
    /// The step completed; execution continues.
    Success,
    /// The program ended normally.
    Exit,
    /// A binary operator produced a value.
    Return(AoType),
    /// A frame-base slot did not hold a pointer.
    BadDataStack,
    /// The call stack is full.
    CallStackOverflow,
    /// The call stack is empty.
    CallStackUnderflow,
    /// The data stack is full.
    DataStackOverflow,
    /// The data stack holds too few values.
    DataStackUnderflow,
    /// A pointer-typed register was given a non-pointer value.
    SetValueInvalidType(String),
    /// A read-only register or an immediate was written.
    SetValueInvalidTarget(String),
    /// Operands of incompatible types.
    InvalidOperation(String),
    /// A state that cannot arise.
    InternalError,
}

/// The text of a status, for diagnostics: its name in words, with the message
/// in parentheses where it carries one.
pub open spec fn status_text(s: AoStatus) -> Seq<char> {
    match s {
        AoStatus::Success => "Ok"@,
        AoStatus::Exit => "Exit"@,
        AoStatus::Return(_) => "Return"@,
        AoStatus::BadDataStack => "Bad Data Stack"@,
        AoStatus::CallStackOverflow => "Call Stack Overflow"@,
        AoStatus::CallStackUnderflow => "Call Stack Underflow"@,
        AoStatus::DataStackOverflow => "Data Stack Overflow"@,
        AoStatus::DataStackUnderflow => "Data Stack Underflow"@,
        AoStatus::SetValueInvalidType(m) => "Set Value Invalid Type("@ + m@ + ")"@,
        AoStatus::SetValueInvalidTarget(m) => "Set Value Invalid Target("@ + m@ + ")"@,
        AoStatus::InvalidOperation(m) => "Invalid Operation("@ + m@ + ")"@,
        AoStatus::InternalError => "Internal Error"@,
    }
}

fn with_message(name: &str, m: &String) -> (r: String)
    ensures
        r@ == name@ + m@ + ")"@,
{
    let mut s = String::from_str(name);
    s.append(m.as_str());
    s.append(")");
    s
}

impl AoStatus {
    /// The status as text (see `status_text`).
    pub fn to_string(&self) -> (r: String)
        ensures
            r@ == status_text(*self),
    {
        match self {
            AoStatus::Success => String::from_str("Ok"),
            AoStatus::Exit => String::from_str("Exit"),
            AoStatus::Return(_) => String::from_str("Return"),
            AoStatus::BadDataStack => String::from_str("Bad Data Stack"),
            AoStatus::CallStackOverflow => String::from_str("Call Stack Overflow"),
            AoStatus::CallStackUnderflow => String::from_str("Call Stack Underflow"),
            AoStatus::DataStackOverflow => String::from_str("Data Stack Overflow"),
            AoStatus::DataStackUnderflow => String::from_str("Data Stack Underflow"),
            AoStatus::SetValueInvalidType(m) => with_message("Set Value Invalid Type(", m),
            AoStatus::SetValueInvalidTarget(m) => with_message("Set Value Invalid Target(", m),
            AoStatus::InvalidOperation(m) => with_message("Invalid Operation(", m),
            AoStatus::InternalError => String::from_str("Internal Error"),
        }
    }
}

} // verus!
