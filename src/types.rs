use vstd::prelude::*;

use crate::float::float_nonzero;
use crate::host::AoHost;
use crate::text::{int_text, ptr_text, spec_int_text, spec_ptr_text};

verus! {

/// A value of the machine.
#[derive(Clone, Debug, PartialEq)]
pub enum AoType {
    AoBool(bool),
    AoInt(i32),
    /// IEEE-754 binary32 bit pattern.
    AoFloat(u32),
    AoPtr(u32),
    AoString(String),
}

/// A value with its text as characters.
pub enum ValueView {
    Bool(bool),
    Int(i32),
    Float(u32),
    Ptr(u32),
    Text(Seq<char>),
}

pub open spec fn value_view(v: AoType) -> ValueView {
    match v {
        AoType::AoBool(b) => ValueView::Bool(b),
        AoType::AoInt(i) => ValueView::Int(i),
        AoType::AoFloat(f) => ValueView::Float(f),
        AoType::AoPtr(p) => ValueView::Ptr(p),
        AoType::AoString(s) => ValueView::Text(s@),
    }
}

/// Whether a value counts as true for the conditional jumps.
pub open spec fn spec_truthy(v: AoType) -> bool {
    match v {
        AoType::AoBool(b) => b,
        AoType::AoInt(i) => i != 0,
        AoType::AoFloat(f) => float_nonzero(f),
        _ => false,
    }
}

/// The textual form of a value; a float's digits are the host's.
pub open spec fn spec_text<H: AoHost>(host: H, v: AoType) -> Seq<char> {
    match v {
        AoType::AoBool(b) => if b {
            seq!['t', 'r', 'u', 'e']
        } else {
            seq!['f', 'a', 'l', 's', 'e']
        },
        AoType::AoInt(i) => spec_int_text(i as int),
        AoType::AoFloat(f) => host.spec_float_text(f)@ + seq!['f'],
        AoType::AoPtr(p) => spec_ptr_text(p) + seq!['p'],
        AoType::AoString(s) => seq!['"'] + s@ + seq!['"'],
    }
}

impl AoType {
    /// The default value, `Int(0)`.
    pub fn default() -> (r: AoType)
        ensures
            r == AoType::AoInt(0),
    {
        AoType::AoInt(0)
    }

    /// A deep copy.
    pub fn clone(&self) -> (r: AoType)
        ensures
            r == *self,
    {
        match self {
            AoType::AoBool(b) => AoType::AoBool(*b),
            AoType::AoInt(i) => AoType::AoInt(*i),
            AoType::AoFloat(f) => AoType::AoFloat(*f),
            AoType::AoPtr(p) => AoType::AoPtr(*p),
            AoType::AoString(s) => AoType::AoString(s.clone()),
        }
    }

    /// Whether the value counts as true for the conditional jumps.
    pub fn truthy(&self) -> (r: bool)
        ensures
            r == spec_truthy(*self),
    {
        match self {
            AoType::AoBool(b) => *b,
            AoType::AoInt(i) => *i != 0,
            AoType::AoFloat(f) => *f % 0x8000_0000 != 0,
            _ => false,
        }
    }

    /// The textual form: `true`, `-12`, `1.5f`, `7p`, `"text"`. A float's
    /// digits are the host's.
    pub fn text<H: AoHost>(&self, host: &H) -> (r: String)
        ensures
            r@ == spec_text(*host, *self),
    {
        match self {
            AoType::AoBool(b) => if *b {
                let r = String::from_str("true");
                proof {
                    reveal_strlit("true");
                }
                r
            } else {
                let r = String::from_str("false");
                proof {
                    reveal_strlit("false");
                }
                r
            },
            AoType::AoInt(i) => int_text(*i),
            AoType::AoFloat(f) => {
                let mut r = host.float_text(*f);
                r.append("f");
                proof {
                    reveal_strlit("f");
                }
                r
            },
            AoType::AoPtr(p) => {
                let mut r = ptr_text(*p);
                r.append("p");
                proof {
                    reveal_strlit("p");
                }
                r
            },
            AoType::AoString(s) => {
                let mut r = String::from_str("\"");
                r.append(s.as_str());
                r.append("\"");
                proof {
                    reveal_strlit("\"");
                }
                r
            },
        }
    }

    /// Whether the value is a Bool.
    pub fn is_bool(&self) -> (r: bool)
        ensures
            r == (*self is AoBool),
    {
        match self {
            AoType::AoBool(_) => true,
            _ => false,
        }
    }

    /// Whether the value is an Int.
    pub fn is_int(&self) -> (r: bool)
        ensures
            r == (*self is AoInt),
    {
        match self {
            AoType::AoInt(_) => true,
            _ => false,
        }
    }

    /// Whether the value is a Float.
    pub fn is_float(&self) -> (r: bool)
        ensures
            r == (*self is AoFloat),
    {
        match self {
            AoType::AoFloat(_) => true,
            _ => false,
        }
    }

    /// Whether the value is a Ptr.
    pub fn is_ptr(&self) -> (r: bool)
        ensures
            r == (*self is AoPtr),
    {
        match self {
            AoType::AoPtr(_) => true,
            _ => false,
        }
    }

    /// Whether the value is a String.
    pub fn is_string(&self) -> (r: bool)
        ensures
            r == (*self is AoString),
    {
        match self {
            AoType::AoString(_) => true,
            _ => false,
        }
    }
}

} // verus!
