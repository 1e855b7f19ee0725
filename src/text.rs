use vstd::prelude::*;

verus! {

/// The decimal digit for `d < 10`.
pub open spec fn digit_char(d: nat) -> char {
    if d == 0 {
        '0'
    } else if d == 1 {
        '1'
    } else if d == 2 {
        '2'
    } else if d == 3 {
        '3'
    } else if d == 4 {
        '4'
    } else if d == 5 {
        '5'
    } else if d == 6 {
        '6'
    } else if d == 7 {
        '7'
    } else if d == 8 {
        '8'
    } else {
        '9'
    }
}

/// The decimal text of a natural number, without leading zeros.
pub open spec fn spec_nat_text(n: nat) -> Seq<char>
    decreases n,
{
    if n < 10 {
        seq![digit_char(n)]
    } else {
        spec_nat_text(n / 10) + seq![digit_char(n % 10)]
    }
}

/// The decimal text of an integer, with a leading `-` when negative.
pub open spec fn spec_int_text(i: int) -> Seq<char> {
    if i < 0 {
        seq!['-'] + spec_nat_text((-i) as nat)
    } else {
        spec_nat_text(i as nat)
    }
}

pub open spec fn spec_ptr_text(p: u32) -> Seq<char> {
    spec_nat_text(p as nat)
}

pub open spec fn is_digit(c: char) -> bool {
    '0' <= c <= '9'
}

pub open spec fn digit_value(c: char) -> nat {
    (c as u32 - 48) as nat
}

/// The number that a run of decimal digits spells.
pub open spec fn digits_value(s: Seq<char>) -> nat
    decreases s.len(),
{
    if s.len() == 0 {
        0
    } else {
        digits_value(s.drop_last()) * 10 + digit_value(s.last())
    }
}

pub open spec fn all_digits(s: Seq<char>) -> bool {
    forall|i: int| 0 <= i < s.len() ==> is_digit(#[trigger] s[i])
}

/// Whether `s` opens with a sign that the reading takes: `+`, or `-` where `signed`.
pub open spec fn has_sign(s: Seq<char>, signed: bool) -> bool {
    s.len() > 0 && (s[0] == '+' || (s[0] == '-' && signed))
}

/// What follows the sign.
pub open spec fn number_body(s: Seq<char>, signed: bool) -> Seq<char> {
    if has_sign(s, signed) {
        s.drop_first()
    } else {
        s
    }
}

/// The number written in `s`: an optional sign (`+`, or `-` where `signed`)
/// followed by one or more decimal digits, as Rust's `str::parse` reads it.
pub open spec fn spec_parse_number(s: Seq<char>, signed: bool) -> Option<int> {
    let body = number_body(s, signed);
    if body.len() == 0 || !all_digits(body) {
        None
    } else if s[0] == '-' && signed {
        Some(-(digits_value(body) as int))
    } else {
        Some(digits_value(body) as int)
    }
}

/// `s.parse::<i32>()`, `None` on malformed text or overflow.
pub open spec fn spec_parse_int(s: Seq<char>) -> Option<i32> {
    match spec_parse_number(s, true) {
        Some(v) => if i32::MIN <= v <= i32::MAX {
            Some(v as i32)
        } else {
            None
        },
        None => None,
    }
}

/// `s.parse::<u32>()`, `None` on malformed text or overflow.
pub open spec fn spec_parse_ptr(s: Seq<char>) -> Option<u32> {
    match spec_parse_number(s, false) {
        Some(v) => if 0 <= v <= u32::MAX {
            Some(v as u32)
        } else {
            None
        },
        None => None,
    }
}

fn digit_str(d: u32) -> (r: &'static str)
    requires
        d < 10,
    ensures
        r@ == seq![digit_char(d as nat)],
{
    proof {
        reveal_strlit("0");
        reveal_strlit("1");
        reveal_strlit("2");
        reveal_strlit("3");
        reveal_strlit("4");
        reveal_strlit("5");
        reveal_strlit("6");
        reveal_strlit("7");
        reveal_strlit("8");
        reveal_strlit("9");
    }
    match d {
        0 => "0",
        1 => "1",
        2 => "2",
        3 => "3",
        4 => "4",
        5 => "5",
        6 => "6",
        7 => "7",
        8 => "8",
        _ => "9",
    }
}

/// The decimal text of `n`.
pub fn nat_text(n: u32) -> (r: String)
    ensures
        r@ == spec_nat_text(n as nat),
    decreases n,
{
    if n < 10 {
        String::from_str(digit_str(n))
    } else {
        let mut r = nat_text(n / 10);
        r.append(digit_str(n % 10));
        r
    }
}

/// The decimal text of a pointer value.
pub fn ptr_text(p: u32) -> (r: String)
    ensures
        r@ == spec_ptr_text(p),
{
    nat_text(p)
}

/// The decimal text of an integer.
pub fn int_text(i: i32) -> (r: String)
    ensures
        r@ == spec_int_text(i as int),
{
    if i < 0 {
        let mag: u32 = if i == i32::MIN {
            0x8000_0000
        } else {
            (-i) as u32
        };
        let mut r = String::from_str("-");
        proof {
            reveal_strlit("-");
        }
        r.append(nat_text(mag).as_str());
        r
    } else {
        nat_text(i as u32)
    }
}

proof fn lemma_digits_value_monotone(s: Seq<char>, j: int)
    requires
        0 <= j <= s.len(),
    ensures
        digits_value(s.subrange(0, j)) <= digits_value(s),
    decreases s.len(),
{
    if j < s.len() {
        assert(s.drop_last().subrange(0, j) == s.subrange(0, j));
        lemma_digits_value_monotone(s.drop_last(), j);
    } else {
        assert(s.subrange(0, j) == s);
    }
}

/// Reads an optional sign and decimal digits, giving up once the magnitude
/// passes `u32::MAX`.
fn parse_number(s: &str, signed: bool) -> (r: Option<i64>)
    ensures
        r matches Some(v) ==> spec_parse_number(s@, signed) == Some(v as int),
        r is None ==> match spec_parse_number(s@, signed) {
            Some(v) => v < -(u32::MAX as int) || v > u32::MAX,
            None => true,
        },
{
    let n = s.unicode_len();
    if n == 0 {
        return None;
    }
    let c0 = s.get_char(0);
    let neg = c0 == '-' && signed;
    let start: usize = if c0 == '+' || (c0 == '-' && signed) {
        1
    } else {
        0
    };
    let ghost body = if start == 1 {
        s@.drop_first()
    } else {
        s@
    };
    assert(body == s@.subrange(start as int, n as int));
    assert(body == number_body(s@, signed));
    if start == n {
        return None;
    }
    let mut acc: u64 = 0;
    let mut i: usize = start;
    while i < n
        invariant
            start <= i <= n,
            n == s@.len(),
            body == s@.subrange(start as int, n as int),
            body == number_body(s@, signed),
            neg == (s@[0] == '-' && signed),
            n > 0,
            all_digits(s@.subrange(start as int, i as int)),
            acc == digits_value(s@.subrange(start as int, i as int)),
            acc <= u32::MAX,
        decreases n - i,
    {
        let c = s.get_char(i);
        proof {
            assert(body.subrange(0, i - start) == s@.subrange(start as int, i as int));
        }
        if !('0' <= c && c <= '9') {
            proof {
                assert(body[i - start] == c);
                assert(!is_digit(body[i - start]));
            }
            return None;
        }
        let ghost prev = s@.subrange(start as int, i as int);
        let ghost next = s@.subrange(start as int, i + 1);
        proof {
            assert(next.drop_last() == prev);
            assert(next.last() == c);
        }
        acc = acc * 10 + (c as u64 - 48);
        i = i + 1;
        if acc > u32::MAX as u64 {
            proof {
                assert(body.subrange(0, i - start) == next);
                assert(acc == digits_value(next));
                if all_digits(body) {
                    lemma_digits_value_monotone(body, i - start);
                }
            }
            return None;
        }
    }
    if neg {
        Some(-(acc as i64))
    } else {
        Some(acc as i64)
    }
}

/// `s.parse::<i32>()`, with `None` for malformed text or a value out of range.
pub fn parse_int(s: &str) -> (r: Option<i32>)
    ensures
        r == spec_parse_int(s@),
{
    match parse_number(s, true) {
        Some(v) => if i32::MIN as i64 <= v && v <= i32::MAX as i64 {
            Some(v as i32)
        } else {
            None
        },
        None => None,
    }
}

/// `s.parse::<u32>()`, with `None` for malformed text or a value out of range.
pub fn parse_ptr(s: &str) -> (r: Option<u32>)
    ensures
        r == spec_parse_ptr(s@),
{
    match parse_number(s, false) {
        Some(v) => if 0 <= v && v <= u32::MAX as i64 {
            Some(v as u32)
        } else {
            None
        },
        None => None,
    }
}

/// Lexicographic order on text from position `i` on, by code point (which is
/// also the order of the UTF-8 bytes).
pub open spec fn text_lt_from(a: Seq<char>, b: Seq<char>, i: int) -> bool
    decreases a.len() - i,
{
    if i >= a.len() {
        i < b.len()
    } else if i >= b.len() {
        false
    } else if a[i] != b[i] {
        (a[i] as u32) < (b[i] as u32)
    } else {
        text_lt_from(a, b, i + 1)
    }
}

/// `a < b` on text.
pub open spec fn text_lt(a: Seq<char>, b: Seq<char>) -> bool {
    text_lt_from(a, b, 0)
}

/// `a < b` on two strings, lexicographically by code point.
pub fn text_less(a: &str, b: &str) -> (r: bool)
    ensures
        r == text_lt(a@, b@),
{
    let na = a.unicode_len();
    let nb = b.unicode_len();
    let mut i: usize = 0;
    while i < na && i < nb
        invariant
            na == a@.len(),
            nb == b@.len(),
            i <= na,
            i <= nb,
            text_lt(a@, b@) == text_lt_from(a@, b@, i as int),
        decreases na - i,
    {
        let ca = a.get_char(i);
        let cb = b.get_char(i);
        if ca != cb {
            return (ca as u32) < (cb as u32);
        }
        i = i + 1;
    }
    i >= na && i < nb
}

} // verus!
