use vstd::prelude::*;

use crate::args::AoArg;
use crate::bin_oper::{ApplyOutcome, AoTypeBinOper};
use crate::memory::zero;
use crate::opcode::{cast_float, cast_int, cast_string, spec_values_equal, AoOpCode};
use crate::serialization::{decode_program, program_bytes, program_view, valid_op, valid_operands};
use crate::status::AoStatus;
use crate::text::{
    all_digits, digit_char, digit_value, digits_value, is_digit, number_body, spec_int_text,
    spec_nat_text, spec_parse_int,
};
use crate::float::{
    bit_length, float_exp_field, float_is_nan, float_scale, float_significand,
    float_trunc_magnitude, nat_to_float, rounded_significand, spec_float_to_int, spec_int_to_float,
};
use crate::host::AoHost;
use crate::types::AoType;
use vstd::arithmetic::power2::{
    lemma2_to64, lemma_pow2_adds, lemma_pow2_pos, lemma_pow2_strictly_increases, pow2,
};
use crate::vm::VmView;

verus! {

/// Encoding a program and decoding the bytes gives the program back: the
/// instructions, in order, with their operands (texts compared by their
/// characters). The conditions are that no operand is `cb`, for which the
/// format has no tag, and that each text fits its 32-bit length prefix.
pub proof fn lemma_codec_round_trip(p: Seq<AoOpCode>)
    requires
        forall|i: int| 0 <= i < p.len() ==> valid_operands(#[trigger] p[i].view_op().args),
    ensures
        decode_program(program_bytes(program_view(p))) == Some(program_view(p)),
{
    let vs = program_view(p);
    assert forall|i: int| 0 <= i < vs.len() implies valid_op(#[trigger] vs[i]) by {
        assert(vs[i] == p[i].view_op());
        assert(valid_operands(p[i].view_op().args));
    }
    crate::serialization::lemma_program_round_trip(vs);
}

/// The commutative operators (`+`, `*`, `&`, `|`, `^`) give the same result
/// with their operands swapped, and fail on the same pairs. Two cases are left
/// out because their results differ by design: `+` on two strings
/// concatenates, and a Ptr meeting an Int takes the tag of the left operand.
/// Floats reach the host's function with the operands swapped.
pub proof fn lemma_operator_symmetry(op: AoTypeBinOper, a: AoType, b: AoType)
    requires
        op is Add || op is Mul || op is Band || op is Bor || op is Bxor,
        !(a is AoString && b is AoString),
        !(a is AoPtr && b is AoInt),
        !(a is AoInt && b is AoPtr),
    ensures
        match op.spec_apply(a, b) {
            ApplyOutcome::Float(f, x, y) => op.spec_apply(b, a) == ApplyOutcome::Float(f, y, x),
            other => op.spec_apply(b, a) == other,
        },
{
    match (a, b) {
        (AoType::AoInt(l), AoType::AoInt(r)) => {
            assert(l & r == r & l) by (bit_vector);
            assert(l | r == r | l) by (bit_vector);
            assert(l ^ r == r ^ l) by (bit_vector);
            assert(l * r == r * l) by (nonlinear_arith);
        },
        (AoType::AoPtr(l), AoType::AoPtr(r)) => {
            assert(l as nat * r as nat == r as nat * l as nat) by (nonlinear_arith);
        },
        _ => {},
    }
}

/// `equ` and `neq` do not depend on the order of their operands.
pub proof fn lemma_equality_symmetry(a: AoType, b: AoType)
    ensures
        spec_values_equal(a, b) == spec_values_equal(b, a),
{
}

/// An Int meeting a Float is promoted to the nearest float: `i op f` is
/// `float(i) op f` and `f op i` is `f op float(i)`, both the operator's float
/// function.
pub proof fn lemma_numeric_promotion(op: AoTypeBinOper, i: i32, f: u32)
    requires
        op.spec_float() is Some,
    ensures
        op.spec_apply(AoType::AoInt(i), AoType::AoFloat(f)) == op.spec_apply(
            AoType::AoFloat(spec_int_to_float(i)),
            AoType::AoFloat(f),
        ),
        op.spec_apply(AoType::AoFloat(f), AoType::AoInt(i)) == op.spec_apply(
            AoType::AoFloat(f),
            AoType::AoFloat(spec_int_to_float(i)),
        ),
        op.spec_apply(AoType::AoInt(i), AoType::AoFloat(f)) is Float,
{
}

/// Adding the empty string leaves a string as it is.
pub proof fn lemma_concat_empty(s: String, e: String)
    requires
        e@.len() == 0,
    ensures
        AoTypeBinOper::Add.spec_apply(AoType::AoString(s), AoType::AoString(e))
            == ApplyOutcome::Text(s@),
{
    assert(s@ + e@ =~= s@);
}

proof fn lemma_digit_char(d: nat)
    requires
        d < 10,
    ensures
        is_digit(digit_char(d)),
        digit_value(digit_char(d)) == d,
{
    assert('0' as u32 == 48 && '1' as u32 == 49 && '2' as u32 == 50 && '3' as u32 == 51 && '4' as u32
        == 52 && '5' as u32 == 53 && '6' as u32 == 54 && '7' as u32 == 55 && '8' as u32 == 56 && '9' as u32
        == 57);
}

proof fn lemma_nat_text_digits(n: nat)
    ensures
        spec_nat_text(n).len() > 0,
        all_digits(spec_nat_text(n)),
        digits_value(spec_nat_text(n)) == n,
    decreases n,
{
    let t = spec_nat_text(n);
    if n < 10 {
        lemma_digit_char(n);
        assert(t.drop_last() =~= Seq::<char>::empty());
        assert(digits_value(t.drop_last()) == 0);
        assert(is_digit(t[0]));
    } else {
        lemma_digit_char(n % 10);
        lemma_nat_text_digits(n / 10);
        let pre = spec_nat_text(n / 10);
        assert(t.drop_last() =~= pre);
        assert(t.last() == digit_char(n % 10));
        assert forall|i: int| 0 <= i < t.len() implies is_digit(#[trigger] t[i]) by {
            if i < pre.len() {
                assert(t[i] == pre[i]);
            }
        }
    }
}

/// The decimal text of an integer reads back as that integer.
pub proof fn lemma_int_text_parses(i: i32)
    ensures
        spec_parse_int(spec_int_text(i as int)) == Some(i),
{
    let t = spec_int_text(i as int);
    if i < 0 {
        let mag = (-(i as int)) as nat;
        lemma_nat_text_digits(mag);
        let d = spec_nat_text(mag);
        assert(t[0] == '-');
        assert(number_body(t, true) =~= d);
    } else {
        lemma_nat_text_digits(i as nat);
        let d = spec_nat_text(i as nat);
        assert(is_digit(d[0]));
        assert(number_body(t, true) =~= d);
    }
}

/// `css` then `csi` on an Int gives the Int back: the text `css` writes is
/// the integer's decimal form, and `csi` reads it back exactly.
pub proof fn lemma_int_text_cast_round_trip<H: AoHost>(host: H, i: i32, text: AoType, back: AoType)
    requires
        cast_string(host, AoType::AoInt(i), text),
        cast_int(text, back),
    ensures
        back == AoType::AoInt(i),
{
    lemma_int_text_parses(i);
}

proof fn lemma_bit_length_range(x: nat)
    requires
        x > 0,
    ensures
        bit_length(x) >= 1,
        pow2((bit_length(x) - 1) as nat) <= x < pow2(bit_length(x)),
    decreases x,
{
    lemma2_to64();
    assert(bit_length(0) == 0);
    if x > 1 {
        lemma_bit_length_range(x / 2);
        let l = bit_length(x);
        assert(l == 1 + bit_length(x / 2));
        lemma_pow2_adds((l - 2) as nat, 1);
        lemma_pow2_adds((l - 1) as nat, 1);
        assert(pow2((l - 1) as nat) == pow2((l - 2) as nat) * 2);
        assert(pow2(l) == pow2((l - 1) as nat) * 2);
    } else {
        assert(bit_length(1) == 1 + bit_length(0));
    }
}

/// A positive integer up to `2^24` converts to a float that truncates back to
/// it.
proof fn lemma_nat_float_exact(x: nat)
    requires
        0 < x <= 0x100_0000,
    ensures
        nat_to_float(x) < 0x8000_0000,
        float_trunc_magnitude(nat_to_float(x)) == x,
        !float_is_nan(nat_to_float(x)),
{
    lemma2_to64();
    lemma_bit_length_range(x);
    let l = bit_length(x);
    if l > 25 {
        lemma_pow2_strictly_increases(24, (l - 1) as nat);
    }
    if l < 25 && x == 0x100_0000 {
        lemma_pow2_strictly_increases(l, 24);
    }
    if x < 0x100_0000 {
        if l > 24 {
            lemma_pow2_strictly_increases(24, (l - 1) as nat);
        }
        assert(l <= 24);
        let k = (24 - l) as nat;
        let sig = rounded_significand(x);
        assert(sig == x * pow2(k));
        lemma_pow2_adds((l - 1) as nat, k);
        lemma_pow2_adds(l, k);
        assert(pow2((l - 1) as nat) * pow2(k) <= x * pow2(k) < pow2(l) * pow2(k)) by (nonlinear_arith)
            requires
                pow2((l - 1) as nat) <= x < pow2(l),
                pow2(k) > 0,
        ;
        assert(0x80_0000 <= sig < 0x100_0000);
        let b = nat_to_float(x);
        assert(b as int == (l + 125) * 0x80_0000 + sig);
        assert(float_exp_field(b) == l + 126);
        assert(float_significand(b) == sig);
        assert(float_scale(b) == l + 126);
        lemma_pow2_adds(k, l + 126);
        assert(sig * pow2(l + 126) == x * pow2(150)) by (nonlinear_arith)
            requires
                sig == x * pow2(k),
                pow2(k) * pow2(l + 126) == pow2(150),
        ;
        lemma_pow2_pos(150);
        vstd::arithmetic::div_mod::lemma_div_multiples_vanish(x as int, pow2(150) as int);
        assert(x * pow2(150) == pow2(150) * x) by (nonlinear_arith);
    } else {
        assert(l == 25);
        let b = nat_to_float(x);
        assert(x / pow2(1) == 0x80_0000 && x % pow2(1) == 0);
        assert(rounded_significand(x) == 0x80_0000);
        assert(b as int == 151 * 0x80_0000);
        assert(float_exp_field(b) == 151);
        assert(float_significand(b) == 0x80_0000);
        lemma_pow2_adds(150, 1);
        lemma_pow2_pos(150);
        assert(0x80_0000 * pow2(151) == pow2(150) * 0x100_0000) by (nonlinear_arith)
            requires
                pow2(151) == pow2(150) * 2,
        ;
        vstd::arithmetic::div_mod::lemma_div_multiples_vanish(0x100_0000, pow2(150) as int);
    }
}

/// `csf` then `csi` gives an Int back unchanged when `-2^24 <= i <= 2^24`:
/// there every integer is a float.
pub proof fn lemma_int_float_cast_round_trip<H: AoHost>(
    host: H,
    i: i32,
    float: AoType,
    back: AoType,
)
    requires
        -0x100_0000 <= i <= 0x100_0000,
        cast_float(host, AoType::AoInt(i), float),
        cast_int(float, back),
    ensures
        back == AoType::AoInt(i),
{
    lemma_int_float_round_trip(i);
}

proof fn lemma_int_float_round_trip(i: i32)
    requires
        -0x100_0000 <= i <= 0x100_0000,
    ensures
        spec_float_to_int(spec_int_to_float(i)) == i,
{
    lemma2_to64();
    if i > 0 {
        lemma_nat_float_exact(i as nat);
        let b = spec_int_to_float(i);
        assert(b == nat_to_float(i as nat));
        assert(float_trunc_magnitude(b) == i);
        assert(!float_is_nan(b));
        assert(b < 0x8000_0000);
    } else if i < 0 {
        let x = (-(i as int)) as nat;
        lemma_nat_float_exact(x);
        let b = spec_int_to_float(i);
        assert(b as int == 0x8000_0000 + nat_to_float(x));
        assert(b % 0x8000_0000 == nat_to_float(x) % 0x8000_0000);
        assert(float_exp_field(b) == float_exp_field(nat_to_float(x)));
        assert(b % 0x80_0000 == nat_to_float(x) % 0x80_0000);
        assert(float_significand(b) == float_significand(nat_to_float(x)));
        assert(float_trunc_magnitude(b) == float_trunc_magnitude(nat_to_float(x)));
        assert(!float_is_nan(b));
    } else {
        assert(float_significand(0) == 0);
        lemma_pow2_pos(150);
    }
}

/// For every value, exactly one of `isb`, `isi`, `isf`, `isp`, `iss` leaves
/// `Bool(true)` in `ca`.
pub proof fn lemma_type_predicates_exclusive<H: AoHost>(
    host: H,
    s: VmView,
    tb: VmView,
    ti: VmView,
    tf: VmView,
    tp: VmView,
    ts: VmView,
    rb: AoStatus,
    ri: AoStatus,
    rf: AoStatus,
    rp: AoStatus,
    rs: AoStatus,
)
    requires
        AoOpCode::ISB.spec_execute(host, s, tb, rb),
        AoOpCode::ISI.spec_execute(host, s, ti, ri),
        AoOpCode::ISF.spec_execute(host, s, tf, rf),
        AoOpCode::ISP.spec_execute(host, s, tp, rp),
        AoOpCode::ISS.spec_execute(host, s, ts, rs),
    ensures
        (if tb.ca == AoType::AoBool(true) { 1int } else { 0 }) + (if ti.ca == AoType::AoBool(
            true,
        ) {
            1int
        } else {
            0
        }) + (if tf.ca == AoType::AoBool(true) { 1int } else { 0 }) + (if tp.ca
            == AoType::AoBool(true) {
            1int
        } else {
            0
        }) + (if ts.ca == AoType::AoBool(true) { 1int } else { 0 }) == 1,
{
}

/// A fresh memory reads `Int(0)` everywhere; after `set(i, v)` cell `i` reads
/// `v`; a later `set(j, w)` with `j != i` leaves cell `i` reading `v`, and
/// every cell never written still reads `Int(0)`.
pub proof fn lemma_memory_sparsity(
    m0: Map<u32, AoType>,
    m1: Map<u32, AoType>,
    m2: Map<u32, AoType>,
    i: u32,
    j: u32,
    k: u32,
    v: AoType,
    w: AoType,
)
    requires
        m0 == Map::new(|a: u32| true, |a: u32| zero()),
        m1 == m0.insert(i, v),
        m2 == m1.insert(j, w),
        i != j,
        k != i && k != j,
    ensures
        m0[k] == AoType::AoInt(0),
        m1[i] == v,
        m2[i] == v,
        m2[j] == w,
        m2[k] == AoType::AoInt(0),
{
}

proof fn lemma_pushes_keep_base<H: AoHost>(
    host: H,
    args: Seq<AoArg>,
    states: Seq<VmView>,
    statuses: Seq<AoStatus>,
    base: Seq<AoType>,
    k: int,
)
    requires
        0 <= k <= args.len(),
        states.len() == args.len() + 4,
        statuses.len() == args.len() + 3,
        states[1].ds == base,
        states[1].dsb == states[0].dsb,
        forall|j: int|
            0 <= j < args.len() ==> #[trigger] AoOpCode::PUSH(args[j]).spec_execute(
                host,
                states[j + 1],
                states[j + 2],
                statuses[j + 1],
            ),
        forall|j: int| 0 <= j < args.len() + 2 ==> #[trigger] statuses[j] is Success,
    ensures
        states[k + 1].ds.len() == base.len() + k,
        states[k + 1].ds.subrange(0, base.len() as int) == base,
        states[k + 1].dsb == states[0].dsb,
    decreases k,
{
    if k > 0 {
        lemma_pushes_keep_base(host, args, states, statuses, base, k - 1);
        let j = k - 1;
        assert(statuses[j + 1] is Success);
        assert(AoOpCode::PUSH(args[j]).spec_execute(host, states[j + 1], states[j + 2], statuses[j + 1]));
        let sj = states[j + 1];
        let v = crate::args::spec_get(args[j], sj)->0;
        assert(states[j + 2].ds == sj.ds.push(v));
        assert(states[j + 2].ds.subrange(0, base.len() as int) =~= sj.ds.subrange(
            0,
            base.len() as int,
        ));
    } else {
        assert(base.subrange(0, base.len() as int) =~= base);
    }
}

/// The calling sequence of a host interrupt leaves the stack as it found it:
/// after `push dsb`, `push` of each argument, `cnf` with their count and
/// `int id` (with `id != 0`), executed in turn, where the pushes and `cnf`
/// succeed, the interrupt succeeds too, and `ds` and `dsb` are what they were
/// before the sequence.
pub proof fn lemma_frame_unwind<H: AoHost>(
    host: H,
    args: Seq<AoArg>,
    id: u8,
    states: Seq<VmView>,
    statuses: Seq<AoStatus>,
)
    requires
        id != 0,
        args.len() <= u32::MAX,
        states.len() == args.len() + 4,
        statuses.len() == args.len() + 3,
        AoOpCode::PUSH(AoArg::DSB).spec_execute(host, states[0], states[1], statuses[0]),
        forall|k: int|
            0 <= k < args.len() ==> #[trigger] AoOpCode::PUSH(args[k]).spec_execute(
                host,
                states[k + 1],
                states[k + 2],
                statuses[k + 1],
            ),
        AoOpCode::CNF(args.len() as u32).spec_execute(
            host,
            states[args.len() + 1int],
            states[args.len() + 2int],
            statuses[args.len() + 1int],
        ),
        AoOpCode::INT(id).spec_execute(
            host,
            states[args.len() + 2int],
            states[args.len() + 3int],
            statuses[args.len() + 2int],
        ),
        forall|k: int| 0 <= k < args.len() + 2 ==> #[trigger] statuses[k] is Success,
    ensures
        statuses[args.len() + 2int] is Success,
        states[args.len() + 3int].ds == states[0].ds,
        states[args.len() + 3int].dsb == states[0].dsb,
{
    let n = args.len() as int;
    let s0 = states[0];
    let base = s0.ds.push(AoType::AoPtr(s0.dsb));
    assert(statuses[0] is Success);
    assert(states[1].ds == base);
    lemma_pushes_keep_base(host, args, states, statuses, base, n);
    let sc = states[n + 1];
    assert(statuses[n + 1] is Success);
    assert(states[n + 2].dsb == base.len());
    let si = states[n + 2];
    assert(si.ds == sc.ds);
    assert(si.ds[s0.ds.len() as int] == base[s0.ds.len() as int]);
    assert(si.ds.subrange(0, si.dsb - 1) =~= s0.ds);
}

} // verus!
