use vstd::prelude::*;
use vstd::utf8::{decode_utf8, encode_utf8, valid_utf8};

use crate::args::{arg_view, AoArg, ArgView};
use crate::opcode::{create_opcode_by_id, AoOpCode, OpView, OpcodeArgType, OperandsView};
use crate::types::{value_view, AoType, ValueView};

verus! {

/// Four bytes, least significant first.
pub open spec fn le32(x: u32) -> Seq<u8> {
    seq![
        (x % 0x100) as u8,
        ((x / 0x100) % 0x100) as u8,
        ((x / 0x1_0000) % 0x100) as u8,
        (x / 0x100_0000) as u8,
    ]
}

/// The `u32` whose little-endian bytes open `b`.
pub open spec fn from_le32(b: Seq<u8>) -> u32 {
    (b[0] as int + b[1] as int * 0x100 + b[2] as int * 0x1_0000 + b[3] as int * 0x100_0000) as u32
}

/// A typed value record: tag byte, then the payload.
pub open spec fn value_bytes(v: ValueView) -> Seq<u8> {
    match v {
        ValueView::Bool(b) => seq![0x01u8, if b { 0x01u8 } else { 0x00u8 }],
        ValueView::Int(i) => seq![0x02u8] + le32(i as u32),
        ValueView::Float(f) => seq![0x03u8] + le32(f),
        ValueView::Ptr(p) => seq![0x04u8] + le32(p),
        ValueView::Text(t) => seq![0x05u8] + le32(encode_utf8(t).len() as u32) + encode_utf8(t),
    }
}

/// Whether an operand has a record in the format: every operand but `cb`,
/// for which the format has no tag.
pub open spec fn has_record(a: ArgView) -> bool {
    !(a is CB)
}

/// An operand: its tag, followed by the value record for an immediate
/// (empty for `cb`, which has no record).
pub open spec fn arg_bytes(a: ArgView) -> Seq<u8> {
    match a {
        ArgView::PC => seq![0x01u8],
        ArgView::DP => seq![0x02u8],
        ArgView::MP => seq![0x03u8],
        ArgView::DSB => seq![0x11u8],
        ArgView::DST => seq![0x12u8],
        ArgView::CA => seq![0x21u8],
        ArgView::CB => Seq::empty(),
        ArgView::DS => seq![0xE1u8],
        ArgView::MEM => seq![0xE2u8],
        ArgView::Imm(v) => seq![0xFFu8] + value_bytes(v),
    }
}

/// Whether every operand among `o` has a record.
pub open spec fn operands_have_records(o: OperandsView) -> bool {
    match o {
        OperandsView::Arg(a) => has_record(a),
        OperandsView::Arg2(a, b) => has_record(a) && has_record(b),
        _ => true,
    }
}

pub open spec fn operand_bytes(o: OperandsView) -> Seq<u8> {
    match o {
        OperandsView::NoArg => Seq::empty(),
        OperandsView::U8(x) => seq![x],
        OperandsView::I32(x) => le32(x as u32),
        OperandsView::U32(x) => le32(x),
        OperandsView::Bool(b) => seq![if b { 0x01u8 } else { 0x00u8 }],
        OperandsView::Arg(a) => arg_bytes(a),
        OperandsView::Arg2(a, b) => arg_bytes(a) + arg_bytes(b),
    }
}

/// An instruction record: opcode id, then its operands.
pub open spec fn op_bytes(v: OpView) -> Seq<u8> {
    seq![v.id] + operand_bytes(v.args)
}

/// A program: its instruction records back to back, with no header.
pub open spec fn program_bytes(vs: Seq<OpView>) -> Seq<u8>
    decreases vs.len(),
{
    if vs.len() == 0 {
        Seq::empty()
    } else {
        op_bytes(vs[0]) + program_bytes(vs.drop_first())
    }
}

/// Reads a value record at the start of `b`, with the number of bytes it takes.
pub open spec fn decode_value(b: Seq<u8>) -> Option<(ValueView, nat)> {
    if b.len() == 0 {
        None
    } else if b[0] == 0x01 {
        if b.len() >= 2 && b[1] <= 1 {
            Some((ValueView::Bool(b[1] == 1), 2))
        } else {
            None
        }
    } else if 0x02 <= b[0] <= 0x04 {
        if b.len() >= 5 {
            let x = from_le32(b.subrange(1, 5));
            Some(
                (
                    if b[0] == 0x02 {
                        ValueView::Int(x as i32)
                    } else if b[0] == 0x03 {
                        ValueView::Float(x)
                    } else {
                        ValueView::Ptr(x)
                    },
                    5,
                ),
            )
        } else {
            None
        }
    } else if b[0] == 0x05 {
        if b.len() >= 5 {
            let n = from_le32(b.subrange(1, 5)) as int;
            if b.len() >= 5 + n && valid_utf8(b.subrange(5, 5 + n)) {
                Some((ValueView::Text(decode_utf8(b.subrange(5, 5 + n))), (5 + n) as nat))
            } else {
                None
            }
        } else {
            None
        }
    } else {
        None
    }
}

/// Reads an operand at the start of `b`.
pub open spec fn decode_arg(b: Seq<u8>) -> Option<(ArgView, nat)> {
    if b.len() == 0 {
        None
    } else {
        let tag = b[0];
        if tag == 0xFF {
            match decode_value(b.drop_first()) {
                Some((v, n)) => Some((ArgView::Imm(v), n + 1)),
                None => None,
            }
        } else if tag == 0x01 {
            Some((ArgView::PC, 1))
        } else if tag == 0x02 {
            Some((ArgView::DP, 1))
        } else if tag == 0x03 {
            Some((ArgView::MP, 1))
        } else if tag == 0x11 {
            Some((ArgView::DSB, 1))
        } else if tag == 0x12 {
            Some((ArgView::DST, 1))
        } else if tag == 0x21 {
            Some((ArgView::CA, 1))
        } else if tag == 0xE1 {
            Some((ArgView::DS, 1))
        } else if tag == 0xE2 {
            Some((ArgView::MEM, 1))
        } else {
            None
        }
    }
}

/// Reads operands of the given shape at the start of `b`.
pub open spec fn decode_operands(shape: nat, b: Seq<u8>) -> Option<(OperandsView, nat)> {
    if shape == 0 {
        Some((OperandsView::NoArg, 0))
    } else if shape == 1 {
        if b.len() >= 1 {
            Some((OperandsView::U8(b[0]), 1))
        } else {
            None
        }
    } else if shape == 2 || shape == 3 {
        if b.len() >= 4 {
            let x = from_le32(b.subrange(0, 4));
            Some(
                (
                    if shape == 2 {
                        OperandsView::I32(x as i32)
                    } else {
                        OperandsView::U32(x)
                    },
                    4,
                ),
            )
        } else {
            None
        }
    } else if shape == 4 {
        if b.len() >= 1 && b[0] <= 1 {
            Some((OperandsView::Bool(b[0] == 1), 1))
        } else {
            None
        }
    } else if shape == 5 {
        match decode_arg(b) {
            Some((a, n)) => Some((OperandsView::Arg(a), n)),
            None => None,
        }
    } else {
        match decode_arg(b) {
            Some((a, n)) => if n <= b.len() {
                match decode_arg(b.skip(n as int)) {
                    Some((c, m)) => Some((OperandsView::Arg2(a, c), n + m)),
                    None => None,
                }
            } else {
                None
            },
            None => None,
        }
    }
}

/// Reads an instruction record at the start of `b`.
pub open spec fn decode_op(b: Seq<u8>) -> Option<(OpView, nat)> {
    if b.len() == 0 {
        None
    } else {
        match AoOpCode::id_shape(b[0]) {
            Some(shape) => match decode_operands(shape, b.drop_first()) {
                Some((o, n)) => Some((OpView { id: b[0], args: o }, n + 1)),
                None => None,
            },
            None => None,
        }
    }
}

/// Reads a whole program: `None` on an unknown opcode id, operand tag or value
/// tag, a flag byte other than 0 or 1, a truncated record, or text that is not
/// UTF-8.
pub open spec fn decode_program(b: Seq<u8>) -> Option<Seq<OpView>>
    decreases b.len(),
{
    if b.len() == 0 {
        Some(Seq::empty())
    } else {
        match decode_op(b) {
            Some((v, n)) => if 1 <= n <= b.len() {
                match decode_program(b.skip(n as int)) {
                    Some(rest) => Some(seq![v] + rest),
                    None => None,
                }
            } else {
                None
            },
            None => None,
        }
    }
}

/// A value whose record can be written: text of at most `u32::MAX` bytes.
pub open spec fn valid_value(v: ValueView) -> bool {
    match v {
        ValueView::Text(t) => encode_utf8(t).len() <= u32::MAX,
        _ => true,
    }
}

pub open spec fn valid_arg(a: ArgView) -> bool {
    has_record(a) && match a {
        ArgView::Imm(v) => valid_value(v),
        _ => true,
    }
}

pub open spec fn valid_operands(o: OperandsView) -> bool {
    match o {
        OperandsView::Arg(a) => valid_arg(a),
        OperandsView::Arg2(a, b) => valid_arg(a) && valid_arg(b),
        _ => true,
    }
}

/// An instruction view with a known opcode id, operands of that id's shape,
/// and texts that fit a length prefix.
pub open spec fn valid_op(v: OpView) -> bool {
    AoOpCode::id_shape(v.id) == Some(v.args.shape()) && valid_operands(v.args)
}

proof fn lemma_le32(x: u32)
    ensures
        le32(x).len() == 4,
        from_le32(le32(x)) == x,
{
    let b = le32(x);
    assert(b[0] as int == x % 0x100);
    assert(b[1] as int == (x / 0x100) % 0x100);
    assert(b[2] as int == (x / 0x1_0000) % 0x100);
    assert(b[3] as int == x / 0x100_0000);
    assert(x as int == x % 0x100 + ((x / 0x100) % 0x100) * 0x100 + ((x / 0x1_0000) % 0x100)
        * 0x1_0000 + (x / 0x100_0000) * 0x100_0000) by (nonlinear_arith);
}

proof fn lemma_i32_u32(i: i32)
    ensures
        (i as u32) as i32 == i,
{
    assert((i as u32) as i32 == i) by (bit_vector);
}

proof fn lemma_value_round_trip(v: ValueView, rest: Seq<u8>)
    requires
        valid_value(v),
    ensures
        decode_value(value_bytes(v) + rest) == Some((v, value_bytes(v).len())),
{
    let b = value_bytes(v) + rest;
    match v {
        ValueView::Bool(x) => {},
        ValueView::Int(i) => {
            lemma_le32(i as u32);
            lemma_i32_u32(i);
            assert(b.subrange(1, 5) =~= le32(i as u32));
        },
        ValueView::Float(f) => {
            lemma_le32(f);
            assert(b.subrange(1, 5) =~= le32(f));
        },
        ValueView::Ptr(p) => {
            lemma_le32(p);
            assert(b.subrange(1, 5) =~= le32(p));
        },
        ValueView::Text(t) => {
            let e = encode_utf8(t);
            let n = e.len() as u32;
            lemma_le32(n);
            assert(b.subrange(1, 5) =~= le32(n));
            assert(b.subrange(5, 5 + n) =~= e);
            vstd::utf8::encode_utf8_valid_utf8(t);
            vstd::utf8::encode_utf8_decode_utf8(t);
        },
    }
}

proof fn lemma_arg_round_trip(a: ArgView, rest: Seq<u8>)
    requires
        valid_arg(a),
    ensures
        decode_arg(arg_bytes(a) + rest) == Some((a, arg_bytes(a).len())),
{
    let b = arg_bytes(a) + rest;
    match a {
        ArgView::Imm(v) => {
            lemma_value_round_trip(v, rest);
            assert(b.drop_first() =~= value_bytes(v) + rest);
        },
        _ => {},
    }
}

proof fn lemma_operands_round_trip(o: OperandsView, rest: Seq<u8>)
    requires
        valid_operands(o),
    ensures
        decode_operands(o.shape(), operand_bytes(o) + rest) == Some((o, operand_bytes(o).len())),
{
    let b = operand_bytes(o) + rest;
    match o {
        OperandsView::NoArg => {},
        OperandsView::U8(x) => {},
        OperandsView::I32(x) => {
            lemma_le32(x as u32);
            lemma_i32_u32(x);
            assert(b.subrange(0, 4) =~= le32(x as u32));
        },
        OperandsView::U32(x) => {
            lemma_le32(x);
            assert(b.subrange(0, 4) =~= le32(x));
        },
        OperandsView::Bool(x) => {},
        OperandsView::Arg(a) => {
            lemma_arg_round_trip(a, rest);
        },
        OperandsView::Arg2(a, c) => {
            let n = arg_bytes(a).len();
            lemma_arg_round_trip(a, arg_bytes(c) + rest);
            assert(b =~= arg_bytes(a) + (arg_bytes(c) + rest));
            assert(b.skip(n as int) =~= arg_bytes(c) + rest);
            lemma_arg_round_trip(c, rest);
        },
    }
}

proof fn lemma_op_round_trip(v: OpView, rest: Seq<u8>)
    requires
        valid_op(v),
    ensures
        decode_op(op_bytes(v) + rest) == Some((v, op_bytes(v).len())),
{
    let b = op_bytes(v) + rest;
    lemma_operands_round_trip(v.args, rest);
    assert(b.drop_first() =~= operand_bytes(v.args) + rest);
}

/// Decoding the bytes of a program whose instructions are valid gives that
/// program back.
pub proof fn lemma_program_round_trip(vs: Seq<OpView>)
    requires
        forall|i: int| 0 <= i < vs.len() ==> valid_op(#[trigger] vs[i]),
    ensures
        decode_program(program_bytes(vs)) == Some(vs),
    decreases vs.len(),
{
    if vs.len() > 0 {
        let rest = vs.drop_first();
        let b = program_bytes(vs);
        lemma_op_round_trip(vs[0], program_bytes(rest));
        assert(b.skip(op_bytes(vs[0]).len() as int) =~= program_bytes(rest));
        assert forall|i: int| 0 <= i < rest.len() implies valid_op(#[trigger] rest[i]) by {
            assert(rest[i] == vs[i + 1]);
        }
        lemma_program_round_trip(rest);
        assert(seq![vs[0]] + rest =~= vs);
    }
}

proof fn lemma_le32_of_bytes(b: Seq<u8>)
    requires
        b.len() == 4,
    ensures
        le32(from_le32(b)) == b,
{
    let (b0, b1, b2, b3) = (b[0] as int, b[1] as int, b[2] as int, b[3] as int);
    let x = b0 + b1 * 0x100 + b2 * 0x1_0000 + b3 * 0x100_0000;
    assert(0 <= x < 0x1_0000_0000) by (nonlinear_arith)
        requires
            0 <= b0 < 0x100,
            0 <= b1 < 0x100,
            0 <= b2 < 0x100,
            0 <= b3 < 0x100,
            x == b0 + b1 * 0x100 + b2 * 0x1_0000 + b3 * 0x100_0000,
    ;
    assert(x % 0x100 == b0 && (x / 0x100) % 0x100 == b1 && (x / 0x1_0000) % 0x100 == b2 && x
        / 0x100_0000 == b3) by (nonlinear_arith)
        requires
            0 <= b0 < 0x100,
            0 <= b1 < 0x100,
            0 <= b2 < 0x100,
            0 <= b3 < 0x100,
            x == b0 + b1 * 0x100 + b2 * 0x1_0000 + b3 * 0x100_0000,
    ;
    assert(le32(from_le32(b)) =~= b);
}

proof fn lemma_u32_i32(x: u32)
    ensures
        (x as i32) as u32 == x,
{
    assert((x as i32) as u32 == x) by (bit_vector);
}

proof fn lemma_value_decoded(b: Seq<u8>)
    requires
        decode_value(b) is Some,
    ensures
        ({
            let (v, n) = decode_value(b)->0;
            n <= b.len() && b.subrange(0, n as int) == value_bytes(v) && valid_value(v)
        }),
{
    let (v, n) = decode_value(b)->0;
    if b[0] == 0x01 {
        assert(b.subrange(0, 2) =~= value_bytes(v));
    } else if 0x02 <= b[0] <= 0x04 {
        let w = b.subrange(1, 5);
        lemma_le32_of_bytes(w);
        lemma_u32_i32(from_le32(w));
        assert(b.subrange(0, 5) =~= seq![b[0]] + w);
    } else {
        let w = b.subrange(1, 5);
        let k = from_le32(w);
        let payload = b.subrange(5, 5 + k);
        lemma_le32_of_bytes(w);
        vstd::utf8::decode_utf8_encode_utf8(payload);
        assert(b.subrange(0, n as int) =~= seq![0x05u8] + w + payload);
    }
}

proof fn lemma_arg_decoded(b: Seq<u8>)
    requires
        decode_arg(b) is Some,
    ensures
        ({
            let (a, n) = decode_arg(b)->0;
            n <= b.len() && b.subrange(0, n as int) == arg_bytes(a) && valid_arg(a)
        }),
{
    let (a, n) = decode_arg(b)->0;
    if b[0] == 0xFF {
        let rest = b.drop_first();
        lemma_value_decoded(rest);
        let (v, m) = decode_value(rest)->0;
        assert(b.subrange(0, n as int) =~= seq![0xFFu8] + rest.subrange(0, m as int));
    } else {
        assert(b.subrange(0, 1) =~= seq![b[0]]);
    }
}

proof fn lemma_op_decoded(b: Seq<u8>)
    requires
        decode_op(b) is Some,
    ensures
        ({
            let (v, n) = decode_op(b)->0;
            1 <= n <= b.len() && b.subrange(0, n as int) == op_bytes(v) && valid_op(v)
        }),
{
    let (v, n) = decode_op(b)->0;
    let rest = b.drop_first();
    let shape = AoOpCode::id_shape(b[0])->0;
    let (o, m) = decode_operands(shape, rest)->0;
    if shape == 0 {
        assert(b.subrange(0, 1) =~= op_bytes(v));
    } else if shape == 1 || shape == 4 {
        assert(b.subrange(0, 2) =~= op_bytes(v));
    } else if shape == 2 || shape == 3 {
        let w = rest.subrange(0, 4);
        lemma_le32_of_bytes(w);
        lemma_u32_i32(from_le32(w));
        assert(b.subrange(0, 5) =~= seq![b[0]] + w);
    } else if shape == 5 {
        lemma_arg_decoded(rest);
        assert(b.subrange(0, n as int) =~= seq![b[0]] + rest.subrange(0, m as int));
    } else {
        lemma_arg_decoded(rest);
        let (a, k) = decode_arg(rest)->0;
        let tail = rest.skip(k as int);
        lemma_arg_decoded(tail);
        let (c, j) = decode_arg(tail)->0;
        assert(rest.subrange(0, m as int) =~= rest.subrange(0, k as int) + tail.subrange(
            0,
            j as int,
        ));
        assert(b.subrange(0, n as int) =~= seq![b[0]] + rest.subrange(0, m as int));
    }
}

/// Whatever decodes is the encoding of what it decodes to, and of valid
/// instructions only: together with the round trip, encoding is a bijection
/// between programs and the streams that decode.
pub proof fn lemma_decoded_program_encodes_back(b: Seq<u8>)
    requires
        decode_program(b) is Some,
    ensures
        program_bytes(decode_program(b)->0) == b,
        forall|i: int|
            0 <= i < decode_program(b)->0.len() ==> valid_op(#[trigger] decode_program(b)->0[i]),
    decreases b.len(),
{
    if b.len() > 0 {
        let (v, n) = decode_op(b)->0;
        lemma_op_decoded(b);
        let tail = b.skip(n as int);
        lemma_decoded_program_encodes_back(tail);
        let rest = decode_program(tail)->0;
        let vs = decode_program(b)->0;
        assert(vs == seq![v] + rest);
        assert(vs.drop_first() =~= rest);
        assert(b =~= b.subrange(0, n as int) + tail);
        assert forall|i: int| 0 <= i < vs.len() implies valid_op(#[trigger] vs[i]) by {
            if i > 0 {
                assert(vs[i] == rest[i - 1]);
            }
        }
    } else {
        assert(decode_program(b)->0 =~= Seq::<OpView>::empty());
    }
}

/// The views of a program's instructions.
pub open spec fn program_view(p: Seq<AoOpCode>) -> Seq<OpView> {
    p.map_values(|op: AoOpCode| op.view_op())
}

proof fn lemma_program_bytes_push(vs: Seq<OpView>, v: OpView)
    ensures
        program_bytes(vs.push(v)) == program_bytes(vs) + op_bytes(v),
    decreases vs.len(),
{
    if vs.len() == 0 {
        assert(vs.push(v).drop_first() =~= Seq::<OpView>::empty());
        assert(vs.push(v)[0] == v);
        assert(program_bytes(vs.push(v).drop_first()) == Seq::<u8>::empty());
        assert(program_bytes(vs.push(v)) =~= op_bytes(v));
    } else {
        assert(vs.push(v).drop_first() =~= vs.drop_first().push(v));
        lemma_program_bytes_push(vs.drop_first(), v);
        assert(program_bytes(vs.push(v)) =~= program_bytes(vs) + op_bytes(v));
    }
}

/// Relies on `String::from_utf8`: it succeeds exactly on valid UTF-8, and the
/// string then holds the characters those bytes encode.
#[verifier::external_body]
fn string_from_utf8(bytes: Vec<u8>) -> (r: Option<String>)
    ensures
        r is Some <==> valid_utf8(bytes@),
        r matches Some(s) ==> s@ == decode_utf8(bytes@),
{
    String::from_utf8(bytes).ok()
}

fn push_le32(out: &mut Vec<u8>, x: u32)
    ensures
        final(out)@ == old(out)@ + le32(x),
{
    out.push((x % 0x100) as u8);
    out.push(((x / 0x100) % 0x100) as u8);
    out.push(((x / 0x1_0000) % 0x100) as u8);
    out.push((x / 0x100_0000) as u8);
    assert(final(out)@ =~= old(out)@ + le32(x));
}

fn read_le32(b: &[u8], off: usize) -> (r: u32)
    requires
        off + 4 <= b@.len(),
    ensures
        r == from_le32(b@.subrange(off as int, off + 4)),
{
    let v: u64 = b[off] as u64 + b[off + 1] as u64 * 0x100 + b[off + 2] as u64 * 0x1_0000
        + b[off + 3] as u64 * 0x100_0000;
    v as u32
}

/// Serializer for programs: records back to back, as `program_bytes` lays
/// them out.
pub struct AoAsmSerializer;

impl AoAsmSerializer {
    fn serialize_type(value: &AoType, out: &mut Vec<u8>)
        ensures
            final(out)@ == old(out)@ + value_bytes(value_view(*value)),
    {
        match value {
            AoType::AoBool(b) => {
                out.push(0x01);
                out.push(if *b { 0x01 } else { 0x00 });
                assert(final(out)@ =~= old(out)@ + value_bytes(value_view(*value)));
            },
            AoType::AoInt(i) => {
                out.push(0x02);
                push_le32(out, *i as u32);
                assert(final(out)@ =~= old(out)@ + value_bytes(value_view(*value)));
            },
            AoType::AoFloat(f) => {
                out.push(0x03);
                push_le32(out, *f);
                assert(final(out)@ =~= old(out)@ + value_bytes(value_view(*value)));
            },
            AoType::AoPtr(p) => {
                out.push(0x04);
                push_le32(out, *p);
                assert(final(out)@ =~= old(out)@ + value_bytes(value_view(*value)));
            },
            AoType::AoString(s) => {
                let bytes = s.as_str().as_bytes();
                out.push(0x05);
                push_le32(out, bytes.len() as u32);
                let ghost start = out@;
                let mut i: usize = 0;
                while i < bytes.len()
                    invariant
                        i <= bytes@.len(),
                        out@ == start + bytes@.subrange(0, i as int),
                    decreases bytes@.len() - i,
                {
                    out.push(bytes[i]);
                    i = i + 1;
                    assert(out@ =~= start + bytes@.subrange(0, i as int));
                }
                assert(bytes@.subrange(0, i as int) =~= bytes@);
                assert(final(out)@ =~= old(out)@ + value_bytes(value_view(*value)));
            },
        }
    }

    fn serialize_arg(value: &AoArg, out: &mut Vec<u8>)
        requires
            has_record(arg_view(*value)),
        ensures
            final(out)@ == old(out)@ + arg_bytes(arg_view(*value)),
    {
        let tag: u8 = match value {
            AoArg::PC => 0x01,
            AoArg::DP => 0x02,
            AoArg::MP => 0x03,
            AoArg::DSB => 0x11,
            AoArg::DST => 0x12,
            AoArg::CA => 0x21,
            AoArg::DS => 0xE1,
            AoArg::MEM => 0xE2,
            _ => 0xFF,
        };
        out.push(tag);
        match value {
            AoArg::Imm(v) => {
                AoAsmSerializer::serialize_type(v, out);
            },
            _ => {},
        }
        assert(final(out)@ =~= old(out)@ + arg_bytes(arg_view(*value)));
    }

    fn serialize_opcode(opcode: &AoOpCode, out: &mut Vec<u8>)
        requires
            operands_have_records(opcode.view_op().args),
        ensures
            final(out)@ == old(out)@ + op_bytes(opcode.view_op()),
    {
        out.push(opcode.get_id());
        match opcode.get_args() {
            OpcodeArgType::NoArg => {},
            OpcodeArgType::u8(v) => {
                out.push(v);
            },
            OpcodeArgType::i32(v) => {
                push_le32(out, v as u32);
            },
            OpcodeArgType::u32(v) => {
                push_le32(out, v);
            },
            OpcodeArgType::bool(v) => {
                out.push(if v { 0x01 } else { 0x00 });
            },
            OpcodeArgType::AoArg(a) => {
                AoAsmSerializer::serialize_arg(&a, out);
            },
            OpcodeArgType::AoArg2(a, b) => {
                AoAsmSerializer::serialize_arg(&a, out);
                AoAsmSerializer::serialize_arg(&b, out);
            },
        }
        assert(final(out)@ =~= old(out)@ + op_bytes(opcode.view_op()));
    }

    /// The bytes of a program (see `program_bytes`), for a program whose
    /// operands all have records (none is `cb`).
    pub fn serialize(program: &[AoOpCode]) -> (r: Vec<u8>)
        requires
            forall|i: int|
                0 <= i < program@.len() ==> operands_have_records(#[trigger] program@[i].view_op().args),
        ensures
            r@ == program_bytes(program_view(program@)),
    {
        let mut result: Vec<u8> = Vec::new();
        let mut i: usize = 0;
        while i < program.len()
            invariant
                i <= program@.len(),
                forall|j: int|
                    0 <= j < program@.len() ==> operands_have_records(
                        #[trigger] program@[j].view_op().args,
                    ),
                result@ == program_bytes(program_view(program@.subrange(0, i as int))),
            decreases program@.len() - i,
        {
            AoAsmSerializer::serialize_opcode(&program[i], &mut result);
            proof {
                let pre = program_view(program@.subrange(0, i as int));
                assert(program_view(program@.subrange(0, i + 1)) =~= pre.push(program@[i as int].view_op()));
                lemma_program_bytes_push(pre, program@[i as int].view_op());
            }
            i = i + 1;
        }
        assert(program@.subrange(0, i as int) =~= program@);
        result
    }

    fn deserialize_type(bin: &[u8], offset: usize) -> (r: Option<(AoType, usize)>)
        requires
            offset <= bin@.len(),
        ensures
            match decode_value(bin@.skip(offset as int)) {
                Some((v, n)) => r matches Some((x, next)) && value_view(x) == v && next == offset
                    + n,
                None => r is None,
            },
    {
        let ghost b = bin@.skip(offset as int);
        let len = bin.len();
        if offset >= len {
            return None;
        }
        let tag = bin[offset];
        if tag == 0x01 {
            if len - offset >= 2 && bin[offset + 1] <= 1 {
                Some((AoType::AoBool(bin[offset + 1] == 1), offset + 2))
            } else {
                None
            }
        } else if 0x02 <= tag && tag <= 0x05 {
            if len - offset < 5 {
                return None;
            }
            let x = read_le32(bin, offset + 1);
            assert(b.subrange(1, 5) =~= bin@.subrange(offset + 1, offset + 5));
            if tag == 0x02 {
                Some((AoType::AoInt(x as i32), offset + 5))
            } else if tag == 0x03 {
                Some((AoType::AoFloat(x), offset + 5))
            } else if tag == 0x04 {
                Some((AoType::AoPtr(x), offset + 5))
            } else {
                let n = x as usize;
                if n > len - offset - 5 {
                    return None;
                }
                let start = offset + 5;
                let end = start + n;
                let mut bytes: Vec<u8> = Vec::new();
                let mut i: usize = start;
                while i < end
                    invariant
                        start <= i <= end,
                        end == start + n,
                        end <= bin@.len(),
                        bytes@ == bin@.subrange(start as int, i as int),
                    decreases end - i,
                {
                    bytes.push(bin[i]);
                    i = i + 1;
                    assert(bytes@ =~= bin@.subrange(start as int, i as int));
                }
                assert(b.subrange(5, 5 + n) =~= bytes@);
                match string_from_utf8(bytes) {
                    Some(text) => Some((AoType::AoString(text), start + n)),
                    None => None,
                }
            }
        } else {
            None
        }
    }

    fn deserialize_arg(bin: &[u8], offset: usize) -> (r: Option<(AoArg, usize)>)
        requires
            offset <= bin@.len(),
        ensures
            match decode_arg(bin@.skip(offset as int)) {
                Some((a, n)) => r matches Some((x, next)) && arg_view(x) == a && next == offset
                    + n,
                None => r is None,
            },
    {
        let ghost b = bin@.skip(offset as int);
        if offset >= bin.len() {
            return None;
        }
        let tag = bin[offset];
        let next = offset + 1;
        if tag == 0xFF {
            assert(b.drop_first() =~= bin@.skip(next as int));
            match AoAsmSerializer::deserialize_type(bin, next) {
                Some((v, after)) => Some((AoArg::Imm(v), after)),
                None => None,
            }
        } else if tag == 0x01 {
            Some((AoArg::PC, next))
        } else if tag == 0x02 {
            Some((AoArg::DP, next))
        } else if tag == 0x03 {
            Some((AoArg::MP, next))
        } else if tag == 0x11 {
            Some((AoArg::DSB, next))
        } else if tag == 0x12 {
            Some((AoArg::DST, next))
        } else if tag == 0x21 {
            Some((AoArg::CA, next))
        } else if tag == 0xE1 {
            Some((AoArg::DS, next))
        } else if tag == 0xE2 {
            Some((AoArg::MEM, next))
        } else {
            None
        }
    }

    #[verifier::rlimit(60)]
    fn deserialize_opcode(bin: &[u8], offset: usize) -> (r: Option<(AoOpCode, usize)>)
        requires
            offset <= bin@.len(),
        ensures
            match decode_op(bin@.skip(offset as int)) {
                Some((v, n)) => r matches Some((op, next)) && op.view_op() == v && next == offset
                    + n && offset < next <= bin@.len(),
                None => r is None,
            },
    {
        let ghost b = bin@.skip(offset as int);
        let len = bin.len();
        if offset >= len {
            return None;
        }
        let id = bin[offset];
        let mut opcode = match create_opcode_by_id(id) {
            Some(op) => op,
            None => return None,
        };
        let next = offset + 1;
        let ghost rest = bin@.skip(next as int);
        assert(b.drop_first() =~= rest);
        let args = match opcode.get_args() {
            OpcodeArgType::NoArg => Some((OpcodeArgType::NoArg, next)),
            OpcodeArgType::u8(_) => if next < len {
                Some((OpcodeArgType::u8(bin[next]), next + 1))
            } else {
                None
            },
            OpcodeArgType::i32(_) => if len - next >= 4 {
                let x = read_le32(bin, next);
                assert(rest.subrange(0, 4) =~= bin@.subrange(next as int, next + 4));
                Some((OpcodeArgType::i32(x as i32), next + 4))
            } else {
                None
            },
            OpcodeArgType::u32(_) => if len - next >= 4 {
                let x = read_le32(bin, next);
                assert(rest.subrange(0, 4) =~= bin@.subrange(next as int, next + 4));
                Some((OpcodeArgType::u32(x), next + 4))
            } else {
                None
            },
            OpcodeArgType::bool(_) => if next < len && bin[next] <= 1 {
                Some((OpcodeArgType::bool(bin[next] == 1), next + 1))
            } else {
                None
            },
            OpcodeArgType::AoArg(_) => match AoAsmSerializer::deserialize_arg(bin, next) {
                Some((a, after)) => Some((OpcodeArgType::AoArg(a), after)),
                None => None,
            },
            OpcodeArgType::AoArg2(_, _) => match AoAsmSerializer::deserialize_arg(bin, next) {
                Some((a, mid)) => {
                    proof {
                        let n1 = (mid - next) as nat;
                        assert(rest.skip(n1 as int) =~= bin@.skip(mid as int));
                    }
                    match AoAsmSerializer::deserialize_arg(bin, mid) {
                        Some((c, after)) => Some((OpcodeArgType::AoArg2(a, c), after)),
                        None => None,
                    }
                },
                None => None,
            },
        };
        match args {
            Some((a, after)) => {
                opcode.set_args(a);
                Some((opcode, after))
            },
            None => None,
        }
    }

    /// The program whose bytes `value` holds (see `decode_program`), or `None`
    /// where it holds none. A flag byte (a Bool value or the operand of `pop`)
    /// must be 0 or 1: another byte is refused rather than read as true, so
    /// that every stream that decodes is exactly the encoding of its result.
    pub fn deserialize(value: &[u8]) -> (r: Option<Vec<AoOpCode>>)
        ensures
            match decode_program(value@) {
                Some(vs) => r matches Some(p) && program_view(p@) == vs,
                None => r is None,
            },
    {
        let mut result: Vec<AoOpCode> = Vec::new();
        let mut offset: usize = 0;
        proof {
            assert(value@.skip(0) =~= value@);
            match decode_program(value@) {
                Some(vs) => {
                    assert(program_view(result@) + vs =~= vs);
                },
                None => {},
            }
        }
        while offset < value.len()
            invariant
                offset <= value@.len(),
                decode_program(value@) == match decode_program(value@.skip(offset as int)) {
                    Some(rest) => Some(program_view(result@) + rest),
                    None => None,
                },
            decreases value@.len() - offset,
        {
            let ghost b = value@.skip(offset as int);
            match AoAsmSerializer::deserialize_opcode(value, offset) {
                Some((op, next)) => {
                    proof {
                        let n = (next - offset) as int;
                        assert(b.skip(n) =~= value@.skip(next as int));
                        let v = op.view_op();
                        assert(program_view(result@.push(op)) =~= program_view(result@).push(v));
                        match decode_program(value@.skip(next as int)) {
                            Some(rest) => {
                                assert(program_view(result@).push(v) + rest =~= program_view(
                                    result@,
                                ) + (seq![v] + rest));
                            },
                            None => {},
                        }
                    }
                    result.push(op);
                    offset = next;
                },
                None => {
                    return None;
                },
            }
        }
        proof {
            assert(value@.skip(offset as int) =~= Seq::<u8>::empty());
            assert(program_view(result@) + Seq::<OpView>::empty() =~= program_view(result@));
        }
        Some(result)
    }
}

} // verus!
