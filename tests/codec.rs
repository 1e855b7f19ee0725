use aoi::args::{AoArg, AoArgLowerCase};
use aoi::host::{AoFloatOp, AoHost};
use aoi::opcode::{create_opcode_by_id, AoOpCode, OpcodeArgType};
use aoi::serialization::AoAsmSerializer;
use aoi::types::AoType;

struct TextHost;

impl AoHost for TextHost {
    fn spec_float_arith(&self, op: AoFloatOp, left: u32, right: u32) -> u32 {
        self.float_arith(op, left, right)
    }

    fn spec_float_text(&self, bits: u32) -> String {
        self.float_text(bits)
    }

    fn spec_float_parse(&self, text: String) -> Option<u32> {
        self.float_parse(&text)
    }

    fn interrupt(&mut self, _id: u8, _args: Vec<AoType>) -> Option<AoType> {
        None
    }

    fn float_arith(&self, _op: AoFloatOp, left: u32, _right: u32) -> u32 {
        left
    }

    fn float_text(&self, bits: u32) -> String {
        f32::from_bits(bits).to_string()
    }

    fn float_parse(&self, text: &String) -> Option<u32> {
        text.parse::<f32>().ok().map(|f| f.to_bits())
    }
}

fn imm(v: AoType) -> AoArg {
    AoArg::Imm(v)
}

fn every_instruction() -> Vec<AoOpCode> {
    let s = |t: &str| imm(AoType::AoString(t.to_string()));
    vec![
        AoOpCode::NOP,
        AoOpCode::CALL(0xDEAD_BEEF),
        AoOpCode::RET,
        AoOpCode::JMP(-3),
        AoOpCode::JMPA(7),
        AoOpCode::JT(i32::MIN),
        AoOpCode::JTA(u32::MAX),
        AoOpCode::JF(i32::MAX),
        AoOpCode::JFA(0),
        AoOpCode::MOV(AoArg::DS, AoArg::MEM),
        AoOpCode::MOV(AoArg::CA, imm(AoType::AoFloat(1.5f32.to_bits()))),
        AoOpCode::INT(255),
        AoOpCode::PUSH(s("Hello Aoi!")),
        AoOpCode::PUSH(s("")),
        AoOpCode::PUSH(s("héllo ✓")),
        AoOpCode::POP(true),
        AoOpCode::POP(false),
        AoOpCode::ADD(imm(AoType::AoInt(-1))),
        AoOpCode::SUB(imm(AoType::AoPtr(9))),
        AoOpCode::MUL(imm(AoType::AoBool(true))),
        AoOpCode::DIV(imm(AoType::AoBool(false))),
        AoOpCode::REM(AoArg::PC),
        AoOpCode::INC,
        AoOpCode::DEC,
        AoOpCode::SHL(AoArg::DP),
        AoOpCode::SHR(AoArg::MP),
        AoOpCode::AND(AoArg::DSB),
        AoOpCode::OR(AoArg::DST),
        AoOpCode::XOR(AoArg::CA),
        AoOpCode::NOT,
        AoOpCode::BAND(AoArg::DP),
        AoOpCode::BOR(AoArg::DS),
        AoOpCode::BXOR(AoArg::MEM),
        AoOpCode::BNOT,
        AoOpCode::EQU(AoArg::CA),
        AoOpCode::NEQ(AoArg::CA),
        AoOpCode::GT(AoArg::CA),
        AoOpCode::LT(AoArg::CA),
        AoOpCode::GE(AoArg::CA),
        AoOpCode::LE(AoArg::CA),
        AoOpCode::CSI,
        AoOpCode::CSF,
        AoOpCode::CSP,
        AoOpCode::CSS,
        AoOpCode::ISB,
        AoOpCode::ISI,
        AoOpCode::ISF,
        AoOpCode::ISP,
        AoOpCode::ISS,
        AoOpCode::ARG(3),
        AoOpCode::CNF(2),
    ]
}

#[test]
fn round_trip_of_every_instruction() {
    let program = every_instruction();
    let bytes = AoAsmSerializer::serialize(&program);
    assert_eq!(AoAsmSerializer::deserialize(&bytes), Some(program));
}

#[test]
fn round_trip_of_empty_program() {
    assert!(AoAsmSerializer::serialize(&[]).is_empty());
    assert_eq!(AoAsmSerializer::deserialize(&[]), Some(vec![]));
}

fn bytes_of(op: AoOpCode) -> Vec<u8> {
    AoAsmSerializer::serialize(&[op])
}

#[test]
fn serializer_layout_per_operand_shape() {
    assert_eq!(bytes_of(AoOpCode::NOP), vec![0x00]);
    assert_eq!(bytes_of(AoOpCode::RET), vec![0x11]);
    assert_eq!(bytes_of(AoOpCode::CALL(0x0102_0304)), vec![0x10, 4, 3, 2, 1]);
    assert_eq!(bytes_of(AoOpCode::JMP(-1)), vec![0x12, 0xFF, 0xFF, 0xFF, 0xFF]);
    assert_eq!(bytes_of(AoOpCode::JMPA(2)), vec![0x13, 2, 0, 0, 0]);
    assert_eq!(bytes_of(AoOpCode::JT(1)), vec![0x14, 1, 0, 0, 0]);
    assert_eq!(bytes_of(AoOpCode::JTA(1)), vec![0x15, 1, 0, 0, 0]);
    assert_eq!(bytes_of(AoOpCode::JF(1)), vec![0x16, 1, 0, 0, 0]);
    assert_eq!(bytes_of(AoOpCode::JFA(1)), vec![0x17, 1, 0, 0, 0]);
    assert_eq!(bytes_of(AoOpCode::INT(7)), vec![0x21, 7]);
    assert_eq!(bytes_of(AoOpCode::POP(true)), vec![0x23, 0x01]);
    assert_eq!(bytes_of(AoOpCode::POP(false)), vec![0x23, 0x00]);
    assert_eq!(bytes_of(AoOpCode::ARG(1)), vec![0x70, 1, 0, 0, 0]);
    assert_eq!(bytes_of(AoOpCode::CNF(256)), vec![0x71, 0, 1, 0, 0]);
    assert_eq!(bytes_of(AoOpCode::MOV(AoArg::DS, AoArg::CA)), vec![0x20, 0xE1, 0x21]);
    assert_eq!(bytes_of(AoOpCode::MOV(AoArg::MEM, AoArg::DS)), vec![0x20, 0xE2, 0xE1]);
    assert_eq!(bytes_of(AoOpCode::PUSH(AoArg::PC)), vec![0x22, 0x01]);
    assert_eq!(bytes_of(AoOpCode::PUSH(AoArg::DP)), vec![0x22, 0x02]);
    assert_eq!(bytes_of(AoOpCode::PUSH(AoArg::MP)), vec![0x22, 0x03]);
    assert_eq!(bytes_of(AoOpCode::PUSH(AoArg::DSB)), vec![0x22, 0x11]);
    assert_eq!(bytes_of(AoOpCode::PUSH(AoArg::DST)), vec![0x22, 0x12]);
    assert_eq!(
        bytes_of(AoOpCode::PUSH(imm(AoType::AoBool(true)))),
        vec![0x22, 0xFF, 0x01, 0x01]
    );
    assert_eq!(
        bytes_of(AoOpCode::ADD(imm(AoType::AoInt(5)))),
        vec![0x30, 0xFF, 0x02, 5, 0, 0, 0]
    );
    let mut float = vec![0x31, 0xFF, 0x03];
    float.extend_from_slice(&1.5f32.to_le_bytes());
    assert_eq!(bytes_of(AoOpCode::SUB(imm(AoType::AoFloat(1.5f32.to_bits())))), float);
    assert_eq!(
        bytes_of(AoOpCode::MUL(imm(AoType::AoPtr(0x0A0B0C0D)))),
        vec![0x32, 0xFF, 0x04, 0x0D, 0x0C, 0x0B, 0x0A]
    );
    assert_eq!(
        bytes_of(AoOpCode::PUSH(imm(AoType::AoString("Hé".to_string())))),
        vec![0x22, 0xFF, 0x05, 3, 0, 0, 0, b'H', 0xC3, 0xA9]
    );
    assert_eq!(bytes_of(AoOpCode::CSS), vec![0x64]);
    assert_eq!(bytes_of(AoOpCode::ISS), vec![0x6C]);
    assert_eq!(bytes_of(AoOpCode::BNOT), vec![0x47]);
}

#[test]
fn records_are_concatenated() {
    let program = vec![AoOpCode::INT(1), AoOpCode::NOP, AoOpCode::PUSH(AoArg::CA)];
    assert_eq!(AoAsmSerializer::serialize(&program), vec![0x21, 1, 0x00, 0x22, 0x21]);
}

#[test]
fn malformed_streams_are_refused() {
    assert_eq!(AoAsmSerializer::deserialize(&[0x99]), None);
    assert_eq!(AoAsmSerializer::deserialize(&[0x00, 0x18]), None);
    assert_eq!(AoAsmSerializer::deserialize(&[0x10, 1, 2]), None);
    assert_eq!(AoAsmSerializer::deserialize(&[0x21]), None);
    assert_eq!(AoAsmSerializer::deserialize(&[0x22, 0x07]), None);
    assert_eq!(AoAsmSerializer::deserialize(&[0x22]), None);
    assert_eq!(AoAsmSerializer::deserialize(&[0x22, 0xFF, 0x09]), None);
    assert_eq!(AoAsmSerializer::deserialize(&[0x22, 0xFF, 0x02, 1, 2]), None);
    assert_eq!(AoAsmSerializer::deserialize(&[0x22, 0xFF, 0x05, 2, 0, 0, 0, b'a']), None);
    assert_eq!(
        AoAsmSerializer::deserialize(&[0x22, 0xFF, 0x05, 1, 0, 0, 0, 0xFF]),
        None
    );
    assert_eq!(AoAsmSerializer::deserialize(&[0x23, 0x02]), None);
    assert_eq!(AoAsmSerializer::deserialize(&[0x22, 0xFF, 0x01, 0x05]), None);
    assert_eq!(AoAsmSerializer::deserialize(&[0x20, 0x21]), None);
    assert_eq!(AoAsmSerializer::deserialize(&[0x22, 0x22]), None);
    assert_eq!(AoAsmSerializer::deserialize(&[0x20, 0x21, 0x22]), None);
}

#[test]
fn deserialize_reads_exact_records() {
    let bytes = [0x22, 0xFF, 0x05, 2, 0, 0, 0, b'o', b'k', 0x70, 4, 0, 0, 0];
    assert_eq!(
        AoAsmSerializer::deserialize(&bytes),
        Some(vec![
            AoOpCode::PUSH(imm(AoType::AoString("ok".to_string()))),
            AoOpCode::ARG(4),
        ])
    );
}

#[test]
fn opcode_ids_and_operands() {
    assert_eq!(AoOpCode::MOV(AoArg::CA, AoArg::DS).get_id(), 0x20);
    assert_eq!(AoOpCode::ISS.get_id(), 0x6C);
    assert!(matches!(AoOpCode::JMP(-2).get_args(), OpcodeArgType::i32(-2)));
    assert!(matches!(AoOpCode::NOP.get_args(), OpcodeArgType::NoArg));
    let mut op = create_opcode_by_id(0x22).unwrap();
    assert_eq!(op, AoOpCode::PUSH(AoArg::CA));
    op.set_args(OpcodeArgType::AoArg(AoArg::MEM));
    assert_eq!(op, AoOpCode::PUSH(AoArg::MEM));
    op.set_args(OpcodeArgType::u32(3));
    assert_eq!(op, AoOpCode::PUSH(AoArg::MEM));
    assert_eq!(create_opcode_by_id(0x71), Some(AoOpCode::CNF(0)));
    assert_eq!(create_opcode_by_id(0x23), Some(AoOpCode::POP(false)));
    assert_eq!(create_opcode_by_id(0x18), None);
    assert_eq!(create_opcode_by_id(0x65), None);
}

#[test]
fn disassembly_text() {
    let host = TextHost;
    let t = |op: AoOpCode| op.text(&host);
    assert_eq!(t(AoOpCode::MOV(AoArg::CA, AoArg::DS)), "mov ca,ds");
    assert_eq!(t(AoOpCode::PUSH(imm(AoType::AoString("Hello".to_string())))), "push \"Hello\"");
    assert_eq!(t(AoOpCode::POP(true)), "pop ca");
    assert_eq!(t(AoOpCode::POP(false)), "pop");
    assert_eq!(t(AoOpCode::JMP(-3)), "jmp -3");
    assert_eq!(t(AoOpCode::JMPA(12)), "jmpa 12");
    assert_eq!(t(AoOpCode::CALL(3)), "call 3");
    assert_eq!(t(AoOpCode::INT(1)), "int 1");
    assert_eq!(t(AoOpCode::PUSH(imm(AoType::AoFloat(1.5f32.to_bits())))), "push 1.5f");
    assert_eq!(t(AoOpCode::ADD(imm(AoType::AoPtr(7)))), "add 7p");
    assert_eq!(t(AoOpCode::LE(imm(AoType::AoInt(-10)))), "le -10");
    assert_eq!(t(AoOpCode::EQU(imm(AoType::AoBool(false)))), "equ false");
    assert_eq!(t(AoOpCode::MOV(AoArg::MEM, AoArg::CB)), "mov mem,cb");
    assert_eq!(t(AoOpCode::ADD(imm(AoType::AoFloat(0.25f32.to_bits())))), "add 0.25f");
    assert_eq!(t(AoOpCode::MOV(AoArg::DSB, AoArg::DST)), "mov dsb,dst");
    assert_eq!(t(AoOpCode::MOV(AoArg::MP, AoArg::PC)), "mov mp,pc");
    assert_eq!(t(AoOpCode::PUSH(AoArg::DP)), "push dp");
    assert_eq!(t(AoOpCode::CSS), "css");
    assert_eq!(t(AoOpCode::CNF(1)), "cnf 1");
    assert_eq!(t(AoOpCode::BNOT), "bnot");
}

#[test]
fn lower_case_operand_names() {
    assert_eq!(AoArgLowerCase::pc.to_aoarg(), AoArg::PC);
    assert_eq!(AoArgLowerCase::dsb.to_aoarg(), AoArg::DSB);
    assert_eq!(AoArgLowerCase::mem.to_aoarg(), AoArg::MEM);
    assert_eq!(
        AoArgLowerCase::imm(AoType::AoInt(4)).to_aoarg(),
        AoArg::Imm(AoType::AoInt(4))
    );
}
