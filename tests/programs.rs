use aoi::args::AoArg;
use aoi::host::{AoFloatOp, AoHost};
use aoi::opcode::AoOpCode;
use aoi::status::AoStatus;
use aoi::types::AoType;
use aoi::vm::AoVM;

/// Records interrupts; 1 writes its argument, 2 writes it with a newline.
struct RecordingHost {
    out: String,
    calls: Vec<(u8, Vec<AoType>)>,
    reply: Option<AoType>,
}

impl RecordingHost {
    fn new() -> RecordingHost {
        RecordingHost { out: String::new(), calls: Vec::new(), reply: None }
    }
}

fn raw(v: &AoType) -> String {
    match v {
        AoType::AoBool(b) => b.to_string(),
        AoType::AoInt(i) => i.to_string(),
        AoType::AoFloat(f) => f32::from_bits(*f).to_string(),
        AoType::AoString(s) => s.clone(),
        AoType::AoPtr(_) => String::new(),
    }
}

impl AoHost for RecordingHost {
    fn spec_float_arith(&self, op: AoFloatOp, left: u32, right: u32) -> u32 {
        self.float_arith(op, left, right)
    }

    fn spec_float_text(&self, bits: u32) -> String {
        self.float_text(bits)
    }

    fn spec_float_parse(&self, text: String) -> Option<u32> {
        self.float_parse(&text)
    }

    fn interrupt(&mut self, id: u8, args: Vec<AoType>) -> Option<AoType> {
        match id {
            1 => {
                if let Some(v) = args.first() {
                    self.out.push_str(&raw(v));
                }
            }
            2 => {
                if let Some(v) = args.first() {
                    self.out.push_str(&raw(v));
                }
                self.out.push('\n');
            }
            _ => {}
        }
        self.calls.push((id, args));
        self.reply.clone()
    }

    fn float_arith(&self, op: AoFloatOp, left: u32, right: u32) -> u32 {
        let (l, r) = (f32::from_bits(left), f32::from_bits(right));
        let v = match op {
            AoFloatOp::Add => l + r,
            AoFloatOp::Sub => l - r,
            AoFloatOp::Mul => l * r,
            AoFloatOp::Div => l / r,
            AoFloatOp::Rem => l % r,
        };
        v.to_bits()
    }

    fn float_text(&self, bits: u32) -> String {
        f32::from_bits(bits).to_string()
    }

    fn float_parse(&self, text: &String) -> Option<u32> {
        text.parse::<f32>().ok().map(|f| f.to_bits())
    }
}

fn imm_int(i: i32) -> AoArg {
    AoArg::Imm(AoType::AoInt(i))
}

fn ptr(p: u32) -> AoArg {
    AoArg::Imm(AoType::AoPtr(p))
}

fn text(s: &str) -> AoArg {
    AoArg::Imm(AoType::AoString(s.to_string()))
}

fn fl(f: f32) -> AoType {
    AoType::AoFloat(f.to_bits())
}

fn vm() -> AoVM<RecordingHost> {
    AoVM::new(RecordingHost::new())
}

#[test]
fn hello_aoi() {
    let mut vm = vm();
    let program = vec![
        AoOpCode::PUSH(AoArg::DSB),
        AoOpCode::PUSH(text("Hello Aoi!")),
        AoOpCode::CNF(1),
        AoOpCode::INT(1),
    ];
    let status = vm.run(&program);
    assert_eq!(status, AoStatus::Exit);
    assert_eq!(vm.host.out, "Hello Aoi!");
    assert_eq!(vm.ds.len(), 0);
    assert_eq!(vm.dsb, 0);
    assert_eq!(vm.pc, 4);
}

fn sum_program(relative: bool) -> Vec<AoOpCode> {
    vec![
        /*  0 */ AoOpCode::PUSH(imm_int(1)),
        /*  1 */ AoOpCode::PUSH(imm_int(0)),
        /*  2 */ AoOpCode::ARG(0),
        /*  3 */ AoOpCode::MOV(AoArg::CA, AoArg::DS),
        /*  4 */ AoOpCode::LE(imm_int(10)),
        /*  5 */ if relative { AoOpCode::JF(10) } else { AoOpCode::JFA(15) },
        /*  6 */ AoOpCode::MOV(AoArg::CA, AoArg::DS),
        /*  7 */ AoOpCode::ARG(1),
        /*  8 */ AoOpCode::ADD(AoArg::DS),
        /*  9 */ AoOpCode::MOV(AoArg::DS, AoArg::CA),
        /* 10 */ AoOpCode::ARG(0),
        /* 11 */ AoOpCode::MOV(AoArg::CA, AoArg::DS),
        /* 12 */ AoOpCode::INC,
        /* 13 */ AoOpCode::MOV(AoArg::DS, AoArg::CA),
        /* 14 */ if relative { AoOpCode::JMP(-12) } else { AoOpCode::JMPA(2) },
        /* 15 */ AoOpCode::PUSH(AoArg::DSB),
        /* 16 */ AoOpCode::ARG(1),
        /* 17 */ AoOpCode::PUSH(AoArg::DS),
        /* 18 */ AoOpCode::CNF(1),
        /* 19 */ AoOpCode::INT(2),
    ]
}

#[test]
fn single_step() {
    let mut vm = vm();
    let program = sum_program(false);
    let mut steps = 0;
    loop {
        let pc = vm.pc;
        assert!((pc as usize) < program.len() || vm.step(&program) == AoStatus::Exit);
        if pc as usize >= program.len() {
            break;
        }
        let status = vm.step(&program);
        assert_eq!(status, AoStatus::Success);
        steps += 1;
        assert!(steps < 1000);
    }
    assert_eq!(vm.host.calls, vec![(2u8, vec![AoType::AoInt(55)])]);
    assert_eq!(vm.host.out, "55\n");
    assert_eq!(vm.ds, vec![AoType::AoInt(11), AoType::AoInt(55)]);
    assert_eq!(vm.dsb, 0);
}

#[test]
fn sum_one_to_ten_with_relative_jumps() {
    let mut vm = vm();
    let status = vm.run(&sum_program(true));
    assert_eq!(status, AoStatus::Exit);
    assert_eq!(vm.host.calls, vec![(2u8, vec![AoType::AoInt(55)])]);
}

#[test]
fn bubble_sort() {
    let mut vm = vm();
    let program = vec![
        /*   0 */ AoOpCode::MOV(AoArg::MP, ptr(0)),
        /*   1 */ AoOpCode::MOV(AoArg::MEM, imm_int(3)),
        /*   2 */ AoOpCode::MOV(AoArg::MP, ptr(1)),
        /*   3 */ AoOpCode::MOV(AoArg::MEM, imm_int(19)),
        /*   4 */ AoOpCode::MOV(AoArg::MP, ptr(2)),
        /*   5 */ AoOpCode::MOV(AoArg::MEM, imm_int(5)),
        /*   6 */ AoOpCode::MOV(AoArg::MP, ptr(3)),
        /*   7 */ AoOpCode::MOV(AoArg::MEM, imm_int(15)),
        /*   8 */ AoOpCode::MOV(AoArg::MP, ptr(4)),
        /*   9 */ AoOpCode::MOV(AoArg::MEM, imm_int(1)),
        /*  10 */ AoOpCode::MOV(AoArg::MP, ptr(5)),
        /*  11 */ AoOpCode::MOV(AoArg::MEM, imm_int(4)),
        /*  12 */ AoOpCode::MOV(AoArg::MP, ptr(6)),
        /*  13 */ AoOpCode::MOV(AoArg::MEM, imm_int(16)),
        /*  14 */ AoOpCode::MOV(AoArg::MP, ptr(7)),
        /*  15 */ AoOpCode::MOV(AoArg::MEM, imm_int(8)),
        /*  16 */ AoOpCode::PUSH(imm_int(8)),
        /*  17 */ AoOpCode::PUSH(imm_int(0)),
        /*  18 */ AoOpCode::ARG(1),
        /*  19 */ AoOpCode::MOV(AoArg::CA, AoArg::DS),
        /*  20 */ AoOpCode::ADD(imm_int(1)),
        /*  21 */ AoOpCode::ARG(0),
        /*  22 */ AoOpCode::LT(AoArg::DS),
        /*  23 */ AoOpCode::JFA(80),
        /*  24 */ AoOpCode::PUSH(imm_int(0)),
        /*  25 */ AoOpCode::ARG(2),
        /*  26 */ AoOpCode::MOV(AoArg::CA, AoArg::DS),
        /*  27 */ AoOpCode::ADD(imm_int(1)),
        /*  28 */ AoOpCode::ARG(1),
        /*  29 */ AoOpCode::ADD(AoArg::DS),
        /*  30 */ AoOpCode::ARG(0),
        /*  31 */ AoOpCode::LT(AoArg::DS),
        /*  32 */ AoOpCode::JFA(74),
        /*  33 */ AoOpCode::ARG(2),
        /*  34 */ AoOpCode::MOV(AoArg::CA, AoArg::DS),
        /*  35 */ AoOpCode::CSP,
        /*  36 */ AoOpCode::MOV(AoArg::MP, AoArg::CA),
        /*  37 */ AoOpCode::PUSH(AoArg::MEM),
        /*  38 */ AoOpCode::ADD(imm_int(1)),
        /*  39 */ AoOpCode::MOV(AoArg::MP, AoArg::CA),
        /*  40 */ AoOpCode::PUSH(AoArg::MEM),
        /*  41 */ AoOpCode::MOV(AoArg::CA, AoArg::DST),
        /*  42 */ AoOpCode::SUB(imm_int(2)),
        /*  43 */ AoOpCode::MOV(AoArg::DP, AoArg::CA),
        /*  44 */ AoOpCode::POP(true),
        /*  45 */ AoOpCode::LT(AoArg::DS),
        /*  46 */ AoOpCode::POP(false),
        /*  47 */ AoOpCode::JFA(69),
        /*  48 */ AoOpCode::ARG(2),
        /*  49 */ AoOpCode::MOV(AoArg::CA, AoArg::DS),
        /*  50 */ AoOpCode::ADD(imm_int(1)),
        /*  51 */ AoOpCode::CSP,
        /*  52 */ AoOpCode::MOV(AoArg::MP, AoArg::CA),
        /*  53 */ AoOpCode::PUSH(AoArg::MEM),
        /*  54 */ AoOpCode::ARG(2),
        /*  55 */ AoOpCode::MOV(AoArg::CA, AoArg::DS),
        /*  56 */ AoOpCode::CSP,
        /*  57 */ AoOpCode::MOV(AoArg::MP, AoArg::CA),
        /*  58 */ AoOpCode::PUSH(AoArg::MEM),
        /*  59 */ AoOpCode::ADD(imm_int(1)),
        /*  60 */ AoOpCode::MOV(AoArg::MP, AoArg::CA),
        /*  61 */ AoOpCode::POP(true),
        /*  62 */ AoOpCode::MOV(AoArg::MEM, AoArg::CA),
        /*  63 */ AoOpCode::ARG(2),
        /*  64 */ AoOpCode::MOV(AoArg::CA, AoArg::DS),
        /*  65 */ AoOpCode::CSP,
        /*  66 */ AoOpCode::MOV(AoArg::MP, AoArg::CA),
        /*  67 */ AoOpCode::POP(true),
        /*  68 */ AoOpCode::MOV(AoArg::MEM, AoArg::CA),
        /*  69 */ AoOpCode::ARG(2),
        /*  70 */ AoOpCode::MOV(AoArg::CA, AoArg::DS),
        /*  71 */ AoOpCode::ADD(imm_int(1)),
        /*  72 */ AoOpCode::MOV(AoArg::DS, AoArg::CA),
        /*  73 */ AoOpCode::JMPA(25),
        /*  74 */ AoOpCode::POP(false),
        /*  75 */ AoOpCode::ARG(1),
        /*  76 */ AoOpCode::MOV(AoArg::CA, AoArg::DS),
        /*  77 */ AoOpCode::ADD(imm_int(1)),
        /*  78 */ AoOpCode::MOV(AoArg::DS, AoArg::CA),
        /*  79 */ AoOpCode::JMPA(18),
        /*  80 */ AoOpCode::POP(false),
        /*  81 */ AoOpCode::PUSH(imm_int(0)),
        /*  82 */ AoOpCode::ARG(1),
        /*  83 */ AoOpCode::MOV(AoArg::CA, AoArg::DS),
        /*  84 */ AoOpCode::ARG(0),
        /*  85 */ AoOpCode::LT(AoArg::DS),
        /*  86 */ AoOpCode::JFA(103),
        /*  87 */ AoOpCode::PUSH(AoArg::DSB),
        /*  88 */ AoOpCode::ARG(1),
        /*  89 */ AoOpCode::MOV(AoArg::CA, AoArg::DS),
        /*  90 */ AoOpCode::CSP,
        /*  91 */ AoOpCode::MOV(AoArg::MP, AoArg::CA),
        /*  92 */ AoOpCode::MOV(AoArg::CA, AoArg::MEM),
        /*  93 */ AoOpCode::CSS,
        /*  94 */ AoOpCode::ADD(text(", ")),
        /*  95 */ AoOpCode::PUSH(AoArg::CA),
        /*  96 */ AoOpCode::CNF(1),
        /*  97 */ AoOpCode::INT(1),
        /*  98 */ AoOpCode::ARG(1),
        /*  99 */ AoOpCode::MOV(AoArg::CA, AoArg::DS),
        /* 100 */ AoOpCode::ADD(imm_int(1)),
        /* 101 */ AoOpCode::MOV(AoArg::DS, AoArg::CA),
        /* 102 */ AoOpCode::JMPA(82),
        /* 103 */ AoOpCode::POP(false),
    ];
    let status = vm.run(&program);
    assert_eq!(status, AoStatus::Exit);
    assert_eq!(vm.host.out, "1, 3, 4, 5, 8, 15, 16, 19, ");
    for (i, v) in [1, 3, 4, 5, 8, 15, 16, 19].iter().enumerate() {
        assert_eq!(vm.mem.get(i as u32), AoType::AoInt(*v));
    }
}

#[test]
fn cast_chain_int_to_float_to_string() {
    let mut vm = vm();
    let program = vec![
        AoOpCode::PUSH(imm_int(42)),
        AoOpCode::POP(true),
        AoOpCode::CSF,
        AoOpCode::CSS,
    ];
    assert_eq!(vm.run(&program), AoStatus::Exit);
    assert_eq!(vm.ca, AoType::AoString("42".to_string()));
}

#[test]
fn int_division_by_zero_stops_the_program() {
    let mut vm = vm();
    let program = vec![AoOpCode::PUSH(imm_int(1)), AoOpCode::POP(true), AoOpCode::DIV(imm_int(0))];
    assert_eq!(
        vm.run(&program),
        AoStatus::InvalidOperation("1 / 0".to_string())
    );
    assert_eq!(vm.ca, AoType::AoInt(1));
    assert_eq!(vm.pc, 3);
}

#[test]
fn frame_unwind_under_interrupt() {
    let mut vm = vm();
    vm.host.reply = Some(AoType::AoInt(99));
    let program = vec![
        AoOpCode::PUSH(ptr(7)),
        AoOpCode::PUSH(imm_int(1)),
        AoOpCode::PUSH(imm_int(2)),
        AoOpCode::CNF(2),
        AoOpCode::INT(5),
    ];
    assert_eq!(vm.run(&program), AoStatus::Exit);
    assert_eq!(vm.host.calls, vec![(5u8, vec![AoType::AoInt(1), AoType::AoInt(2)])]);
    assert_eq!(vm.ca, AoType::AoInt(99));
    // the frame-base slot ds[0] held 7p: it is restored into dsb and dropped
    assert_eq!(vm.ds.len(), 0);
    assert_eq!(vm.dsb, 7);
}

#[test]
fn interrupt_sequence_restores_stack_and_frame() {
    let mut vm = vm();
    vm.push(AoType::AoInt(10));
    vm.push(AoType::AoPtr(0));
    vm.push(AoType::AoInt(20));
    vm.dsb = 2;
    let before = vm.ds.clone();
    let program = vec![
        AoOpCode::PUSH(AoArg::DSB),
        AoOpCode::PUSH(text("a")),
        AoOpCode::PUSH(imm_int(3)),
        AoOpCode::PUSH(AoArg::CA),
        AoOpCode::CNF(3),
        AoOpCode::INT(9),
    ];
    assert_eq!(vm.run(&program), AoStatus::Exit);
    assert_eq!(vm.ds, before);
    assert_eq!(vm.dsb, 2);
    assert_eq!(vm.host.calls[0].1.len(), 3);
}

#[test]
fn interrupt_zero_exits_without_touching_the_stack() {
    let mut vm = vm();
    let program = vec![AoOpCode::PUSH(imm_int(1)), AoOpCode::INT(0), AoOpCode::PUSH(imm_int(2))];
    assert_eq!(vm.run(&program), AoStatus::Exit);
    assert_eq!(vm.ds, vec![AoType::AoInt(1)]);
    assert_eq!(vm.pc, 2);
    assert!(vm.host.calls.is_empty());
}

#[test]
fn call_and_ret_follow_the_frame_protocol() {
    let mut vm = vm();
    let program = vec![
        /* 0 */ AoOpCode::PUSH(AoArg::DSB),
        /* 1 */ AoOpCode::PUSH(imm_int(5)),
        /* 2 */ AoOpCode::CNF(1),
        /* 3 */ AoOpCode::CALL(6),
        /* 4 */ AoOpCode::MOV(AoArg::CB, AoArg::CA),
        /* 5 */ AoOpCode::JMPA(100),
        /* 6 */ AoOpCode::ARG(0),
        /* 7 */ AoOpCode::MOV(AoArg::CA, AoArg::DS),
        /* 8 */ AoOpCode::MUL(imm_int(3)),
        /* 9 */ AoOpCode::RET,
    ];
    assert_eq!(vm.run(&program), AoStatus::Exit);
    assert_eq!(vm.cb, AoType::AoInt(15));
    assert_eq!(vm.ds.len(), 0);
    assert_eq!(vm.dsb, 0);
    assert!(vm.cs.is_empty());
}

#[test]
fn status_errors() {
    let mut vm = vm();
    assert_eq!(vm.run(&[AoOpCode::RET]), AoStatus::CallStackUnderflow);

    let mut vm2 = self::vm();
    assert_eq!(vm2.run(&[AoOpCode::POP(false)]), AoStatus::DataStackUnderflow);

    let mut vm3 = self::vm();
    assert!(matches!(
        vm3.run(&[AoOpCode::MOV(AoArg::PC, imm_int(1))]),
        AoStatus::SetValueInvalidType(_)
    ));

    let mut vm4 = self::vm();
    assert_eq!(
        vm4.run(&[AoOpCode::MOV(AoArg::DST, AoArg::CA)]),
        AoStatus::SetValueInvalidTarget("cannot set DST".to_string())
    );
    let mut vm5 = self::vm();
    assert_eq!(
        vm5.run(&[AoOpCode::MOV(imm_int(1), AoArg::CA)]),
        AoStatus::SetValueInvalidTarget("cannot set immediate value".to_string())
    );

    let mut vm6 = self::vm();
    vm6.host.reply = Some(AoType::AoInt(4));
    assert_eq!(vm6.run(&[AoOpCode::INT(1)]), AoStatus::BadDataStack);
    assert_eq!(vm6.host.calls, vec![(1u8, vec![])]);
    assert_eq!(vm6.ca, AoType::AoInt(4));

    let mut vm6b = self::vm();
    vm6b.dsb = 1;
    assert_eq!(vm6b.run(&[AoOpCode::INT(1)]), AoStatus::BadDataStack);
    assert!(vm6b.host.calls.is_empty());

    let mut vm7 = self::vm();
    let program = vec![AoOpCode::PUSH(imm_int(1)), AoOpCode::CNF(1), AoOpCode::RET];
    assert_eq!(vm7.run(&program), AoStatus::CallStackUnderflow);

    let mut vm8 = self::vm();
    let program = vec![AoOpCode::PUSH(imm_int(1)), AoOpCode::CNF(1), AoOpCode::CALL(3), AoOpCode::RET];
    assert_eq!(vm8.run(&program), AoStatus::BadDataStack);

    let mut vm9 = self::vm();
    assert_eq!(vm9.run(&[AoOpCode::MOV(AoArg::CA, AoArg::DS)]), AoStatus::DataStackUnderflow);

    let mut vm10 = self::vm();
    assert_eq!(vm10.run(&[AoOpCode::CNF(1)]), AoStatus::DataStackUnderflow);

    let mut vm11 = self::vm();
    assert_eq!(
        vm11.run(&[AoOpCode::NOT]),
        AoStatus::InvalidOperation("!0".to_string())
    );
    let mut vm12 = self::vm();
    assert_eq!(
        vm12.run(&[AoOpCode::LT(text("x"))]),
        AoStatus::InvalidOperation("0 < \"x\"".to_string())
    );
}

#[test]
fn call_stack_overflow() {
    let mut vm = vm();
    assert_eq!(vm.run(&[AoOpCode::CALL(0)]), AoStatus::CallStackOverflow);
    assert_eq!(vm.cs.len(), 100_000);
}

#[test]
fn data_stack_overflow() {
    let mut vm = vm();
    let program = vec![AoOpCode::PUSH(AoArg::CA), AoOpCode::JMPA(0)];
    assert_eq!(vm.run(&program), AoStatus::DataStackOverflow);
    assert_eq!(vm.ds.len(), 1_000_001);
}

fn run_on(ca: AoType, program: &[AoOpCode]) -> (AoStatus, AoType) {
    let mut vm = vm();
    vm.ca = ca;
    let status = vm.run(program);
    (status, vm.ca)
}

#[test]
fn casts_follow_the_table() {
    let s = |t: &str| AoType::AoString(t.to_string());
    assert_eq!(run_on(AoType::AoBool(true), &[AoOpCode::CSI]).1, AoType::AoInt(1));
    assert_eq!(run_on(fl(3.9), &[AoOpCode::CSI]).1, AoType::AoInt(3));
    assert_eq!(run_on(AoType::AoPtr(u32::MAX), &[AoOpCode::CSI]).1, AoType::AoInt(-1));
    assert_eq!(run_on(s("-12"), &[AoOpCode::CSI]).1, AoType::AoInt(-12));
    assert_eq!(run_on(s("+7"), &[AoOpCode::CSI]).1, AoType::AoInt(7));
    assert_eq!(run_on(s("abc"), &[AoOpCode::CSI]).1, AoType::AoInt(0));
    assert_eq!(run_on(s("2147483648"), &[AoOpCode::CSI]).1, AoType::AoInt(0));
    assert_eq!(run_on(s("-2147483648"), &[AoOpCode::CSI]).1, AoType::AoInt(i32::MIN));
    assert_eq!(run_on(AoType::AoBool(false), &[AoOpCode::CSF]).1, fl(0.0));
    assert_eq!(run_on(AoType::AoInt(-3), &[AoOpCode::CSF]).1, fl(-3.0));
    assert_eq!(run_on(s("2.5"), &[AoOpCode::CSF]).1, fl(2.5));
    assert_eq!(run_on(s("x"), &[AoOpCode::CSF]).1, fl(0.0));
    assert_eq!(run_on(AoType::AoInt(-1), &[AoOpCode::CSP]).1, AoType::AoPtr(u32::MAX));
    assert_eq!(run_on(s("-1"), &[AoOpCode::CSP]).1, AoType::AoPtr(0));
    assert_eq!(run_on(s("4294967295"), &[AoOpCode::CSP]).1, AoType::AoPtr(u32::MAX));
    assert_eq!(run_on(AoType::AoBool(true), &[AoOpCode::CSS]).1, s("true"));
    assert_eq!(run_on(AoType::AoInt(-305), &[AoOpCode::CSS]).1, s("-305"));
    assert_eq!(run_on(AoType::AoPtr(7), &[AoOpCode::CSS]).1, s("7"));
    assert_eq!(run_on(fl(1.5), &[AoOpCode::CSS]).1, s("1.5"));
}

#[test]
fn int_text_reads_back() {
    for i in [0, 7, -7, 123456, i32::MAX, i32::MIN] {
        let (_, ca) = run_on(AoType::AoInt(i), &[AoOpCode::CSS, AoOpCode::CSI]);
        assert_eq!(ca, AoType::AoInt(i));
    }
    for i in [0, 1, -16777216, 16777216, 12345] {
        let (_, ca) = run_on(AoType::AoInt(i), &[AoOpCode::CSF, AoOpCode::CSI]);
        assert_eq!(ca, AoType::AoInt(i));
    }
}

#[test]
fn exactly_one_type_predicate_holds() {
    let values = [
        AoType::AoBool(false),
        AoType::AoInt(3),
        fl(0.5),
        AoType::AoPtr(9),
        AoType::AoString("s".to_string()),
    ];
    let preds = [AoOpCode::ISB, AoOpCode::ISI, AoOpCode::ISF, AoOpCode::ISP, AoOpCode::ISS];
    for (k, v) in values.iter().enumerate() {
        let mut count = 0;
        for (j, p) in preds.iter().enumerate() {
            let (_, ca) = run_on(v.clone(), &[p.clone()]);
            if ca == AoType::AoBool(true) {
                count += 1;
                assert_eq!(j, k);
            } else {
                assert_eq!(ca, AoType::AoBool(false));
            }
        }
        assert_eq!(count, 1);
    }
}

#[test]
fn comparisons() {
    let s = |t: &str| AoType::AoString(t.to_string());
    let b = AoType::AoBool;
    assert_eq!(run_on(s("abc"), &[AoOpCode::GT(text("abd"))]).1, b(false));
    assert_eq!(run_on(s("abc"), &[AoOpCode::LT(text("abd"))]).1, b(true));
    assert_eq!(run_on(s("ab"), &[AoOpCode::LT(text("abc"))]).1, b(true));
    assert_eq!(run_on(s("b"), &[AoOpCode::GE(text("abc"))]).1, b(true));
    assert_eq!(run_on(AoType::AoInt(3), &[AoOpCode::LE(imm_int(3))]).1, b(true));
    assert_eq!(run_on(AoType::AoPtr(3), &[AoOpCode::GT(ptr(2))]).1, b(true));
    assert_eq!(run_on(AoType::AoBool(false), &[AoOpCode::LT(AoArg::Imm(b(true)))]).1, b(true));
    assert_eq!(run_on(fl(-0.0), &[AoOpCode::EQU(AoArg::Imm(fl(0.0)))]).1, b(true));
    assert_eq!(run_on(fl(f32::NAN), &[AoOpCode::EQU(AoArg::Imm(fl(f32::NAN)))]).1, b(false));
    assert_eq!(run_on(fl(f32::NAN), &[AoOpCode::NEQ(AoArg::Imm(fl(f32::NAN)))]).1, b(true));
    assert_eq!(run_on(fl(f32::NAN), &[AoOpCode::GE(AoArg::Imm(fl(1.0)))]).1, b(false));
    assert_eq!(run_on(fl(-2.0), &[AoOpCode::LT(AoArg::Imm(fl(-1.0)))]).1, b(true));
    assert_eq!(run_on(AoType::AoInt(1), &[AoOpCode::EQU(ptr(1))]).1, b(false));
    assert_eq!(run_on(AoType::AoInt(1), &[AoOpCode::NEQ(ptr(1))]).1, b(true));
    assert_eq!(run_on(AoType::AoPtr(4), &[AoOpCode::EQU(ptr(4))]).1, b(true));
    assert!(matches!(
        run_on(AoType::AoInt(1), &[AoOpCode::GT(ptr(1))]).0,
        AoStatus::InvalidOperation(_)
    ));
}

#[test]
fn logic_and_bit_operations() {
    let b = AoType::AoBool;
    assert_eq!(run_on(b(true), &[AoOpCode::AND(AoArg::Imm(b(false)))]).1, b(false));
    assert_eq!(run_on(b(true), &[AoOpCode::OR(AoArg::Imm(b(false)))]).1, b(true));
    assert_eq!(run_on(b(true), &[AoOpCode::XOR(AoArg::Imm(b(true)))]).1, b(false));
    assert_eq!(run_on(b(true), &[AoOpCode::NOT]).1, b(false));
    assert_eq!(run_on(AoType::AoInt(5), &[AoOpCode::BNOT]).1, AoType::AoInt(-6));
    assert_eq!(
        run_on(AoType::AoInt(1), &[AoOpCode::AND(AoArg::Imm(b(true)))]).0,
        AoStatus::InvalidOperation("1 && true".to_string())
    );
    assert_eq!(
        run_on(AoType::AoPtr(1), &[AoOpCode::BNOT]).0,
        AoStatus::InvalidOperation("~1p".to_string())
    );
    assert_eq!(run_on(AoType::AoInt(i32::MAX), &[AoOpCode::INC]).1, AoType::AoInt(i32::MIN));
    assert_eq!(run_on(fl(1.5), &[AoOpCode::DEC]).1, fl(0.5));
    assert_eq!(
        run_on(AoType::AoBool(true), &[AoOpCode::INC]).0,
        AoStatus::InvalidOperation("inc true".to_string())
    );
}

#[test]
fn jumps_test_truthiness() {
    let program = |ca: AoType| {
        let mut vm = vm();
        vm.ca = ca;
        let p = vec![
            AoOpCode::JT(2),
            AoOpCode::MOV(AoArg::CB, imm_int(1)),
            AoOpCode::NOP,
        ];
        vm.run(&p);
        vm.cb
    };
    assert_eq!(program(AoType::AoBool(true)), AoType::AoInt(0));
    assert_eq!(program(AoType::AoInt(-4)), AoType::AoInt(0));
    assert_eq!(program(fl(0.25)), AoType::AoInt(0));
    assert_eq!(program(fl(-0.0)), AoType::AoInt(1));
    assert_eq!(program(AoType::AoInt(0)), AoType::AoInt(1));
    assert_eq!(program(AoType::AoPtr(5)), AoType::AoInt(1));
    assert_eq!(program(AoType::AoString("yes".to_string())), AoType::AoInt(1));

    let mut vm = vm();
    let p = vec![AoOpCode::JFA(2), AoOpCode::MOV(AoArg::CB, imm_int(1)), AoOpCode::JTA(7)];
    assert_eq!(vm.run(&p), AoStatus::Exit);
    assert_eq!(vm.cb, AoType::AoInt(0));
    assert_eq!(vm.pc, 3);
}

#[test]
fn registers_read_and_write() {
    let mut vm = vm();
    assert_eq!(AoArg::CA.get_value(&vm), Some(AoType::AoInt(0)));
    assert_eq!(AoArg::CA.set_value(&mut vm, AoType::AoPtr(0x12345678)), AoStatus::Success);
    assert_eq!(vm.ca, AoType::AoPtr(0x12345678));
    assert_eq!(AoArg::MP.set_value(&mut vm, AoType::AoPtr(70000)), AoStatus::Success);
    assert_eq!(AoArg::MEM.set_value(&mut vm, AoType::AoInt(5)), AoStatus::Success);
    assert_eq!(AoArg::MEM.get_value(&vm), Some(AoType::AoInt(5)));
    vm.push(AoType::AoInt(1));
    vm.push(AoType::AoInt(2));
    assert_eq!(AoArg::DST.get_value(&vm), Some(AoType::AoPtr(2)));
    assert_eq!(AoArg::DP.set_value(&mut vm, AoType::AoPtr(1)), AoStatus::Success);
    assert_eq!(AoArg::DS.get_value(&vm), Some(AoType::AoInt(2)));
    assert_eq!(AoArg::DP.set_value(&mut vm, AoType::AoPtr(2)), AoStatus::Success);
    assert_eq!(AoArg::DS.get_value(&vm), None);
    assert_eq!(AoArg::DS.set_value(&mut vm, AoType::AoInt(0)), AoStatus::DataStackUnderflow);
    assert_eq!(
        AoArg::DSB.set_value(&mut vm, AoType::AoInt(1)),
        AoStatus::SetValueInvalidType("cannot set DSB to non-pointer value".to_string())
    );
}

#[test]
fn push_pop_peek_and_reset() {
    let mut vm = vm();
    assert!(vm.push(AoType::AoInt(1)));
    assert!(vm.push(AoType::AoInt(2)));
    assert_eq!(vm.peek(), Some(&AoType::AoInt(2)));
    assert_eq!(vm.pop(), Some(AoType::AoInt(2)));
    assert_eq!(vm.pop(), Some(AoType::AoInt(1)));
    assert_eq!(vm.pop(), None);
    assert_eq!(vm.peek(), None);
    vm.push(AoType::AoInt(3));
    vm.mem.set(9, AoType::AoBool(true));
    vm.pc = 4;
    vm.ca = AoType::AoInt(8);
    vm.reset();
    assert_eq!(vm.pc, 0);
    assert_eq!(vm.ca, AoType::AoInt(0));
    assert!(vm.ds.is_empty());
    assert_eq!(vm.mem.get(9), AoType::AoInt(0));
}

#[test]
fn step_past_the_end_exits() {
    let mut vm = vm();
    assert_eq!(vm.step(&[]), AoStatus::Exit);
    assert_eq!(vm.pc, 0);
    let program = vec![AoOpCode::NOP];
    assert_eq!(vm.step(&program), AoStatus::Success);
    assert_eq!(vm.pc, 1);
    assert_eq!(vm.step(&program), AoStatus::Exit);
}

#[test]
fn string_addition_in_a_program() {
    let (status, ca) = run_on(
        AoType::AoString("Hello".to_string()),
        &[AoOpCode::ADD(text(", ")), AoOpCode::ADD(text("Aoi"))],
    );
    assert_eq!(status, AoStatus::Exit);
    assert_eq!(ca, AoType::AoString("Hello, Aoi".to_string()));
}

#[test]
fn float_casts_truncate_and_saturate() {
    let cases_int: [(f32, i32); 12] = [
        (3.9, 3),
        (-3.9, -3),
        (0.5, 0),
        (-0.5, 0),
        (1.0e10, i32::MAX),
        (-1.0e10, i32::MIN),
        (f32::INFINITY, i32::MAX),
        (f32::NEG_INFINITY, i32::MIN),
        (f32::NAN, 0),
        (1.0e-40, 0),
        (16777216.0, 16777216),
        (-2147483648.0, i32::MIN),
    ];
    for (f, want) in cases_int.iter() {
        assert_eq!(run_on(fl(*f), &[AoOpCode::CSI]).1, AoType::AoInt(*want), "csi {}", f);
        assert_eq!(AoType::AoInt(*f as i32), AoType::AoInt(*want));
    }
    let cases_ptr: [(f32, u32); 8] = [
        (3.9, 3),
        (-1.5, 0),
        (4.0e9, 4_000_000_000),
        (5.0e9, u32::MAX),
        (f32::INFINITY, u32::MAX),
        (f32::NEG_INFINITY, 0),
        (f32::NAN, 0),
        (8388608.5, 8388608),
    ];
    for (f, want) in cases_ptr.iter() {
        assert_eq!(run_on(fl(*f), &[AoOpCode::CSP]).1, AoType::AoPtr(*want), "csp {}", f);
        assert_eq!(*f as u32, *want);
    }
}

#[test]
fn int_to_float_rounds_to_nearest_even() {
    let mut ints: Vec<i32> = vec![
        0,
        1,
        -1,
        16_777_215,
        16_777_216,
        16_777_217,
        16_777_218,
        16_777_219,
        -16_777_217,
        i32::MAX,
        i32::MIN,
        i32::MIN + 1,
        0x7FFF_FF80,
        0x7FFF_FFC0,
    ];
    let mut x: u32 = 12345;
    for _ in 0..2000 {
        x = x.wrapping_mul(1_103_515_245).wrapping_add(12345);
        ints.push(x as i32);
        ints.push((x >> (x % 31)) as i32);
    }
    for i in ints {
        assert_eq!(run_on(AoType::AoInt(i), &[AoOpCode::CSF]).1, fl(i as f32), "csf {}", i);
        let p = i as u32;
        assert_eq!(run_on(AoType::AoPtr(p), &[AoOpCode::CSF]).1, fl(p as f32), "csf {}p", p);
    }
    assert_eq!(run_on(AoType::AoPtr(u32::MAX), &[AoOpCode::CSF]).1, fl(4294967296.0));
}

#[test]
fn finish_interrupt_keeps_or_replaces_ca() {
    let mut vm = vm();
    vm.ca = AoType::AoInt(5);
    vm.push(AoType::AoPtr(0));
    vm.push(AoType::AoInt(1));
    vm.dsb = 1;
    assert_eq!(vm.frame_args(), vec![AoType::AoInt(1)]);
    assert_eq!(vm.finish_interrupt(None), AoStatus::Success);
    assert_eq!(vm.ca, AoType::AoInt(5));
    assert!(vm.ds.is_empty());
    assert_eq!(vm.dsb, 0);

    vm.push(AoType::AoPtr(3));
    vm.dsb = 1;
    assert_eq!(vm.finish_interrupt(Some(AoType::AoBool(true))), AoStatus::Success);
    assert_eq!(vm.ca, AoType::AoBool(true));
    assert_eq!(vm.dsb, 3);

    vm.push(AoType::AoInt(3));
    vm.dsb = 1;
    assert_eq!(vm.finish_interrupt(Some(AoType::AoInt(0))), AoStatus::BadDataStack);
    assert_eq!(vm.ca, AoType::AoInt(0));
    assert_eq!(vm.ds, vec![AoType::AoInt(3)]);
}
