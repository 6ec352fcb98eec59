use brainfuck::{
    collapse, convert, render, Action, CellSize, Command, EofBehavior, Error, Runner,
    Specifications, C_PRELUDE,
};

fn specs(cell_bits: CellSize, eof_behavior: EofBehavior) -> Specifications {
    Specifications { cell_bits, eof_behavior }
}

#[test]
fn runs_collapse_to_net_commands() {
    let s = specs(CellSize::U8, EofBehavior::Zero);
    let cmds = collapse(b"+++--><<<,.[+-]", &s);
    assert_eq!(
        cmds,
        vec![
            Command::Increase(1),
            Command::MoveRight(-2),
            Command::GetChar(EofBehavior::Zero),
            Command::PutChar(CellSize::U8),
            Command::StartWhile,
            Command::Increase(0),
            Command::EndWhile,
        ]
    );
}

#[test]
fn collapse_of_empty_stream() {
    let s = specs(CellSize::U16, EofBehavior::Neg1);
    assert_eq!(collapse(b"", &s), vec![]);
    assert_eq!(collapse(b",", &s), vec![Command::GetChar(EofBehavior::Neg1)]);
}

#[test]
fn command_lines() {
    let s = specs(CellSize::U32, EofBehavior::NoChange);
    let text = render(
        &vec![
            Command::Increase(-12),
            Command::MoveRight(305),
            Command::GetChar(EofBehavior::NoChange),
            Command::PutChar(CellSize::U32),
            Command::StartWhile,
            Command::EndWhile,
        ],
        &s,
    );
    let expected_tail = "int main() {\nuint32_t *ptr = buf;\nint c;\nM1(-12)\nM2(305)\nM3(*ptr)\nM4(printU32)\nM5\nM6\n\nreturn 0;\n}\n";
    assert!(text.starts_with(C_PRELUDE));
    assert!(text.ends_with(expected_tail));
    assert!(text.contains("\nuint32_t buf[0xffff];\n"));
}

#[test]
fn eof_codes_in_read_macro() {
    for (e, code) in [(EofBehavior::Zero, "M3(0)"), (EofBehavior::Neg1, "M3(-1)"), (EofBehavior::NoChange, "M3(*ptr)")] {
        let text = convert(",", &specs(CellSize::U8, e)).unwrap();
        assert!(text.contains(&format!("\n{code}\n")));
    }
}

#[test]
fn print_macro_per_width() {
    for (w, name, ty) in [
        (CellSize::U8, "printU8", "uint8_t"),
        (CellSize::U16, "printU16", "uint16_t"),
        (CellSize::U32, "printU32", "uint32_t"),
        (CellSize::U64, "printU64", "uint64_t"),
    ] {
        let text = convert(".", &specs(w, EofBehavior::Zero)).unwrap();
        assert!(text.contains(&format!("\nM4({name})\n")));
        assert!(text.contains(&format!("\n{ty} buf[0xffff];\n")));
        assert!(text.contains(&format!("\n{ty} *ptr = buf;\n")));
    }
}

#[test]
fn convert_whole_program() {
    let text = convert("a++b+[->.<]c", &specs(CellSize::U8, EofBehavior::Zero)).unwrap();
    let expected = format!(
        "{C_PRELUDE}\nuint8_t buf[0xffff];\nint main() {{\nuint8_t *ptr = buf;\nint c;\nM1(3)\nM5\nM1(-1)\nM2(1)\nM4(printU8)\nM2(-1)\nM6\n\nreturn 0;\n}}\n"
    );
    assert_eq!(text, expected);
}

#[test]
fn convert_rejects_unbalanced() {
    assert_eq!(convert("[[]", &specs(CellSize::U8, EofBehavior::Zero)), Err(Error::UnpairedBrackets));
    assert_eq!(convert("]", &specs(CellSize::U8, EofBehavior::Zero)), Err(Error::UnpairedBrackets));
}

#[test]
fn extreme_counts_render() {
    let s = specs(CellSize::U64, EofBehavior::Zero);
    let text = render(&vec![Command::Increase(i128::MIN), Command::MoveRight(i128::MAX), Command::Increase(0)], &s);
    assert!(text.contains("\nM1(-170141183460469231731687303715884105728)\nM2(170141183460469231731687303715884105727)\nM1(0)\n"));
}

/// Runs collapsed commands the way the emitted macros do: wrapping adds,
/// cursor moves, reads, prints, and while loops.
fn run_commands(cmds: &[Command], input: &[u8]) -> Vec<u8> {
    let mut tape = vec![0u8; 30000];
    let mut ptr: usize = 0;
    let mut pc = 0;
    let mut input = input.iter();
    let mut out = Vec::new();
    while pc < cmds.len() {
        match cmds[pc] {
            Command::Increase(n) => tape[ptr] = (tape[ptr] as i128).wrapping_add(n) as u8,
            Command::MoveRight(n) => ptr = (ptr as i128 + n) as usize,
            Command::GetChar(e) => {
                tape[ptr] = match input.next() {
                    Some(b) => *b,
                    None => match e {
                        EofBehavior::Zero => 0,
                        EofBehavior::Neg1 => 255,
                        EofBehavior::NoChange => tape[ptr],
                    },
                }
            }
            Command::PutChar(_) => out.push(tape[ptr]),
            Command::StartWhile => {
                if tape[ptr] == 0 {
                    let mut depth = 0;
                    loop {
                        match cmds[pc] {
                            Command::StartWhile => depth += 1,
                            Command::EndWhile => {
                                depth -= 1;
                                if depth == 0 {
                                    break;
                                }
                            }
                            _ => {}
                        }
                        pc += 1;
                    }
                }
            }
            Command::EndWhile => {
                if tape[ptr] != 0 {
                    let mut depth = 0;
                    loop {
                        match cmds[pc] {
                            Command::EndWhile => depth += 1,
                            Command::StartWhile => {
                                depth -= 1;
                                if depth == 0 {
                                    break;
                                }
                            }
                            _ => {}
                        }
                        pc -= 1;
                    }
                }
            }
        }
        pc += 1;
    }
    out
}

fn interpret(src: &str, input: &[u8], eof: EofBehavior) -> Vec<u8> {
    let mut runner = Runner::<u8>::new(src, eof).unwrap();
    let mut input = input.iter();
    let mut out = Vec::new();
    loop {
        match runner.step().unwrap() {
            Action::Continue => {}
            Action::Input => runner.provide_input(input.next().copied()),
            Action::Output(b) => out.extend_from_slice(&b),
            Action::Halt => return out,
        }
    }
}

#[test]
fn collapsed_program_matches_interpreter() {
    let corpus = [
        "++++++++[>++++[>++>+++>+++>+<<<<-]>+>+>->>+[<]<-]>>.>---.+++++++..+++.>>.<-.<.+++.------.--------.>>+.>++.",
        "+++[>++++[>+++++<-]<-]>>.",
        ",+-+.>,<>-.",
        "--[>+<++]>.",
        ",,,.",
    ];
    for src in corpus {
        for eof in [EofBehavior::Zero, EofBehavior::Neg1, EofBehavior::NoChange] {
            let s = specs(CellSize::U8, eof);
            let code = brainfuck::minimize(src);
            let cmds = collapse(code.as_bytes(), &s);
            let input = b"ab";
            assert_eq!(run_commands(&cmds, input), interpret(src, input, eof), "{src}");
        }
    }
    // Echo until end of input; stops only when the read stores zero.
    let s = specs(CellSize::U8, EofBehavior::Zero);
    let cmds = collapse(b",[.,]", &s);
    assert_eq!(run_commands(&cmds, b"xyz"), interpret(",[.,]", b"xyz", EofBehavior::Zero));
    assert_eq!(run_commands(&cmds, b"xyz"), b"xyz".to_vec());
}
