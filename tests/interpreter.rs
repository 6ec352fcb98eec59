use brainfuck::{Action, Cell, EofBehavior, Error, Runner};

/// Runs `src` over `input` to the end, collecting what it prints.
fn run<N: Cell>(src: &str, input: &[u8], eof: EofBehavior) -> Result<(Vec<u8>, Runner<N>), Error> {
    let mut runner = Runner::<N>::new(src, eof)?;
    let mut input = input.iter();
    let mut out = Vec::new();
    for _ in 0..10_000_000u64 {
        match runner.step()? {
            Action::Continue => {}
            Action::Input => runner.provide_input(input.next().copied()),
            Action::Output(bytes) => out.extend_from_slice(&bytes),
            Action::Halt => return Ok((out, runner)),
        }
    }
    panic!("the program did not halt");
}

fn output<N: Cell>(src: &str, input: &[u8], eof: EofBehavior) -> Result<Vec<u8>, Error> {
    run::<N>(src, input, eof).map(|(out, _)| out)
}

#[test]
fn hello_prefix() {
    let src = "++++++++[>++++[>++>+++>+++>+<<<<-]>+>+>->>+[<]<-]>>.>---.+++++++..+++.";
    assert_eq!(output::<u8>(src, b"", EofBehavior::Zero), Ok(b"Hello".to_vec()));
}

#[test]
fn hello_world() {
    let src = "++++++++[>++++[>++>+++>+++>+<<<<-]>+>+>->>+[<]<-]>>.>---.+++++++..+++.>>.<-.<.+++.------.--------.>>+.>++.";
    assert_eq!(output::<u8>(src, b"", EofBehavior::Zero), Ok(b"Hello World!\n".to_vec()));
}

#[test]
fn echo_one_byte_every_width() {
    assert_eq!(output::<u8>(",.", &[0x41], EofBehavior::Zero), Ok(vec![0x41]));
    assert_eq!(output::<u16>(",.", &[0x41], EofBehavior::Zero), Ok(vec![0x41]));
    assert_eq!(output::<u32>(",.", &[0x41], EofBehavior::Zero), Ok(vec![0x41]));
    assert_eq!(output::<u64>(",.", &[0x41], EofBehavior::Zero), Ok(vec![0x41]));
}

#[test]
fn eof_zero_stores_zero() {
    let (_, r) = run::<u8>("+++,", b"", EofBehavior::Zero).unwrap();
    assert_eq!(r.tape_ref().current(), 0);
    let (_, r) = run::<u64>("+++,", b"", EofBehavior::Zero).unwrap();
    assert_eq!(r.tape_ref().current(), 0);
}

#[test]
fn eof_neg1_stores_all_bits_set() {
    let (_, r) = run::<u8>(",", b"", EofBehavior::Neg1).unwrap();
    assert_eq!(r.tape_ref().current(), u8::MAX);
    let (_, r) = run::<u16>(",", b"", EofBehavior::Neg1).unwrap();
    assert_eq!(r.tape_ref().current(), u16::MAX);
    let (_, r) = run::<u32>(",", b"", EofBehavior::Neg1).unwrap();
    assert_eq!(r.tape_ref().current(), u32::MAX);
    let (_, r) = run::<u64>(",", b"", EofBehavior::Neg1).unwrap();
    assert_eq!(r.tape_ref().current(), u64::MAX);
}

#[test]
fn eof_no_change_keeps_cell() {
    let (_, r) = run::<u8>("+++,", b"", EofBehavior::NoChange).unwrap();
    assert_eq!(r.tape_ref().current(), 3);
    let (_, r) = run::<u32>("+++,", b"", EofBehavior::NoChange).unwrap();
    assert_eq!(r.tape_ref().current(), 3);
}

#[test]
fn input_overrides_policy() {
    let (_, r) = run::<u16>(",", &[9], EofBehavior::Neg1).unwrap();
    assert_eq!(r.tape_ref().current(), 9);
}

#[test]
fn u8_cell_wraps_in_a_run() {
    let src = "-.";
    assert_eq!(output::<u8>(src, b"", EofBehavior::Zero), Ok(vec![0xff]));
    let plus256 = "+".repeat(256) + ".";
    assert_eq!(output::<u8>(&plus256, b"", EofBehavior::Zero), Ok(vec![0]));
}

#[test]
fn empty_program_halts() {
    assert_eq!(output::<u8>("", b"", EofBehavior::Zero), Ok(vec![]));
    assert_eq!(output::<u8>("comment only", b"", EofBehavior::Zero), Ok(vec![]));
}

#[test]
fn unbalanced_program_is_rejected() {
    assert!(matches!(Runner::<u8>::new("[", EofBehavior::Zero), Err(Error::UnpairedBrackets)));
    assert!(matches!(Runner::<u8>::new("]", EofBehavior::Zero), Err(Error::UnpairedBrackets)));
    assert!(Runner::<u8>::new("[]", EofBehavior::Zero).is_ok());
}

#[test]
fn move_before_origin_is_an_error() {
    assert_eq!(output::<u8>("+.<", b"", EofBehavior::Zero), Err(Error::CursorBeforeOrigin));
}

#[test]
fn skipped_loop_jumps_past_its_close() {
    assert_eq!(output::<u8>("[.+]+.", b"", EofBehavior::Zero), Ok(vec![1]));
}

#[test]
fn nested_loops_multiply() {
    // 3 * 4 * 5 = 60 in the third cell.
    let src = "+++[>++++[>+++++<-]<-]>>.";
    assert_eq!(output::<u8>(src, b"", EofBehavior::Zero), Ok(vec![60]));
}

#[test]
fn tape_grows_and_keeps_values() {
    let far = ">".repeat(300);
    let back = "<".repeat(300);
    let src = format!("+{far}++{back}.{far}.");
    assert_eq!(output::<u8>(&src, b"", EofBehavior::Zero), Ok(vec![1, 2]));
    let (_, r) = run::<u8>(&far, b"", EofBehavior::Zero).unwrap();
    assert_eq!(r.tape_ref().position(), 300);
}

#[test]
fn wide_output_is_utf8() {
    // 233 = é
    let src = format!("{}.", "+".repeat(233));
    assert_eq!(output::<u32>(&src, b"", EofBehavior::Zero), Ok(vec![0xc3, 0xa9]));
    assert_eq!(output::<u8>(&src, b"", EofBehavior::Zero), Ok(vec![233]));
}

#[test]
fn invalid_unicode_stops_the_run() {
    assert_eq!(output::<u32>("-.", b"", EofBehavior::Zero), Err(Error::InvalidUnicode));
    assert_eq!(output::<u64>("-.", b"", EofBehavior::Zero), Err(Error::InvalidUnicode));
}

#[test]
fn surrogate_in_16_bit_run_is_unsupported() {
    let (_, mut r) = run::<u16>(",", &[0], EofBehavior::Zero).unwrap();
    assert_eq!(r.position(), 1);
    assert!(matches!(r.step(), Ok(Action::Halt)));
    let src = "-[-[-.>]]";
    // Counts down from 0xffff; the first cell printed is 0xfffd.
    assert_eq!(output::<u16>(src, b"", EofBehavior::Zero), Ok(vec![0xef, 0xbf, 0xbd]));
}

#[test]
fn step_waits_for_input() {
    let mut r = Runner::<u8>::new(",.", EofBehavior::Zero).unwrap();
    assert!(matches!(r.step(), Ok(Action::Input)));
    assert_eq!(r.position(), 0);
    assert!(matches!(r.step(), Ok(Action::Input)));
    r.provide_input(Some(7));
    assert_eq!(r.position(), 1);
    match r.step() {
        Ok(Action::Output(b)) => assert_eq!(b, vec![7]),
        _ => panic!("expected output"),
    }
    r.provide_input(Some(9));
    assert_eq!(r.position(), 2);
    assert!(matches!(r.step(), Ok(Action::Halt)));
}
