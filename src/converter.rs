//! The code emitter: collapses runs of `+`/`-` and of `<`/`>` into single
//! parameterised commands and writes them out as a C program whose macros
//! give each command the interpreter's meaning.
use vstd::arithmetic::div_mod::{lemma_add_mod_noop_right, lemma_small_mod};
use vstd::prelude::*;
use vstd::string::{is_ascii, is_ascii_spec_bytes, StringExecFns, StringSliceAdditionalSpecFns};

use crate::config::{CellSize, EofBehavior, Specifications};
use crate::error::Error;
use crate::program::{
    balanced, check_brackets, instructions, is_symbol, minimize, CLOSE, COMMA, DOT, LEFT, MINUS,
    OPEN, PLUS, RIGHT,
};
use crate::text::push_char;

verus! {

/// One command of the emitted program.
#[derive(Debug, Clone, Copy, PartialEq, Eq, Structural)]
pub enum Command {
    /// Add this to the cell under the cursor, wrapping (`M1`).
    Increase(i128),
    /// Move the cursor this many cells to the right (`M2`).
    MoveRight(i128),
    /// Read one byte, with this end-of-input policy (`M3`).
    GetChar(EofBehavior),
    /// Print the cell under the cursor with the routine for this width (`M4`).
    PutChar(CellSize),
    /// Open a loop that runs while the cell under the cursor is not zero (`M5`).
    StartWhile,
    /// Close the innermost open loop (`M6`).
    EndWhile,
}

/// `+` or `-`.
pub open spec fn is_adjust(b: u8) -> bool {
    b == PLUS || b == MINUS
}

/// `<` or `>`.
pub open spec fn is_move(b: u8) -> bool {
    b == LEFT || b == RIGHT
}

/// The length of the run of `+`/`-` that starts at `i`.
pub open spec fn adjust_run_len(s: Seq<u8>, i: int) -> nat
    decreases s.len() - i,
{
    if 0 <= i < s.len() && is_adjust(s[i]) {
        1 + adjust_run_len(s, i + 1)
    } else {
        0
    }
}

/// The net change of the run of `+`/`-` that starts at `i`: one up for each
/// `+`, one down for each `-`.
pub open spec fn adjust_net(s: Seq<u8>, i: int) -> int
    decreases s.len() - i,
{
    if 0 <= i < s.len() && is_adjust(s[i]) {
        (if s[i] == PLUS {
            1int
        } else {
            -1int
        }) + adjust_net(s, i + 1)
    } else {
        0
    }
}

/// The length of the run of `<`/`>` that starts at `i`.
pub open spec fn move_run_len(s: Seq<u8>, i: int) -> nat
    decreases s.len() - i,
{
    if 0 <= i < s.len() && is_move(s[i]) {
        1 + move_run_len(s, i + 1)
    } else {
        0
    }
}

/// The net move of the run of `<`/`>` that starts at `i`: one right for each
/// `>`, one left for each `<`.
pub open spec fn move_net(s: Seq<u8>, i: int) -> int
    decreases s.len() - i,
{
    if 0 <= i < s.len() && is_move(s[i]) {
        (if s[i] == RIGHT {
            1int
        } else {
            -1int
        }) + move_net(s, i + 1)
    } else {
        0
    }
}

/// A run never reaches past the end of the stream.
pub proof fn lemma_run_len_bound(s: Seq<u8>, i: int)
    requires
        0 <= i <= s.len(),
    ensures
        i + adjust_run_len(s, i) <= s.len(),
        i + move_run_len(s, i) <= s.len(),
    decreases s.len() - i,
{
    if i < s.len() {
        lemma_run_len_bound(s, i + 1);
    }
}

/// The value that the interpreter leaves in a cell holding `v` after it
/// runs the `+`/`-` run at `i` one symbol at a time, each step wrapping
/// modulo `m`.
pub open spec fn interpret_adjust_run(s: Seq<u8>, i: int, v: int, m: int) -> int
    decreases s.len() - i,
{
    if 0 <= i < s.len() && is_adjust(s[i]) {
        let d: int = if s[i] == PLUS {
            1
        } else {
            -1
        };
        interpret_adjust_run(s, i + 1, (v + d) % m, m)
    } else {
        v
    }
}

/// Where the interpreter leaves a cursor at `c` after it runs the `<`/`>`
/// run at `i` one symbol at a time; `None` where a `<` would leave the
/// origin, which stops the run.
pub open spec fn interpret_move_run(s: Seq<u8>, i: int, c: int) -> Option<int>
    decreases s.len() - i,
{
    if 0 <= i < s.len() && is_move(s[i]) {
        let next: int = if s[i] == RIGHT {
            c + 1
        } else {
            c - 1
        };
        if next < 0 {
            None
        } else {
            interpret_move_run(s, i + 1, next)
        }
    } else {
        Some(c)
    }
}

/// A collapsed command has the effect of the run it replaces: adding the
/// net change of a `+`/`-` run modulo `m` leaves the cell where running
/// the run symbol by symbol does, and moving by the net move of a `<`/`>`
/// run leaves the cursor where running it does, whenever that run stays
/// at or right of the origin.
pub proof fn lemma_collapsed_runs_agree(s: Seq<u8>, i: int, v: int, m: int, c: int)
    requires
        0 <= v < m,
    ensures
        interpret_adjust_run(s, i, v, m) == (v + adjust_net(s, i)) % m,
        interpret_move_run(s, i, c) matches Some(e) ==> e == c + move_net(s, i),
    decreases s.len() - i,
{
    if 0 <= i < s.len() && is_adjust(s[i]) {
        let d: int = if s[i] == PLUS {
            1
        } else {
            -1
        };
        lemma_collapsed_runs_agree(s, i + 1, (v + d) % m, m, c);
        lemma_add_mod_noop_right(adjust_net(s, i + 1), v + d, m);
    } else {
        lemma_small_mod(v as nat, m as nat);
    }
    if 0 <= i < s.len() && is_move(s[i]) {
        let next: int = if s[i] == RIGHT {
            c + 1
        } else {
            c - 1
        };
        lemma_collapsed_runs_agree(s, i + 1, v, m, next);
    }
}

/// The command that one of `,`, `.`, `[` and `]` becomes.
pub open spec fn single_command(b: u8, specs: Specifications) -> Seq<Command> {
    if b == COMMA {
        seq![Command::GetChar(specs.eof_behavior)]
    } else if b == DOT {
        seq![Command::PutChar(specs.cell_bits)]
    } else if b == OPEN {
        seq![Command::StartWhile]
    } else if b == CLOSE {
        seq![Command::EndWhile]
    } else {
        seq![]
    }
}

/// The commands of `s` from position `i` on: each maximal run of `+`/`-`
/// becomes one `Increase` by its net change, each maximal run of `<`/`>`
/// one `MoveRight` by its net move, and each other symbol one command. (A
/// run at `i` is `s[i]` and the run at `i + 1`.)
pub open spec fn commands_from(s: Seq<u8>, i: int, specs: Specifications) -> Seq<Command>
    decreases s.len() - i,
{
    if i < 0 || i >= s.len() {
        seq![]
    } else if is_adjust(s[i]) {
        proof {
            lemma_run_len_bound(s, i + 1);
        }
        seq![Command::Increase(adjust_net(s, i) as i128)] + commands_from(
            s,
            i + 1 + adjust_run_len(s, i + 1),
            specs,
        )
    } else if is_move(s[i]) {
        proof {
            lemma_run_len_bound(s, i + 1);
        }
        seq![Command::MoveRight(move_net(s, i) as i128)] + commands_from(
            s,
            i + 1 + move_run_len(s, i + 1),
            specs,
        )
    } else {
        single_command(s[i], specs) + commands_from(s, i + 1, specs)
    }
}

/// The net change of the `+`/`-` run at `i`, and the position after it.
fn adjust_run(s: &[u8], i: usize) -> (r: (i128, usize))
    requires
        i < s@.len(),
    ensures
        r.0 == adjust_net(s@, i as int),
        r.1 == i + adjust_run_len(s@, i as int),
        r.1 <= s@.len(),
{
    let mut count: i128 = 0;
    let mut j: usize = i;
    while j < s.len() && (s[j] == PLUS || s[j] == MINUS)
        invariant
            i <= j <= s@.len(),
            -(j - i) <= count <= j - i,
            count + adjust_net(s@, j as int) == adjust_net(s@, i as int),
            (j - i) + adjust_run_len(s@, j as int) == adjust_run_len(s@, i as int),
        decreases s@.len() - j,
    {
        if s[j] == PLUS {
            count = count + 1;
        } else {
            count = count - 1;
        }
        j = j + 1;
    }
    (count, j)
}

/// The net move of the `<`/`>` run at `i`, and the position after it.
fn move_run(s: &[u8], i: usize) -> (r: (i128, usize))
    requires
        i < s@.len(),
    ensures
        r.0 == move_net(s@, i as int),
        r.1 == i + move_run_len(s@, i as int),
        r.1 <= s@.len(),
{
    let mut count: i128 = 0;
    let mut j: usize = i;
    while j < s.len() && (s[j] == LEFT || s[j] == RIGHT)
        invariant
            i <= j <= s@.len(),
            -(j - i) <= count <= j - i,
            count + move_net(s@, j as int) == move_net(s@, i as int),
            (j - i) + move_run_len(s@, j as int) == move_run_len(s@, i as int),
        decreases s@.len() - j,
    {
        if s[j] == RIGHT {
            count = count + 1;
        } else {
            count = count - 1;
        }
        j = j + 1;
    }
    (count, j)
}

/// The commands of an instruction stream, runs collapsed.
pub fn collapse(s: &[u8], specs: &Specifications) -> (r: Vec<Command>)
    ensures
        r@ == commands_from(s@, 0, *specs),
{
    let mut out: Vec<Command> = Vec::new();
    let mut i: usize = 0;
    while i < s.len()
        invariant
            i <= s@.len(),
            commands_from(s@, 0, *specs) == out@ + commands_from(s@, i as int, *specs),
        decreases s@.len() - i,
    {
        let b = s[i];
        let ghost rest = commands_from(s@, i as int, *specs);
        if b == PLUS || b == MINUS {
            let (n, j) = adjust_run(s, i);
            out.push(Command::Increase(n));
            i = j;
        } else if b == LEFT || b == RIGHT {
            let (n, j) = move_run(s, i);
            out.push(Command::MoveRight(n));
            i = j;
        } else {
            if b == COMMA {
                out.push(Command::GetChar(specs.eof_behavior));
            } else if b == DOT {
                out.push(Command::PutChar(specs.cell_bits));
            } else if b == OPEN {
                out.push(Command::StartWhile);
            } else if b == CLOSE {
                out.push(Command::EndWhile);
            }
            i = i + 1;
        }
        assert(commands_from(s@, 0, *specs) =~= out@ + commands_from(s@, i as int, *specs));
    }
    assert(out@ =~= out@ + commands_from(s@, i as int, *specs));
    out
}

/// The C text that opens every emitted program: the print routines, one
/// per cell width, and the six command macros.
pub const C_PRELUDE: &'static str = "#include <stdint.h>
#include <stdio.h>
#include <stdlib.h>

static void fail(const char *message) {
    fputs(message, stderr);
    fputc('\\n', stderr);
    exit(1);
}

static void putUtf8(uint64_t v) {
    if (v > 0x10FFFF || (v >= 0xD800 && v <= 0xDFFF)) {
        fail(\"cell value is not a Unicode scalar value\");
    }
    if (v < 0x80) {
        putchar((int) v);
    } else if (v < 0x800) {
        putchar((int) (0xC0 | (v >> 6)));
        putchar((int) (0x80 | (v & 0x3F)));
    } else if (v < 0x10000) {
        putchar((int) (0xE0 | (v >> 12)));
        putchar((int) (0x80 | ((v >> 6) & 0x3F)));
        putchar((int) (0x80 | (v & 0x3F)));
    } else {
        putchar((int) (0xF0 | (v >> 18)));
        putchar((int) (0x80 | ((v >> 12) & 0x3F)));
        putchar((int) (0x80 | ((v >> 6) & 0x3F)));
        putchar((int) (0x80 | (v & 0x3F)));
    }
}

static void printU8(uint8_t v) {
    putchar(v);
    fflush(stdout);
}

static void printU16(uint16_t v) {
    if (v >= 0xD800 && v <= 0xDFFF) {
        fail(\"a 16-bit cell cannot print a surrogate code point\");
    }
    putUtf8(v);
    fflush(stdout);
}

static void printU32(uint32_t v) {
    putUtf8(v);
    fflush(stdout);
}

static void printU64(uint64_t v) {
    putUtf8(v);
    fflush(stdout);
}

#define M1(n) *ptr += (n);
#define M2(n) ptr += (n);
#define M3(eof) c = getchar(); *ptr = (c == EOF) ? (eof) : c;
#define M4(print) print(*ptr);
#define M5 while (*ptr) {
#define M6 }";

/// The decimal digit `d`.
pub open spec fn digit_char(d: nat) -> char {
    (d + 48) as char
}

/// The decimal digits of `n`, without leading zeros.
pub open spec fn digits(n: nat) -> Seq<char>
    decreases n,
{
    if n < 10 {
        seq![digit_char(n)]
    } else {
        digits(n / 10).push(digit_char(n % 10))
    }
}

/// `n` in decimal, with a `-` when it is negative.
pub open spec fn decimal(n: int) -> Seq<char> {
    if n < 0 {
        seq!['-'] + digits((-n) as nat)
    } else {
        digits(n as nat)
    }
}

/// The C type of a cell.
pub open spec fn c_type(cell: CellSize) -> Seq<char> {
    "uint"@ + digits(cell.bits_spec()) + "_t"@
}

/// The value `M3` stores at end of input.
pub open spec fn eof_code(e: EofBehavior) -> Seq<char> {
    match e {
        EofBehavior::Zero => "0"@,
        EofBehavior::Neg1 => "-1"@,
        EofBehavior::NoChange => "*ptr"@,
    }
}

/// The line of a command.
pub open spec fn command_text(c: Command) -> Seq<char> {
    match c {
        Command::Increase(n) => "M1("@ + decimal(n as int) + ")"@,
        Command::MoveRight(n) => "M2("@ + decimal(n as int) + ")"@,
        Command::GetChar(e) => "M3("@ + eof_code(e) + ")"@,
        Command::PutChar(w) => "M4(printU"@ + digits(w.bits_spec()) + ")"@,
        Command::StartWhile => "M5"@,
        Command::EndWhile => "M6"@,
    }
}

/// The lines of a sequence of commands, each ended by a newline.
pub open spec fn commands_text(cs: Seq<Command>) -> Seq<char>
    decreases cs.len(),
{
    if cs.len() == 0 {
        seq![]
    } else {
        commands_text(cs.drop_last()) + command_text(cs.last()) + "\n"@
    }
}

/// The whole emitted program: the prelude, the cell buffer, the entry
/// point with the cursor, the command lines, and the normal exit.
pub open spec fn program_text(specs: Specifications, cs: Seq<Command>) -> Seq<char> {
    C_PRELUDE@ + "\n"@ + c_type(specs.cell_bits) + " buf[0xffff];"@ + "\n"@ + "int main() {"@
        + "\n"@ + c_type(specs.cell_bits) + " *ptr = buf;\nint c;"@ + "\n"@ + commands_text(cs)
        + "\n"@ + "return 0;\n}"@ + "\n"@
}

/// Appends the decimal digits of `m`.
fn push_digits(out: &mut String, m: u128)
    ensures
        final(out)@ == old(out)@ + digits(m as nat),
    decreases m,
{
    if m >= 10 {
        push_digits(out, m / 10);
    }
    let d = (m % 10) as u8;
    push_char(out, (d + 48) as char);
    assert(final(out)@ =~= old(out)@ + digits(m as nat));
}

/// Appends `n` in decimal.
fn push_decimal(out: &mut String, n: i128)
    ensures
        final(out)@ == old(out)@ + decimal(n as int),
{
    if n < 0 {
        push_char(out, '-');
        let m: u128 = (-(n + 1)) as u128 + 1;
        push_digits(out, m);
        assert(final(out)@ =~= old(out)@ + decimal(n as int));
    } else {
        push_digits(out, n as u128);
    }
}

/// Appends the C type of a cell.
fn push_c_type(out: &mut String, cell: CellSize)
    ensures
        final(out)@ == old(out)@ + c_type(cell),
{
    out.append("uint");
    push_digits(out, cell.bits_size() as u128);
    out.append("_t");
    assert(final(out)@ =~= old(out)@ + c_type(cell));
}

/// Appends the line of a command, without its newline.
fn push_command(out: &mut String, c: Command)
    ensures
        final(out)@ == old(out)@ + command_text(c),
{
    let ghost start = out@;
    match c {
        Command::Increase(n) => {
            out.append("M1(");
            push_decimal(out, n);
            out.append(")");
        },
        Command::MoveRight(n) => {
            out.append("M2(");
            push_decimal(out, n);
            out.append(")");
        },
        Command::GetChar(e) => {
            out.append("M3(");
            match e {
                EofBehavior::Zero => out.append("0"),
                EofBehavior::Neg1 => out.append("-1"),
                EofBehavior::NoChange => out.append("*ptr"),
            }
            out.append(")");
        },
        Command::PutChar(w) => {
            out.append("M4(printU");
            push_digits(out, w.bits_size() as u128);
            out.append(")");
        },
        Command::StartWhile => out.append("M5"),
        Command::EndWhile => out.append("M6"),
    }
    assert(out@ =~= start + command_text(c));
}

/// The text of the C program that runs `cs` on cells of the configured
/// width, with the configured end-of-input policy.
pub fn render(cs: &Vec<Command>, specs: &Specifications) -> (r: String)
    ensures
        r@ == program_text(*specs, cs@),
{
    let mut out = String::new();
    out.append(C_PRELUDE);
    out.append("\n");
    push_c_type(&mut out, specs.cell_bits);
    out.append(" buf[0xffff];");
    out.append("\n");
    out.append("int main() {");
    out.append("\n");
    push_c_type(&mut out, specs.cell_bits);
    out.append(" *ptr = buf;\nint c;");
    out.append("\n");
    let ghost head = out@;
    let mut i: usize = 0;
    while i < cs.len()
        invariant
            i <= cs@.len(),
            out@ == head + commands_text(cs@.take(i as int)),
        decreases cs@.len() - i,
    {
        push_command(&mut out, cs[i]);
        out.append("\n");
        assert(cs@.take(i + 1).drop_last() =~= cs@.take(i as int));
        assert(out@ =~= head + commands_text(cs@.take(i + 1)));
        i = i + 1;
    }
    assert(cs@.take(cs@.len() as int) =~= cs@);
    out.append("\n");
    out.append("return 0;\n}");
    out.append("\n");
    assert(out@ =~= program_text(*specs, cs@));
    out
}

/// The C program equivalent to `src`: its symbols, runs collapsed, as
/// command lines between the prelude and the exit; or `UnpairedBrackets`
/// when its brackets are not balanced.
pub fn convert(src: &str, specs: &Specifications) -> (r: Result<String, Error>)
    ensures
        r is Ok <==> balanced(src.spec_bytes()),
        r matches Err(e) ==> e == Error::UnpairedBrackets,
        r matches Ok(text) ==> text@ == program_text(
            *specs,
            commands_from(instructions(src.spec_bytes()), 0, *specs),
        ),
{
    if !check_brackets(src) {
        return Err(Error::UnpairedBrackets);
    }
    let minimized = minimize(src);
    let code = minimized.as_str();
    let ghost ins = instructions(src.spec_bytes());
    proof {
        src.spec_bytes().lemma_filter_len(|b: u8| is_symbol(b));
        assert(is_ascii(code)) by {
            assert forall|k: int| 0 <= k < code@.len() implies '\0' <= #[trigger] code@[k]
                <= '\u{7f}' by {
                src.spec_bytes().lemma_filter_pred(|b: u8| is_symbol(b), k);
            }
        }
        is_ascii_spec_bytes(code);
        assert forall|k: int| 0 <= k < ins.len() implies #[trigger] code.spec_bytes()[k]
            == ins[k] by {
            src.spec_bytes().lemma_filter_pred(|b: u8| is_symbol(b), k);
        }
        assert(code.spec_bytes() =~= ins);
    }
    let cmds = collapse(code.as_bytes(), specs);
    Ok(render(&cmds, specs))
}

} // verus!
