//! The instruction stream: the symbol alphabet, bracket depth, the bracket
//! validator and the two jump resolvers.
use vstd::prelude::*;
use vstd::string::StringSliceAdditionalSpecFns;
use vstd::utf8::{encode_scalar, encode_utf8, has_width_1_encoding};

use crate::text::push_char;

verus! {

/// `<`
pub const LEFT: u8 = 0x3c;

/// `>`
pub const RIGHT: u8 = 0x3e;

/// `+`
pub const PLUS: u8 = 0x2b;

/// `-`
pub const MINUS: u8 = 0x2d;

/// `,`
pub const COMMA: u8 = 0x2c;

/// `.`
pub const DOT: u8 = 0x2e;

/// `[`
pub const OPEN: u8 = 0x5b;

/// `]`
pub const CLOSE: u8 = 0x5d;

/// Whether a byte is one of the eight symbols of the language.
pub open spec fn is_symbol(b: u8) -> bool {
    b == LEFT || b == RIGHT || b == PLUS || b == MINUS || b == COMMA || b == DOT || b == OPEN
        || b == CLOSE
}

/// Whether a char is one of the eight symbols of the language.
pub open spec fn is_symbol_char(c: char) -> bool {
    c == '<' || c == '>' || c == '+' || c == '-' || c == ',' || c == '.' || c == '[' || c == ']'
}

/// The symbols of a byte sequence, in order: every other byte is a comment.
pub open spec fn instructions(s: Seq<u8>) -> Seq<u8> {
    s.filter(|b: u8| is_symbol(b))
}

/// The symbols of a char sequence, in order.
pub open spec fn minimized(cs: Seq<char>) -> Seq<char> {
    cs.filter(|c: char| is_symbol_char(c))
}

/// Bytes read as chars, one for one.
pub open spec fn as_chars(bs: Seq<u8>) -> Seq<char> {
    bs.map_values(|b: u8| b as char)
}

/// Setting bits in a byte whose high bit is set leaves it set.
proof fn lemma_high_byte(m: u8, x: u8)
    requires
        m >= 0x80,
    ensures
        (m | x) >= 0x80,
{
    assert((m | x) >= m) by (bit_vector);
}

/// A char's UTF-8 bytes hold a symbol exactly when the char is one: every
/// byte of a multi-byte encoding has its high bit set.
proof fn lemma_scalar_instructions(c: char)
    ensures
        as_chars(instructions(encode_scalar(c as u32))) == (if is_symbol_char(c) {
            seq![c]
        } else {
            Seq::<char>::empty()
        }),
{
    reveal_with_fuel(Seq::filter, 5);
    let v = c as u32;
    let e = encode_scalar(v);
    if has_width_1_encoding(v) {
        assert((v & 0x7f) == v) by (bit_vector)
            requires
                v <= 0x7f,
        ;
        assert(e[0] as char == c);
        assert(is_symbol(e[0]) == is_symbol_char(c));
        assert(e =~= seq![e[0]]);
        assert(as_chars(instructions(e)) =~= (if is_symbol_char(c) {
            seq![c]
        } else {
            Seq::<char>::empty()
        }));
    } else {
        assert(!is_symbol_char(c));
        lemma_high_byte(0xC0, ((v >> 6) & 0x1F) as u8);
        lemma_high_byte(0xE0, ((v >> 12) & 0x0F) as u8);
        lemma_high_byte(0xF0, ((v >> 18) & 0x7) as u8);
        lemma_high_byte(0x80, (v & 0x3F) as u8);
        lemma_high_byte(0x80, ((v >> 6) & 0x3F) as u8);
        lemma_high_byte(0x80, ((v >> 12) & 0x3F) as u8);
        assert(forall|i: int| 0 <= i < e.len() ==> e[i] >= 0x80);
        assert(instructions(e) =~= Seq::<u8>::empty());
    }
}

/// Filtering the symbols out of a string's UTF-8 bytes gives its symbol
/// chars.
pub proof fn lemma_instructions_of_utf8(cs: Seq<char>)
    ensures
        as_chars(instructions(encode_utf8(cs))) == minimized(cs),
    decreases cs.len(),
{
    broadcast use Seq::filter_distributes_over_add, Seq::lemma_filter_prepend;

    reveal_with_fuel(Seq::filter, 1);
    if cs.len() == 0 {
        assert(as_chars(instructions(encode_utf8(cs))) =~= minimized(cs));
    } else {
        let c = cs[0];
        let rest = cs.drop_first();
        lemma_instructions_of_utf8(rest);
        lemma_scalar_instructions(c);
        let e = encode_scalar(c as u32);
        assert(encode_utf8(cs) == e + encode_utf8(rest));
        assert(instructions(e + encode_utf8(rest)) == instructions(e) + instructions(
            encode_utf8(rest),
        ));
        assert(as_chars(instructions(e) + instructions(encode_utf8(rest))) =~= as_chars(
            instructions(e),
        ) + as_chars(instructions(encode_utf8(rest))));
        assert(cs =~= seq![c] + rest);
        assert(minimized(seq![c] + rest) == (if is_symbol_char(c) {
            seq![c]
        } else {
            Seq::<char>::empty()
        }) + minimized(rest));
    }
}

/// The symbols of `src`, in order, with every other character dropped.
pub fn minimize(src: &str) -> (r: String)
    ensures
        r@ == minimized(src@),
        r@ == as_chars(instructions(src.spec_bytes())),
{
    let bytes = src.as_bytes();
    let ghost b = bytes@;
    let mut out = String::new();
    let mut i: usize = 0;
    while i < bytes.len()
        invariant
            b == bytes@,
            b == src.spec_bytes(),
            i <= bytes.len(),
            out@ == as_chars(instructions(b.take(i as int))),
        decreases bytes.len() - i,
    {
        let c = bytes[i];
        proof {
            assert(b.take(i + 1) =~= b.take(i as int).push(c));
            b.take(i as int).lemma_filter_push(c, |b: u8| is_symbol(b));
        }
        if c == LEFT || c == RIGHT || c == PLUS || c == MINUS || c == COMMA || c == DOT || c
            == OPEN || c == CLOSE {
            push_char(&mut out, c as char);
            assert(out@ =~= as_chars(instructions(b.take(i + 1))));
        }
        i = i + 1;
    }
    proof {
        assert(b.take(b.len() as int) =~= b);
        lemma_instructions_of_utf8(src@);
    }
    out
}

/// How a byte changes the bracket depth: `[` opens, `]` closes.
pub open spec fn bracket_delta(b: u8) -> int {
    if b == OPEN {
        1
    } else if b == CLOSE {
        -1
    } else {
        0
    }
}

/// Number of `[` minus number of `]` among the first `i` bytes of `s`.
pub open spec fn depth(s: Seq<u8>, i: int) -> int
    decreases i,
{
    if i <= 0 {
        0
    } else {
        depth(s, i - 1) + bracket_delta(s[i - 1])
    }
}

/// Every `]` closes an earlier `[`, and every `[` is closed.
pub open spec fn balanced(s: Seq<u8>) -> bool {
    &&& forall|i: int| 0 <= i <= s.len() ==> depth(s, i) >= 0
    &&& depth(s, s.len() as int) == 0
}

/// `s[o]` is a `[` and `s[c]` the `]` that closes it: the depth comes back
/// to its level before `o` for the first time just after `c`.
pub open spec fn is_pair(s: Seq<u8>, o: int, c: int) -> bool {
    &&& 0 <= o < c < s.len()
    &&& s[o] == OPEN
    &&& s[c] == CLOSE
    &&& depth(s, c + 1) == depth(s, o)
    &&& forall|k: int| o < k <= c ==> depth(s, k) > depth(s, o)
}

/// A `[` has at most one partner, and so has a `]`.
pub proof fn lemma_pair_unique(s: Seq<u8>, o: int, c: int)
    requires
        is_pair(s, o, c),
    ensures
        forall|c2: int| is_pair(s, o, c2) ==> c2 == c,
        forall|o2: int| is_pair(s, o2, c) ==> o2 == o,
{
    assert forall|c2: int| is_pair(s, o, c2) implies c2 == c by {
        if c2 < c {
            assert(depth(s, c2 + 1) > depth(s, o));
        } else if c < c2 {
            assert(depth(s, c + 1) > depth(s, o));
        }
    }
    assert forall|o2: int| is_pair(s, o2, c) implies o2 == o by {
        if o2 < o {
            assert(depth(s, o) > depth(s, o2));
        } else if o < o2 {
            assert(depth(s, o2) > depth(s, o));
        }
    }
}

/// The stack of open positions that a left-to-right scan of the first `i`
/// bytes holds: a `[` pushes its position, a `]` pops the top.
pub open spec fn open_stack(s: Seq<u8>, i: int) -> Seq<int>
    decreases i,
{
    if i <= 0 {
        seq![]
    } else {
        let st = open_stack(s, i - 1);
        if s[i - 1] == OPEN {
            st.push(i - 1)
        } else if s[i - 1] == CLOSE && st.len() > 0 {
            st.drop_last()
        } else {
            st
        }
    }
}

/// The pair that the stack scan reports when it reaches the `]` at `c`:
/// the position on top of its stack.
pub open spec fn stack_pair(s: Seq<u8>, o: int, c: int) -> bool {
    &&& 0 <= c < s.len()
    &&& s[c] == CLOSE
    &&& open_stack(s, c).len() > 0
    &&& open_stack(s, c).last() == o
}

/// While the depth has stayed non-negative, the stack holds one entry per
/// open level: entry `j` is a `[` at depth `j` whose level is still open.
proof fn lemma_open_stack(s: Seq<u8>, i: int)
    requires
        0 <= i <= s.len(),
        forall|j: int| 0 <= j <= i ==> depth(s, j) >= 0,
    ensures
        open_stack(s, i).len() == depth(s, i),
        forall|j: int|
            0 <= j < open_stack(s, i).len() ==> {
                let o = #[trigger] open_stack(s, i)[j];
                &&& 0 <= o < i
                &&& s[o] == OPEN
                &&& depth(s, o) == j
                &&& forall|k: int| o < k <= i ==> depth(s, k) > j
            },
    decreases i,
{
    if i > 0 {
        lemma_open_stack(s, i - 1);
        let st = open_stack(s, i - 1);
        assert(depth(s, i) == depth(s, i - 1) + bracket_delta(s[i - 1]));
        let nt = open_stack(s, i);
        assert forall|j: int| 0 <= j < nt.len() implies {
            let o = #[trigger] nt[j];
            &&& 0 <= o < i
            &&& s[o] == OPEN
            &&& depth(s, o) == j
            &&& forall|k: int| o < k <= i ==> depth(s, k) > j
        } by {
            if j < st.len() {
                assert(nt[j] == st[j]);
            }
        }
    }
}

/// The resolvers agree with the stack scan: for every pair `(o, c)` that a
/// left-to-right scan with a stack of open positions reports on a balanced
/// stream, `c` is the one position that `find_paired_right_bracket` may
/// return for `o`, and `o` the one that `find_paired_left_bracket` may
/// return for `c`.
pub proof fn lemma_resolvers_match_stack_scan(s: Seq<u8>, o: int, c: int)
    requires
        balanced(s),
        stack_pair(s, o, c),
    ensures
        is_pair(s, o, c),
        forall|c2: int| is_pair(s, o, c2) ==> c2 == c,
        forall|o2: int| is_pair(s, o2, c) ==> o2 == o,
{
    lemma_open_stack(s, c);
    let st = open_stack(s, c);
    let top = st.len() - 1;
    assert(st[top] == o);
    assert(depth(s, c + 1) == depth(s, c) - 1);
    lemma_pair_unique(s, o, c);
}

/// Whether the brackets of `s` are balanced and properly nested.
pub fn check_brackets(s: &str) -> (r: bool)
    ensures
        r == balanced(s.spec_bytes()),
{
    let bytes = s.as_bytes();
    let ghost b = bytes@;
    let mut level: usize = 0;
    let mut i: usize = 0;
    while i < bytes.len()
        invariant
            b == bytes@,
            b == s.spec_bytes(),
            i <= bytes.len(),
            level <= i,
            level as int == depth(b, i as int),
            forall|j: int| 0 <= j <= i ==> depth(b, j) >= 0,
        decreases bytes.len() - i,
    {
        let c = bytes[i];
        if c == OPEN {
            level = level + 1;
        } else if c == CLOSE {
            if level == 0 {
                assert(depth(b, i + 1) < 0);
                return false;
            }
            level = level - 1;
        }
        i = i + 1;
    }
    level == 0
}

/// The position of the `]` that closes the `[` at `position`.
pub fn find_paired_right_bracket(s: &[u8], position: usize) -> (r: usize)
    requires
        balanced(s@),
        position < s@.len(),
        s@[position as int] == OPEN,
    ensures
        is_pair(s@, position as int, r as int),
{
    let ghost b = s@;
    let ghost base = depth(b, position as int);
    assert(depth(b, position + 1) == base + 1);
    let mut count: usize = 0;
    assert(position < s.len());
    let mut i: usize = position + 1;
    while i < s.len()
        invariant
            b == s@,
            balanced(b),
            b[position as int] == OPEN,
            base == depth(b, position as int),
            position < i <= s.len(),
            count < i,
            count as int == depth(b, i as int) - base - 1,
            forall|k: int| position < k <= i ==> depth(b, k) > base,
        decreases s.len() - i,
    {
        let c = s[i];
        if c == OPEN {
            count = count + 1;
        } else if c == CLOSE {
            if count == 0 {
                assert(depth(b, i + 1) == base);
                return i;
            }
            count = count - 1;
        }
        i = i + 1;
    }
    assert(depth(b, b.len() as int) > base);
    assert(false);
    position
}

/// The position of the `[` that the `]` at `position` closes.
pub fn find_paired_left_bracket(s: &[u8], position: usize) -> (r: usize)
    requires
        balanced(s@),
        position < s@.len(),
        s@[position as int] == CLOSE,
    ensures
        is_pair(s@, r as int, position as int),
{
    let ghost b = s@;
    let ghost top = depth(b, position as int);
    assert(depth(b, position + 1) == top - 1);
    let mut count: usize = 0;
    let mut i: usize = position;
    while i > 0
        invariant
            b == s@,
            balanced(b),
            b[position as int] == CLOSE,
            top == depth(b, position as int),
            i <= position < s.len(),
            count <= position - i,
            count as int == depth(b, i as int) - top,
            forall|k: int| i <= k <= position ==> depth(b, k) >= top,
        decreases i,
    {
        i = i - 1;
        let c = s[i];
        if c == CLOSE {
            count = count + 1;
        } else if c == OPEN {
            if count == 0 {
                assert(depth(b, i as int) == top - 1);
                return i;
            }
            count = count - 1;
        }
    }
    assert(depth(b, 0) >= top);
    assert(depth(b, position + 1) >= 0);
    assert(false);
    position
}

} // verus!
