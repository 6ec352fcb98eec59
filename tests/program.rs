use brainfuck::{check_brackets, find_paired_left_bracket, find_paired_right_bracket, minimize};

#[test]
fn balanced_programs_pass() {
    assert!(check_brackets(""));
    assert!(check_brackets("[]"));
    assert!(check_brackets("+[->[+]<]."));
    assert!(check_brackets("[[][[]]]"));
    assert!(check_brackets("comment [ with ] text"));
}

#[test]
fn excess_close_fails() {
    assert!(!check_brackets("[]]"));
    assert!(!check_brackets("[[]]]"));
}

#[test]
fn missing_close_fails() {
    assert!(!check_brackets("["));
    assert!(!check_brackets("[[]"));
}

#[test]
fn close_before_open_fails() {
    assert!(!check_brackets("]["));
    assert!(!check_brackets("+]+[+"));
}

#[test]
fn minimize_keeps_only_symbols() {
    assert_eq!(minimize("he+l-lo,.[]wor<>ld"), "+-,.[]<>");
}

#[test]
fn minimize_drops_non_ascii_text() {
    assert_eq!(minimize("é+ü→-"), "+-");
    assert_eq!(minimize(""), "");
    assert_eq!(minimize("no symbols"), "");
}

/// Pairs found by a scan with an explicit stack of open positions.
fn stack_pairs(s: &[u8]) -> Vec<(usize, usize)> {
    let mut stack = Vec::new();
    let mut pairs = Vec::new();
    for (i, b) in s.iter().enumerate() {
        if *b == b'[' {
            stack.push(i);
        } else if *b == b']' {
            let o = stack.pop().unwrap();
            pairs.push((o, i));
        }
    }
    pairs
}

#[test]
fn resolvers_find_partners() {
    let s = b"+[a[b]c[[d]]]-";
    assert_eq!(find_paired_right_bracket(s, 1), 12);
    assert_eq!(find_paired_left_bracket(s, 12), 1);
    assert_eq!(find_paired_right_bracket(s, 3), 5);
    assert_eq!(find_paired_left_bracket(s, 11), 7);
    assert_eq!(find_paired_right_bracket(s, 8), 10);
}

#[test]
fn resolvers_agree_with_stack_scan() {
    let corpus: [&[u8]; 4] = [
        b"[]",
        b"++++++++[>++++[>++>+++>+++>+<<<<-]>+>+>->>+[<]<-]>>.",
        b"[[[]]][][[][]]",
        b"x[y[z]w]v",
    ];
    for s in corpus {
        for (o, c) in stack_pairs(s) {
            assert_eq!(find_paired_right_bracket(s, o), c);
            assert_eq!(find_paired_left_bracket(s, c), o);
        }
    }
}
