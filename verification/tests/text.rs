use riffle::text::{
    contains, find_from, join, push_i64, push_padded, push_u64, remove_char, split, split_trimmed,
    starts_with, to_lower, trim, trim_start,
};

#[test]
fn trimming_knows_unicode_white_space() {
    for s in ["", " a ", "\u{3000}x\u{a0}", "\u{2003}\t", "a b", "\u{200b}z"] {
        assert_eq!(trim(s), s.trim());
        assert_eq!(trim_start(s), s.trim_start());
    }
}

#[test]
fn splitting_keeps_empty_pieces() {
    for s in ["", ",", "a,,b", "a,b,"] {
        let parts: Vec<String> = s.split(',').map(|p| p.to_string()).collect();
        assert_eq!(split(s, ','), parts);
    }
    assert_eq!(split_trimmed(" a ,, b", ','), vec!["a", "b"]);
    assert_eq!(join(&split("a,b,c", ','), "--"), "a--b--c");
    assert_eq!(join(&vec![], "--"), "");
}

#[test]
fn searching() {
    assert!(contains("hello", "ell") && contains("x", "") && !contains("hello", "elo"));
    assert!(starts_with("hello", "he") && !starts_with("he", "hello"));
    assert_eq!(to_lower("ÄBc"), "Äbc");
    assert_eq!(remove_char("a-b--c", '-'), "abc");
    let cs: Vec<char> = "a://b://".chars().collect();
    let mark: Vec<char> = "://".chars().collect();
    assert_eq!(find_from(&cs, &mark, 0), Some(1));
    assert_eq!(find_from(&cs, &mark, 2), Some(5));
    assert_eq!(find_from(&cs, &mark, 6), None);
}

#[test]
fn numbers() {
    let mut s = String::new();
    push_u64(&mut s, u64::MAX);
    s.push(' ');
    push_i64(&mut s, i64::MIN);
    s.push(' ');
    push_padded(&mut s, 7, 3);
    s.push(' ');
    push_padded(&mut s, 1234, 3);
    assert_eq!(s, "18446744073709551615 -9223372036854775808 007 1234");
}
