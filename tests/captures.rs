use onig::{Captures, Regex};

fn all_texts<'t>(captures: &'t Captures<'t>) -> Vec<Option<&'t str>> {
    let mut it = captures.iter();
    let mut out = Vec::new();
    while let Some(t) = it.next() {
        out.push(t);
    }
    out
}

fn all_spans(captures: &Captures<'_>) -> Vec<Option<(usize, usize)>> {
    let mut it = captures.iter_pos();
    let mut out = Vec::new();
    while let Some(p) = it.next() {
        out.push(p);
    }
    out
}

#[test]
fn captures_test_regex_captures() {
    let regex = Regex::new("e(l+)|(r+)").unwrap();
    let captures = regex.captures("hello").unwrap();
    assert_eq!(captures.len(), 3);
    assert_eq!(captures.is_empty(), false);
    let pos1 = captures.pos(0).unwrap();
    let pos2 = captures.pos(1).unwrap();
    let pos3 = captures.pos(2);
    assert_eq!(pos1, (1, 4));
    assert_eq!(pos2, (2, 4));
    assert_eq!(pos3, None);
    let str1 = captures.at(0).unwrap();
    let str2 = captures.at(1).unwrap();
    let str3 = captures.at(2);
    assert_eq!(str1, "ell");
    assert_eq!(str2, "ll");
    assert_eq!(str3, None);
}

#[test]
fn captures_test_regex_subcaptures() {
    let regex = Regex::new("e(l+)").unwrap();
    let captures = regex.captures("hello").unwrap();
    let caps = all_texts(&captures);
    assert_eq!(caps[0], Some("ell"));
    assert_eq!(caps[1], Some("ll"));
    assert_eq!(caps.len(), 2);
}

#[test]
fn captures_test_regex_subcapturespos() {
    let regex = Regex::new("e(l+)").unwrap();
    let captures = regex.captures("hello").unwrap();
    let caps = all_spans(&captures);
    assert_eq!(caps[0], Some((1, 4)));
    assert_eq!(caps[1], Some((2, 4)));
    assert_eq!(caps.len(), 2);
}

#[test]
fn regex_test_regex_captures() {
    let regex = Regex::new("e(l+)|(r+)").unwrap();
    let captures = regex.captures("hello").unwrap();
    assert_eq!(captures.len(), 3);
    assert_eq!(captures.is_empty(), false);
    let pos1 = captures.pos(0).unwrap();
    let pos2 = captures.pos(1).unwrap();
    let pos3 = captures.pos(2);
    assert_eq!(pos1, (1, 4));
    assert_eq!(pos2, (2, 4));
    assert_eq!(pos3, None);
    let str1 = captures.at(0).unwrap();
    let str2 = captures.at(1).unwrap();
    let str3 = captures.at(2);
    assert_eq!(str1, "ell");
    assert_eq!(str2, "ll");
    assert_eq!(str3, None);
}

#[test]
fn regex_test_regex_subcaptures() {
    let regex = Regex::new("e(l+)").unwrap();
    let captures = regex.captures("hello").unwrap();
    let caps = all_texts(&captures);
    assert_eq!(caps[0], Some("ell"));
    assert_eq!(caps[1], Some("ll"));
    assert_eq!(caps.len(), 2);
}

#[test]
fn regex_test_regex_subcapturespos() {
    let regex = Regex::new("e(l+)").unwrap();
    let captures = regex.captures("hello").unwrap();
    let caps = all_spans(&captures);
    assert_eq!(caps[0], Some((1, 4)));
    assert_eq!(caps[1], Some((2, 4)));
    assert_eq!(caps.len(), 2);
}

#[test]
fn captures_len_is_groups_plus_one() {
    for (pattern, text) in [("a", "cat"), ("(a)(b)?", "a"), ("(x)|(y)|(z)", "z"), ("((a)(b))", "ab")] {
        let regex = Regex::new(pattern).unwrap();
        let captures = regex.captures(text).unwrap();
        assert_eq!(captures.len(), regex.captures_len() + 1);
    }
}

#[test]
fn captures_of_multibyte_text() {
    let regex = Regex::new("é(l+)").unwrap();
    let captures = regex.captures("héllo").unwrap();
    assert_eq!(captures.pos(0), Some((1, 5)));
    assert_eq!(captures.at(0), Some("éll"));
    assert_eq!(captures.at(1), Some("ll"));
    assert_eq!(captures.at(7), None);
}

#[test]
fn captures_none_without_match() {
    let regex = Regex::new("z+").unwrap();
    assert!(regex.captures("hello").is_none());
}

#[test]
fn cursor_stops_at_end() {
    let regex = Regex::new("(a)").unwrap();
    let captures = regex.captures("a").unwrap();
    let mut it = captures.iter_pos();
    assert_eq!(it.next(), Some(Some((0, 1))));
    assert_eq!(it.next(), Some(Some((0, 1))));
    assert_eq!(it.next(), None);
    assert_eq!(it.next(), None);
}
