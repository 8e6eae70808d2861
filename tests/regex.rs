use onig::{
    Dialect, ErrorKind, Region, Regex, Syntax, ERROR_INVALID_ARGUMENT, ERROR_PATTERN_SYNTAX, REGEX_OPTION_FIND_LONGEST,
    REGEX_OPTION_IGNORECASE, REGEX_OPTION_NONE, SEARCH_OPTION_NONE, SYNTAX_OPERATOR_ATMARK_CAPTURE_HISTORY,
    SYNTAX_OPERATOR_VBAR_ALT,
};

#[test]
fn lib_test_regex_create() {
    Regex::with_options(".*", REGEX_OPTION_NONE, &Syntax::default()).unwrap();

    Regex::new(r#"a \w+ word"#).unwrap();
}

#[test]
fn regex_test_regex_create() {
    Regex::with_options(".*", REGEX_OPTION_NONE, &Syntax::default()).unwrap();

    Regex::new(r#"a \w+ word"#).unwrap();
}

#[test]
fn lib_test_failed_match() {
    let regex = Regex::new("foo").unwrap();
    let res = regex.match_with_options("bar", 0, SEARCH_OPTION_NONE, None);
    assert!(res.is_none());
}

#[test]
fn regex_test_failed_match() {
    let r = Regex::new("foo").unwrap();
    let res = r.match_with_options("bar", 0, SEARCH_OPTION_NONE, None);
    assert!(res.is_none());
}

#[test]
fn lib_test_regex_match_with_options() {
    let mut region = Region::new();
    let regex = Regex::new("he(l+)").unwrap();

    let r = regex.match_with_options("hello", 0, SEARCH_OPTION_NONE, Some(&mut region));

    assert!(region.tree().is_none());
    assert_eq!(r, Some(4));
    assert_eq!(region.len(), 2);
    let pos1 = region.pos(0).unwrap();
    let pos2 = region.pos(1).unwrap();
    assert_eq!(pos1, (0, 4));
    assert_eq!(pos2, (2, 4));
}

#[test]
fn regex_test_regex_match_with_options() {
    let mut region = Region::new();
    let regex = Regex::new("he(l+)").unwrap();

    let r = regex.match_with_options("hello", 0, SEARCH_OPTION_NONE, Some(&mut region));

    assert!(region.tree().is_none());
    assert_eq!(r, Some(4));
    assert_eq!(region.len(), 2);
    let pos1 = region.pos(0).unwrap();
    let pos2 = region.pos(1).unwrap();
    assert_eq!(pos1, (0, 4));
    assert_eq!(pos2, (2, 4));
}

#[test]
fn lib_test_regex_is_match() {
    let regex = Regex::new("he(l+)o").unwrap();
    assert!(regex.is_match("hello"));
    assert!(!regex.is_match("hello 2.0"));
}

#[test]
fn regex_test_regex_is_match() {
    let regex = Regex::new("he(l+)o").unwrap();
    assert!(regex.is_match("hello"));
    assert!(!regex.is_match("hello 2.0"));
}

#[test]
fn lib_test_regex_find() {
    let regex = Regex::new("he(l+)o").unwrap();
    assert_eq!(regex.find("hey, hello!"), Some((5, 10)));
    assert_eq!(regex.find("hey, honey!"), None);
}

#[test]
fn regex_test_regex_find() {
    let regex = Regex::new("he(l+)o").unwrap();
    assert_eq!(regex.find("hey, hello!"), Some((5, 10)));
    assert_eq!(regex.find("hey, honey!"), None);
}

#[test]
fn test_regex_captures_len() {
    let regex = Regex::new("(he)(l+)(o)").unwrap();
    assert_eq!(regex.captures_len(), 3);
}

#[test]
fn search_returns_end_offset_and_fills_region() {
    let mut region = Region::new();
    let regex = Regex::new("e(l+)").unwrap();
    let r = regex.search_with_options("hello", 0, 5, SEARCH_OPTION_NONE, Some(&mut region));
    assert_eq!(r, Some(4));
    assert_eq!(region.len(), 2);
    assert_eq!(region.pos(0), Some((1, 4)));
    assert_eq!(region.pos(1), Some((2, 4)));
    assert!(region.tree().is_none());
}

#[test]
fn search_range_excludes_later_starts() {
    let regex = Regex::new("l+").unwrap();
    assert_eq!(regex.search_with_options("hello", 0, 2, SEARCH_OPTION_NONE, None), None);
    assert_eq!(regex.search_with_options("hello", 0, 3, SEARCH_OPTION_NONE, None), Some(4));
    assert_eq!(regex.search_with_options("hello", 3, 5, SEARCH_OPTION_NONE, None), Some(4));
    assert_eq!(regex.search_with_options("hello", 0, 6, SEARCH_OPTION_NONE, None), None);
}

#[test]
fn backward_search_finds_last_start() {
    let mut region = Region::new();
    let regex = Regex::new("ab").unwrap();
    let r = regex.search_with_options("ab ab ab", 8, 0, SEARCH_OPTION_NONE, Some(&mut region));
    assert_eq!(r, Some(8));
    assert_eq!(region.pos(0), Some((6, 8)));
    let r = regex.search_with_options("ab ab ab", 5, 0, SEARCH_OPTION_NONE, Some(&mut region));
    assert_eq!(r, Some(5));
    assert_eq!(region.pos(0), Some((3, 5)));
    let r = regex.search_with_options("ab ab ab", 2, 1, SEARCH_OPTION_NONE, Some(&mut region));
    assert_eq!(r, None);
    assert_eq!(region.len(), 0);
}

#[test]
fn match_at_needs_exact_start() {
    let regex = Regex::new("l+o").unwrap();
    assert_eq!(regex.match_with_options("hello", 2, SEARCH_OPTION_NONE, None), Some(3));
    assert_eq!(regex.match_with_options("hello", 1, SEARCH_OPTION_NONE, None), None);
    assert_eq!(regex.match_with_options("hello", 9, SEARCH_OPTION_NONE, None), None);
}

#[test]
fn ignore_case_option() {
    let regex = Regex::with_options("hello", REGEX_OPTION_IGNORECASE, &Syntax::default()).unwrap();
    assert_eq!(regex.find("say HeLLo"), Some((4, 9)));
    let plain = Regex::new("hello").unwrap();
    assert_eq!(plain.find("say HeLLo"), None);
}

#[test]
fn compile_error_is_reported() {
    let e = Regex::new("\\p{foo}").unwrap_err();
    assert_eq!(e.kind(), ErrorKind::Compile);
    assert_eq!(e.code(), ERROR_PATTERN_SYNTAX);
    assert!(e.description().starts_with("regex parse error:"));
    assert!(e.description().contains("\\p{foo}"));
    assert!(e.description().len() <= 90);
    let e = Regex::new("(").unwrap_err();
    assert_eq!(e.kind(), ErrorKind::Compile);
    assert!(e.description().starts_with("regex parse error:"));
}

#[test]
fn other_dialects_are_refused() {
    for syntax in [
        Syntax::asis(),
        Syntax::posix_basic(),
        Syntax::posix_extended(),
        Syntax::emacs(),
        Syntax::grep(),
        Syntax::gnu_regex(),
        Syntax::java(),
        Syntax::perl(),
        Syntax::perl_ng(),
    ] {
        assert_ne!(syntax.dialect(), Dialect::Ruby);
        let e = Regex::with_options("a", REGEX_OPTION_NONE, &syntax).unwrap_err();
        assert_eq!(e.kind(), ErrorKind::Unsupported);
    }
    assert_eq!(Syntax::ruby().dialect(), Dialect::Ruby);
}

#[test]
fn test_regex_lens() {
    let regex = Regex::new("(he)(l+)(o)").unwrap();
    assert_eq!(regex.captures_len(), 3);
    assert_eq!(regex.names_len(), 0);
    assert_eq!(regex.capture_histories_len(), 0);
}

#[test]
fn capture_history_tree() {
    let mut region = Region::new();
    let mut syntax = Syntax::ruby();
    syntax.enable_operators(SYNTAX_OPERATOR_ATMARK_CAPTURE_HISTORY);

    let regex = Regex::with_options("(?@a+(?@b+))|(?@c+(?@d+))", REGEX_OPTION_NONE, &syntax).unwrap();
    assert_eq!(regex.capture_histories_len(), 4);

    let r = regex.search_with_options("- cd aaabbb -", 0, 13, SEARCH_OPTION_NONE, Some(&mut region));

    assert_eq!(r, Some(4));
    assert_eq!(region.len(), 5);

    let tree = region.tree().unwrap();

    assert_eq!(tree.len(), 1);
    assert_eq!(tree.group(), 0);
    assert_eq!(tree.pos(), (2, 4));

    assert_eq!(tree.child(0).len(), 1);
    assert_eq!(tree.child(0).group(), 3);
    assert_eq!(tree.child(0).pos(), (2, 4));

    assert_eq!(tree.child(0).child(0).len(), 0);
    assert_eq!(tree.child(0).child(0).group(), 4);
    assert_eq!(tree.child(0).child(0).pos(), (3, 4));

    let mut children = tree.children();
    assert_eq!(children.remaining(), 1);
    assert_eq!(children.next().map(|c| c.group()), Some(3));
    assert!(children.next().is_none());
    assert!(tree.get(1).is_none());

    let copy = region.clone();
    region.clear();
    assert!(region.tree().is_none());
    let kept = copy.tree().unwrap();
    assert_eq!(kept.child(0).child(0).pos(), (3, 4));
    assert_eq!(copy.pos(4), Some((3, 4)));
}

#[test]
fn history_marks_need_the_operator() {
    assert!(Regex::new("(?@a)").is_err());
    let mut syntax = Syntax::ruby();
    syntax.enable_operators(SYNTAX_OPERATOR_ATMARK_CAPTURE_HISTORY);
    let regex = Regex::with_options(r"\((?@x)[(?@]", REGEX_OPTION_NONE, &syntax).unwrap();
    assert_eq!(regex.capture_histories_len(), 1);
    assert_eq!(regex.captures_len(), 1);
    assert_eq!(regex.find("(x@"), Some((0, 3)));
}

#[test]
fn lib_test_regex_search_with_options() {
    let mut region = Region::new();
    let regex = Regex::new("e(l+)").unwrap();

    let r = regex.search_with_options("hello", 0, 5, SEARCH_OPTION_NONE, Some(&mut region));

    assert!(region.tree().is_none());
    assert_eq!(r, Some(4));
    assert_eq!(region.len(), 2);
    let pos1 = region.pos(0).unwrap();
    let pos2 = region.pos(1).unwrap();
    assert_eq!(pos1, (1, 4));
    assert_eq!(pos2, (2, 4));

    let cloned_region = region.clone();
    let pos1_clone = cloned_region.pos(0).unwrap();
    assert_eq!(pos1_clone, pos1);
}

#[test]
fn regex_test_regex_search_with_options() {
    let mut region = Region::new();
    let regex = Regex::new("e(l+)").unwrap();

    let r = regex.search_with_options("hello", 0, 5, SEARCH_OPTION_NONE, Some(&mut region));

    assert!(region.tree().is_none());
    assert_eq!(r, Some(4));
    assert_eq!(region.len(), 2);
    let pos1 = region.pos(0).unwrap();
    let pos2 = region.pos(1).unwrap();
    assert_eq!(pos1, (1, 4));
    assert_eq!(pos2, (2, 4));
}

fn search_history_tree(region: &mut Region) -> Option<usize> {
    let mut syntax = Syntax::ruby().clone();
    syntax.enable_operators(SYNTAX_OPERATOR_ATMARK_CAPTURE_HISTORY);
    let regex = Regex::with_options("(?@a+(?@b+))|(?@c+(?@d+))", REGEX_OPTION_NONE, &syntax).unwrap();
    regex.search_with_options("- cd aaabbb -", 0, 13, SEARCH_OPTION_NONE, Some(region))
}

#[test]
fn regex_test_regex_search_with_region_tree() {
    let mut region = Region::new();
    let r = search_history_tree(&mut region);

    assert_eq!(r, Some(4));
    assert_eq!(region.len(), 5);

    let tree = region.tree().unwrap();

    assert_eq!(tree.len(), 1);
    assert_eq!(tree.group(), 0);
    assert_eq!(tree.pos(), (2, 4));

    assert_eq!(tree.child(0).len(), 1);
    assert_eq!(tree.child(0).group(), 3);
    assert_eq!(tree.child(0).pos(), (2, 4));

    assert_eq!(tree.child(0).child(0).len(), 0);
    assert_eq!(tree.child(0).child(0).group(), 4);
    assert_eq!(tree.child(0).child(0).pos(), (3, 4));
}

#[test]
fn tree_test_regex_search_with_region_tree() {
    let mut region = Region::new();
    let r = search_history_tree(&mut region);

    assert_eq!(r, Some(4));
    assert_eq!(region.len(), 5);

    let tree = region.tree().unwrap();

    assert_eq!(tree.len(), 1);
    assert_eq!(tree.group(), 0);
    assert_eq!(tree.pos(), (2, 4));

    assert_eq!(tree.child(0).len(), 1);
    assert_eq!(tree.child(0).group(), 3);
    assert_eq!(tree.child(0).pos(), (2, 4));

    assert_eq!(tree.child(0).child(0).len(), 0);
    assert_eq!(tree.child(0).child(0).group(), 4);
    assert_eq!(tree.child(0).child(0).pos(), (3, 4));
}

#[test]
fn unsupported_options_are_refused() {
    let e = Regex::with_options("a", REGEX_OPTION_FIND_LONGEST, &Syntax::default()).unwrap_err();
    assert_eq!(e.kind(), ErrorKind::Unsupported);
    assert_eq!(e.code(), ERROR_INVALID_ARGUMENT);
    let mut syntax = Syntax::default();
    syntax.disable_operators(SYNTAX_OPERATOR_VBAR_ALT);
    assert_eq!(Regex::with_options("a|b", REGEX_OPTION_NONE, &syntax).unwrap_err().kind(), ErrorKind::Unsupported);
    let mut syntax = Syntax::default();
    syntax.enable_behavior(1);
    assert_eq!(Regex::with_options("a", REGEX_OPTION_NONE, &syntax).unwrap_err().kind(), ErrorKind::Unsupported);
}

#[test]
fn repeated_group_name_binds_both_groups() {
    let regex = Regex::new("(?<foo>he)(?<bar>l+)(?<bar>o)").unwrap();
    let captures = regex.captures("hello").unwrap();
    assert_eq!(captures.len(), 4);
    assert_eq!(captures.at(2), Some("ll"));
    assert_eq!(captures.at(3), Some("o"));
}
