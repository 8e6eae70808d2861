use onig::{pick_winner, ErrorKind, RegSet, RegSetLead, REGEX_OPTION_FIND_LONGEST, REGEX_OPTION_IGNORECASE, SEARCH_OPTION_NONE};

#[test]
fn test_regset_empty_patterns() {
    let set = RegSet::new(&[]).unwrap();
    assert_eq!(set.len(), 0);
    assert!(set.is_empty());
}

#[test]
fn test_regset_new() {
    let set = RegSet::new(&[r"\d+"]).unwrap();
    assert_eq!(set.len(), 1);
    assert!(!set.is_empty());
}

#[test]
fn test_regset_find_with_options() {
    let set = RegSet::new(&[r"\d+", r"[a-z]+"]).unwrap();

    let result = set.find_with_options("hello123", RegSetLead::Position, SEARCH_OPTION_NONE);
    assert!(result.is_some());

    let result = set.find_with_options("hello123", RegSetLead::Regex, SEARCH_OPTION_NONE);
    assert!(result.is_some());

    let result = set.find_with_options("!@#$%", RegSetLead::Regex, SEARCH_OPTION_NONE);
    assert!(result.is_none());
}

#[test]
fn test_regset_captures() {
    let set = RegSet::new(&[r"(\d+)-(\d+)", r"([a-z]+)"]).unwrap();

    if let Some((regex_index, captures)) = set.captures("hello123") {
        assert_eq!(regex_index, 1);
        assert_eq!(captures.at(0), Some("hello"));
        assert_eq!(captures.pos(0), Some((0, 5)));
    } else {
        panic!("Expected to find a match");
    }

    if let Some((regex_index, captures)) = set.captures("123-456") {
        assert_eq!(regex_index, 0);
        assert_eq!(captures.len(), 3);
        assert_eq!(captures.at(0), Some("123-456"));
        assert_eq!(captures.at(1), Some("123"));
        assert_eq!(captures.at(2), Some("456"));
    } else {
        panic!("Expected to find a match");
    }

    assert!(set.captures("!@#$%").is_none());
}

#[test]
fn test_regset_replace_pattern() {
    let mut set = RegSet::new(&[r"\d+", r"[a-z]+"]).unwrap();

    assert!(set.find("123").is_some());
    set.replace_pattern(0, r"[A-Z]+").unwrap();
    assert!(set.replace_pattern(100, r"[A-Z]+").is_err());

    assert!(set.find("123").is_none());
    assert!(set.find("ABC").is_some());
    assert!(set.find("hello").is_some());
    assert_eq!(set.len(), 2);
}

#[test]
fn test_regset_add_pattern() {
    let mut set = RegSet::empty().unwrap();

    let idx1 = set.add_pattern(r"\d+").unwrap();
    assert_eq!(idx1, 0);
    assert_eq!(set.len(), 1);
    assert_eq!(set.find("hello123"), Some((0, 5)));

    let idx2 = set.add_pattern(r"[a-z]+").unwrap();
    assert_eq!(idx2, 1);
    assert_eq!(set.len(), 2);
    assert_eq!(set.find("hello123"), Some((1, 0)));
}

#[test]
fn test_regset_add_pattern_captures() {
    let mut set = RegSet::empty().unwrap();
    set.add_pattern(r"(\d{4})-(\d{2})-(\d{2})").unwrap();

    let (idx, caps) = set.captures("2023-12-25").unwrap();
    assert_eq!(idx, 0);
    assert_eq!(caps.at(1), Some("2023"));
    assert_eq!(caps.at(2), Some("12"));
    assert_eq!(caps.at(3), Some("25"));
}

#[test]
fn test_regset_add_pattern_errors() {
    let mut set = RegSet::empty().unwrap();

    assert!(set.add_pattern(r"[").is_err());
    assert_eq!(set.len(), 0);

    assert!(set.replace_pattern(0, r"\d+").is_err());

    set.add_pattern(r"\d+").unwrap();
    assert_eq!(set.len(), 1);
}

#[test]
fn test_regset_captures_with_encoding() {
    let set = RegSet::new(&[r"(\d+)", r"([a-z]+)"]).unwrap();

    if let Some((regex_index, captures)) =
        set.captures_with_encoding("hello123", 0, 8, RegSetLead::Position, SEARCH_OPTION_NONE)
    {
        assert_eq!(regex_index, 1);
        assert_eq!(captures.at(0), Some("hello"));
        assert_eq!(captures.at(1), Some("hello"));
    } else {
        panic!("Expected to find a match");
    }
}

#[test]
fn regset_position_lead_picks_earliest_start() {
    let set = RegSet::new(&[r"\d+", r"[a-z]+"]).unwrap();
    assert_eq!(set.find_with_options("hello123", RegSetLead::Position, SEARCH_OPTION_NONE), Some((1, 0)));
    assert_eq!(set.find_with_options("hello123", RegSetLead::Regex, SEARCH_OPTION_NONE), Some((1, 0)));
}

#[test]
fn regset_priority_lead_picks_lowest_index() {
    let set = RegSet::new(&[r"\d+", r"[a-z]+"]).unwrap();
    assert_eq!(
        set.find_with_options("hello123", RegSetLead::PriorityToRegexOrder, SEARCH_OPTION_NONE),
        Some((0, 5))
    );
}

#[test]
fn regset_add_returns_increasing_indices() {
    let mut set = RegSet::empty().unwrap();
    for (n, p) in [r"a", r"b", r"c", r"d"].iter().enumerate() {
        assert_eq!(set.add_pattern(p).unwrap(), n);
        assert_eq!(set.len(), n + 1);
    }
}

#[test]
fn regset_bad_replace_keeps_results() {
    let mut set = RegSet::new(&[r"\d+", r"[a-z]+"]).unwrap();
    let before = set.find("abc 42");
    assert!(set.replace_pattern(2, r"x").is_err());
    assert!(set.replace_pattern(0, r"(").is_err());
    assert_eq!(set.find("abc 42"), before);
    assert_eq!(set.len(), 2);
}

#[test]
fn regset_replace_changes_language() {
    let mut set = RegSet::new(&[r"\d+", r"[a-z]+"]).unwrap();
    assert_eq!(set.find("ABC 1"), Some((0, 4)));
    set.replace_pattern(0, r"[A-Z]+").unwrap();
    assert_eq!(set.find("ABC 1"), Some((0, 0)));
    assert_eq!(set.len(), 2);
}

#[test]
fn regset_search_range() {
    let set = RegSet::new(&[r"\d+", r"[a-z]+"]).unwrap();
    assert_eq!(set.search_with_encoding("hello123", 5, 8, RegSetLead::Position, SEARCH_OPTION_NONE), Some((0, 5)));
    assert_eq!(set.search_with_encoding("hello123", 6, 5, RegSetLead::Position, SEARCH_OPTION_NONE), None);
    assert_eq!(set.search_with_encoding("hello123", 0, 9, RegSetLead::Position, SEARCH_OPTION_NONE), None);
}

#[test]
fn regset_empty_set_finds_nothing() {
    let set = RegSet::empty().unwrap();
    assert_eq!(set.find("anything"), None);
    assert!(set.captures("anything").is_none());
}

#[test]
fn pick_winner_rules() {
    let starts = vec![Some(5), None, Some(0), Some(0)];
    assert_eq!(pick_winner(&starts, RegSetLead::Position), Some((2, 0)));
    assert_eq!(pick_winner(&starts, RegSetLead::Regex), Some((2, 0)));
    assert_eq!(pick_winner(&starts, RegSetLead::PriorityToRegexOrder), Some((0, 5)));
    assert_eq!(pick_winner(&vec![None, None], RegSetLead::Position), None);
    assert_eq!(pick_winner(&vec![], RegSetLead::PriorityToRegexOrder), None);
}

#[test]
fn regset_refuses_unsupported_options() {
    let e = RegSet::with_options(&[r"a"], REGEX_OPTION_FIND_LONGEST).unwrap_err();
    assert_eq!(e.kind(), ErrorKind::Unsupported);
    let set = RegSet::with_options(&[r"abc"], REGEX_OPTION_IGNORECASE).unwrap();
    assert_eq!(set.find("xABC"), Some((0, 1)));
}
