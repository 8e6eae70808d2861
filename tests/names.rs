use onig::{index_names, Regex};

#[test]
fn names_index_of_plain_groups_is_empty() {
    let regex = Regex::new("(he)(l+)(o)").unwrap();
    assert_eq!(regex.capture_names_len(), 0);
    let mut names = regex.capture_names();
    assert_eq!(names.len(), 0);
    assert!(names.next().is_none());
}

#[test]
fn names_index_of_named_groups() {
    let regex = Regex::new("(?<foo>he)(l+)(?<bar>o)").unwrap();
    assert_eq!(regex.capture_names_len(), 2);
    let mut names = regex.capture_names();
    assert_eq!(names.next(), Some((String::from("foo"), vec![1])));
    assert_eq!(names.next(), Some((String::from("bar"), vec![3])));
    assert_eq!(names.next(), None);
}

#[test]
fn names_index_groups_reused_names() {
    let names = vec![None, Some(String::from("foo")), Some(String::from("bar")), Some(String::from("bar"))];
    let (keys, groups) = index_names(&names);
    assert_eq!(keys, vec![String::from("foo"), String::from("bar")]);
    assert_eq!(groups, vec![vec![1], vec![2, 3]]);
}

#[test]
fn names_index_of_nothing() {
    let (keys, groups) = index_names(&vec![None]);
    assert!(keys.is_empty());
    assert!(groups.is_empty());
}

#[test]
fn foreach_name_walks_the_index() {
    let regex = Regex::new("(?<foo>he)(l+)(?<bar>o)").unwrap();
    let mut seen: Vec<(String, Vec<usize>)> = Vec::new();
    let r = regex.foreach_name(|name, groups| {
        seen.push((name.to_string(), groups.to_vec()));
        true
    });
    assert_eq!(r, 0);
    assert_eq!(seen, vec![(String::from("foo"), vec![1]), (String::from("bar"), vec![3])]);
}

#[test]
fn foreach_name_stops_when_asked() {
    let regex = Regex::new("(?<foo>he)(l+)(?<bar>o)").unwrap();
    let mut calls = 0;
    let r = regex.foreach_name(|_, _| {
        calls += 1;
        false
    });
    assert_eq!(r, -1);
    assert_eq!(calls, 1);
}

fn collect_names(regex: &Regex) -> Vec<(String, Vec<usize>)> {
    let mut names = regex.capture_names();
    let mut out = Vec::new();
    while let Some(entry) = names.next() {
        out.push(entry);
    }
    out
}

#[test]
fn names_test_regex_names_len() {
    let regex = Regex::new("(he)(l+)(o)").unwrap();
    assert_eq!(regex.capture_names_len(), 0);
    let regex = Regex::new("(?<foo>he)(?<bar>l+)(?<bar>o)").unwrap();
    assert_eq!(regex.capture_names_len(), 2);
    assert_eq!(regex.capture_histories_len(), 0);
}

#[test]
fn names_test_regex_names() {
    let regex = Regex::new("(he)(l+)(o)").unwrap();
    let names = collect_names(&regex);
    assert_eq!(names, vec![]);
    let regex = Regex::new("(?<foo>he)(?<bar>l+)(?<bar>o)").unwrap();
    let names = collect_names(&regex);
    assert_eq!(names, [(String::from("foo"), vec![1]), (String::from("bar"), vec![2, 3])]);
}
