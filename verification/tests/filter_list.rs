use rbmc::filter::{trim_line, FilterSet};
use rbmc::model::FilterPolicy;

#[test]
fn trim_removes_surrounding_whitespace() {
    assert_eq!(trim_line("  get \t"), "get");
    assert_eq!(trim_line("get"), "get");
    assert_eq!(trim_line("\r\n"), "");
    assert_eq!(trim_line(""), "");
    assert_eq!(trim_line(" a b "), "a b");
}

#[test]
fn from_lines_trims_and_skips_blanks() {
    let lines = vec![
        "  get  ".to_string(),
        "".to_string(),
        "   ".to_string(),
        "touch".to_string(),
        "get".to_string(),
    ];
    let f = FilterSet::from_lines(&lines);
    assert!(f.contains(&"get".to_string()));
    assert!(f.contains(&"touch".to_string()));
    assert!(!f.contains(&"".to_string()));
    assert!(!f.contains(&"  get  ".to_string()));
    assert!(!f.contains(&"absent".to_string()));
}

#[test]
fn empty_filter_excludes_nothing() {
    let f = FilterSet::new();
    assert!(!f.contains(&"anything".to_string()));
    assert!(f.passes(FilterPolicy::Exclude, &"anything".to_string()));
    assert!(!f.passes(FilterPolicy::Include, &"anything".to_string()));
}

#[test]
fn policy_directions_are_opposite_on_listed_names() {
    let lines = vec!["listed".to_string()];
    let f = FilterSet::from_lines(&lines);
    assert!(!f.passes(FilterPolicy::Exclude, &"listed".to_string()));
    assert!(f.passes(FilterPolicy::Include, &"listed".to_string()));
    assert!(f.passes(FilterPolicy::Exclude, &"other".to_string()));
    assert!(!f.passes(FilterPolicy::Include, &"other".to_string()));
}
