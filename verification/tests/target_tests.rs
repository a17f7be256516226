use std::path::PathBuf;
use war_sheet::targets::{night_file_name, report_patterns, sort_targets, target_name, ParseTarget};

#[test]
fn report_names_drop_day() {
    assert_eq!(target_name("2021-01-01 12-00-00_day"), "2021-01-01 12-00-00");
    assert_eq!(target_name("day"), "day");
    assert_eq!(target_name("a_day_b_day"), "a_b");
}

#[test]
fn night_files_are_named_after_the_report() {
    assert_eq!(night_file_name("abc", "json"), "abc_night.json");
    assert_eq!(night_file_name("战斗", "txt"), "战斗_night.txt");
}

#[test]
fn patterns_cover_each_folder_and_extension() {
    assert_eq!(
        report_patterns("data"),
        vec![
            "./data/pve/*_day.json",
            "./data/pve/*_day.txt",
            "./data/pvp/*_day.json",
            "./data/pvp/*_day.txt",
            "./data/friend/*_day.json",
            "./data/friend/*_day.txt",
        ]
    );
}

fn target(name: &str) -> ParseTarget {
    ParseTarget { name: name.to_string(), file: PathBuf::from(format!("{}.json", name)), night_file: None }
}

#[test]
fn targets_are_sorted_by_name_bytes() {
    let names = ["b", "a", "ab", "", "B", "战", "aa", "a"];
    let sorted = sort_targets(names.iter().map(|n| target(n)).collect());
    let got: Vec<&str> = sorted.iter().map(|t| t.name.as_str()).collect();
    let mut want: Vec<&str> = names.to_vec();
    want.sort();
    assert_eq!(got, want);
    assert_eq!(got, vec!["", "B", "a", "a", "aa", "ab", "b", "战"]);
    assert_eq!(sorted[0].file, PathBuf::from(".json"));
}

#[test]
fn sorting_nothing_gives_nothing() {
    assert!(sort_targets(vec![]).is_empty());
}
