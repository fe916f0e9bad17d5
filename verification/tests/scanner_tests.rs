use modulegen::scanner::{scan, strip_candidate_name};

fn listing(names: &[&str]) -> Vec<String> {
    names.iter().map(|s| s.to_string()).collect()
}

fn sorted(mut v: Vec<String>) -> Vec<String> {
    v.sort();
    v
}

#[test]
fn complete_triple_is_listed() {
    let files = listing(&["Widget.json", "Widget.cpp", "Widget.h"]);
    assert_eq!(scan(&files), vec!["Widget".to_string()]);
}

#[test]
fn alternate_extensions_pair_up() {
    let files = listing(&["Sensor.json", "Sensor.c", "Sensor.hpp"]);
    assert_eq!(scan(&files), vec!["Sensor".to_string()]);
}

#[test]
fn missing_schema_excludes_candidate() {
    let files = listing(&["Widget.cpp", "Widget.h"]);
    assert!(scan(&files).is_empty());
}

#[test]
fn missing_cpp_class_file_excludes_candidate() {
    let files = listing(&["Widget.json", "Widget.h"]);
    assert!(scan(&files).is_empty());
}

#[test]
fn missing_h_class_file_excludes_candidate() {
    let files = listing(&["Widget.json", "Widget.cpp"]);
    assert!(scan(&files).is_empty());
}

#[test]
fn adding_the_third_file_flips_membership() {
    let incomplete = listing(&["Widget.json", "Widget.cpp"]);
    assert!(scan(&incomplete).is_empty());
    let complete = listing(&["Widget.json", "Widget.cpp", "Widget.hpp"]);
    assert_eq!(scan(&complete), vec!["Widget".to_string()]);
}

#[test]
fn empty_listing_yields_empty_result() {
    let files: Vec<String> = Vec::new();
    assert!(scan(&files).is_empty());
}

#[test]
fn unrecognized_files_contribute_nothing() {
    let files = listing(&["README.md", "Widget.json", "Widget.cpp", "Widget.h"]);
    assert_eq!(scan(&files), vec!["Widget".to_string()]);
}

#[test]
fn candidates_are_kept_apart_by_name() {
    let files = listing(&[
        "Widget.json",
        "Widget.cpp",
        "Sensor.json",
        "Sensor.cpp",
        "Sensor.h",
        "Widget.h",
    ]);
    assert_eq!(
        sorted(scan(&files)),
        vec!["Sensor".to_string(), "Widget".to_string()]
    );
}

#[test]
fn scan_twice_yields_the_same_result() {
    let files = listing(&["A.json", "A.cpp", "A.h", "B.json", "B.cpp"]);
    assert_eq!(scan(&files), scan(&files));
}

#[test]
fn scan_is_insensitive_to_listing_order() {
    let one = listing(&["A.json", "A.cpp", "A.h", "B.json", "B.cpp", "B.hpp"]);
    let other = listing(&["B.hpp", "B.cpp", "A.h", "B.json", "A.cpp", "A.json"]);
    assert_eq!(sorted(scan(&one)), sorted(scan(&other)));
}

#[test]
fn each_name_is_listed_once() {
    let files = listing(&["A.json", "A.cpp", "A.h", "A.hpp", "A.c"]);
    assert_eq!(scan(&files), vec!["A".to_string()]);
}

#[test]
fn flipping_one_name_leaves_the_others_alone() {
    let before = listing(&["A.json", "A.cpp", "A.h", "B.json", "B.cpp"]);
    assert_eq!(scan(&before), vec!["A".to_string()]);
    let after = listing(&["A.json", "A.cpp", "A.h", "B.json", "B.cpp", "B.h"]);
    assert_eq!(sorted(scan(&after)), vec!["A".to_string(), "B".to_string()]);
}

#[test]
fn extensions_count_only_as_suffixes() {
    // `Widget.json.bak` has no recognized extension, so it contributes
    // no schema flag.
    let files = listing(&["Widget.json.bak", "Widget.cpp", "Widget.h"]);
    assert!(scan(&files).is_empty());
}

#[test]
fn stripping_recognized_extensions() {
    assert_eq!(strip_candidate_name("Widget.json"), "Widget");
    assert_eq!(strip_candidate_name("Widget.cpp"), "Widget");
    assert_eq!(strip_candidate_name("Widget.hpp"), "Widget");
    assert_eq!(strip_candidate_name("Widget.h"), "Widget");
    assert_eq!(strip_candidate_name("Widget.c"), "Widget");
    assert_eq!(strip_candidate_name("README.md"), "README.md");
}
