use std::collections::HashMap;

use modulegen::cli::{parse_action, Action, CliError};
use modulegen::params::ParamSet;
use modulegen::pipeline::{generate, template_file_paths};
use modulegen::prompt::{is_paren_free, prompt_label, prompt_label_or_plain};
use modulegen::render::{DocKind, RenderError};
use modulegen::schema::{load_schema, SchemaError};
use modulegen::writer::{derive_output_name, join_path, output_paths, path_last_segment};

fn params_of(pairs: &[(&str, &str)]) -> ParamSet {
    let mut p = ParamSet::new();
    for (k, v) in pairs {
        p.insert(k.to_string(), v.to_string());
    }
    p
}

#[test]
fn schema_of_two_names_loads_in_order() {
    let text = "[\"module_name\",\"module_description\"]";
    let keys = load_schema(text).unwrap();
    assert_eq!(keys, vec!["module_name".to_string(), "module_description".to_string()]);
}

#[test]
fn empty_array_is_a_valid_schema() {
    assert!(load_schema("[]").unwrap().is_empty());
}

#[test]
fn schema_that_is_not_json_is_rejected() {
    assert_eq!(load_schema("not json at all"), Err(SchemaError::NotAStringArray));
}

#[test]
fn schema_of_numbers_is_rejected() {
    assert_eq!(load_schema("[1,2]"), Err(SchemaError::NotAStringArray));
}

#[test]
fn schema_object_is_rejected() {
    assert_eq!(load_schema("{\"a\":\"b\"}"), Err(SchemaError::NotAStringArray));
}

#[test]
fn duplicate_names_are_kept_as_given() {
    let keys = load_schema("[\"a\",\"a\"]").unwrap();
    assert_eq!(keys, vec!["a".to_string(), "a".to_string()]);
}

#[test]
fn prompt_label_title_cases_the_name() {
    assert_eq!(prompt_label("module_name"), "Module Name");
}

#[test]
fn screened_label_title_cases_ordinary_names() {
    assert_eq!(prompt_label_or_plain("module_name"), "Module Name");
}

#[test]
fn screened_label_keeps_parenthesized_names_plain() {
    assert!(!is_paren_free("weird(_key"));
    assert_eq!(prompt_label_or_plain("weird(_key"), "weird( key");
}

#[test]
fn params_get_returns_the_bound_value() {
    let p = params_of(&[("a", "1"), ("b", "2")]);
    assert_eq!(p.get("a").unwrap().as_str(), "1");
    assert_eq!(p.get("b").unwrap().as_str(), "2");
    assert!(p.get("c").is_none());
}

#[test]
fn params_later_insert_wins() {
    let mut p = ParamSet::new();
    p.insert("k".to_string(), "first".to_string());
    p.insert("k".to_string(), "second".to_string());
    assert_eq!(p.get("k").unwrap().as_str(), "second");
}

#[test]
fn output_name_falls_back_to_the_type_name() {
    let p = params_of(&[("module_description", "desc")]);
    assert_eq!(derive_output_name(&p, "templates/Widget"), "Widget");
}

#[test]
fn output_name_prefers_the_module_name_parameter() {
    let p = params_of(&[("module_name", "Foo")]);
    assert_eq!(derive_output_name(&p, "templates/Widget"), "Foo");
    let (h, c) = output_paths("output", "Foo");
    assert_eq!(h, "output/Foo.h");
    assert_eq!(c, "output/Foo.cpp");
}

#[test]
fn last_segment_of_plain_name_is_itself() {
    assert_eq!(path_last_segment("Widget"), "Widget");
    assert_eq!(path_last_segment("a/b/c"), "c");
}

#[test]
fn join_path_inserts_one_separator() {
    assert_eq!(join_path("templates", "Widget"), "templates/Widget");
}

#[test]
fn template_file_paths_derive_from_the_base_path() {
    let t = template_file_paths("templates/Widget");
    assert_eq!(t.schema_path, "templates/Widget.json");
    assert_eq!(t.header_path, "templates/Widget.h");
    assert_eq!(t.source_path, "templates/Widget.cpp");
}

#[test]
fn new_module_selects_the_pipeline() {
    assert_eq!(parse_action("new", "module"), Ok(Action::NewModule));
}

#[test]
fn other_pairs_are_unknown_actions() {
    assert_eq!(parse_action("new", "project"), Err(CliError::UnknownAction));
    assert_eq!(parse_action("delete", "module"), Err(CliError::UnknownAction));
    assert_eq!(parse_action("", ""), Err(CliError::UnknownAction));
}

#[test]
fn round_trip_scenario() {
    // Widget.json = ["module_name","module_description"],
    // Widget.h = {{upper module_name}}, Widget.cpp = {{module_name}}.
    let keys = load_schema("[\"module_name\",\"module_description\"]").unwrap();
    let values = [("module_name", "sensor"), ("module_description", "desc")];
    let mut params = ParamSet::new();
    for key in &keys {
        let value = values.iter().find(|(k, _)| k == key).unwrap().1;
        params.insert(key.clone(), value.to_string());
    }
    let g = generate(
        "{{upper module_name}}",
        "{{module_name}}",
        &params,
        "templates/Widget",
        "output",
    )
    .unwrap();
    assert_eq!(g.output_name, "sensor");
    assert_eq!(g.header_path, "output/sensor.h");
    assert_eq!(g.source_path, "output/sensor.cpp");
    assert_eq!(g.header_body, "SENSOR");
    assert_eq!(g.source_body, "sensor");
}

#[test]
fn generation_failure_produces_no_output() {
    // The collected set lacks module_description, which the source
    // template references.
    let params = params_of(&[("module_name", "sensor")]);
    let f = generate(
        "{{upper module_name}}",
        "{{module_name}}: {{module_description}}",
        &params,
        "templates/Widget",
        "output",
    )
    .unwrap_err();
    assert_eq!(f.document, DocKind::Source);
    assert!(matches!(f.error, RenderError::UnboundParameter(k) if k == "module_description"));
}

#[test]
fn overwrite_scenario_last_generation_wins() {
    // Two runs with the same module_name and different descriptions:
    // the second run's content is the only content present afterward.
    let template_h = "// {{upper module_name}}";
    let template_cpp = "// {{module_name}}: {{module_description}}";
    let mut directory: HashMap<String, String> = HashMap::new();

    let first = params_of(&[("module_name", "sensor"), ("module_description", "one")]);
    let g1 = generate(template_h, template_cpp, &first, "templates/Widget", "output").unwrap();
    directory.insert(g1.header_path.clone(), g1.header_body.clone());
    directory.insert(g1.source_path.clone(), g1.source_body.clone());

    let second = params_of(&[("module_name", "sensor"), ("module_description", "two")]);
    let g2 = generate(template_h, template_cpp, &second, "templates/Widget", "output").unwrap();
    directory.insert(g2.header_path.clone(), g2.header_body.clone());
    directory.insert(g2.source_path.clone(), g2.source_body.clone());

    assert_eq!(directory.len(), 2);
    assert_eq!(directory["output/sensor.h"], "// SENSOR");
    assert_eq!(directory["output/sensor.cpp"], "// sensor: two");
    assert!(!directory.values().any(|v| v.contains("one")));
}
