use modulegen::params::ParamSet;
use modulegen::render::{render_document, render_pair, DocKind, RenderError};

fn params_of(pairs: &[(&str, &str)]) -> ParamSet {
    let mut p = ParamSet::new();
    for (k, v) in pairs {
        p.insert(k.to_string(), v.to_string());
    }
    p
}

#[test]
fn bound_placeholder_substitutes_the_value_exactly() {
    let p = params_of(&[("X", "val")]);
    assert_eq!(render_document("{{X}}", &p).unwrap(), "val");
}

#[test]
fn literal_text_passes_through_unchanged() {
    let p = params_of(&[]);
    assert_eq!(
        render_document("no placeholders here", &p).unwrap(),
        "no placeholders here"
    );
}

#[test]
fn each_occurrence_is_substituted_once() {
    let p = params_of(&[("a", "v")]);
    assert_eq!(render_document("{{a}}-{{a}}", &p).unwrap(), "v-v");
}

#[test]
fn text_around_placeholders_is_kept() {
    let p = params_of(&[("name", "engine")]);
    assert_eq!(
        render_document("class {{name}} {};", &p).unwrap(),
        "class engine {};"
    );
}

#[test]
fn missing_key_fails_with_its_name() {
    let p = params_of(&[("other", "bound")]);
    let err = render_document("{{X}} rest", &p).unwrap_err();
    assert!(matches!(err, RenderError::UnboundParameter(k) if k == "X"));
}

#[test]
fn missing_key_under_upper_fails_too() {
    let p = params_of(&[]);
    let err = render_document("{{upper X}}", &p).unwrap_err();
    assert!(matches!(err, RenderError::UnboundParameter(k) if k == "X"));
}

#[test]
fn upper_helper_uppercases_at_the_call_site() {
    let p = params_of(&[("name", "engine")]);
    assert_eq!(render_document("{{upper name}}", &p).unwrap(), "ENGINE");
}

#[test]
fn upper_helper_leaves_the_stored_value_unchanged() {
    let p = params_of(&[("name", "engine")]);
    assert_eq!(render_document("{{upper name}}", &p).unwrap(), "ENGINE");
    assert_eq!(p.get("name").unwrap().as_str(), "engine");
    assert_eq!(render_document("{{name}}", &p).unwrap(), "engine");
}

#[test]
fn unclosed_placeholder_is_malformed() {
    let p = params_of(&[("abc", "v")]);
    let err = render_document("{{abc", &p).unwrap_err();
    assert!(matches!(err, RenderError::MalformedTemplate));
}

#[test]
fn empty_placeholder_is_malformed() {
    let p = params_of(&[]);
    let err = render_document("{{}}", &p).unwrap_err();
    assert!(matches!(err, RenderError::MalformedTemplate));
}

#[test]
fn space_in_name_is_malformed() {
    let p = params_of(&[("a", "v"), ("b", "w")]);
    let err = render_document("{{a b}}", &p).unwrap_err();
    assert!(matches!(err, RenderError::MalformedTemplate));
}

#[test]
fn lone_braces_are_literal_text() {
    let p = params_of(&[("a", "v")]);
    assert_eq!(render_document("{ } {{a}} {", &p).unwrap(), "{ } v {");
}

#[test]
fn pair_renders_both_documents_against_one_set() {
    let p = params_of(&[("name", "sensor")]);
    let (h, s) = render_pair("{{upper name}}", "{{name}}", &p).unwrap();
    assert_eq!(h, "SENSOR");
    assert_eq!(s, "sensor");
}

#[test]
fn pair_failure_names_the_header_document() {
    let p = params_of(&[]);
    let f = render_pair("{{missing}}", "fine", &p).unwrap_err();
    assert_eq!(f.document, DocKind::Header);
    assert!(matches!(f.error, RenderError::UnboundParameter(k) if k == "missing"));
}

#[test]
fn pair_failure_names_the_source_document() {
    let p = params_of(&[("ok", "v")]);
    let f = render_pair("{{ok}}", "{{missing}}", &p).unwrap_err();
    assert_eq!(f.document, DocKind::Source);
    assert!(matches!(f.error, RenderError::UnboundParameter(k) if k == "missing"));
}

#[test]
fn empty_template_renders_empty() {
    let p = params_of(&[]);
    assert_eq!(render_document("", &p).unwrap(), "");
}

#[test]
fn leftmost_unbound_key_is_reported() {
    let p = params_of(&[]);
    let err = render_document("{{first}}{{second}}", &p).unwrap_err();
    assert!(matches!(err, RenderError::UnboundParameter(k) if k == "first"));
}
