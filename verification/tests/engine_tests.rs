use openapi_merge::data::Dispute;
use openapi_merge::data::DisputePrefix;
use openapi_merge::data::DisputeSuffix;
use openapi_merge::data::DescriptionMergeBehaviour;
use openapi_merge::data::DescriptionTitle;
use openapi_merge::data::PathModification;
use openapi_merge::data::SingleMergeInput;
use openapi_merge::json::Json;
use openapi_merge::json::json_equal;
use openapi_merge::merge::merge;
use openapi_merge::merge::dispute::DisputeStatus;
use openapi_merge::merge::dispute::apply_dispute;
use openapi_merge::merge::paths_components::apply_path_modification;
use openapi_merge::model::Document;
use openapi_merge::model::Info;
use openapi_merge::text::str_trim_end;
use openapi_merge::text::u64_to_dec;

fn s(x: &str) -> String {
    x.to_string()
}

fn doc_with_description(d: &str) -> Document {
    Document {
        openapi: s("3.0.0"),
        info: Info {
            title: s("API"),
            version: s("1.0.0"),
            description: Some(s(d)),
            extra: Json::Null,
        },
        servers: vec![],
        paths: vec![],
        components: None,
        security: None,
        tags: vec![],
        external_docs: None,
        extensions: vec![],
    }
}

fn input(d: Document) -> SingleMergeInput {
    SingleMergeInput {
        oas: d,
        path_modification: None,
        operation_selection: None,
        description: None,
        dispute: None,
        dispute_prefix: None,
    }
}

#[test]
fn undisputed_names_are_kept_unless_always_applied() {
    let prefix = Dispute::Prefix(DisputePrefix { prefix: s("p"), always_apply: Some(false) });
    assert_eq!(apply_dispute(Some(&prefix), "Name", DisputeStatus::Undisputed), s("Name"));
    let prefix_none = Dispute::Prefix(DisputePrefix { prefix: s("p"), always_apply: None });
    assert_eq!(apply_dispute(Some(&prefix_none), "Name", DisputeStatus::Undisputed), s("Name"));
    let suffix = Dispute::Suffix(DisputeSuffix { suffix: s("X"), always_apply: None });
    assert_eq!(apply_dispute(Some(&suffix), "Name", DisputeStatus::Undisputed), s("Name"));
    assert_eq!(apply_dispute(None, "Name", DisputeStatus::Disputed), s("Name"));
}

#[test]
fn disputed_names_take_the_prefix_or_suffix() {
    let prefix = Dispute::Prefix(DisputePrefix { prefix: s("p"), always_apply: Some(false) });
    assert_eq!(apply_dispute(Some(&prefix), "Name", DisputeStatus::Disputed), s("pName"));
    let suffix = Dispute::Suffix(DisputeSuffix { suffix: s("X"), always_apply: Some(true) });
    assert_eq!(apply_dispute(Some(&suffix), "Name", DisputeStatus::Undisputed), s("NameX"));
    assert_eq!(apply_dispute(Some(&suffix), "Name", DisputeStatus::Disputed), s("NameX"));
}

#[test]
fn path_modification_strips_then_prepends() {
    let pm = PathModification { strip_start: Some(s("/api")), prepend: Some(s("/v2")) };
    assert_eq!(apply_path_modification(&s("/api/users"), Some(&pm)), s("/v2/users"));
    assert_eq!(apply_path_modification(&s("/other"), Some(&pm)), s("/v2/other"));
    let strip_only = PathModification { strip_start: Some(s("/api")), prepend: None };
    assert_eq!(apply_path_modification(&s("/api/users"), Some(&strip_only)), s("/users"));
    assert_eq!(apply_path_modification(&s("/users"), None), s("/users"));
}

#[test]
fn json_equality_ignores_object_order_but_not_array_order() {
    let a = Json::Obj(vec![
        (s("a"), Json::Num(s("1"))),
        (s("b"), Json::Bool(true)),
    ]);
    let b = Json::Obj(vec![
        (s("b"), Json::Bool(true)),
        (s("a"), Json::Num(s("1"))),
    ]);
    assert!(json_equal(&a, &b));
    let c = Json::Arr(vec![Json::Num(s("1")), Json::Num(s("2"))]);
    let d = Json::Arr(vec![Json::Num(s("2")), Json::Num(s("1"))]);
    assert!(!json_equal(&c, &d));
    assert!(json_equal(&c, &Json::Arr(vec![Json::Num(s("1")), Json::Num(s("2"))])));
    assert!(!json_equal(&a, &Json::Null));
}

#[test]
fn decimal_rendering() {
    assert_eq!(u64_to_dec(0), s("0"));
    assert_eq!(u64_to_dec(7), s("7"));
    assert_eq!(u64_to_dec(42), s("42"));
    assert_eq!(u64_to_dec(999), s("999"));
    assert_eq!(u64_to_dec(1005), s("1005"));
}

#[test]
fn trailing_whitespace_is_trimmed() {
    assert_eq!(str_trim_end("abc  \n\t"), s("abc"));
    assert_eq!(str_trim_end("abc"), s("abc"));
    assert_eq!(str_trim_end("   "), s(""));
    assert_eq!(str_trim_end(""), s(""));
}

#[test]
fn descriptions_are_appended_with_headings() {
    let a = doc_with_description("First paragraph.  ");
    let b = doc_with_description("Second paragraph.\n");
    let mut ai = input(a);
    ai.description = Some(DescriptionMergeBehaviour { append: true, title: None });
    let mut bi = input(b);
    bi.description = Some(DescriptionMergeBehaviour {
        append: true,
        title: Some(DescriptionTitle { value: s("Part B"), heading_level: Some(2) }),
    });
    let out = merge(&vec![ai, bi], None).unwrap();
    assert_eq!(
        out.info.description,
        Some(s("First paragraph.\n\n## Part B\n\nSecond paragraph."))
    );
}

#[test]
fn description_not_appended_without_append_flag() {
    let a = doc_with_description("Kept as is.");
    let b = doc_with_description("Ignored.");
    let out = merge(&vec![input(a), input(b)], None).unwrap();
    assert_eq!(out.info.description, Some(s("Kept as is.")));
}
