use openapi_merge::data::Dispute;
use openapi_merge::data::DisputePrefix;
use openapi_merge::data::ErrorType;
use openapi_merge::data::OperationSelection;
use openapi_merge::data::PathModification;
use openapi_merge::data::SingleMergeInput;
use openapi_merge::json::Json;
use openapi_merge::merge::merge;
use openapi_merge::model::Component;
use openapi_merge::model::Components;
use openapi_merge::model::Document;
use openapi_merge::model::Info;
use openapi_merge::model::MediaType;
use openapi_merge::model::Operation;
use openapi_merge::model::PathItem;
use openapi_merge::model::Response;
use openapi_merge::model::Schema;
use openapi_merge::model::Tag;

fn s(x: &str) -> String {
    x.to_string()
}

fn base_info() -> Info {
    Info { title: s("API"), version: s("1.0.0"), description: None, extra: Json::Null }
}

fn base_doc() -> Document {
    Document {
        openapi: s("3.0.0"),
        info: base_info(),
        servers: vec![],
        paths: vec![],
        components: None,
        security: None,
        tags: vec![],
        external_docs: None,
        extensions: vec![],
    }
}

fn empty_components() -> Components {
    Components {
        schemas: vec![],
        responses: vec![],
        parameters: vec![],
        examples: vec![],
        request_bodies: vec![],
        headers: vec![],
        links: vec![],
        callbacks: vec![],
        security_schemes: vec![],
        extra: Json::Null,
    }
}

fn inline_schema(extra: Json) -> Schema {
    Schema::Inline {
        one_of: vec![],
        all_of: vec![],
        any_of: vec![],
        not: None,
        properties: vec![],
        additional_any: None,
        additional_schema: None,
        items: None,
        extra,
    }
}

fn marker_schema(marker: &str) -> Component {
    Component::Schema(inline_schema(Json::Obj(vec![(
        s("description"),
        Json::Str(s(marker)),
    )])))
}

fn op(id: &str, tags: &[&str]) -> Operation {
    Operation {
        operation_id: Some(s(id)),
        tags: tags.iter().map(|t| s(t)).collect(),
        parameters: vec![],
        request_body: None,
        responses: vec![],
        extra: Json::Null,
    }
}

fn get_item(o: Operation) -> PathItem {
    PathItem::Item {
        get: Some(o),
        put: None,
        post: None,
        delete: None,
        options: None,
        head: None,
        patch: None,
        trace: None,
        parameters: vec![],
        extra: Json::Null,
    }
}

fn input(d: Document) -> SingleMergeInput {
    SingleMergeInput {
        oas: d,
        path_modification: None,
        operation_selection: None,
        description: None,
        dispute: None,
        dispute_prefix: None,
    }
}

fn schema_names(d: &Document) -> Vec<String> {
    d.components.as_ref().unwrap().schemas.iter().map(|e| e.0.clone()).collect()
}

fn path_names(d: &Document) -> Vec<String> {
    d.paths.iter().map(|e| e.0.clone()).collect()
}

fn get_op_id(d: &Document, path: &str) -> String {
    for (k, item) in &d.paths {
        if k == path {
            if let PathItem::Item { get: Some(o), .. } = item {
                return o.operation_id.clone().unwrap();
            }
        }
    }
    panic!("path not found");
}

#[test]
fn two_independent_inputs_no_collisions() {
    let mut a = base_doc();
    a.paths = vec![(s("/a"), get_item(op("getA", &[])))];
    a.components = Some(Components {
        schemas: vec![(s("User"), marker_schema("user"))],
        ..empty_components()
    });
    let mut b = base_doc();
    b.paths = vec![(s("/b"), get_item(op("getB", &[])))];
    b.components = Some(Components {
        schemas: vec![(s("Item"), marker_schema("item"))],
        ..empty_components()
    });
    let out = merge(&vec![input(a), input(b)], None).unwrap();
    assert_eq!(path_names(&out), vec![s("/a"), s("/b")]);
    assert_eq!(schema_names(&out), vec![s("User"), s("Item")]);
    assert_eq!(get_op_id(&out, "/a"), s("getA"));
    assert_eq!(get_op_id(&out, "/b"), s("getB"));
}

#[test]
fn schema_collision_identical_content() {
    let mut a = base_doc();
    a.components = Some(Components {
        schemas: vec![(s("Error"), marker_schema("err"))],
        ..empty_components()
    });
    a.paths = vec![(s("/a"), get_item(op("getA", &[])))];
    let mut b = base_doc();
    b.components = Some(Components {
        schemas: vec![(s("Error"), marker_schema("err"))],
        ..empty_components()
    });
    let ref_to_error = Schema::Ref(s("#/components/schemas/Error"));
    b.paths = vec![(
        s("/b"),
        get_item(Operation {
            responses: vec![(
                s("200"),
                Response::Item {
                    headers: vec![],
                    content: vec![(
                        s("application/json"),
                        MediaType { schema: Some(ref_to_error), examples: vec![], extra: Json::Null },
                    )],
                    links: vec![],
                    extra: Json::Null,
                },
            )],
            ..op("getB", &[])
        }),
    )];
    let out = merge(&vec![input(a), input(b)], None).unwrap();
    assert_eq!(schema_names(&out), vec![s("Error")]);
    // B's reference still points at the shared name.
    if let PathItem::Item { get: Some(o), .. } = &out.paths[1].1 {
        if let Response::Item { content, .. } = &o.responses[0].1 {
            assert_eq!(content[0].1.schema, Some(Schema::Ref(s("#/components/schemas/Error"))));
        } else {
            panic!("expected inline response");
        }
    } else {
        panic!("expected inline item");
    }
}

#[test]
fn schema_collision_different_content_no_dispute() {
    let mut a = base_doc();
    a.components = Some(Components {
        schemas: vec![(s("Pet"), marker_schema("name"))],
        ..empty_components()
    });
    let mut b = base_doc();
    b.components = Some(Components {
        schemas: vec![
            (s("Pet"), marker_schema("breed")),
            (
                s("Wrapper"),
                Component::Schema(Schema::Ref(s("#/components/schemas/Pet"))),
            ),
        ],
        ..empty_components()
    });
    b.paths = vec![(
        s("/b"),
        get_item(Operation {
            responses: vec![(
                s("200"),
                Response::Item {
                    headers: vec![],
                    content: vec![(
                        s("application/json"),
                        MediaType {
                            schema: Some(Schema::Ref(s("#/components/schemas/Pet"))),
                            examples: vec![],
                            extra: Json::Null,
                        },
                    )],
                    links: vec![],
                    extra: Json::Null,
                },
            )],
            ..op("getB", &[])
        }),
    )];
    let out = merge(&vec![input(a), input(b)], None).unwrap();
    assert_eq!(schema_names(&out), vec![s("Pet"), s("Pet1"), s("Wrapper")]);
    // B's Pet kept its content under the new name.
    let comps = &out.components.as_ref().unwrap().schemas;
    assert_eq!(comps[1].1, marker_schema("breed"));
    // Every reference from B now points at Pet1: the one inside B's
    // components and the one inside B's path item.
    assert_eq!(
        comps[2].1,
        Component::Schema(Schema::Ref(s("#/components/schemas/Pet1")))
    );
    if let PathItem::Item { get: Some(o), .. } = &out.paths[0].1 {
        if let Response::Item { content, .. } = &o.responses[0].1 {
            assert_eq!(content[0].1.schema, Some(Schema::Ref(s("#/components/schemas/Pet1"))));
        } else {
            panic!("expected inline response");
        }
    } else {
        panic!("expected inline item");
    }
}

#[test]
fn path_modification_and_duplicate_mapping() {
    let mut a = base_doc();
    a.paths = vec![(s("/users"), get_item(op("listA", &[])))];
    let mut b = base_doc();
    b.paths = vec![(s("/users"), get_item(op("listB", &[])))];
    let mut bi = input(b);
    bi.path_modification = Some(PathModification { strip_start: None, prepend: Some(s("/v2")) });
    let out = merge(&vec![input(a), bi], None).unwrap();
    assert_eq!(path_names(&out), vec![s("/users"), s("/v2/users")]);
}

#[test]
fn duplicate_paths_without_modification_fail() {
    let mut a = base_doc();
    a.paths = vec![(s("/users"), get_item(op("listA", &[])))];
    let mut b = base_doc();
    b.paths = vec![(s("/users"), get_item(op("listB", &[])))];
    let err = merge(&vec![input(a), input(b)], None).unwrap_err();
    assert_eq!(err.error_type, ErrorType::DuplicatePaths);
    assert!(err.message.contains("/users"));
    assert!(err.message.contains("Input 1"));
}

#[test]
fn operation_id_collision_resolved_by_dispute_prefix() {
    let mut a = base_doc();
    a.paths = vec![(s("/a"), get_item(op("list", &[])))];
    let mut b = base_doc();
    b.paths = vec![(s("/b"), get_item(op("list", &[])))];
    let mut bi = input(b);
    bi.dispute = Some(Dispute::Prefix(DisputePrefix {
        prefix: s("svc"),
        always_apply: Some(false),
    }));
    let out = merge(&vec![input(a), bi], None).unwrap();
    assert_eq!(get_op_id(&out, "/a"), s("list"));
    assert_eq!(get_op_id(&out, "/b"), s("svclist"));
}

#[test]
fn include_then_exclude_tag_filter() {
    let mut a = base_doc();
    a.paths = vec![
        (s("/one"), get_item(op("one", &["public"]))),
        (s("/two"), get_item(op("two", &["public", "internal"]))),
        (s("/three"), get_item(op("three", &["internal"]))),
    ];
    let mut ai = input(a);
    ai.operation_selection = Some(OperationSelection {
        include_tags: Some(vec![s("public")]),
        exclude_tags: Some(vec![s("internal")]),
    });
    let out = merge(&vec![ai], None).unwrap();
    assert_eq!(path_names(&out), vec![s("/one")]);
    assert_eq!(get_op_id(&out, "/one"), s("one"));
}

#[test]
fn no_inputs_fails() {
    let err = merge(&vec![], None).unwrap_err();
    assert_eq!(err.error_type, ErrorType::NoInputs);
}

#[test]
fn component_conflict_exhausts_numeric_suffixes() {
    let mut a = base_doc();
    let mut schemas = vec![(s("Pet"), marker_schema("v0"))];
    for i in 1..1000 {
        schemas.push((format!("Pet{}", i), marker_schema(&format!("v{}", i))));
    }
    a.components = Some(Components { schemas, ..empty_components() });
    let mut b = base_doc();
    b.components = Some(Components {
        schemas: vec![(s("Pet"), marker_schema("fresh"))],
        ..empty_components()
    });
    let err = merge(&vec![input(a), input(b)], None).unwrap_err();
    assert_eq!(err.error_type, ErrorType::ComponentDefinitionConflict);
    assert!(err.message.contains("Pet"));
}

#[test]
fn operation_id_conflict_exhausts_numeric_suffixes() {
    let mut a = base_doc();
    let mut paths = vec![(s("/p0"), get_item(op("list", &[])))];
    for i in 1..1000 {
        paths.push((format!("/p{}", i), get_item(op(&format!("list{}", i), &[]))));
    }
    a.paths = paths;
    let mut b = base_doc();
    b.paths = vec![(s("/q"), get_item(op("list", &[])))];
    let err = merge(&vec![input(a), input(b)], None).unwrap_err();
    assert_eq!(err.error_type, ErrorType::OperationIdConflict);
    assert!(err.message.contains("list"));
}

#[test]
fn security_schemes_taken_from_first_input_that_has_any() {
    let a = base_doc();
    let mut b = base_doc();
    b.components = Some(Components {
        security_schemes: vec![(s("key"), Json::Str(s("b-scheme")))],
        ..empty_components()
    });
    let mut c = base_doc();
    c.components = Some(Components {
        security_schemes: vec![(s("key"), Json::Str(s("c-scheme")))],
        ..empty_components()
    });
    let out = merge(&vec![input(a), input(b), input(c)], None).unwrap();
    assert_eq!(
        out.components.as_ref().unwrap().security_schemes,
        vec![(s("key"), Json::Str(s("b-scheme")))]
    );
}

#[test]
fn version_override_and_first_input_version() {
    let mut a = base_doc();
    a.openapi = s("3.0.1");
    let out = merge(&vec![input(a)], None).unwrap();
    assert_eq!(out.openapi, s("3.0.1"));
    let mut a2 = base_doc();
    a2.openapi = s("3.0.1");
    let out2 = merge(&vec![input(a2)], Some("3.0.3")).unwrap();
    assert_eq!(out2.openapi, s("3.0.3"));
}

#[test]
fn tags_concatenated_excluded_and_deduplicated() {
    let mut a = base_doc();
    a.tags = vec![
        Tag { name: s("x"), extra: Json::Null },
        Tag { name: s("y"), extra: Json::Null },
    ];
    let mut ai = input(a);
    ai.operation_selection = Some(OperationSelection {
        include_tags: None,
        exclude_tags: Some(vec![s("y")]),
    });
    let mut b = base_doc();
    b.tags = vec![
        Tag { name: s("x"), extra: Json::Null },
        Tag { name: s("z"), extra: Json::Null },
    ];
    let out = merge(&vec![ai, input(b)], None).unwrap();
    let names: Vec<String> = out.tags.iter().map(|t| t.name.clone()).collect();
    assert_eq!(names, vec![s("x"), s("z")]);
}

#[test]
fn extensions_union_first_wins() {
    let mut a = base_doc();
    a.extensions = vec![(s("x-a"), Json::Str(s("a1")))];
    let mut b = base_doc();
    b.extensions = vec![(s("x-a"), Json::Str(s("a2"))), (s("x-b"), Json::Str(s("b1")))];
    let out = merge(&vec![input(a), input(b)], None).unwrap();
    assert_eq!(
        out.extensions,
        vec![(s("x-a"), Json::Str(s("a1"))), (s("x-b"), Json::Str(s("b1")))]
    );
}

#[test]
fn merging_a_single_plain_input_is_identity_on_paths_and_components() {
    let make = || {
        let mut a = base_doc();
        a.paths = vec![(s("/a"), get_item(op("getA", &[])))];
        a.components = Some(Components {
            schemas: vec![(s("User"), marker_schema("user"))],
            ..empty_components()
        });
        a
    };
    let out = merge(&vec![input(make())], None).unwrap();
    let original = make();
    assert_eq!(out.paths, original.paths);
    assert_eq!(out.components.as_ref().unwrap().schemas, original.components.unwrap().schemas);
}

#[test]
fn merge_of_merged_output_is_idempotent() {
    let make_inputs = || {
        let mut a = base_doc();
        a.paths = vec![(s("/a"), get_item(op("getA", &[])))];
        a.components = Some(Components {
            schemas: vec![(s("User"), marker_schema("user"))],
            ..empty_components()
        });
        let mut b = base_doc();
        b.paths = vec![(s("/b"), get_item(op("getB", &[])))];
        b.components = Some(Components {
            schemas: vec![(s("User"), marker_schema("other"))],
            ..empty_components()
        });
        vec![input(a), input(b)]
    };
    let once = merge(&make_inputs(), None).unwrap();
    let again = merge(&vec![input(merge(&make_inputs(), None).unwrap())], None).unwrap();
    assert_eq!(once, again);
}

#[test]
fn swapping_inputs_keeps_the_same_paths_and_methods() {
    let make = |flip: bool| {
        let mut a = base_doc();
        a.paths = vec![(s("/a"), get_item(op("x", &[])))];
        a.components = Some(Components {
            schemas: vec![(s("User"), marker_schema("ua"))],
            ..empty_components()
        });
        let mut b = base_doc();
        b.paths = vec![(s("/b"), get_item(op("x", &[])))];
        b.components = Some(Components {
            schemas: vec![(s("User"), marker_schema("ub"))],
            ..empty_components()
        });
        if flip {
            vec![input(b), input(a)]
        } else {
            vec![input(a), input(b)]
        }
    };
    let out1 = merge(&make(false), None).unwrap();
    let out2 = merge(&make(true), None).unwrap();
    let mut p1 = path_names(&out1);
    let mut p2 = path_names(&out2);
    p1.sort();
    p2.sort();
    assert_eq!(p1, p2);
    // Component names may differ (first wins), but both hold two schemas.
    assert_eq!(schema_names(&out1).len(), 2);
    assert_eq!(schema_names(&out2).len(), 2);
}

#[test]
fn always_apply_prefix_renames_every_name_and_rewrites_references() {
    let mut a = base_doc();
    a.components = Some(Components {
        schemas: vec![
            (s("Pet"), marker_schema("pet")),
            (
                s("List"),
                Component::Schema(Schema::Ref(s("#/components/schemas/Pet"))),
            ),
        ],
        ..empty_components()
    });
    let mut ai = input(a);
    ai.dispute = Some(Dispute::Prefix(DisputePrefix {
        prefix: s("A"),
        always_apply: Some(true),
    }));
    let out = merge(&vec![ai], None).unwrap();
    assert_eq!(schema_names(&out), vec![s("APet"), s("AList")]);
    assert_eq!(
        out.components.as_ref().unwrap().schemas[1].1,
        Component::Schema(Schema::Ref(s("#/components/schemas/APet")))
    );
}

#[test]
fn deprecated_dispute_prefix_is_lowered() {
    let mut a = base_doc();
    a.paths = vec![(s("/a"), get_item(op("list", &[])))];
    let mut b = base_doc();
    b.paths = vec![(s("/b"), get_item(op("list", &[])))];
    let mut bi = input(b);
    bi.dispute_prefix = Some(s("legacy"));
    let out = merge(&vec![input(a), bi], None).unwrap();
    assert_eq!(get_op_id(&out, "/b"), s("legacylist"));
}
