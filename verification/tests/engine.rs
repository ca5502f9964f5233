use kmacros::engine::generate;
use kmacros::jobs::build_jobs;
use kmacros::meta::{FieldEntry, GenError, RawMeta, RecordDescription};
use kmacros::parse::{parse_field_directives, parse_record_directives, requests_mut};
use kmacros::typexpr::type_expr_wf;

fn s(text: &str) -> String {
    text.to_string()
}

fn name_value(name: &str, value: &str) -> RawMeta {
    RawMeta::NameValue { name: s(name), value: s(value) }
}

fn list(name: &str, items: Vec<RawMeta>) -> RawMeta {
    RawMeta::List { name: s(name), items }
}

fn word(name: &str) -> RawMeta {
    RawMeta::Word { name: s(name) }
}

fn field(name: &str, directives: Vec<RawMeta>) -> FieldEntry {
    FieldEntry { name: s(name), directives }
}

#[test]
fn mutability_naming_convention() {
    assert!(requests_mut("debug_iter_mut"));
    assert!(requests_mut("_mut"));
    assert!(!requests_mut("mut"));
    assert!(!requests_mut("debug_iter"));
    assert!(!requests_mut("mutate"));
}

#[test]
fn type_expression_well_formedness() {
    assert!(type_expr_wf("dyn Debug"));
    assert!(type_expr_wf("Vec<u8>"));
    assert!(type_expr_wf("dyn Fn(u8) -> u8"));
    assert!(type_expr_wf("[T; N]"));
    assert!(type_expr_wf("HashMap<String, Vec<(u8, u8)>>"));
    assert!(!type_expr_wf(""));
    assert!(!type_expr_wf("Vec<"));
    assert!(!type_expr_wf(")"));
    assert!(!type_expr_wf("A<B(]>"));
    assert!(!type_expr_wf("Vec<u8)"));
}

#[test]
fn parse_declares_and_bounds() {
    let metas = vec![
        name_value("debug_iter", "dyn Debug"),
        list("bound", vec![name_value("debug_iter", "T: Debug")]),
    ];
    let parsed = parse_record_directives(&metas).unwrap();
    assert_eq!(parsed.len(), 2);
}

#[test]
fn parse_rejects_unknown_list_key() {
    let metas = vec![list("bind", vec![name_value("debug_iter", "T: Debug")])];
    let err = parse_record_directives(&metas).unwrap_err();
    assert_eq!(err, GenError::UnsupportedShape(s("bind")));
}

#[test]
fn parse_rejects_bare_word_at_record_level() {
    let metas = vec![word("debug_iter")];
    let err = parse_record_directives(&metas).unwrap_err();
    assert_eq!(err, GenError::UnsupportedShape(s("debug_iter")));
}

#[test]
fn parse_rejects_malformed_capability_type() {
    let metas = vec![name_value("debug_iter", "Vec<")];
    let err = parse_record_directives(&metas).unwrap_err();
    assert_eq!(err, GenError::MalformedExpression(s("Vec<")));
}

#[test]
fn parse_rejects_malformed_bound_predicate() {
    let metas = vec![
        name_value("debug_iter", "dyn Debug"),
        list("bound", vec![name_value("debug_iter", "T: Iterator<Item = u8")]),
    ];
    let err = parse_record_directives(&metas).unwrap_err();
    assert_eq!(err, GenError::MalformedExpression(s("T: Iterator<Item = u8")));
}

#[test]
fn parse_rejects_non_pair_bound_entry() {
    let metas = vec![list("bound", vec![word("debug_iter")])];
    let err = parse_record_directives(&metas).unwrap_err();
    assert_eq!(err, GenError::UnsupportedShape(s("debug_iter")));
}

#[test]
fn parse_field_accepts_skip_list() {
    let metas = vec![list("skip", vec![word("debug_iter"), word("walk")])];
    let parsed = parse_field_directives(&metas).unwrap();
    assert_eq!(parsed.len(), 2);
}

#[test]
fn parse_field_rejects_other_shapes() {
    let err = parse_field_directives(&vec![name_value("skip", "x")]).unwrap_err();
    assert_eq!(err, GenError::UnsupportedShape(s("skip")));
    let err = parse_field_directives(&vec![list("bound", vec![])]).unwrap_err();
    assert_eq!(err, GenError::UnsupportedShape(s("bound")));
    let err = parse_field_directives(&vec![list("skip", vec![name_value("walk", "x")])])
        .unwrap_err();
    assert_eq!(err, GenError::UnsupportedShape(s("walk")));
}

#[test]
fn build_assigns_exclusions_and_bounds() {
    let directives = parse_record_directives(&vec![
        name_value("walk", "dyn Debug"),
        name_value("walk_mut", "dyn Debug"),
        list("bound", vec![name_value("walk_mut", "T: Debug")]),
    ])
    .unwrap();
    let fields = vec![
        kmacros::jobs::ParsedField {
            name: s("x"),
            directives: parse_field_directives(&vec![list("skip", vec![word("walk")])]).unwrap(),
        },
        kmacros::jobs::ParsedField { name: s("y"), directives: vec![] },
    ];
    let set = build_jobs(&directives, &fields).unwrap();
    assert_eq!(set.jobs.len(), 2);
    assert_eq!(set.jobs[0].name, s("walk"));
    assert!(!set.jobs[0].is_mutable);
    assert_eq!(set.jobs[0].excluded_fields, vec![s("x")]);
    assert_eq!(set.jobs[0].extra_constraints.len(), 0);
    assert_eq!(set.jobs[1].name, s("walk_mut"));
    assert!(set.jobs[1].is_mutable);
    assert_eq!(set.jobs[1].excluded_fields.len(), 0);
    assert_eq!(set.jobs[1].extra_constraints, vec![s("T: Debug")]);
}

#[test]
fn duplicate_declaration_rejected_in_order() {
    let directives = parse_record_directives(&vec![
        name_value("walk", "dyn Debug"),
        name_value("walk", "dyn Display"),
    ])
    .unwrap();
    let err = build_jobs(&directives, &vec![]).unwrap_err();
    assert_eq!(err, GenError::DuplicateDeclaration(s("walk")));
}

#[test]
fn duplicate_declaration_rejected_with_directives_between() {
    let directives = parse_record_directives(&vec![
        name_value("walk", "dyn Debug"),
        list("bound", vec![name_value("walk", "T: Debug")]),
        name_value("walk", "dyn Debug"),
    ])
    .unwrap();
    let err = build_jobs(&directives, &vec![]).unwrap_err();
    assert_eq!(err, GenError::DuplicateDeclaration(s("walk")));
}

#[test]
fn unknown_bound_target_rejected() {
    let directives = parse_record_directives(&vec![
        name_value("walk", "dyn Debug"),
        list("bound", vec![name_value("stroll", "T: Debug")]),
    ])
    .unwrap();
    let err = build_jobs(&directives, &vec![]).unwrap_err();
    assert_eq!(err, GenError::UnknownFunctionReference(s("stroll")));
}

#[test]
fn unknown_exclusion_target_rejected() {
    let directives = parse_record_directives(&vec![name_value("walk", "dyn Debug")]).unwrap();
    let fields = vec![kmacros::jobs::ParsedField {
        name: s("x"),
        directives: parse_field_directives(&vec![list("skip", vec![word("g")])]).unwrap(),
    }];
    let err = build_jobs(&directives, &fields).unwrap_err();
    assert_eq!(err, GenError::UnknownFunctionReference(s("g")));
}

#[test]
fn exclusion_may_precede_declaration_lexically() {
    // A field directive may reference a function declared by a record
    // directive: record-level directives are consulted first.
    let desc = RecordDescription {
        name: s("Foo"),
        generics: None,
        directives: vec![name_value("walk", "dyn Debug")],
        fields: vec![field("x", vec![list("skip", vec![word("walk")])]), field("y", vec![])],
    };
    let out = generate(&desc).unwrap();
    assert!(!out.contains("self.x"));
    assert!(out.contains("self.y"));
}

#[test]
fn generate_emits_read_only_dispatcher() {
    let desc = RecordDescription {
        name: s("Point"),
        generics: None,
        directives: vec![name_value("describe", "dyn std::fmt::Display")],
        fields: vec![
            field("x", vec![]),
            field("y", vec![]),
            field("label", vec![list("skip", vec![word("describe")])]),
        ],
    };
    let out = generate(&desc).unwrap();
    let expected = "impl Point {\n\
        \x20   pub fn describe<ZZ>(&self, mut f: impl FnMut(&str, &dyn std::fmt::Display) -> Option<ZZ>) -> Option<ZZ> {\n\
        \x20       if let Some(x) = f(\"x\", &self.x) { return Some(x); }\n\
        \x20       if let Some(x) = f(\"y\", &self.y) { return Some(x); }\n\
        \x20       None\n\
        \x20   }\n\
        }\n";
    assert_eq!(out, expected);
}

#[test]
fn generate_emits_mutable_dispatcher_with_bounds_and_generics() {
    let desc = RecordDescription {
        name: s("Bar"),
        generics: Some(s("<T>")),
        directives: vec![
            name_value("debug_iter_mut", "dyn Debug"),
            list("bound", vec![name_value("debug_iter_mut", "T: Debug")]),
        ],
        fields: vec![field("x", vec![]), field("t", vec![])],
    };
    let out = generate(&desc).unwrap();
    let expected = "impl<T> Bar<T> {\n\
        \x20   pub fn debug_iter_mut<ZZ>(&mut self, mut f: impl FnMut(&str, &mut dyn Debug) -> Option<ZZ>) -> Option<ZZ> where T: Debug {\n\
        \x20       if let Some(x) = f(\"x\", &mut self.x) { return Some(x); }\n\
        \x20       if let Some(x) = f(\"t\", &mut self.t) { return Some(x); }\n\
        \x20       None\n\
        \x20   }\n\
        }\n";
    assert_eq!(out, expected);
}

#[test]
fn generate_joins_multiple_bounds_in_order() {
    let desc = RecordDescription {
        name: s("Baz"),
        generics: Some(s("<T, U>")),
        directives: vec![
            name_value("walk", "dyn Debug"),
            list(
                "bound",
                vec![name_value("walk", "T: Debug"), name_value("walk", "U: Clone")],
            ),
        ],
        fields: vec![field("a", vec![])],
    };
    let out = generate(&desc).unwrap();
    assert!(out.contains("where T: Debug, U: Clone {"));
}

#[test]
fn generate_emits_one_dispatcher_per_job_in_declaration_order() {
    let desc = RecordDescription {
        name: s("Foo"),
        generics: None,
        directives: vec![
            name_value("first", "dyn Debug"),
            name_value("second", "dyn Debug"),
        ],
        fields: vec![field("a", vec![])],
    };
    let out = generate(&desc).unwrap();
    let first = out.find("pub fn first").unwrap();
    let second = out.find("pub fn second").unwrap();
    assert!(first < second);
}

#[test]
fn generate_aborts_whole_record_on_any_error() {
    // The well-formed `walk` dispatcher is not emitted either: the first
    // error aborts the pass for the whole record.
    let desc = RecordDescription {
        name: s("Foo"),
        generics: None,
        directives: vec![name_value("walk", "dyn Debug")],
        fields: vec![
            field("x", vec![]),
            field("y", vec![list("skip", vec![word("ghost_fn")])]),
        ],
    };
    let err = generate(&desc).unwrap_err();
    assert_eq!(err, GenError::UnknownFunctionReference(s("ghost_fn")));
}

#[test]
fn generate_without_directives_emits_empty_impl() {
    let desc = RecordDescription {
        name: s("Foo"),
        generics: None,
        directives: vec![],
        fields: vec![field("a", vec![]), field("b", vec![])],
    };
    assert_eq!(generate(&desc).unwrap(), s("impl Foo {\n}\n"));
}

#[test]
fn generate_without_fields_emits_bodyless_dispatcher() {
    let desc = RecordDescription {
        name: s("Unit"),
        generics: None,
        directives: vec![name_value("walk", "dyn Debug")],
        fields: vec![],
    };
    let expected = "impl Unit {\n\
        \x20   pub fn walk<ZZ>(&self, mut f: impl FnMut(&str, &dyn Debug) -> Option<ZZ>) -> Option<ZZ> {\n\
        \x20       None\n\
        \x20   }\n\
        }\n";
    assert_eq!(generate(&desc).unwrap(), s(expected));
}

#[test]
fn generate_with_every_field_excluded_visits_nothing() {
    let desc = RecordDescription {
        name: s("Foo"),
        generics: None,
        directives: vec![name_value("walk", "dyn Debug")],
        fields: vec![
            field("a", vec![list("skip", vec![word("walk")])]),
            field("b", vec![list("skip", vec![word("walk")])]),
        ],
    };
    let out = generate(&desc).unwrap();
    assert!(!out.contains("self.a"));
    assert!(!out.contains("self.b"));
    assert!(out.contains("None"));
}

#[test]
fn repeated_skip_of_one_field_is_recorded_once() {
    let directives = parse_record_directives(&vec![name_value("walk", "dyn Debug")]).unwrap();
    let fields = vec![kmacros::jobs::ParsedField {
        name: s("x"),
        directives: parse_field_directives(&vec![list(
            "skip",
            vec![word("walk"), word("walk")],
        )])
        .unwrap(),
    }];
    let set = build_jobs(&directives, &fields).unwrap();
    assert_eq!(set.jobs[0].excluded_fields, vec![s("x")]);
}

#[test]
fn error_messages_name_the_offender() {
    assert_eq!(
        GenError::UnsupportedShape(s("bind")).message(),
        s("unsupported directive shape: bind"),
    );
    assert_eq!(
        GenError::UnknownFunctionReference(s("g")).message(),
        s("not a generated function: g"),
    );
    assert_eq!(
        GenError::DuplicateDeclaration(s("walk")).message(),
        s("function declared twice: walk"),
    );
    assert_eq!(
        GenError::MalformedExpression(s("Vec<")).message(),
        s("malformed type or constraint expression: Vec<"),
    );
}

#[test]
fn optimize_check_output_hands_back_agreeing_result() {
    let check = kmacros::OptimizeCheckOutput { function_name: "foo_fast", params: (17u32, 3u32), slow: 51u32, fast: 51u32 };
    assert_eq!(check.assert_equal(), 51);
}
