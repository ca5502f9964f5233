use kmacros::dispatch::run_dispatch;
use kmacros::jobs::{VisitorJob, VisitorJobSet, build_jobs};
use kmacros::meta::RawMeta;
use kmacros::parse::{parse_field_directives, parse_record_directives};

fn s(text: &str) -> String {
    text.to_string()
}

fn job_without_exclusions(name: &str) -> VisitorJob {
    VisitorJob {
        name: s(name),
        value_capability_type: s("dyn Debug"),
        is_mutable: false,
        excluded_fields: vec![],
        extra_constraints: vec![],
    }
}

fn job_excluding(name: &str, excluded: Vec<String>) -> VisitorJob {
    VisitorJob {
        name: s(name),
        value_capability_type: s("dyn Debug"),
        is_mutable: false,
        excluded_fields: excluded,
        extra_constraints: vec![],
    }
}

#[test]
fn order_preservation_over_all_fields() {
    // A callback that never answers observes every field, in declaration
    // order.
    let job = job_without_exclusions("walk");
    let fields = vec![s("f1"), s("f2"), s("f3"), s("f4")];
    let answers: Vec<Option<u32>> = vec![None, None, None, None];
    let outcome = run_dispatch(&job, &fields, &answers);
    assert_eq!(outcome.result, None);
    assert_eq!(outcome.visited, fields);
}

#[test]
fn short_circuit_stops_at_first_answer() {
    // The callback answers on the second field: the third and fourth are
    // never visited and the dispatcher returns that answer.
    let job = job_without_exclusions("walk");
    let fields = vec![s("f1"), s("f2"), s("f3"), s("f4")];
    let answers: Vec<Option<u32>> = vec![None, Some(7), Some(9), None];
    let outcome = run_dispatch(&job, &fields, &answers);
    assert_eq!(outcome.result, Some(7));
    assert_eq!(outcome.visited, vec![s("f1"), s("f2")]);
}

#[test]
fn exclusion_skips_exactly_the_excluded_fields() {
    let job = job_excluding("walk", vec![s("f2"), s("f4")]);
    let fields = vec![s("f1"), s("f2"), s("f3"), s("f4"), s("f5")];
    let answers: Vec<Option<u32>> = vec![None, None, None, None, None];
    let outcome = run_dispatch(&job, &fields, &answers);
    assert_eq!(outcome.result, None);
    assert_eq!(outcome.visited, vec![s("f1"), s("f3"), s("f5")]);
}

#[test]
fn excluded_field_answer_is_never_taken() {
    // An answer on an excluded field does not end the run: the field is
    // never visited in the first place.
    let job = job_excluding("walk", vec![s("f1")]);
    let fields = vec![s("f1"), s("f2")];
    let answers: Vec<Option<u32>> = vec![Some(1), None];
    let outcome = run_dispatch(&job, &fields, &answers);
    assert_eq!(outcome.result, None);
    assert_eq!(outcome.visited, vec![s("f2")]);
}

#[test]
fn independent_jobs_with_different_exclusions() {
    // Two jobs over the same record: each dispatcher honours only its own
    // exclusion set; declaring one does not alter the other's behaviour.
    let directives = parse_record_directives(&vec![
        RawMeta::NameValue { name: s("all"), value: s("dyn Debug") },
        RawMeta::NameValue { name: s("partial"), value: s("dyn Debug") },
    ])
    .unwrap();
    let fields = vec![
        kmacros::jobs::ParsedField { name: s("a"), directives: vec![] },
        kmacros::jobs::ParsedField {
            name: s("b"),
            directives: parse_field_directives(&vec![RawMeta::List {
                name: s("skip"),
                items: vec![RawMeta::Word { name: s("partial") }],
            }])
            .unwrap(),
        },
    ];
    let set: VisitorJobSet = build_jobs(&directives, &fields).unwrap();
    let names = vec![s("a"), s("b")];
    let answers: Vec<Option<u32>> = vec![None, None];
    let all = run_dispatch(&set.jobs[0], &names, &answers);
    let partial = run_dispatch(&set.jobs[1], &names, &answers);
    assert_eq!(all.visited, vec![s("a"), s("b")]);
    assert_eq!(partial.visited, vec![s("a")]);
}

#[test]
fn point_describe_scenario() {
    // Point { x, y, label } with `describe` excluding `label`: a callback
    // that concatenates "<name>=<value>;" over successive calls yields
    // exactly "x=3;y=4;" and label never appears.
    let directives = parse_record_directives(&vec![RawMeta::NameValue {
        name: s("describe"),
        value: s("dyn std::fmt::Display"),
    }])
    .unwrap();
    let fields = vec![
        kmacros::jobs::ParsedField { name: s("x"), directives: vec![] },
        kmacros::jobs::ParsedField { name: s("y"), directives: vec![] },
        kmacros::jobs::ParsedField {
            name: s("label"),
            directives: parse_field_directives(&vec![RawMeta::List {
                name: s("skip"),
                items: vec![RawMeta::Word { name: s("describe") }],
            }])
            .unwrap(),
        },
    ];
    let set = build_jobs(&directives, &fields).unwrap();
    let names = vec![s("x"), s("y"), s("label")];
    let values = vec![s("3"), s("4"), s("origin")];
    let answers: Vec<Option<u32>> = vec![None, None, None];
    let outcome = run_dispatch(&set.jobs[0], &names, &answers);
    assert_eq!(outcome.result, None);
    assert_eq!(outcome.visited, vec![s("x"), s("y")]);
    let mut described = String::new();
    for visited in &outcome.visited {
        let at = names.iter().position(|n| n == visited).unwrap();
        described.push_str(&format!("{}={};", visited, values[at]));
    }
    assert_eq!(described, "x=3;y=4;");
    assert!(!described.contains("label"));
}

#[test]
fn pair_find_even_scenario() {
    // Pair { a, b } with `find_even` answering the field's name when its
    // value is even.
    let job = job_without_exclusions("find_even");
    let names = vec![s("a"), s("b")];
    let answers_of = |a: i64, b: i64| -> Vec<Option<&'static str>> {
        vec![
            if a % 2 == 0 { Some("a") } else { None },
            if b % 2 == 0 { Some("b") } else { None },
        ]
    };
    // a=3, b=4: the answer is "b".
    let outcome = run_dispatch(&job, &names, &answers_of(3, 4));
    assert_eq!(outcome.result, Some("b"));
    assert_eq!(outcome.visited, vec![s("a"), s("b")]);
    // a=4, b=3: the answer is "a" and b is never visited.
    let outcome = run_dispatch(&job, &names, &answers_of(4, 3));
    assert_eq!(outcome.result, Some("a"));
    assert_eq!(outcome.visited, vec![s("a")]);
}
