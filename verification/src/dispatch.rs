//! The semantics every emitted dispatcher follows, as a reference
//! interpreter: walk the record's fields in declaration order, skip the
//! job's excluded fields, hand each visited field to the callback, and stop
//! at the first reply that carries a result.
//!
//! The callback is represented by its replies, one per field in field order;
//! a run of the interpreter then fixes which fields are visited and what the
//! dispatcher returns, and the lemmas below state the laws of that run:
//! order preservation, short-circuiting, exclusion correctness and the
//! independence of distinct jobs.

use vstd::prelude::*;

use crate::jobs::{VisitorJob, VisitorJobView};
use crate::meta::{names_of, contains_name};

verus! {

/// The fields a dispatcher with exclusion set `excluded` visits: the
/// record's fields in declaration order, without the excluded ones.
pub open spec fn spec_visit_plan(fields: Seq<Seq<char>>, excluded: Set<Seq<char>>) -> Seq<
    Seq<char>,
>
    decreases fields.len(),
{
    if fields.len() == 0 {
        Seq::empty()
    } else {
        let rest = spec_visit_plan(fields.drop_last(), excluded);
        if excluded.contains(fields.last()) {
            rest
        } else {
            rest.push(fields.last())
        }
    }
}

/// The position of the first field, at or after `i`, that is visited and
/// whose reply carries a result; `fields.len()` when there is none.
pub open spec fn spec_first_hit<R>(
    fields: Seq<Seq<char>>,
    excluded: Set<Seq<char>>,
    answers: Seq<Option<R>>,
    i: int,
) -> int
    decreases fields.len() - i,
    when 0 <= i <= fields.len()
{
    if i >= fields.len() {
        fields.len() as int
    } else if !excluded.contains(fields[i]) && answers[i] is Some {
        i
    } else {
        spec_first_hit(fields, excluded, answers, i + 1)
    }
}

/// What one run of a dispatcher produced: its return value and the visited
/// fields, in visit order.
pub struct DispatchOutcome<R> {
    pub result: Option<R>,
    pub visited: Vec<String>,
}

/// Runs one dispatch of `job` over a record whose fields are `field_names`,
/// in declaration order, with the callback's replies given as `answers`,
/// one per field.
///
/// Fields in the job's exclusion set are never visited. The first visited
/// field whose reply carries a result ends the run: that result is returned
/// and no later field is visited. When no visited field replies, every
/// non-excluded field is visited and no result is returned.
pub fn run_dispatch<R: Copy>(
    job: &VisitorJob,
    field_names: &Vec<String>,
    answers: &Vec<Option<R>>,
) -> (o: DispatchOutcome<R>)
    requires
        answers.len() == field_names.len(),
    ensures
        ({
            let names = names_of(field_names@);
            let excl = job@.exclusion_set();
            let k = spec_first_hit(names, excl, answers@, 0);
            &&& 0 <= k <= names.len()
            &&& k < names.len() ==> {
                &&& o.result == answers@[k]
                &&& names_of(o.visited@) == spec_visit_plan(names.take(k + 1), excl)
            }
            &&& k == names.len() ==> {
                &&& o.result is None
                &&& names_of(o.visited@) == spec_visit_plan(names, excl)
            }
        }),
{
    let ghost names = names_of(field_names@);
    let ghost excl = job@.exclusion_set();
    let mut visited: Vec<String> = Vec::new();
    proof {
        lemma_first_hit_bounds(names, excl, answers@, 0);
        assert(names.take(0) =~= Seq::<Seq<char>>::empty());
        assert(names_of(visited@) =~= Seq::<Seq<char>>::empty());
    }
    let mut i: usize = 0;
    while i < field_names.len()
        invariant
            0 <= i <= field_names.len(),
            answers.len() == field_names.len(),
            names == names_of(field_names@),
            names.len() == field_names@.len(),
            excl == job@.exclusion_set(),
            spec_first_hit(names, excl, answers@, 0) == spec_first_hit(
                names,
                excl,
                answers@,
                i as int,
            ),
            names_of(visited@) == spec_visit_plan(names.take(i as int), excl),
        decreases field_names.len() - i,
    {
        assert(names.take(i + 1).drop_last() =~= names.take(i as int));
        assert(names.take(i + 1).last() == names[i as int]);
        let is_excluded = contains_name(&job.excluded_fields, &field_names[i]);
        if !is_excluded {
            let ghost prev = visited@;
            visited.push(field_names[i].clone());
            proof {
                assert(names_of(visited@) =~= names_of(prev).push(names[i as int]));
            }
            let reply: Option<R> = answers[i];
            match reply {
                Option::Some(x) => {
                    return DispatchOutcome { result: Option::Some(x), visited };
                },
                Option::None => {},
            }
        }
        i += 1;
    }
    proof {
        assert(names.take(names.len() as int) =~= names);
    }
    DispatchOutcome { result: Option::None, visited }
}

/// Order preservation: a dispatcher with an empty exclusion set visits
/// exactly the record's fields, in declaration order.
pub proof fn lemma_order_preservation(fields: Seq<Seq<char>>)
    ensures
        spec_visit_plan(fields, Set::empty()) == fields,
    decreases fields.len(),
{
    if fields.len() == 0 {
        assert(spec_visit_plan(fields, Set::empty()) =~= fields);
    } else {
        lemma_order_preservation(fields.drop_last());
        assert(spec_visit_plan(fields, Set::empty()) =~= fields);
    }
}

/// The scan for the first hit never moves backwards and never runs past the
/// end of the field list.
pub proof fn lemma_first_hit_bounds<R>(
    fields: Seq<Seq<char>>,
    excluded: Set<Seq<char>>,
    answers: Seq<Option<R>>,
    i: int,
)
    requires
        0 <= i <= fields.len(),
    ensures
        i <= spec_first_hit(fields, excluded, answers, i) <= fields.len(),
    decreases fields.len() - i,
{
    if i < fields.len() && !(!excluded.contains(fields[i]) && answers[i] is Some) {
        lemma_first_hit_bounds(fields, excluded, answers, i + 1);
    }
}

/// Short-circuit: the replies past the first one that carries a result have
/// no bearing on the run — any replies that agree up to and including the
/// first hit produce the same hit.
pub proof fn lemma_short_circuit<R>(
    fields: Seq<Seq<char>>,
    excluded: Set<Seq<char>>,
    a1: Seq<Option<R>>,
    a2: Seq<Option<R>>,
)
    requires
        a1.len() == fields.len(),
        a2.len() == fields.len(),
        spec_first_hit(fields, excluded, a1, 0) < fields.len(),
        forall|j: int|
            0 <= j <= spec_first_hit(fields, excluded, a1, 0) ==> a2[j] == a1[j],
    ensures
        spec_first_hit(fields, excluded, a2, 0) == spec_first_hit(fields, excluded, a1, 0),
{
    lemma_short_circuit_from(fields, excluded, a1, a2, 0);
}

/// The generalisation of [`lemma_short_circuit`] to a scan that starts at
/// position `i`.
proof fn lemma_short_circuit_from<R>(
    fields: Seq<Seq<char>>,
    excluded: Set<Seq<char>>,
    a1: Seq<Option<R>>,
    a2: Seq<Option<R>>,
    i: int,
)
    requires
        a1.len() == fields.len(),
        a2.len() == fields.len(),
        0 <= i <= fields.len(),
        spec_first_hit(fields, excluded, a1, i) < fields.len(),
        forall|j: int|
            i <= j <= spec_first_hit(fields, excluded, a1, i) ==> a2[j] == a1[j],
    ensures
        spec_first_hit(fields, excluded, a2, i) == spec_first_hit(fields, excluded, a1, i),
    decreases fields.len() - i,
{
    lemma_first_hit_bounds(fields, excluded, a1, i);
    if i < fields.len() {
        if !excluded.contains(fields[i]) && a1[i] is Some {
            assert(a2[i] == a1[i]);
        } else {
            lemma_first_hit_bounds(fields, excluded, a1, i + 1);
            assert(a2[i] == a1[i]);
            lemma_short_circuit_from(fields, excluded, a1, a2, i + 1);
        }
    }
}

/// Exclusion correctness: the visit plan holds no excluded field, holds
/// every non-excluded field, and never grows past the field list. Together
/// with the defining equation of [`spec_visit_plan`], which removes excluded
/// fields without reordering, the plan is exactly the fields outside the
/// exclusion set in their original relative order.
pub proof fn lemma_exclusion_correctness(fields: Seq<Seq<char>>, excluded: Set<Seq<char>>)
    ensures
        forall|j: int|
            0 <= j < spec_visit_plan(fields, excluded).len() ==> !excluded.contains(
                #[trigger] spec_visit_plan(fields, excluded)[j],
            ),
        forall|j: int|
            0 <= j < fields.len() && !excluded.contains(#[trigger] fields[j])
                ==> spec_visit_plan(fields, excluded).contains(fields[j]),
        spec_visit_plan(fields, excluded).len() <= fields.len(),
    decreases fields.len(),
{
    if fields.len() > 0 {
        lemma_exclusion_correctness(fields.drop_last(), excluded);
        let plan = spec_visit_plan(fields, excluded);
        let sub = spec_visit_plan(fields.drop_last(), excluded);
        assert forall|j: int|
            0 <= j < fields.len() && !excluded.contains(#[trigger] fields[j]) implies plan.contains(
            fields[j],
        ) by {
            if j == fields.len() - 1 {
                assert(plan.last() == fields.last());
                assert(plan[plan.len() - 1] == fields[j]);
            } else {
                assert(fields.drop_last()[j] == fields[j]);
                let w = choose|w: int| 0 <= w < sub.len() && sub[w] == fields[j];
                if excluded.contains(fields.last()) {
                    assert(plan[w] == fields[j]);
                } else {
                    assert(plan[w] == sub[w]);
                    assert(plan[w] == fields[j]);
                }
            }
        }
    }
}

/// Independent jobs: a dispatcher's visit plan is a function of its own
/// job's exclusion set and the record's fields alone. Two jobs with the
/// same exclusion set behave the same, whatever else was declared beside
/// them.
pub proof fn lemma_independent_jobs(
    j1: VisitorJobView,
    j2: VisitorJobView,
    fields: Seq<Seq<char>>,
)
    requires
        j1.exclusion_set() == j2.exclusion_set(),
    ensures
        spec_visit_plan(fields, j1.exclusion_set()) == spec_visit_plan(
            fields,
            j2.exclusion_set(),
        ),
{
}

} // verus!
