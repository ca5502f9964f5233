//! The code emitter: turns a finished job model and the ordered field list
//! into dispatcher source text, one function per job inside one `impl` block
//! for the record.
//!
//! Emission is deterministic and order-preserving: jobs in declaration
//! order, and inside each function one callback invocation per field of the
//! job's visit plan, in field declaration order. The emitter validates
//! nothing: every inconsistency was rejected upstream.

use vstd::prelude::*;

use crate::dispatch::spec_visit_plan;
use crate::jobs::{VisitorJob, VisitorJobSet, VisitorJobView, job_views};
use crate::meta::{names_of, contains_name};

verus! {

/// The abstract value of an optional generic parameter list.
pub open spec fn generics_view(g: Option<String>) -> Option<Seq<char>> {
    match g {
        Option::Some(s) => Option::Some(s@),
        Option::None => Option::None,
    }
}

/// The constraints joined with `", "`, in order.
pub open spec fn spec_join_comma(cs: Seq<Seq<char>>) -> Seq<char>
    decreases cs.len(),
{
    if cs.len() == 0 {
        Seq::empty()
    } else if cs.len() == 1 {
        cs.last()
    } else {
        spec_join_comma(cs.drop_last()) + ", "@ + cs.last()
    }
}

/// The `where` clause of a generated function: empty without constraints,
/// the constraints in declaration order otherwise.
pub open spec fn spec_emit_where(cs: Seq<Seq<char>>) -> Seq<char> {
    if cs.len() == 0 {
        Seq::empty()
    } else {
        " where "@ + spec_join_comma(cs)
    }
}

/// The signature of one generated dispatcher, before any `where` clause:
/// `self` by shared or mutable reference per the job's access mode, and one
/// callback that takes each field's name and value and may yield a result.
pub open spec fn spec_fn_signature(job: VisitorJobView) -> Seq<char> {
    "    pub fn "@ + job.name + "<ZZ>("@ + (if job.is_mutable {
        "&mut self"@
    } else {
        "&self"@
    }) + ", mut f: impl FnMut(&str, "@ + (if job.is_mutable {
        "&mut "@
    } else {
        "&"@
    }) + job.value_capability_type + ") -> Option<ZZ>) -> Option<ZZ>"@
}

/// The whole head of one generated dispatcher, up to and including the
/// opening brace.
pub open spec fn spec_fn_header(job: VisitorJobView) -> Seq<char> {
    spec_fn_signature(job) + spec_emit_where(job.extra_constraints) + " {\n"@
}

/// One callback invocation: hand the field's name and a reference to its
/// value to the callback, and return early on a present result.
pub open spec fn spec_emit_call(field: Seq<char>, mutable: bool) -> Seq<char> {
    "        if let Some(x) = f(\""@ + field + "\", "@ + (if mutable {
        "&mut self."@
    } else {
        "&self."@
    }) + field + ") { return Some(x); }\n"@
}

/// The callback invocations of a visit plan, in plan order.
pub open spec fn spec_emit_calls(plan: Seq<Seq<char>>, mutable: bool) -> Seq<char>
    decreases plan.len(),
{
    if plan.len() == 0 {
        Seq::empty()
    } else {
        spec_emit_calls(plan.drop_last(), mutable) + spec_emit_call(plan.last(), mutable)
    }
}

/// The whole text of one generated dispatcher: its body visits exactly the
/// job's visit plan over the record's fields, then gives up with an absent
/// result.
pub open spec fn spec_emit_fn(job: VisitorJobView, fields: Seq<Seq<char>>) -> Seq<char> {
    spec_fn_header(job) + spec_emit_calls(
        spec_visit_plan(fields, job.exclusion_set()),
        job.is_mutable,
    ) + "        None\n    }\n"@
}

/// The dispatcher texts of a job set, in job declaration order.
pub open spec fn spec_emit_jobs(jobs: Seq<VisitorJobView>, fields: Seq<Seq<char>>) -> Seq<char>
    decreases jobs.len(),
{
    if jobs.len() == 0 {
        Seq::empty()
    } else {
        spec_emit_jobs(jobs.drop_last(), fields) + spec_emit_fn(jobs.last(), fields)
    }
}

/// The head of the `impl` block for the record, with its generic parameter
/// list repeated after the record's name when it has one.
pub open spec fn spec_impl_header(name: Seq<char>, generics: Option<Seq<char>>) -> Seq<char> {
    match generics {
        Option::Some(g) => "impl"@ + g + " "@ + name + g + " {\n"@,
        Option::None => "impl "@ + name + " {\n"@,
    }
}

/// The whole emitted text for one record: one `impl` block holding one
/// dispatcher per job.
pub open spec fn spec_emit_impl(
    name: Seq<char>,
    generics: Option<Seq<char>>,
    jobs: Seq<VisitorJobView>,
    fields: Seq<Seq<char>>,
) -> Seq<char> {
    spec_impl_header(name, generics) + spec_emit_jobs(jobs, fields) + "}\n"@
}

/// Independent jobs, on the emission side: the emitted text of a job list
/// splits into one fragment per job, and each fragment is a function of
/// that job and the field list alone — adding, removing or changing one job
/// leaves every other job's fragment as it was.
pub proof fn lemma_emit_jobs_concat(
    jobs1: Seq<VisitorJobView>,
    jobs2: Seq<VisitorJobView>,
    fields: Seq<Seq<char>>,
)
    ensures
        spec_emit_jobs(jobs1 + jobs2, fields) == spec_emit_jobs(jobs1, fields) + spec_emit_jobs(
            jobs2,
            fields,
        ),
    decreases jobs2.len(),
{
    if jobs2.len() == 0 {
        assert(jobs1 + jobs2 =~= jobs1);
        assert(spec_emit_jobs(jobs1, fields) + spec_emit_jobs(jobs2, fields) =~= spec_emit_jobs(
            jobs1,
            fields,
        ));
    } else {
        lemma_emit_jobs_concat(jobs1, jobs2.drop_last(), fields);
        assert((jobs1 + jobs2).drop_last() =~= jobs1 + jobs2.drop_last());
        assert((jobs1 + jobs2).last() == jobs2.last());
        assert(spec_emit_jobs(jobs1 + jobs2, fields) == spec_emit_jobs(
            jobs1 + jobs2.drop_last(),
            fields,
        ) + spec_emit_fn(jobs2.last(), fields));
        assert(spec_emit_jobs(jobs1, fields) + (spec_emit_jobs(jobs2.drop_last(), fields)
            + spec_emit_fn(jobs2.last(), fields)) =~= (spec_emit_jobs(jobs1, fields)
            + spec_emit_jobs(jobs2.drop_last(), fields)) + spec_emit_fn(jobs2.last(), fields));
    }
}

/// Emits the text of one dispatcher function.
fn emit_fn(job: &VisitorJob, field_names: &Vec<String>) -> (out: String)
    ensures
        out@ == spec_emit_fn(job@, names_of(field_names@)),
{
    let ghost names = names_of(field_names@);
    let ghost excl = job@.exclusion_set();
    let mut out = String::new();
    out.append("    pub fn ");
    out.append(job.name.as_str());
    out.append("<ZZ>(");
    if job.is_mutable {
        out.append("&mut self");
    } else {
        out.append("&self");
    }
    out.append(", mut f: impl FnMut(&str, ");
    if job.is_mutable {
        out.append("&mut ");
    } else {
        out.append("&");
    }
    out.append(job.value_capability_type.as_str());
    out.append(") -> Option<ZZ>) -> Option<ZZ>");
    let constraint_count: usize = job.extra_constraints.len();
    if constraint_count > 0 {
        out.append(" where ");
        let ghost cs = job@.extra_constraints;
        let mut c: usize = 0;
        while c < constraint_count
            invariant
                0 <= c <= constraint_count,
                constraint_count == job.extra_constraints.len(),
                cs == job@.extra_constraints,
                cs.len() == constraint_count,
                c == 0 ==> out@ == spec_fn_signature(job@) + " where "@,
                c > 0 ==> out@ == spec_fn_signature(job@) + " where "@ + spec_join_comma(
                    cs.take(c as int),
                ),
            decreases constraint_count - c,
        {
            if c > 0 {
                out.append(", ");
            }
            out.append(job.extra_constraints[c].as_str());
            proof {
                assert(cs.take(c + 1).drop_last() =~= cs.take(c as int));
                assert(cs.take(c + 1).last() == cs[c as int]);
                if c == 0 {
                    assert(out@ =~= spec_fn_signature(job@) + " where "@ + spec_join_comma(cs.take(1)));
                }
            }
            c += 1;
        }
        proof {
            assert(cs.take(constraint_count as int) =~= cs);
        }
    }
    out.append(" {\n");
    proof {
        assert(out@ =~= spec_fn_header(job@));
    }
    let mut i: usize = 0;
    while i < field_names.len()
        invariant
            0 <= i <= field_names.len(),
            names == names_of(field_names@),
            names.len() == field_names@.len(),
            excl == job@.exclusion_set(),
            out@ == spec_fn_header(job@) + spec_emit_calls(
                spec_visit_plan(names.take(i as int), excl),
                job@.is_mutable,
            ),
            job.is_mutable == job@.is_mutable,
        decreases field_names.len() - i,
    {
        assert(names.take(i + 1).drop_last() =~= names.take(i as int));
        assert(names.take(i + 1).last() == names[i as int]);
        let ghost plan_prev = spec_visit_plan(names.take(i as int), excl);
        if !contains_name(&job.excluded_fields, &field_names[i]) {
            out.append("        if let Some(x) = f(\"");
            out.append(field_names[i].as_str());
            out.append("\", ");
            if job.is_mutable {
                out.append("&mut self.");
            } else {
                out.append("&self.");
            }
            out.append(field_names[i].as_str());
            out.append(") { return Some(x); }\n");
            proof {
                let plan = spec_visit_plan(names.take(i + 1), excl);
                assert(plan == plan_prev.push(names[i as int]));
                assert(plan.drop_last() =~= plan_prev);
                assert(out@ =~= spec_fn_header(job@) + spec_emit_calls(plan, job@.is_mutable));
            }
        }
        i += 1;
    }
    proof {
        assert(names.take(names.len() as int) =~= names);
    }
    out.append("        None\n    }\n");
    proof {
        assert(out@ =~= spec_emit_fn(job@, names));
    }
    out
}

/// Emits every dispatcher of a finished job set, wrapped in one `impl`
/// block for the record named `record_name` with the given generic
/// parameter list.
pub fn emit_dispatchers(
    record_name: &String,
    generics: &Option<String>,
    set: &VisitorJobSet,
    field_names: &Vec<String>,
) -> (out: String)
    ensures
        out@ == spec_emit_impl(
            record_name@,
            generics_view(*generics),
            job_views(set.jobs@),
            names_of(field_names@),
        ),
{
    let ghost names = names_of(field_names@);
    let ghost jvs = job_views(set.jobs@);
    let mut out = String::new();
    match generics {
        Option::Some(g) => {
            out.append("impl");
            out.append(g.as_str());
            out.append(" ");
            out.append(record_name.as_str());
            out.append(g.as_str());
            out.append(" {\n");
        },
        Option::None => {
            out.append("impl ");
            out.append(record_name.as_str());
            out.append(" {\n");
        },
    }
    proof {
        assert(out@ =~= spec_impl_header(record_name@, generics_view(*generics)));
    }
    let mut i: usize = 0;
    while i < set.jobs.len()
        invariant
            0 <= i <= set.jobs.len(),
            names == names_of(field_names@),
            jvs == job_views(set.jobs@),
            jvs.len() == set.jobs@.len(),
            out@ == spec_impl_header(record_name@, generics_view(*generics)) + spec_emit_jobs(
                jvs.take(i as int),
                names,
            ),
        decreases set.jobs.len() - i,
    {
        assert(jvs.take(i + 1).drop_last() =~= jvs.take(i as int));
        assert(jvs.take(i + 1).last() == jvs[i as int]);
        let piece = emit_fn(&set.jobs[i], field_names);
        out.append(piece.as_str());
        proof {
            assert(out@ =~= spec_impl_header(record_name@, generics_view(*generics))
                + spec_emit_jobs(jvs.take(i + 1), names));
        }
        i += 1;
    }
    proof {
        assert(jvs.take(jvs.len() as int) =~= jvs);
    }
    out.append("}\n");
    proof {
        assert(out@ =~= spec_emit_impl(record_name@, generics_view(*generics), jvs, names));
    }
    out
}

} // verus!
