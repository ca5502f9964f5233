//! The one-pass driver: parse the directives, build the job model, emit the
//! dispatcher text. Control flow is strictly linear, each record description
//! is processed independently, and the first structural error aborts the
//! whole pass — no dispatcher is emitted for a record whose directives fail.

use vstd::prelude::*;

use crate::emit::{emit_dispatchers, generics_view, spec_emit_impl};
use crate::jobs::{
    ParsedField, ParsedFieldView, build_jobs, job_views, parsed_field_views, spec_build_jobs,
};
use crate::meta::{
    FieldEntryView, GenError, GenErrorView, RecordDescription, RecordDescriptionView,
    RecordDirective, names_of,
};
use crate::parse::{
    parse_field_directives, parse_record_directives, record_directive_views,
    spec_parse_field_directives, spec_parse_record_directives,
};

verus! {

/// What parsing every field's directive list yields: the fields with their
/// validated directives, in field order, or the first error in field order.
pub open spec fn spec_parse_fields(fs: Seq<FieldEntryView>) -> Result<
    Seq<ParsedFieldView>,
    GenErrorView,
>
    decreases fs.len(),
{
    if fs.len() == 0 {
        Ok(Seq::empty())
    } else {
        match spec_parse_fields(fs.drop_last()) {
            Err(e) => Err(e),
            Ok(pfs) => match spec_parse_field_directives(fs.last().directives) {
                Err(e) => Err(e),
                Ok(ds) => Ok(pfs.push(ParsedFieldView { name: fs.last().name, directives: ds })),
            },
        }
    }
}

/// The record's field names, in declaration order.
pub open spec fn spec_field_names(fs: Seq<FieldEntryView>) -> Seq<Seq<char>> {
    fs.map_values(|f: FieldEntryView| f.name)
}

/// What one generation pass yields for a record description: the emitted
/// dispatcher text, or the first structural error of the parse and build
/// stages.
pub open spec fn spec_generate(desc: RecordDescriptionView) -> Result<Seq<char>, GenErrorView> {
    match spec_parse_record_directives(desc.directives) {
        Err(e) => Err(e),
        Ok(ds) => match spec_parse_fields(desc.fields) {
            Err(e) => Err(e),
            Ok(pfs) => match spec_build_jobs(ds, pfs) {
                Err(e) => Err(e),
                Ok(jobs) => Ok(
                    spec_emit_impl(desc.name, desc.generics, jobs, spec_field_names(desc.fields)),
                ),
            },
        },
    }
}

/// An error in a prefix of the field list is the error of the whole
/// field-parsing stage.
proof fn lemma_parse_fields_err_prefix(fs: Seq<FieldEntryView>, k: int)
    requires
        0 <= k <= fs.len(),
        spec_parse_fields(fs.take(k)) is Err,
    ensures
        spec_parse_fields(fs) == spec_parse_fields(fs.take(k)),
    decreases fs.len(),
{
    if k < fs.len() {
        assert(fs.drop_last().take(k) =~= fs.take(k));
        lemma_parse_fields_err_prefix(fs.drop_last(), k);
    } else {
        assert(fs.take(k) =~= fs);
    }
}

/// Runs one generation pass over a record description.
///
/// The record-level directives are parsed first, then every field's
/// directives in field order, then the job model is built, and the
/// dispatchers are emitted. The first structural error aborts the pass and
/// nothing is emitted for the record.
pub fn generate(desc: &RecordDescription) -> (r: Result<String, GenError>)
    ensures
        match r {
            Ok(out) => spec_generate(desc@) == Ok::<_, GenErrorView>(out@),
            Err(e) => spec_generate(desc@) == Err::<Seq<char>, _>(e@),
        },
{
    let directives: Vec<RecordDirective> = match parse_record_directives(&desc.directives) {
        Ok(ds) => ds,
        Err(e) => {
            return Err(e);
        },
    };
    let ghost fsv = desc@.fields;
    let mut parsed: Vec<ParsedField> = Vec::new();
    proof {
        assert(fsv.take(0) =~= Seq::<FieldEntryView>::empty());
        assert(parsed_field_views(parsed@) =~= Seq::<ParsedFieldView>::empty());
    }
    let mut i: usize = 0;
    while i < desc.fields.len()
        invariant
            0 <= i <= desc.fields.len(),
            fsv == desc@.fields,
            fsv.len() == desc.fields@.len(),
            spec_parse_record_directives(desc@.directives) == Ok::<_, GenErrorView>(
                record_directive_views(directives@),
            ),
            spec_parse_fields(fsv.take(i as int)) == Ok::<_, GenErrorView>(
                parsed_field_views(parsed@),
            ),
        decreases desc.fields.len() - i,
    {
        assert(fsv.take(i + 1).drop_last() =~= fsv.take(i as int));
        assert(fsv.take(i + 1).last() == fsv[i as int]);
        match parse_field_directives(&desc.fields[i].directives) {
            Ok(ds) => {
                let pf = ParsedField { name: desc.fields[i].name.clone(), directives: ds };
                let ghost prev = parsed@;
                let ghost pv = pf@;
                parsed.push(pf);
                proof {
                    assert(parsed_field_views(parsed@) =~~= parsed_field_views(prev).push(pv));
                }
            },
            Err(e) => {
                proof {
                    lemma_parse_fields_err_prefix(fsv, i + 1);
                }
                return Err(e);
            },
        }
        i += 1;
    }
    proof {
        assert(fsv.take(fsv.len() as int) =~= fsv);
    }
    let set = match build_jobs(&directives, &parsed) {
        Ok(set) => set,
        Err(e) => {
            return Err(e);
        },
    };
    let mut field_names: Vec<String> = Vec::new();
    proof {
        assert(names_of(field_names@) =~= spec_field_names(fsv.take(0)));
    }
    let mut i: usize = 0;
    while i < desc.fields.len()
        invariant
            0 <= i <= desc.fields.len(),
            fsv == desc@.fields,
            fsv.len() == desc.fields@.len(),
            names_of(field_names@) == spec_field_names(fsv.take(i as int)),
        decreases desc.fields.len() - i,
    {
        let ghost prev = field_names@;
        field_names.push(desc.fields[i].name.clone());
        proof {
            assert(names_of(field_names@) =~= names_of(prev).push(fsv[i as int].name));
            assert(spec_field_names(fsv.take(i + 1)) =~= spec_field_names(fsv.take(i as int)).push(
                fsv[i as int].name,
            ));
        }
        i += 1;
    }
    proof {
        assert(fsv.take(fsv.len() as int) =~= fsv);
        assert(desc@.generics == generics_view(desc.generics));
    }
    let out = emit_dispatchers(&desc.name, &desc.generics, &set, &field_names);
    Ok(out)
}

} // verus!
