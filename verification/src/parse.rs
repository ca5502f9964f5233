//! The directive parser: validates raw record-level and field-level directive
//! payloads into directive tables.
//!
//! Record-level entries come in a named-value or named-list form: a bare
//! name-value pair declares a visitor function, and a nested list keyed
//! `bound` whose entries are name-value pairs appends constraints to a
//! declared function. Field-level entries accept only a nested list keyed
//! `skip` whose entries are bare function names. Any other shape fails the
//! pass immediately with an error naming the offending construct.

use vstd::prelude::*;

use crate::meta::{
    FieldDirective, FieldDirectiveView, GenError, GenErrorView, RawMeta, RecordDirective,
    RecordDirectiveView, AccessMode, str_eq,
};
use crate::typexpr::{spec_type_expr_wf, type_expr_wf};

verus! {

/// Whether a function name requests mutable access by the naming convention:
/// the name ends in the marker suffix `_mut`.
pub open spec fn spec_requests_mut(n: Seq<char>) -> bool {
    &&& n.len() >= 4
    &&& n[n.len() - 4] == '_'
    &&& n[n.len() - 3] == 'm'
    &&& n[n.len() - 2] == 'u'
    &&& n[n.len() - 1] == 't'
}

/// Checks the legacy naming convention: a visitor function whose name ends in
/// `_mut` requests mutable access to the record.
pub fn requests_mut(name: &str) -> (r: bool)
    ensures
        r == spec_requests_mut(name@),
{
    let n: usize = name.unicode_len();
    if n < 4 {
        return false;
    }
    name.get_char(n - 4) == '_' && name.get_char(n - 3) == 'm' && name.get_char(n - 2) == 'u'
        && name.get_char(n - 1) == 't'
}

/// The sequence of abstract values of a list of record directives.
pub open spec fn record_directive_views(s: Seq<RecordDirective>) -> Seq<RecordDirectiveView> {
    s.map_values(|d: RecordDirective| d@)
}

/// The sequence of abstract values of a list of field directives.
pub open spec fn field_directive_views(s: Seq<FieldDirective>) -> Seq<FieldDirectiveView> {
    s.map_values(|d: FieldDirective| d@)
}

/// What parsing the entries of a `bound` list yields: one added bound per
/// name-value entry, or the first error in entry order.
pub open spec fn spec_parse_bound_items(items: Seq<RawMeta>) -> Result<
    Seq<RecordDirectiveView>,
    GenErrorView,
>
    decreases items.len(),
{
    if items.len() == 0 {
        Ok(Seq::empty())
    } else {
        match spec_parse_bound_items(items.drop_last()) {
            Err(e) => Err(e),
            Ok(ds) => match items.last() {
                RawMeta::NameValue { name, value } => if spec_type_expr_wf(value@) {
                    Ok(
                        ds.push(
                            RecordDirectiveView::AddBound {
                                function_name: name@,
                                predicate: value@,
                            },
                        ),
                    )
                } else {
                    Err(GenErrorView::MalformedExpression(value@))
                },
                m => Err(GenErrorView::UnsupportedShape(m.spec_name())),
            },
        }
    }
}

/// What parsing one record-level entry yields: a declaration, the bounds of a
/// `bound` list, or an error naming the construct.
pub open spec fn spec_parse_record_meta(m: RawMeta) -> Result<
    Seq<RecordDirectiveView>,
    GenErrorView,
> {
    match m {
        RawMeta::NameValue { name, value } => if spec_type_expr_wf(value@) {
            Ok(
                seq![
                    RecordDirectiveView::DeclareFunction {
                        name: name@,
                        value_capability_type: value@,
                        mutable: spec_requests_mut(name@),
                    },
                ],
            )
        } else {
            Err(GenErrorView::MalformedExpression(value@))
        },
        RawMeta::List { name, items } => if name@ == "bound"@ {
            spec_parse_bound_items(items@)
        } else {
            Err(GenErrorView::UnsupportedShape(name@))
        },
        RawMeta::Word { name } => Err(GenErrorView::UnsupportedShape(name@)),
    }
}

/// What parsing a record-level directive list yields: the concatenation of
/// each entry's directives in entry order, or the first error.
pub open spec fn spec_parse_record_directives(ms: Seq<RawMeta>) -> Result<
    Seq<RecordDirectiveView>,
    GenErrorView,
>
    decreases ms.len(),
{
    if ms.len() == 0 {
        Ok(Seq::empty())
    } else {
        match spec_parse_record_directives(ms.drop_last()) {
            Err(e) => Err(e),
            Ok(ds) => match spec_parse_record_meta(ms.last()) {
                Err(e) => Err(e),
                Ok(more) => Ok(ds + more),
            },
        }
    }
}

/// What parsing the entries of a `skip` list yields: one exclusion per bare
/// name, or the first error in entry order.
pub open spec fn spec_parse_skip_items(items: Seq<RawMeta>) -> Result<
    Seq<FieldDirectiveView>,
    GenErrorView,
>
    decreases items.len(),
{
    if items.len() == 0 {
        Ok(Seq::empty())
    } else {
        match spec_parse_skip_items(items.drop_last()) {
            Err(e) => Err(e),
            Ok(ds) => match items.last() {
                RawMeta::Word { name } => Ok(
                    ds.push(FieldDirectiveView::ExcludeFrom { function_name: name@ }),
                ),
                m => Err(GenErrorView::UnsupportedShape(m.spec_name())),
            },
        }
    }
}

/// What parsing one field-level entry yields: the exclusions of a `skip`
/// list, or an error naming the construct.
pub open spec fn spec_parse_field_meta(m: RawMeta) -> Result<
    Seq<FieldDirectiveView>,
    GenErrorView,
> {
    match m {
        RawMeta::List { name, items } => if name@ == "skip"@ {
            spec_parse_skip_items(items@)
        } else {
            Err(GenErrorView::UnsupportedShape(name@))
        },
        m => Err(GenErrorView::UnsupportedShape(m.spec_name())),
    }
}

/// What parsing a field-level directive list yields.
pub open spec fn spec_parse_field_directives(ms: Seq<RawMeta>) -> Result<
    Seq<FieldDirectiveView>,
    GenErrorView,
>
    decreases ms.len(),
{
    if ms.len() == 0 {
        Ok(Seq::empty())
    } else {
        match spec_parse_field_directives(ms.drop_last()) {
            Err(e) => Err(e),
            Ok(ds) => match spec_parse_field_meta(ms.last()) {
                Err(e) => Err(e),
                Ok(more) => Ok(ds + more),
            },
        }
    }
}

/// An error in a prefix of a record-level directive list is the error of the
/// whole list.
proof fn lemma_record_err_prefix(ms: Seq<RawMeta>, k: int)
    requires
        0 <= k <= ms.len(),
        spec_parse_record_directives(ms.take(k)) is Err,
    ensures
        spec_parse_record_directives(ms) == spec_parse_record_directives(ms.take(k)),
    decreases ms.len(),
{
    if k < ms.len() {
        assert(ms.drop_last().take(k) =~= ms.take(k));
        lemma_record_err_prefix(ms.drop_last(), k);
    } else {
        assert(ms.take(k) =~= ms);
    }
}

/// An error in a prefix of a `bound` list is the error of the whole list.
proof fn lemma_bound_err_prefix(items: Seq<RawMeta>, k: int)
    requires
        0 <= k <= items.len(),
        spec_parse_bound_items(items.take(k)) is Err,
    ensures
        spec_parse_bound_items(items) == spec_parse_bound_items(items.take(k)),
    decreases items.len(),
{
    if k < items.len() {
        assert(items.drop_last().take(k) =~= items.take(k));
        lemma_bound_err_prefix(items.drop_last(), k);
    } else {
        assert(items.take(k) =~= items);
    }
}

/// An error in a prefix of a field-level directive list is the error of the
/// whole list.
proof fn lemma_field_err_prefix(ms: Seq<RawMeta>, k: int)
    requires
        0 <= k <= ms.len(),
        spec_parse_field_directives(ms.take(k)) is Err,
    ensures
        spec_parse_field_directives(ms) == spec_parse_field_directives(ms.take(k)),
    decreases ms.len(),
{
    if k < ms.len() {
        assert(ms.drop_last().take(k) =~= ms.take(k));
        lemma_field_err_prefix(ms.drop_last(), k);
    } else {
        assert(ms.take(k) =~= ms);
    }
}

/// An error in a prefix of a `skip` list is the error of the whole list.
proof fn lemma_skip_err_prefix(items: Seq<RawMeta>, k: int)
    requires
        0 <= k <= items.len(),
        spec_parse_skip_items(items.take(k)) is Err,
    ensures
        spec_parse_skip_items(items) == spec_parse_skip_items(items.take(k)),
    decreases items.len(),
{
    if k < items.len() {
        assert(items.drop_last().take(k) =~= items.take(k));
        lemma_skip_err_prefix(items.drop_last(), k);
    } else {
        assert(items.take(k) =~= items);
    }
}

/// Parses the entries of a record-level `bound` list.
fn parse_bound_items(items: &Vec<RawMeta>) -> (r: Result<Vec<RecordDirective>, GenError>)
    ensures
        match r {
            Ok(ds) => spec_parse_bound_items(items@) == Ok::<_, GenErrorView>(
                record_directive_views(ds@),
            ),
            Err(e) => spec_parse_bound_items(items@) == Err::<Seq<RecordDirectiveView>, _>(e@),
        },
{
    let mut out: Vec<RecordDirective> = Vec::new();
    proof {
        assert(items@.take(0) =~= Seq::<RawMeta>::empty());
        assert(record_directive_views(out@) =~= Seq::<RecordDirectiveView>::empty());
    }
    let mut i: usize = 0;
    while i < items.len()
        invariant
            0 <= i <= items.len(),
            spec_parse_bound_items(items@.take(i as int)) == Ok::<_, GenErrorView>(
                record_directive_views(out@),
            ),
        decreases items.len() - i,
    {
        assert(items@.take(i + 1).drop_last() =~= items@.take(i as int));
        assert(items@.take(i + 1).last() == items@[i as int]);
        match &items[i] {
            RawMeta::NameValue { name, value } => {
                if type_expr_wf(value.as_str()) {
                    let d = RecordDirective::AddBound {
                        function_name: name.clone(),
                        predicate: value.clone(),
                    };
                    let ghost prev = out@;
                    let ghost dv = d@;
                    out.push(d);
                    proof {
                        assert(record_directive_views(out@) =~= record_directive_views(prev).push(
                            dv,
                        ));
                    }
                } else {
                    let e = GenError::MalformedExpression(value.clone());
                    proof {
                        lemma_bound_err_prefix(items@, i + 1);
                    }
                    return Err(e);
                }
            },
            RawMeta::List { name, items: _ } => {
                let e = GenError::UnsupportedShape(name.clone());
                proof {
                    lemma_bound_err_prefix(items@, i + 1);
                }
                return Err(e);
            },
            RawMeta::Word { name } => {
                let e = GenError::UnsupportedShape(name.clone());
                proof {
                    lemma_bound_err_prefix(items@, i + 1);
                }
                return Err(e);
            },
        }
        i += 1;
    }
    assert(items@.take(items@.len() as int) =~= items@);
    Ok(out)
}

/// Parses a record-level directive list into validated record directives.
///
/// Each name-value entry declares one visitor function, with its access mode
/// taken from the `_mut` naming convention; each `bound` list appends
/// constraints. The first entry of any other shape, and the first value that
/// is not a structurally well-formed expression, fails the parse.
pub fn parse_record_directives(metas: &Vec<RawMeta>) -> (r: Result<
    Vec<RecordDirective>,
    GenError,
>)
    ensures
        match r {
            Ok(ds) => spec_parse_record_directives(metas@) == Ok::<_, GenErrorView>(
                record_directive_views(ds@),
            ),
            Err(e) => spec_parse_record_directives(metas@) == Err::<Seq<RecordDirectiveView>, _>(
                e@,
            ),
        },
{
    let mut out: Vec<RecordDirective> = Vec::new();
    proof {
        assert(metas@.take(0) =~= Seq::<RawMeta>::empty());
        assert(record_directive_views(out@) =~= Seq::<RecordDirectiveView>::empty());
    }
    let mut i: usize = 0;
    while i < metas.len()
        invariant
            0 <= i <= metas.len(),
            spec_parse_record_directives(metas@.take(i as int)) == Ok::<_, GenErrorView>(
                record_directive_views(out@),
            ),
        decreases metas.len() - i,
    {
        assert(metas@.take(i + 1).drop_last() =~= metas@.take(i as int));
        assert(metas@.take(i + 1).last() == metas@[i as int]);
        match &metas[i] {
            RawMeta::NameValue { name, value } => {
                if type_expr_wf(value.as_str()) {
                    let mode = if requests_mut(name.as_str()) {
                        AccessMode::Mutable
                    } else {
                        AccessMode::ReadOnly
                    };
                    let d = RecordDirective::DeclareFunction {
                        name: name.clone(),
                        value_capability_type: value.clone(),
                        mode,
                    };
                    let ghost prev = out@;
                    let ghost dv = d@;
                    out.push(d);
                    proof {
                        assert(record_directive_views(out@) =~= record_directive_views(prev)
                            + seq![dv]);
                    }
                } else {
                    let e = GenError::MalformedExpression(value.clone());
                    proof {
                        lemma_record_err_prefix(metas@, i + 1);
                    }
                    return Err(e);
                }
            },
            RawMeta::List { name, items } => {
                if str_eq(name.as_str(), "bound") {
                    match parse_bound_items(items) {
                        Ok(mut seg) => {
                            proof {
                                assert(record_directive_views(out@ + seg@)
                                    =~= record_directive_views(out@) + record_directive_views(
                                    seg@,
                                ));
                            }
                            out.append(&mut seg);
                        },
                        Err(e) => {
                            proof {
                                lemma_record_err_prefix(metas@, i + 1);
                            }
                            return Err(e);
                        },
                    }
                } else {
                    let e = GenError::UnsupportedShape(name.clone());
                    proof {
                        lemma_record_err_prefix(metas@, i + 1);
                    }
                    return Err(e);
                }
            },
            RawMeta::Word { name } => {
                let e = GenError::UnsupportedShape(name.clone());
                proof {
                    lemma_record_err_prefix(metas@, i + 1);
                }
                return Err(e);
            },
        }
        i += 1;
    }
    assert(metas@.take(metas@.len() as int) =~= metas@);
    Ok(out)
}

/// Parses the entries of a field-level `skip` list.
fn parse_skip_items(items: &Vec<RawMeta>) -> (r: Result<Vec<FieldDirective>, GenError>)
    ensures
        match r {
            Ok(ds) => spec_parse_skip_items(items@) == Ok::<_, GenErrorView>(
                field_directive_views(ds@),
            ),
            Err(e) => spec_parse_skip_items(items@) == Err::<Seq<FieldDirectiveView>, _>(e@),
        },
{
    let mut out: Vec<FieldDirective> = Vec::new();
    proof {
        assert(items@.take(0) =~= Seq::<RawMeta>::empty());
        assert(field_directive_views(out@) =~= Seq::<FieldDirectiveView>::empty());
    }
    let mut i: usize = 0;
    while i < items.len()
        invariant
            0 <= i <= items.len(),
            spec_parse_skip_items(items@.take(i as int)) == Ok::<_, GenErrorView>(
                field_directive_views(out@),
            ),
        decreases items.len() - i,
    {
        assert(items@.take(i + 1).drop_last() =~= items@.take(i as int));
        assert(items@.take(i + 1).last() == items@[i as int]);
        match &items[i] {
            RawMeta::Word { name } => {
                let d = FieldDirective::ExcludeFrom { function_name: name.clone() };
                let ghost prev = out@;
                let ghost dv = d@;
                out.push(d);
                proof {
                    assert(field_directive_views(out@) =~= field_directive_views(prev).push(dv));
                }
            },
            RawMeta::NameValue { name, value: _ } => {
                let e = GenError::UnsupportedShape(name.clone());
                proof {
                    lemma_skip_err_prefix(items@, i + 1);
                }
                return Err(e);
            },
            RawMeta::List { name, items: _ } => {
                let e = GenError::UnsupportedShape(name.clone());
                proof {
                    lemma_skip_err_prefix(items@, i + 1);
                }
                return Err(e);
            },
        }
        i += 1;
    }
    assert(items@.take(items@.len() as int) =~= items@);
    Ok(out)
}

/// Parses one field's directive list into validated field directives.
///
/// Only a `skip` list of bare function names is accepted; the first entry of
/// any other shape fails the parse, naming the construct.
pub fn parse_field_directives(metas: &Vec<RawMeta>) -> (r: Result<Vec<FieldDirective>, GenError>)
    ensures
        match r {
            Ok(ds) => spec_parse_field_directives(metas@) == Ok::<_, GenErrorView>(
                field_directive_views(ds@),
            ),
            Err(e) => spec_parse_field_directives(metas@) == Err::<Seq<FieldDirectiveView>, _>(
                e@,
            ),
        },
{
    let mut out: Vec<FieldDirective> = Vec::new();
    proof {
        assert(metas@.take(0) =~= Seq::<RawMeta>::empty());
        assert(field_directive_views(out@) =~= Seq::<FieldDirectiveView>::empty());
    }
    let mut i: usize = 0;
    while i < metas.len()
        invariant
            0 <= i <= metas.len(),
            spec_parse_field_directives(metas@.take(i as int)) == Ok::<_, GenErrorView>(
                field_directive_views(out@),
            ),
        decreases metas.len() - i,
    {
        assert(metas@.take(i + 1).drop_last() =~= metas@.take(i as int));
        assert(metas@.take(i + 1).last() == metas@[i as int]);
        match &metas[i] {
            RawMeta::List { name, items } => {
                if str_eq(name.as_str(), "skip") {
                    match parse_skip_items(items) {
                        Ok(mut seg) => {
                            proof {
                                assert(field_directive_views(out@ + seg@)
                                    =~= field_directive_views(out@) + field_directive_views(seg@));
                            }
                            out.append(&mut seg);
                        },
                        Err(e) => {
                            proof {
                                lemma_field_err_prefix(metas@, i + 1);
                            }
                            return Err(e);
                        },
                    }
                } else {
                    let e = GenError::UnsupportedShape(name.clone());
                    proof {
                        lemma_field_err_prefix(metas@, i + 1);
                    }
                    return Err(e);
                }
            },
            RawMeta::NameValue { name, value: _ } => {
                let e = GenError::UnsupportedShape(name.clone());
                proof {
                    lemma_field_err_prefix(metas@, i + 1);
                }
                return Err(e);
            },
            RawMeta::Word { name } => {
                let e = GenError::UnsupportedShape(name.clone());
                proof {
                    lemma_field_err_prefix(metas@, i + 1);
                }
                return Err(e);
            },
        }
        i += 1;
    }
    assert(metas@.take(metas@.len() as int) =~= metas@);
    Ok(out)
}

} // verus!
