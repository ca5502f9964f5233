//! The job model builder: turns a validated directive table and the ordered
//! field list into one visitor job per declared function.
//!
//! Declarations are accumulated first, in declaration order; a name declared
//! twice is a hard error. Bounds and field exclusions are then resolved
//! against the accumulated jobs, and a directive that targets a name no
//! declaration introduced is a hard error carrying that name. The pass fails
//! fast: the first error in scan order aborts the build.

use vstd::prelude::*;

use crate::meta::{
    FieldDirective, FieldDirectiveView, GenError, GenErrorView, RecordDirective,
    RecordDirectiveView, names_of, contains_name,
};

verus! {

/// One requested visitor function, derived from the directives: its name,
/// the type through which the callback observes field values, its access
/// mode, the fields it must not visit, and its extra generic constraints.
#[derive(Debug)]
pub struct VisitorJob {
    pub name: String,
    pub value_capability_type: String,
    pub is_mutable: bool,
    pub excluded_fields: Vec<String>,
    pub extra_constraints: Vec<String>,
}

/// The abstract value of a [`VisitorJob`]. Excluded fields keep insertion
/// order but never repeat; their meaning is the set of their elements.
#[verifier::ext_equal]
pub struct VisitorJobView {
    pub name: Seq<char>,
    pub value_capability_type: Seq<char>,
    pub is_mutable: bool,
    pub excluded_fields: Seq<Seq<char>>,
    pub extra_constraints: Seq<Seq<char>>,
}

impl View for VisitorJob {
    type V = VisitorJobView;

    open spec fn view(&self) -> VisitorJobView {
        VisitorJobView {
            name: self.name@,
            value_capability_type: self.value_capability_type@,
            is_mutable: self.is_mutable,
            excluded_fields: names_of(self.excluded_fields@),
            extra_constraints: names_of(self.extra_constraints@),
        }
    }
}

impl VisitorJobView {
    /// The exclusion set this job's dispatcher honours.
    pub open spec fn exclusion_set(self) -> Set<Seq<char>> {
        self.excluded_fields.to_set()
    }
}

/// The ordered collection of all visitor jobs of one record description.
#[derive(Debug)]
pub struct VisitorJobSet {
    pub jobs: Vec<VisitorJob>,
}

/// One field after its directives were parsed: its identifier and its
/// validated field-level directives.
#[derive(Debug)]
pub struct ParsedField {
    pub name: String,
    pub directives: Vec<FieldDirective>,
}

/// The abstract value of a [`ParsedField`].
#[verifier::ext_equal]
pub struct ParsedFieldView {
    pub name: Seq<char>,
    pub directives: Seq<FieldDirectiveView>,
}

impl View for ParsedField {
    type V = ParsedFieldView;

    open spec fn view(&self) -> ParsedFieldView {
        ParsedFieldView {
            name: self.name@,
            directives: self.directives@.map_values(|d: FieldDirective| d@),
        }
    }
}

/// The sequence of abstract values of a list of visitor jobs.
pub open spec fn job_views(s: Seq<VisitorJob>) -> Seq<VisitorJobView> {
    s.map_values(|j: VisitorJob| j@)
}

/// The sequence of abstract values of a list of parsed fields.
pub open spec fn parsed_field_views(s: Seq<ParsedField>) -> Seq<ParsedFieldView> {
    s.map_values(|f: ParsedField| f@)
}

/// The index of the first job named `name`, or `-1` when no job carries that
/// name.
pub open spec fn spec_find_job(jobs: Seq<VisitorJobView>, name: Seq<char>) -> int
    decreases jobs.len(),
{
    if jobs.len() == 0 {
        -1
    } else if jobs[0].name == name {
        0
    } else {
        let r = spec_find_job(jobs.skip(1), name);
        if r == -1 {
            -1
        } else {
            r + 1
        }
    }
}

/// What `spec_find_job` returns: the first match when one exists, `-1`
/// otherwise.
pub proof fn lemma_find_job_props(jobs: Seq<VisitorJobView>, name: Seq<char>)
    ensures
        spec_find_job(jobs, name) == -1 ==> forall|j: int|
            0 <= j < jobs.len() ==> jobs[j].name != name,
        spec_find_job(jobs, name) != -1 ==> {
            let r = spec_find_job(jobs, name);
            &&& 0 <= r < jobs.len()
            &&& jobs[r].name == name
            &&& forall|j: int| 0 <= j < r ==> jobs[j].name != name
        },
    decreases jobs.len(),
{
    if jobs.len() == 0 {
    } else if jobs[0].name == name {
        assert(spec_find_job(jobs, name) == 0);
    } else {
        lemma_find_job_props(jobs.skip(1), name);
        let r1 = spec_find_job(jobs.skip(1), name);
        assert(forall|j: int| 0 <= j < jobs.skip(1).len() ==> jobs.skip(1)[j] == jobs[j + 1]);
        if r1 == -1 {
            assert forall|j: int| 0 <= j < jobs.len() implies jobs[j].name != name by {
                if j > 0 {
                    assert(jobs.skip(1)[j - 1] == jobs[j]);
                }
            }
        } else {
            assert(spec_find_job(jobs, name) == r1 + 1);
            assert(jobs.skip(1)[r1] == jobs[r1 + 1]);
            assert forall|j: int| 0 <= j < r1 + 1 implies jobs[j].name != name by {
                if j > 0 {
                    assert(jobs.skip(1)[j - 1] == jobs[j]);
                }
            }
        }
    }
}

/// The index of the first match is determined by the matches alone.
pub proof fn lemma_find_job_first_match(jobs: Seq<VisitorJobView>, name: Seq<char>, k: int)
    requires
        0 <= k < jobs.len(),
        jobs[k].name == name,
        forall|j: int| 0 <= j < k ==> jobs[j].name != name,
    ensures
        spec_find_job(jobs, name) == k,
    decreases jobs.len(),
{
    if k > 0 {
        assert(forall|j: int| 0 <= j < jobs.skip(1).len() ==> jobs.skip(1)[j] == jobs[j + 1]);
        lemma_find_job_first_match(jobs.skip(1), name, k - 1);
    }
}

/// When no job matches, `spec_find_job` says so.
pub proof fn lemma_find_job_no_match(jobs: Seq<VisitorJobView>, name: Seq<char>)
    requires
        forall|j: int| 0 <= j < jobs.len() ==> jobs[j].name != name,
    ensures
        spec_find_job(jobs, name) == -1,
    decreases jobs.len(),
{
    if jobs.len() > 0 {
        assert(forall|j: int| 0 <= j < jobs.skip(1).len() ==> jobs.skip(1)[j] == jobs[j + 1]);
        lemma_find_job_no_match(jobs.skip(1), name);
    }
}

/// A fresh job for a declared function: empty exclusion set, no extra
/// constraints.
pub open spec fn spec_new_job(
    name: Seq<char>,
    value_capability_type: Seq<char>,
    mutable: bool,
) -> VisitorJobView {
    VisitorJobView {
        name: name,
        value_capability_type: value_capability_type,
        is_mutable: mutable,
        excluded_fields: Seq::empty(),
        extra_constraints: Seq::empty(),
    }
}

/// `j` with one more constraint appended.
pub open spec fn spec_with_constraint(j: VisitorJobView, p: Seq<char>) -> VisitorJobView {
    VisitorJobView {
        name: j.name,
        value_capability_type: j.value_capability_type,
        is_mutable: j.is_mutable,
        excluded_fields: j.excluded_fields,
        extra_constraints: j.extra_constraints.push(p),
    }
}

/// `j` with `f` in its exclusion set.
pub open spec fn spec_with_exclusion(j: VisitorJobView, f: Seq<char>) -> VisitorJobView {
    if j.excluded_fields.contains(f) {
        j
    } else {
        VisitorJobView {
            name: j.name,
            value_capability_type: j.value_capability_type,
            is_mutable: j.is_mutable,
            excluded_fields: j.excluded_fields.push(f),
            extra_constraints: j.extra_constraints,
        }
    }
}

/// What the declaration pass yields: one fresh job per declaration, in
/// declaration order, or a duplicate-declaration error on the first name
/// declared twice.
pub open spec fn spec_declare_jobs(ds: Seq<RecordDirectiveView>) -> Result<
    Seq<VisitorJobView>,
    GenErrorView,
>
    decreases ds.len(),
{
    if ds.len() == 0 {
        Ok(Seq::empty())
    } else {
        match spec_declare_jobs(ds.drop_last()) {
            Err(e) => Err(e),
            Ok(jobs) => match ds.last() {
                RecordDirectiveView::DeclareFunction { name, value_capability_type, mutable } => if
                spec_find_job(jobs, name) != -1 {
                    Err(GenErrorView::DuplicateDeclaration(name))
                } else {
                    Ok(jobs.push(spec_new_job(name, value_capability_type, mutable)))
                },
                RecordDirectiveView::AddBound { .. } => Ok(jobs),
            },
        }
    }
}

/// What the bound pass yields: each bound appended to its target job, or an
/// unknown-reference error on the first bound whose target no declaration
/// introduced.
pub open spec fn spec_apply_bounds(
    jobs: Seq<VisitorJobView>,
    ds: Seq<RecordDirectiveView>,
) -> Result<Seq<VisitorJobView>, GenErrorView>
    decreases ds.len(),
{
    if ds.len() == 0 {
        Ok(jobs)
    } else {
        match spec_apply_bounds(jobs, ds.drop_last()) {
            Err(e) => Err(e),
            Ok(js) => match ds.last() {
                RecordDirectiveView::AddBound { function_name, predicate } => {
                    let k = spec_find_job(js, function_name);
                    if k == -1 {
                        Err(GenErrorView::UnknownFunctionReference(function_name))
                    } else {
                        Ok(js.update(k, spec_with_constraint(js[k], predicate)))
                    }
                },
                RecordDirectiveView::DeclareFunction { .. } => Ok(js),
            },
        }
    }
}

/// What one field's exclusion directives yield: the field inserted into each
/// targeted job's exclusion set, or an unknown-reference error on the first
/// directive whose target no declaration introduced.
pub open spec fn spec_apply_field(
    jobs: Seq<VisitorJobView>,
    field_name: Seq<char>,
    ds: Seq<FieldDirectiveView>,
) -> Result<Seq<VisitorJobView>, GenErrorView>
    decreases ds.len(),
{
    if ds.len() == 0 {
        Ok(jobs)
    } else {
        match spec_apply_field(jobs, field_name, ds.drop_last()) {
            Err(e) => Err(e),
            Ok(js) => match ds.last() {
                FieldDirectiveView::ExcludeFrom { function_name } => {
                    let k = spec_find_job(js, function_name);
                    if k == -1 {
                        Err(GenErrorView::UnknownFunctionReference(function_name))
                    } else {
                        Ok(js.update(k, spec_with_exclusion(js[k], field_name)))
                    }
                },
            },
        }
    }
}

/// What the exclusion pass yields over all fields, in field order.
pub open spec fn spec_apply_excludes(
    jobs: Seq<VisitorJobView>,
    fields: Seq<ParsedFieldView>,
) -> Result<Seq<VisitorJobView>, GenErrorView>
    decreases fields.len(),
{
    if fields.len() == 0 {
        Ok(jobs)
    } else {
        match spec_apply_excludes(jobs, fields.drop_last()) {
            Err(e) => Err(e),
            Ok(js) => spec_apply_field(js, fields.last().name, fields.last().directives),
        }
    }
}

/// What building the job model yields: declarations accumulated first, then
/// bounds, then field exclusions, failing fast on the first error.
pub open spec fn spec_build_jobs(
    ds: Seq<RecordDirectiveView>,
    fields: Seq<ParsedFieldView>,
) -> Result<Seq<VisitorJobView>, GenErrorView> {
    match spec_declare_jobs(ds) {
        Err(e) => Err(e),
        Ok(jobs) => match spec_apply_bounds(jobs, ds) {
            Err(e) => Err(e),
            Ok(js) => spec_apply_excludes(js, fields),
        },
    }
}

/// An error in a prefix of the declaration pass is the error of the whole
/// pass.
proof fn lemma_declare_err_prefix(ds: Seq<RecordDirectiveView>, k: int)
    requires
        0 <= k <= ds.len(),
        spec_declare_jobs(ds.take(k)) is Err,
    ensures
        spec_declare_jobs(ds) == spec_declare_jobs(ds.take(k)),
    decreases ds.len(),
{
    if k < ds.len() {
        assert(ds.drop_last().take(k) =~= ds.take(k));
        lemma_declare_err_prefix(ds.drop_last(), k);
    } else {
        assert(ds.take(k) =~= ds);
    }
}

/// An error in a prefix of the bound pass is the error of the whole pass.
proof fn lemma_bounds_err_prefix(jobs: Seq<VisitorJobView>, ds: Seq<RecordDirectiveView>, k: int)
    requires
        0 <= k <= ds.len(),
        spec_apply_bounds(jobs, ds.take(k)) is Err,
    ensures
        spec_apply_bounds(jobs, ds) == spec_apply_bounds(jobs, ds.take(k)),
    decreases ds.len(),
{
    if k < ds.len() {
        assert(ds.drop_last().take(k) =~= ds.take(k));
        lemma_bounds_err_prefix(jobs, ds.drop_last(), k);
    } else {
        assert(ds.take(k) =~= ds);
    }
}

/// An error in a prefix of one field's directives is the error of the whole
/// field.
proof fn lemma_field_dirs_err_prefix(
    jobs: Seq<VisitorJobView>,
    field_name: Seq<char>,
    ds: Seq<FieldDirectiveView>,
    k: int,
)
    requires
        0 <= k <= ds.len(),
        spec_apply_field(jobs, field_name, ds.take(k)) is Err,
    ensures
        spec_apply_field(jobs, field_name, ds) == spec_apply_field(jobs, field_name, ds.take(k)),
    decreases ds.len(),
{
    if k < ds.len() {
        assert(ds.drop_last().take(k) =~= ds.take(k));
        lemma_field_dirs_err_prefix(jobs, field_name, ds.drop_last(), k);
    } else {
        assert(ds.take(k) =~= ds);
    }
}

/// An error in a prefix of the field list is the error of the whole
/// exclusion pass.
proof fn lemma_excludes_err_prefix(jobs: Seq<VisitorJobView>, fields: Seq<ParsedFieldView>, k: int)
    requires
        0 <= k <= fields.len(),
        spec_apply_excludes(jobs, fields.take(k)) is Err,
    ensures
        spec_apply_excludes(jobs, fields) == spec_apply_excludes(jobs, fields.take(k)),
    decreases fields.len(),
{
    if k < fields.len() {
        assert(fields.drop_last().take(k) =~= fields.take(k));
        lemma_excludes_err_prefix(jobs, fields.drop_last(), k);
    } else {
        assert(fields.take(k) =~= fields);
    }
}

/// The names of the jobs of a job list, in order.
pub open spec fn spec_job_names(jobs: Seq<VisitorJobView>) -> Seq<Seq<char>> {
    jobs.map_values(|j: VisitorJobView| j.name)
}

/// The names that the declarations of a directive list introduce, in
/// declaration order.
pub open spec fn spec_declared_names(ds: Seq<RecordDirectiveView>) -> Seq<Seq<char>>
    decreases ds.len(),
{
    if ds.len() == 0 {
        Seq::empty()
    } else {
        spec_declared_names(ds.drop_last()) + (match ds.last() {
            RecordDirectiveView::DeclareFunction { name, .. } => seq![name],
            RecordDirectiveView::AddBound { .. } => Seq::<Seq<char>>::empty(),
        })
    }
}

/// The function name a record directive introduces or targets.
pub open spec fn spec_directive_target(d: RecordDirectiveView) -> Seq<char> {
    match d {
        RecordDirectiveView::DeclareFunction { name, .. } => name,
        RecordDirectiveView::AddBound { function_name, .. } => function_name,
    }
}

/// The function name a field directive targets.
pub open spec fn spec_exclude_target(d: FieldDirectiveView) -> Seq<char> {
    match d {
        FieldDirectiveView::ExcludeFrom { function_name } => function_name,
    }
}

/// Whether every directive of `ds` targets a name in `names`.
pub open spec fn spec_field_refs_ok(names: Seq<Seq<char>>, ds: Seq<FieldDirectiveView>) -> bool {
    forall|d: int| 0 <= d < ds.len() ==> names.contains(spec_exclude_target(#[trigger] ds[d]))
}

/// The job list a successful stage yields.
pub open spec fn spec_ok_jobs(r: Result<Seq<VisitorJobView>, GenErrorView>) -> Seq<
    VisitorJobView,
> {
    match r {
        Ok(js) => js,
        Err(_) => Seq::empty(),
    }
}

/// A successful declaration pass yields one job per declaration, named in
/// declaration order, with no name repeated.
pub proof fn lemma_declare_jobs_names(ds: Seq<RecordDirectiveView>)
    ensures
        spec_declare_jobs(ds) matches Ok(jobs) ==> {
            &&& spec_job_names(jobs) == spec_declared_names(ds)
            &&& forall|p: int, q: int| 0 <= p < q < jobs.len() ==> jobs[p].name != jobs[q].name
        },
    decreases ds.len(),
{
    if ds.len() == 0 {
        assert(spec_job_names(Seq::<VisitorJobView>::empty()) =~= Seq::<Seq<char>>::empty());
    } else {
        lemma_declare_jobs_names(ds.drop_last());
        match spec_declare_jobs(ds.drop_last()) {
            Err(_) => {},
            Ok(jobs0) => {
                match ds.last() {
                    RecordDirectiveView::AddBound { .. } => {
                        assert(spec_declared_names(ds) =~= spec_declared_names(ds.drop_last()));
                    },
                    RecordDirectiveView::DeclareFunction {
                        name,
                        value_capability_type,
                        mutable,
                    } => {
                        if spec_find_job(jobs0, name) == -1 {
                            lemma_find_job_props(jobs0, name);
                            let jobs = jobs0.push(
                                spec_new_job(name, value_capability_type, mutable),
                            );
                            assert(spec_job_names(jobs) =~= spec_job_names(jobs0) + seq![name]);
                            assert(spec_declared_names(ds) =~= spec_declared_names(ds.drop_last())
                                + seq![name]);
                            assert forall|p: int, q: int|
                                0 <= p < q < jobs.len() implies jobs[p].name != jobs[q].name by {
                                if q == jobs.len() - 1 {
                                    assert(jobs[p] == jobs0[p]);
                                    assert(spec_job_names(jobs0)[p] == jobs0[p].name);
                                } else {
                                    assert(jobs[p] == jobs0[p]);
                                    assert(jobs[q] == jobs0[q]);
                                }
                            }
                        }
                    },
                }
            },
        }
    }
}

/// The declaration pass fails only with a duplicate declaration.
pub proof fn lemma_declare_err_is_dup(ds: Seq<RecordDirectiveView>)
    ensures
        spec_declare_jobs(ds) is Err ==> spec_declare_jobs(ds) matches Err(
            GenErrorView::DuplicateDeclaration(_),
        ),
    decreases ds.len(),
{
    if ds.len() > 0 {
        lemma_declare_err_is_dup(ds.drop_last());
    }
}

/// Every declaration's name stands in the declared-name list.
pub proof fn lemma_declared_names_contain(ds: Seq<RecordDirectiveView>, i: int)
    requires
        0 <= i < ds.len(),
        ds[i] is DeclareFunction,
    ensures
        spec_declared_names(ds).contains(spec_directive_target(ds[i])),
    decreases ds.len(),
{
    let t = spec_directive_target(ds[i]);
    if i == ds.len() - 1 {
        let prefix = spec_declared_names(ds.drop_last());
        assert(spec_declared_names(ds)[prefix.len() as int] == t);
    } else {
        assert(ds.drop_last()[i] == ds[i]);
        lemma_declared_names_contain(ds.drop_last(), i);
        let prefix = spec_declared_names(ds.drop_last());
        let w = choose|w: int| 0 <= w < prefix.len() && prefix[w] == t;
        assert(spec_declared_names(ds)[w] == t);
    }
}

/// A directive list with the same function declared twice fails the
/// declaration pass.
proof fn lemma_declare_dup_err(ds: Seq<RecordDirectiveView>, i: int, j: int)
    requires
        0 <= i < j < ds.len(),
        ds[i] is DeclareFunction,
        ds[j] is DeclareFunction,
        spec_directive_target(ds[i]) == spec_directive_target(ds[j]),
    ensures
        spec_declare_jobs(ds) matches Err(GenErrorView::DuplicateDeclaration(_)),
    decreases ds.len(),
{
    if j == ds.len() - 1 {
        match spec_declare_jobs(ds.drop_last()) {
            Err(_) => {
                lemma_declare_err_is_dup(ds.drop_last());
            },
            Ok(jobs0) => {
                lemma_declare_jobs_names(ds.drop_last());
                assert(ds.drop_last()[i] == ds[i]);
                lemma_declared_names_contain(ds.drop_last(), i);
                let t = spec_directive_target(ds[i]);
                let ns = spec_job_names(jobs0);
                let w = choose|w: int| 0 <= w < ns.len() && ns[w] == t;
                assert(jobs0[w].name == t);
                lemma_find_job_props(jobs0, t);
                assert(spec_find_job(jobs0, t) != -1);
            },
        }
    } else {
        assert(ds.drop_last()[i] == ds[i]);
        assert(ds.drop_last()[j] == ds[j]);
        lemma_declare_dup_err(ds.drop_last(), i, j);
    }
}

/// Duplicate declaration rejected: declaring the same function name twice
/// for one record fails the build with a duplicate-declaration error,
/// whatever else the directives hold and wherever the two declarations
/// stand.
pub proof fn lemma_duplicate_declaration_rejected(
    ds: Seq<RecordDirectiveView>,
    fields: Seq<ParsedFieldView>,
    i: int,
    j: int,
)
    requires
        0 <= i < j < ds.len(),
        ds[i] is DeclareFunction,
        ds[j] is DeclareFunction,
        spec_directive_target(ds[i]) == spec_directive_target(ds[j]),
    ensures
        spec_build_jobs(ds, fields) matches Err(GenErrorView::DuplicateDeclaration(_)),
{
    lemma_declare_dup_err(ds, i, j);
}

/// A successful bound pass leaves every job's name as it was.
proof fn lemma_bounds_preserve_names(jobs: Seq<VisitorJobView>, ds: Seq<RecordDirectiveView>)
    ensures
        spec_apply_bounds(jobs, ds) matches Ok(js) ==> spec_job_names(js) == spec_job_names(
            jobs,
        ),
    decreases ds.len(),
{
    if ds.len() > 0 {
        lemma_bounds_preserve_names(jobs, ds.drop_last());
        match spec_apply_bounds(jobs, ds.drop_last()) {
            Err(_) => {},
            Ok(js0) => {
                match ds.last() {
                    RecordDirectiveView::AddBound { function_name, predicate } => {
                        let k = spec_find_job(js0, function_name);
                        if k != -1 {
                            lemma_find_job_props(js0, function_name);
                            assert(spec_job_names(
                                js0.update(k, spec_with_constraint(js0[k], predicate)),
                            ) =~= spec_job_names(js0));
                        }
                    },
                    RecordDirectiveView::DeclareFunction { .. } => {},
                }
            },
        }
    }
}

/// A field whose directives all target declared names passes the exclusion
/// stage and leaves every job's name as it was.
proof fn lemma_apply_field_ok(
    jobs: Seq<VisitorJobView>,
    fname: Seq<char>,
    ds: Seq<FieldDirectiveView>,
)
    requires
        spec_field_refs_ok(spec_job_names(jobs), ds),
    ensures
        spec_apply_field(jobs, fname, ds) is Ok,
        spec_job_names(spec_ok_jobs(spec_apply_field(jobs, fname, ds))) == spec_job_names(jobs),
    decreases ds.len(),
{
    if ds.len() > 0 {
        assert(forall|d: int| 0 <= d < ds.len() - 1 ==> ds.drop_last()[d] == ds[d]);
        lemma_apply_field_ok(jobs, fname, ds.drop_last());
        let js0 = spec_ok_jobs(spec_apply_field(jobs, fname, ds.drop_last()));
        let t = spec_exclude_target(ds.last());
        assert(spec_job_names(jobs).contains(t));
        let ns = spec_job_names(js0);
        let w = choose|w: int| 0 <= w < ns.len() && ns[w] == t;
        assert(js0[w].name == t);
        lemma_find_job_props(js0, t);
        let k = spec_find_job(js0, t);
        assert(k != -1);
        assert(spec_job_names(js0.update(k, spec_with_exclusion(js0[k], fname))) =~= ns);
    }
}

/// When every directive before position `di` of one field's list resolves
/// and the directive at `di` targets the undeclared name `g`, the field
/// fails with an unknown-function-reference error naming `g`.
proof fn lemma_apply_field_first_err(
    jobs: Seq<VisitorJobView>,
    fname: Seq<char>,
    ds: Seq<FieldDirectiveView>,
    di: int,
    g: Seq<char>,
)
    requires
        0 <= di < ds.len(),
        forall|d: int|
            0 <= d < di ==> spec_job_names(jobs).contains(spec_exclude_target(#[trigger] ds[d])),
        spec_exclude_target(ds[di]) == g,
        !spec_job_names(jobs).contains(g),
    ensures
        spec_apply_field(jobs, fname, ds) == Err::<Seq<VisitorJobView>, GenErrorView>(
            GenErrorView::UnknownFunctionReference(g),
        ),
{
    assert(forall|d: int| 0 <= d < di ==> ds.take(di)[d] == ds[d]);
    lemma_apply_field_ok(jobs, fname, ds.take(di));
    let js0 = spec_ok_jobs(spec_apply_field(jobs, fname, ds.take(di)));
    assert forall|w: int| 0 <= w < js0.len() implies js0[w].name != g by {
        assert(spec_job_names(js0)[w] == js0[w].name);
        assert(spec_job_names(jobs)[w] == spec_job_names(js0)[w]);
    }
    lemma_find_job_no_match(js0, g);
    assert(ds.take(di + 1).drop_last() =~= ds.take(di));
    assert(ds.take(di + 1).last() == ds[di]);
    assert(spec_apply_field(jobs, fname, ds.take(di + 1)) == Err::<
        Seq<VisitorJobView>,
        GenErrorView,
    >(GenErrorView::UnknownFunctionReference(g)));
    lemma_field_dirs_err_prefix(jobs, fname, ds, di + 1);
}

/// Fields whose directives all target declared names pass the exclusion
/// stage and leave every job's name as it was.
proof fn lemma_apply_excludes_ok(jobs: Seq<VisitorJobView>, fields: Seq<ParsedFieldView>)
    requires
        forall|f: int|
            0 <= f < fields.len() ==> spec_field_refs_ok(
                spec_job_names(jobs),
                (#[trigger] fields[f]).directives,
            ),
    ensures
        spec_apply_excludes(jobs, fields) is Ok,
        spec_job_names(spec_ok_jobs(spec_apply_excludes(jobs, fields))) == spec_job_names(jobs),
    decreases fields.len(),
{
    if fields.len() > 0 {
        assert(forall|f: int| 0 <= f < fields.len() - 1 ==> fields.drop_last()[f] == fields[f]);
        lemma_apply_excludes_ok(jobs, fields.drop_last());
        let js0 = spec_ok_jobs(spec_apply_excludes(jobs, fields.drop_last()));
        assert forall|d: int|
            0 <= d < fields.last().directives.len() implies spec_job_names(js0).contains(
            spec_exclude_target(#[trigger] fields.last().directives[d]),
        ) by {
            assert(fields[fields.len() - 1] == fields.last());
        }
        lemma_apply_field_ok(js0, fields.last().name, fields.last().directives);
    }
}

/// Unknown reference rejected: a field directive that excludes a field from
/// a function that was never declared fails the build with an
/// unknown-function-reference error naming that function, provided every
/// directive scanned before it resolves.
pub proof fn lemma_unknown_reference_rejected(
    ds: Seq<RecordDirectiveView>,
    fields: Seq<ParsedFieldView>,
    fi: int,
    di: int,
    g: Seq<char>,
)
    requires
        spec_declare_jobs(ds) is Ok,
        spec_apply_bounds(spec_ok_jobs(spec_declare_jobs(ds)), ds) is Ok,
        0 <= fi < fields.len(),
        0 <= di < fields[fi].directives.len(),
        spec_exclude_target(fields[fi].directives[di]) == g,
        !spec_declared_names(ds).contains(g),
        forall|f: int|
            0 <= f < fi ==> spec_field_refs_ok(
                spec_declared_names(ds),
                (#[trigger] fields[f]).directives,
            ),
        forall|d: int|
            0 <= d < di ==> spec_declared_names(ds).contains(
                spec_exclude_target(#[trigger] fields[fi].directives[d]),
            ),
    ensures
        spec_build_jobs(ds, fields) == Err::<Seq<VisitorJobView>, GenErrorView>(
            GenErrorView::UnknownFunctionReference(g),
        ),
{
    let jobs0 = spec_ok_jobs(spec_declare_jobs(ds));
    lemma_declare_jobs_names(ds);
    let jobs1 = spec_ok_jobs(spec_apply_bounds(jobs0, ds));
    lemma_bounds_preserve_names(jobs0, ds);
    assert(spec_job_names(jobs1) == spec_declared_names(ds));
    assert(forall|f: int| 0 <= f < fi ==> fields.take(fi)[f] == fields[f]);
    lemma_apply_excludes_ok(jobs1, fields.take(fi));
    let js2 = spec_ok_jobs(spec_apply_excludes(jobs1, fields.take(fi)));
    assert(spec_job_names(js2) == spec_declared_names(ds));
    lemma_apply_field_first_err(js2, fields[fi].name, fields[fi].directives, di, g);
    assert(fields.take(fi + 1).drop_last() =~= fields.take(fi));
    assert(fields.take(fi + 1).last() == fields[fi]);
    assert(spec_apply_excludes(jobs1, fields.take(fi + 1)) == Err::<
        Seq<VisitorJobView>,
        GenErrorView,
    >(GenErrorView::UnknownFunctionReference(g)));
    lemma_excludes_err_prefix(jobs1, fields, fi + 1);
}

/// Finds the first job named `name`.
fn find_job(jobs: &Vec<VisitorJob>, name: &String) -> (r: Option<usize>)
    ensures
        match r {
            Option::Some(k) => k < jobs.len() && spec_find_job(job_views(jobs@), name@) == k as int,
            Option::None => spec_find_job(job_views(jobs@), name@) == -1,
        },
{
    let mut i: usize = 0;
    while i < jobs.len()
        invariant
            0 <= i <= jobs.len(),
            forall|j: int| 0 <= j < i ==> job_views(jobs@)[j].name != name@,
        decreases jobs.len() - i,
    {
        if jobs[i].name.eq(name) {
            proof {
                lemma_find_job_first_match(job_views(jobs@), name@, i as int);
            }
            return Option::Some(i);
        }
        i += 1;
    }
    proof {
        lemma_find_job_no_match(job_views(jobs@), name@);
    }
    Option::None
}

/// Builds the job model from the validated record directives and the parsed
/// field list.
///
/// Each declaration yields a fresh job, in declaration order; a duplicate
/// name fails with [`GenError::DuplicateDeclaration`]. Each bound and each
/// field exclusion is resolved against the declared jobs; a target that was
/// never declared fails with [`GenError::UnknownFunctionReference`] carrying
/// the name. The first error in scan order aborts the build.
pub fn build_jobs(directives: &Vec<RecordDirective>, fields: &Vec<ParsedField>) -> (r: Result<
    VisitorJobSet,
    GenError,
>)
    ensures
        match r {
            Ok(set) => spec_build_jobs(
                directives@.map_values(|d: RecordDirective| d@),
                parsed_field_views(fields@),
            ) == Ok::<_, GenErrorView>(job_views(set.jobs@)),
            Err(e) => spec_build_jobs(
                directives@.map_values(|d: RecordDirective| d@),
                parsed_field_views(fields@),
            ) == Err::<Seq<VisitorJobView>, _>(e@),
        },
{
    let ghost dsv = directives@.map_values(|d: RecordDirective| d@);
    let mut jobs: Vec<VisitorJob> = Vec::new();
    proof {
        assert(dsv.take(0) =~= Seq::<RecordDirectiveView>::empty());
        assert(job_views(jobs@) =~= Seq::<VisitorJobView>::empty());
    }
    // Declaration pass: accumulate one fresh job per declared function.
    let mut i: usize = 0;
    while i < directives.len()
        invariant
            0 <= i <= directives.len(),
            dsv == directives@.map_values(|d: RecordDirective| d@),
            dsv.len() == directives@.len(),
            spec_declare_jobs(dsv.take(i as int)) == Ok::<_, GenErrorView>(job_views(jobs@)),
        decreases directives.len() - i,
    {
        assert(dsv.take(i + 1).drop_last() =~= dsv.take(i as int));
        assert(dsv.take(i + 1).last() == dsv[i as int]);
        match &directives[i] {
            RecordDirective::DeclareFunction { name, value_capability_type, mode } => {
                match find_job(&jobs, name) {
                    Option::Some(_) => {
                        let e = GenError::DuplicateDeclaration(name.clone());
                        proof {
                            lemma_declare_err_prefix(dsv, i + 1);
                        }
                        return Err(e);
                    },
                    Option::None => {
                        let job = VisitorJob {
                            name: name.clone(),
                            value_capability_type: value_capability_type.clone(),
                            is_mutable: matches!(mode, crate::meta::AccessMode::Mutable),
                            excluded_fields: Vec::new(),
                            extra_constraints: Vec::new(),
                        };
                        let ghost prev = jobs@;
                        let ghost jv = job@;
                        jobs.push(job);
                        proof {
                            assert(jv.excluded_fields =~= Seq::<Seq<char>>::empty());
                            assert(jv.extra_constraints =~= Seq::<Seq<char>>::empty());
                            assert(job_views(jobs@) =~= job_views(prev).push(jv));
                        }
                    },
                }
            },
            RecordDirective::AddBound { .. } => {},
        }
        i += 1;
    }
    assert(dsv.take(dsv.len() as int) =~= dsv);
    let ghost declared = job_views(jobs@);
    // Bound pass: append each constraint to its target job.
    proof {
        assert(dsv.take(0) =~= Seq::<RecordDirectiveView>::empty());
    }
    let mut i: usize = 0;
    while i < directives.len()
        invariant
            0 <= i <= directives.len(),
            dsv == directives@.map_values(|d: RecordDirective| d@),
            dsv.len() == directives@.len(),
            spec_declare_jobs(dsv) == Ok::<_, GenErrorView>(declared),
            spec_apply_bounds(declared, dsv.take(i as int)) == Ok::<_, GenErrorView>(
                job_views(jobs@),
            ),
        decreases directives.len() - i,
    {
        assert(dsv.take(i + 1).drop_last() =~= dsv.take(i as int));
        assert(dsv.take(i + 1).last() == dsv[i as int]);
        match &directives[i] {
            RecordDirective::AddBound { function_name, predicate } => {
                match find_job(&jobs, function_name) {
                    Option::None => {
                        let e = GenError::UnknownFunctionReference(function_name.clone());
                        proof {
                            lemma_bounds_err_prefix(declared, dsv, i + 1);
                        }
                        return Err(e);
                    },
                    Option::Some(k) => {
                        let ghost prev = jobs@;
                        let ghost pv = predicate@;
                        jobs[k].extra_constraints.push(predicate.clone());
                        proof {
                            assert(job_views(jobs@) =~~= job_views(prev).update(
                                k as int,
                                spec_with_constraint(job_views(prev)[k as int], pv),
                            ));
                        }
                    },
                }
            },
            RecordDirective::DeclareFunction { .. } => {},
        }
        i += 1;
    }
    assert(dsv.take(dsv.len() as int) =~= dsv);
    let ghost bounded = job_views(jobs@);
    let ghost fsv = parsed_field_views(fields@);
    // Exclusion pass: insert each field into the jobs it is excluded from.
    proof {
        assert(fsv.take(0) =~= Seq::<ParsedFieldView>::empty());
    }
    let mut i: usize = 0;
    while i < fields.len()
        invariant
            0 <= i <= fields.len(),
            dsv == directives@.map_values(|d: RecordDirective| d@),
            fsv == parsed_field_views(fields@),
            fsv.len() == fields@.len(),
            spec_declare_jobs(dsv) == Ok::<_, GenErrorView>(declared),
            spec_apply_bounds(declared, dsv) == Ok::<_, GenErrorView>(bounded),
            spec_apply_excludes(bounded, fsv.take(i as int)) == Ok::<_, GenErrorView>(
                job_views(jobs@),
            ),
        decreases fields.len() - i,
    {
        assert(fsv.take(i + 1).drop_last() =~= fsv.take(i as int));
        assert(fsv.take(i + 1).last() == fsv[i as int]);
        let ghost entry = job_views(jobs@);
        let ghost fdv = fsv[i as int].directives;
        proof {
            assert(fdv.take(0) =~= Seq::<FieldDirectiveView>::empty());
        }
        let field_dir_count: usize = fields[i].directives.len();
        let mut d: usize = 0;
        while d < field_dir_count
            invariant
                0 <= d <= field_dir_count,
                0 <= i < fields.len(),
                dsv == directives@.map_values(|dir: RecordDirective| dir@),
                fsv == parsed_field_views(fields@),
                fsv.len() == fields@.len(),
                field_dir_count == fields@[i as int].directives.len(),
                fdv == fsv[i as int].directives,
                fdv.len() == field_dir_count,
                spec_declare_jobs(dsv) == Ok::<_, GenErrorView>(declared),
                spec_apply_bounds(declared, dsv) == Ok::<_, GenErrorView>(bounded),
                spec_apply_excludes(bounded, fsv.take(i as int)) == Ok::<_, GenErrorView>(entry),
                spec_apply_field(entry, fsv[i as int].name, fdv.take(d as int)) == Ok::<
                    _,
                    GenErrorView,
                >(job_views(jobs@)),
            decreases field_dir_count - d,
        {
            assert(fdv.take(d + 1).drop_last() =~= fdv.take(d as int));
            assert(fdv.take(d + 1).last() == fdv[d as int]);
            let field_name = fields[i].name.clone();
            match &fields[i].directives[d] {
                FieldDirective::ExcludeFrom { function_name } => {
                    match find_job(&jobs, function_name) {
                        Option::None => {
                            let e = GenError::UnknownFunctionReference(function_name.clone());
                            proof {
                                lemma_field_dirs_err_prefix(
                                    entry,
                                    fsv[i as int].name,
                                    fdv,
                                    d + 1,
                                );
                                assert(fsv.take(i + 1).drop_last() =~= fsv.take(i as int));
                                assert(fsv.take(i + 1).last() == fsv[i as int]);
                                lemma_excludes_err_prefix(bounded, fsv, i + 1);
                            }
                            return Err(e);
                        },
                        Option::Some(k) => {
                            let ghost prev = jobs@;
                            let ghost fnv = field_name@;
                            if !contains_name(&jobs[k].excluded_fields, &field_name) {
                                jobs[k].excluded_fields.push(field_name);
                                proof {
                                    assert(job_views(jobs@) =~~= job_views(prev).update(
                                        k as int,
                                        spec_with_exclusion(job_views(prev)[k as int], fnv),
                                    ));
                                }
                            } else {
                                proof {
                                    assert(job_views(jobs@) =~~= job_views(prev).update(
                                        k as int,
                                        spec_with_exclusion(job_views(prev)[k as int], fnv),
                                    ));
                                }
                            }
                        },
                    }
                },
            }
            d += 1;
        }
        proof {
            assert(fdv.take(fdv.len() as int) =~= fdv);
        }
        i += 1;
    }
    assert(fsv.take(fsv.len() as int) =~= fsv);
    Ok(VisitorJobSet { jobs })
}

} // verus!
