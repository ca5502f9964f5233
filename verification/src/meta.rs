//! The data model of a generation pass: raw directive payloads as the
//! attribute-syntax front end hands them over, the validated directives the
//! parser produces from them, the record description that carries both, and
//! the structural errors every stage can fail with.

use vstd::prelude::*;

verus! {

/// One raw directive entry, in the shape the front end supplies: a name-value
/// pair (`name = "value"`), a named nested list (`name(item, ...)`), or a
/// bare name.
#[derive(Debug)]
pub enum RawMeta {
    NameValue { name: String, value: String },
    List { name: String, items: Vec<RawMeta> },
    Word { name: String },
}

impl RawMeta {
    /// The name that heads this entry, whatever its shape.
    pub open spec fn spec_name(&self) -> Seq<char> {
        match self {
            RawMeta::NameValue { name, .. } => name@,
            RawMeta::List { name, .. } => name@,
            RawMeta::Word { name } => name@,
        }
    }
}

/// One field of a record: its identifier and its raw field-level directives.
#[derive(Debug)]
pub struct FieldEntry {
    pub name: String,
    pub directives: Vec<RawMeta>,
}

/// The abstract value of a [`FieldEntry`]. The raw directives stay as they
/// are: their meaning is given by the parser's specification.
pub struct FieldEntryView {
    pub name: Seq<char>,
    pub directives: Seq<RawMeta>,
}

impl View for FieldEntry {
    type V = FieldEntryView;

    open spec fn view(&self) -> FieldEntryView {
        FieldEntryView { name: self.name@, directives: self.directives@ }
    }
}

/// The input to one generation pass: the record type's identity, its
/// record-level directives, and its ordered field list. Field order is
/// significant and is preserved verbatim into every emitted dispatcher.
#[derive(Debug)]
pub struct RecordDescription {
    pub name: String,
    /// The record's generic parameter list, verbatim (for example `<T>`), or
    /// `None` when the record takes no generic parameters.
    pub generics: Option<String>,
    pub directives: Vec<RawMeta>,
    pub fields: Vec<FieldEntry>,
}

/// The abstract value of a [`RecordDescription`].
pub struct RecordDescriptionView {
    pub name: Seq<char>,
    pub generics: Option<Seq<char>>,
    pub directives: Seq<RawMeta>,
    pub fields: Seq<FieldEntryView>,
}

impl View for RecordDescription {
    type V = RecordDescriptionView;

    open spec fn view(&self) -> RecordDescriptionView {
        RecordDescriptionView {
            name: self.name@,
            generics: match self.generics {
                Option::Some(g) => Option::Some(g@),
                Option::None => Option::None,
            },
            directives: self.directives@,
            fields: self.fields@.map_values(|f: FieldEntry| f@),
        }
    }
}

/// How a requested visitor function accesses the record: through a shared or
/// a mutable reference.
#[derive(Clone, Copy, Debug, PartialEq, Eq, Structural)]
pub enum AccessMode {
    ReadOnly,
    Mutable,
}

/// A validated record-level directive.
#[derive(Debug)]
pub enum RecordDirective {
    /// Requests one visitor function. `value_capability_type` is the type
    /// through which the callback observes each field's value.
    DeclareFunction { name: String, value_capability_type: String, mode: AccessMode },
    /// Appends one generic constraint to an already-declared function.
    AddBound { function_name: String, predicate: String },
}

/// The abstract value of a [`RecordDirective`].
pub enum RecordDirectiveView {
    DeclareFunction { name: Seq<char>, value_capability_type: Seq<char>, mutable: bool },
    AddBound { function_name: Seq<char>, predicate: Seq<char> },
}

impl View for RecordDirective {
    type V = RecordDirectiveView;

    open spec fn view(&self) -> RecordDirectiveView {
        match self {
            RecordDirective::DeclareFunction { name, value_capability_type, mode } =>
                RecordDirectiveView::DeclareFunction {
                    name: name@,
                    value_capability_type: value_capability_type@,
                    mutable: *mode is Mutable,
                },
            RecordDirective::AddBound { function_name, predicate } =>
                RecordDirectiveView::AddBound {
                    function_name: function_name@,
                    predicate: predicate@,
                },
        }
    }
}

/// A validated field-level directive.
#[derive(Debug)]
pub enum FieldDirective {
    /// This field must not appear in the body of the named visitor function.
    ExcludeFrom { function_name: String },
}

/// The abstract value of a [`FieldDirective`].
pub enum FieldDirectiveView {
    ExcludeFrom { function_name: Seq<char> },
}

impl View for FieldDirective {
    type V = FieldDirectiveView;

    open spec fn view(&self) -> FieldDirectiveView {
        match self {
            FieldDirective::ExcludeFrom { function_name } =>
                FieldDirectiveView::ExcludeFrom { function_name: function_name@ },
        }
    }
}

/// A structural error. Every error is fatal to the current generation pass
/// and carries the offending name or construct.
#[derive(Debug, PartialEq, Eq)]
pub enum GenError {
    /// A directive payload does not match either recognized grammar shape.
    UnsupportedShape(String),
    /// A directive names a visitor function that was never declared.
    UnknownFunctionReference(String),
    /// The same function name is declared more than once for one record.
    DuplicateDeclaration(String),
    /// A directive value that should be a type or constraint expression is
    /// not structurally well-formed.
    MalformedExpression(String),
}

/// The abstract value of a [`GenError`].
pub enum GenErrorView {
    UnsupportedShape(Seq<char>),
    UnknownFunctionReference(Seq<char>),
    DuplicateDeclaration(Seq<char>),
    MalformedExpression(Seq<char>),
}

impl View for GenError {
    type V = GenErrorView;

    open spec fn view(&self) -> GenErrorView {
        match self {
            GenError::UnsupportedShape(s) => GenErrorView::UnsupportedShape(s@),
            GenError::UnknownFunctionReference(s) => GenErrorView::UnknownFunctionReference(s@),
            GenError::DuplicateDeclaration(s) => GenErrorView::DuplicateDeclaration(s@),
            GenError::MalformedExpression(s) => GenErrorView::MalformedExpression(s@),
        }
    }
}

impl GenError {
    /// The human-readable message that the diagnostics sink surfaces:
    /// a fixed description followed by the offending name or construct.
    pub fn message(&self) -> (r: String)
        ensures
            r@ == self.spec_message(),
    {
        let mut out = String::new();
        match self {
            GenError::UnsupportedShape(s) => {
                out.append("unsupported directive shape: ");
                out.append(s.as_str());
            },
            GenError::UnknownFunctionReference(s) => {
                out.append("not a generated function: ");
                out.append(s.as_str());
            },
            GenError::DuplicateDeclaration(s) => {
                out.append("function declared twice: ");
                out.append(s.as_str());
            },
            GenError::MalformedExpression(s) => {
                out.append("malformed type or constraint expression: ");
                out.append(s.as_str());
            },
        }
        out
    }

    /// The text [`GenError::message`] returns.
    pub open spec fn spec_message(&self) -> Seq<char> {
        match self {
            GenError::UnsupportedShape(s) => "unsupported directive shape: "@ + s@,
            GenError::UnknownFunctionReference(s) => "not a generated function: "@ + s@,
            GenError::DuplicateDeclaration(s) => "function declared twice: "@ + s@,
            GenError::MalformedExpression(s) => "malformed type or constraint expression: "@ + s@,
        }
    }
}

/// Whether two strings hold the same characters.
pub fn str_eq(a: &str, b: &str) -> (r: bool)
    ensures
        r == (a@ == b@),
{
    let owned_a = a.to_owned();
    let owned_b = b.to_owned();
    owned_a.eq(&owned_b)
}

/// The sequence of abstract names of a sequence of strings.
pub open spec fn names_of(s: Seq<String>) -> Seq<Seq<char>> {
    s.map_values(|n: String| n@)
}

/// Whether `v` holds a string whose abstract value is `s`.
pub open spec fn spec_contains_name(v: Seq<String>, s: Seq<char>) -> bool {
    names_of(v).contains(s)
}

/// Whether the list of names `v` holds `s`.
pub fn contains_name(v: &Vec<String>, s: &String) -> (r: bool)
    ensures
        r == spec_contains_name(v@, s@),
{
    let mut i: usize = 0;
    while i < v.len()
        invariant
            0 <= i <= v.len(),
            forall|j: int| 0 <= j < i ==> names_of(v@)[j] != s@,
        decreases v.len() - i,
    {
        if v[i].eq(s) {
            assert(names_of(v@)[i as int] == s@);
            return true;
        }
        i += 1;
    }
    assert(forall|j: int| 0 <= j < names_of(v@).len() ==> names_of(v@)[j] != s@);
    false
}

} // verus!
