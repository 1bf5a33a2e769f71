//! The structured form of the error mini-language.
//!
//! An attribute's argument list is parsed into these types: own error
//! declarations, inherited blocks that re-export or intercept another set's
//! variants, and the standalone ("fledged") form.

use vstd::prelude::*;

verus! {

/// A visibility marker on a set, a variant or a field.
#[derive(Debug, Clone, Copy, PartialEq, Eq, Structural)]
pub enum Vis {
    /// No marker: the item inherits the visibility of its context.
    Default,
    /// `pub`
    Public,
    /// `pub(crate)`
    PubCrate,
    /// `pub(super)`
    PubSuper,
}

/// The cause a variant stores, selected by the bracket form after its name.
#[derive(Debug, Clone)]
pub enum SourceKind {
    /// No brackets: the variant has no cause.
    NoSource,
    /// `<Type>`: a cause of one concrete type that itself is an error.
    Typed(String),
    /// `<>`: a boxed cause known only to be an error.
    DynError,
    /// `<<Type>>`: a cause of one concrete type that is only printable,
    /// stored in a raw-value wrapper.
    BoxedDebug(String),
    /// `<<>>`: a boxed cause known only to be printable,
    /// stored in a raw-value wrapper.
    DynDebug,
}

/// One declared field of a variant's context structure.
#[derive(Debug, Clone)]
pub struct Field {
    pub vis: Vis,
    pub name: String,
    pub ty: String,
}

/// One declared error variant.
#[derive(Debug, Clone)]
pub struct OwnError {
    /// A visibility override; `None` keeps the enclosing set's visibility.
    pub vis: Option<Vis>,
    pub name: String,
    /// The declared context fields; `None` when no brace group was written.
    pub fields: Option<Vec<Field>>,
    pub source: SourceKind,
    /// The display message template, stored as the literal's inner text.
    pub msg: Option<String>,
}

/// A `handled` marker: one name or a brace group of names.
#[derive(Debug, Clone)]
pub struct HandledError {
    pub names: Vec<String>,
}

/// One item of an inherited block.
#[derive(Debug, Clone)]
pub enum InheritedErrorDef {
    /// A redeclared variant carried through unchanged (fields forbidden).
    Unhandled(OwnError),
    /// Variants of the source set that the current function intercepts.
    Handled(HandledError),
}

/// `from SourceSet { ... }`: a reference to another set's variants.
#[derive(Debug, Clone)]
pub struct InheritedErrors {
    pub source: String,
    pub errors: Vec<InheritedErrorDef>,
}

/// One entry of a function's error declaration list.
#[derive(Debug, Clone)]
pub enum ErrorDef {
    Own(OwnError),
    Inherited(InheritedErrors),
}

/// The argument list of a per-function error declaration.
#[derive(Debug, Clone)]
pub struct SmartErrors {
    pub errors: Vec<ErrorDef>,
}

/// A standalone set: name, visibility and own declarations only.
#[derive(Debug, Clone)]
pub struct FledgedError {
    pub vis: Vis,
    pub name: String,
    pub definition: Vec<OwnError>,
}

/// A module name with a visibility, as given to the module-hoisting pass.
#[derive(Debug, Clone)]
pub struct ErrorNs {
    pub vis: Vis,
    pub name: String,
}

/// The mathematical form of a source kind.
pub enum SpecSource {
    NoSource,
    Typed(Seq<char>),
    DynError,
    BoxedDebug(Seq<char>),
    DynDebug,
}

/// The mathematical form of a field.
pub struct SpecField {
    pub vis: Vis,
    pub name: Seq<char>,
    pub ty: Seq<char>,
}

/// The mathematical form of an own declaration.
pub struct SpecOwn {
    pub vis: Option<Vis>,
    pub name: Seq<char>,
    pub fields: Option<Seq<SpecField>>,
    pub source: SpecSource,
    pub msg: Option<Seq<char>>,
}

/// The mathematical form of an inherited block's item.
pub enum SpecInhDef {
    Unhandled(SpecOwn),
    Handled(Seq<Seq<char>>),
}

/// The mathematical form of an inherited block.
pub struct SpecInh {
    pub source: Seq<char>,
    pub errors: Seq<SpecInhDef>,
}

/// The mathematical form of a definition list entry.
pub enum SpecDef {
    Own(SpecOwn),
    Inherited(SpecInh),
}

/// The mathematical form of a standalone set.
pub struct SpecFledged {
    pub vis: Vis,
    pub name: Seq<char>,
    pub definition: Seq<SpecOwn>,
}

/// The mathematical form of a module name with a visibility.
pub struct SpecNs {
    pub vis: Vis,
    pub name: Seq<char>,
}

impl View for SourceKind {
    type V = SpecSource;

    open spec fn view(&self) -> SpecSource {
        match self {
            SourceKind::NoSource => SpecSource::NoSource,
            SourceKind::Typed(t) => SpecSource::Typed(t@),
            SourceKind::DynError => SpecSource::DynError,
            SourceKind::BoxedDebug(t) => SpecSource::BoxedDebug(t@),
            SourceKind::DynDebug => SpecSource::DynDebug,
        }
    }
}

impl View for Field {
    type V = SpecField;

    open spec fn view(&self) -> SpecField {
        SpecField { vis: self.vis, name: self.name@, ty: self.ty@ }
    }
}

impl View for OwnError {
    type V = SpecOwn;

    open spec fn view(&self) -> SpecOwn {
        SpecOwn {
            vis: self.vis,
            name: self.name@,
            fields: match self.fields {
                Some(fs) => Some(fs@.map_values(|f: Field| f@)),
                None => None,
            },
            source: self.source@,
            msg: match self.msg {
                Some(m) => Some(m@),
                None => None,
            },
        }
    }
}

impl View for InheritedErrorDef {
    type V = SpecInhDef;

    open spec fn view(&self) -> SpecInhDef {
        match self {
            InheritedErrorDef::Unhandled(ue) => SpecInhDef::Unhandled(ue@),
            InheritedErrorDef::Handled(he) => SpecInhDef::Handled(
                he.names@.map_values(|n: String| n@),
            ),
        }
    }
}

impl View for InheritedErrors {
    type V = SpecInh;

    open spec fn view(&self) -> SpecInh {
        SpecInh {
            source: self.source@,
            errors: self.errors@.map_values(|d: InheritedErrorDef| d@),
        }
    }
}

impl View for ErrorDef {
    type V = SpecDef;

    open spec fn view(&self) -> SpecDef {
        match self {
            ErrorDef::Own(oe) => SpecDef::Own(oe@),
            ErrorDef::Inherited(ie) => SpecDef::Inherited(ie@),
        }
    }
}

impl View for SmartErrors {
    type V = Seq<SpecDef>;

    open spec fn view(&self) -> Seq<SpecDef> {
        self.errors@.map_values(|d: ErrorDef| d@)
    }
}

impl View for FledgedError {
    type V = SpecFledged;

    open spec fn view(&self) -> SpecFledged {
        SpecFledged {
            vis: self.vis,
            name: self.name@,
            definition: self.definition@.map_values(|oe: OwnError| oe@),
        }
    }
}

impl View for ErrorNs {
    type V = SpecNs;

    open spec fn view(&self) -> SpecNs {
        SpecNs { vis: self.vis, name: self.name@ }
    }
}

impl SourceKind {
    /// Whether the variant stores any cause value.
    pub open spec fn spec_has_source(&self) -> bool {
        !(self is NoSource)
    }

    /// Whether the stored cause is exposed through the cause accessor.
    /// Debug-only causes are stored for display but never exposed as a cause.
    pub open spec fn spec_exposes_cause(&self) -> bool {
        self is Typed || self is DynError
    }

    pub fn has_source(&self) -> (r: bool)
        ensures
            r == self.spec_has_source(),
    {
        !matches!(self, SourceKind::NoSource)
    }

    pub fn exposes_cause(&self) -> (r: bool)
        ensures
            r == self.spec_exposes_cause(),
    {
        matches!(self, SourceKind::Typed(_) | SourceKind::DynError)
    }
}

/// The names of a handled marker, as character sequences.
pub open spec fn handled_names(h: HandledError) -> Seq<Seq<char>> {
    h.names@.map_values(|n: String| n@)
}

/// All variant names an error definition list declares, own and inherited
/// alike, handled markers included, in declaration order.
pub open spec fn declared_names(defs: Seq<ErrorDef>) -> Seq<Seq<char>>
    decreases defs.len(),
{
    if defs.len() == 0 {
        Seq::empty()
    } else {
        head_names(defs[0]) + declared_names(defs.drop_first())
    }
}

/// The names one entry contributes, in order.
pub open spec fn head_names(def: ErrorDef) -> Seq<Seq<char>> {
    match def {
        ErrorDef::Own(oe) => seq![oe.name@],
        ErrorDef::Inherited(ie) => inherited_names(ie.errors@),
    }
}

/// The names an inherited block's items contribute, in order.
pub open spec fn inherited_names(items: Seq<InheritedErrorDef>) -> Seq<Seq<char>>
    decreases items.len(),
{
    if items.len() == 0 {
        Seq::empty()
    } else {
        (match items[0] {
            InheritedErrorDef::Unhandled(ue) => seq![ue.name@],
            InheritedErrorDef::Handled(he) => handled_names(he),
        }) + inherited_names(items.drop_first())
    }
}

} // verus!
