//! The model of the host-language items the attachment pass rewrites.
//!
//! An annotated function is handed over as its textual parts, already split:
//! attribute lines, visibility, qualifiers (`async`, `const`, `unsafe`),
//! name, generics, parameter list, declared return type, where clause and
//! body statements. The attachment pass rewrites the return type and
//! prepends dispatch plumbing to the body; everything else passes through.

use vstd::prelude::*;

verus! {

/// One function or method, split into its textual parts.
#[derive(Debug, Clone)]
pub struct FnItem {
    /// Attribute lines, each rendered as written, the marking attribute
    /// already removed.
    pub attrs: Vec<String>,
    /// The visibility text (`"pub"`, `"pub(crate)"`, or empty).
    pub vis: String,
    /// Qualifier text ending in a space when nonempty (`"async "`).
    pub qualifiers: String,
    pub name: String,
    /// The generics text, brackets included, or empty.
    pub generics: String,
    /// The parameter list text, parentheses not included.
    pub params: String,
    /// The declared success type text; `None` when the function returns unit.
    pub ret: Option<String>,
    /// The where clause text, `where` keyword included, or empty.
    pub where_clause: String,
    /// The body statements text, outer braces not included.
    pub body: String,
}

/// The mathematical form of a function item.
pub struct SpecFnItem {
    pub attrs: Seq<Seq<char>>,
    pub vis: Seq<char>,
    pub qualifiers: Seq<char>,
    pub name: Seq<char>,
    pub generics: Seq<char>,
    pub params: Seq<char>,
    pub ret: Option<Seq<char>>,
    pub where_clause: Seq<char>,
    pub body: Seq<char>,
}

impl View for FnItem {
    type V = SpecFnItem;

    open spec fn view(&self) -> SpecFnItem {
        SpecFnItem {
            attrs: self.attrs@.map_values(|a: String| a@),
            vis: self.vis@,
            qualifiers: self.qualifiers@,
            name: self.name@,
            generics: self.generics@,
            params: self.params@,
            ret: match self.ret {
                Some(t) => Some(t@),
                None => None,
            },
            where_clause: self.where_clause@,
            body: self.body@,
        }
    }
}

/// One item of an annotated impl block.
#[derive(Debug)]
pub enum ImplMember {
    /// A method; `attr_args` holds the marking attribute's argument text
    /// when the method is marked.
    Method { item: FnItem, attr_args: Option<String> },
    /// Any other item, passed through as written.
    Other(String),
}

} // verus!
