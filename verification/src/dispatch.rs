//! The runtime behaviour of the code emitted for one annotated function:
//! pass-through conversion of inherited variants, dispatch of handled
//! variants to a caller-supplied mapping, and the per-variant cause accessor
//! and display text.
//!
//! Generated code is source text; these functions state, over the resolved
//! model, exactly what that text does with an error value at run time.

use vstd::prelude::*;

use crate::ast::SourceKind;
use crate::render::{spec_ctx_text, spec_variant_text};
use crate::resolve::{contains_name, ResolvedBlock};

verus! {

/// A value of an emitted union: the case name and the wrapped payload.
#[derive(Debug)]
pub struct UnionValue<P> {
    pub variant: String,
    pub payload: P,
}

/// Whether a name list holds the given name, decided exactly.
pub fn names_contain(names: &Vec<String>, n: &str) -> (r: bool)
    ensures
        r == contains_name(names@, n@),
{
    let mut i: usize = 0;
    while i < names.len()
        invariant
            i <= names@.len(),
            forall|k: int| 0 <= k < i ==> names@[k]@ != n@,
        decreases names@.len() - i,
    {
        if crate::text::str_eq(names[i].as_str(), n) {
            return true;
        }
        i = i + 1;
    }
    false
}

/// The direct conversion a block without handled entries contributes: a
/// source union value whose case the block redeclares converts losslessly,
/// same case name, same payload; any other case has no conversion arm.
pub fn pass_through<P>(block: &ResolvedBlock, e: UnionValue<P>) -> (r: Option<UnionValue<P>>)
    ensures
        contains_name(block.unhandled@, e.variant@) ==> r == Some(e),
        !contains_name(block.unhandled@, e.variant@) ==> r is None,
{
    if names_contain(&block.unhandled, e.variant.as_str()) {
        Some(e)
    } else {
        None
    }
}

/// The dispatch a block with handled entries injects at the call site.
///
/// A success passes through unchanged. An error whose case the block
/// redeclares is rethrown verbatim. An error whose case is handled goes to
/// the caller-supplied mapping, and that mapping's result becomes the
/// caller's result for the branch; the `requires` clause is the caller's
/// obligation to supply a mapping for every handled case. A case the block
/// does not name at all has no match arm: the result is `None`, as the
/// generated match would not compile.
pub fn handle<T, P, F: FnOnce(UnionValue<P>) -> Result<T, UnionValue<P>>>(
    block: &ResolvedBlock,
    r: Result<T, UnionValue<P>>,
    handler: F,
) -> (out: Option<Result<T, UnionValue<P>>>)
    requires
        (r is Err && !contains_name(block.unhandled@, r->Err_0.variant@) && contains_name(
            block.handled@,
            r->Err_0.variant@,
        )) ==> call_requires(handler, (r->Err_0,)),
    ensures
        r is Ok ==> out == Some(Result::<T, UnionValue<P>>::Ok(r->Ok_0)),
        (r is Err && contains_name(block.unhandled@, r->Err_0.variant@)) ==> out == Some(
            Result::<T, UnionValue<P>>::Err(r->Err_0),
        ),
        (r is Err && !contains_name(block.unhandled@, r->Err_0.variant@) && contains_name(
            block.handled@,
            r->Err_0.variant@,
        )) ==> out is Some && call_ensures(handler, (r->Err_0,), out->0),
        out is None <==> (r is Err && !contains_name(block.unhandled@, r->Err_0.variant@)
            && !contains_name(block.handled@, r->Err_0.variant@)),
{
    match r {
        Ok(v) => Some(Ok(v)),
        Err(e) => {
            if names_contain(&block.unhandled, e.variant.as_str()) {
                Some(Err(e))
            } else if names_contain(&block.handled, e.variant.as_str()) {
                Some(handler(e))
            } else {
                None
            }
        },
    }
}

/// One generated wrapper value, reduced to what its accessors read: the
/// declared source kind, the debug text of its context structure, the
/// context structure's type name, the default message, and the rendered text
/// of the stored cause, when one is stored.
#[derive(Debug)]
pub struct VariantValue {
    pub kind: SourceKind,
    pub msg: String,
    pub ctx_debug: String,
    pub ctx_name: String,
    pub source_text: Option<String>,
}

/// What the generated cause accessor yields: the stored cause, but only for
/// source kinds that expose it; debug-only causes are never exposed.
pub open spec fn spec_cause(v: VariantValue) -> Option<Seq<char>> {
    if v.kind.spec_exposes_cause() && v.source_text is Some {
        Some(v.source_text->0@)
    } else {
        None
    }
}

/// What the generated display code prints: message, prepared context text,
/// and the stored cause's text whenever one is stored, whatever its kind.
pub open spec fn spec_display(v: VariantValue) -> Seq<char> {
    spec_variant_text(v.msg@, spec_ctx_text(v.ctx_debug@, v.ctx_name@), match v.source_text {
        Some(s) => Some(s@),
        None => None,
    })
}

impl VariantValue {
    /// The cause accessor of the generated wrapper.
    pub fn cause(&self) -> (r: Option<&String>)
        ensures
            match r {
                Some(c) => spec_cause(*self) == Some(c@),
                None => spec_cause(*self) is None,
            },
    {
        if self.kind.exposes_cause() {
            match &self.source_text {
                Some(c) => Some(c),
                None => None,
            }
        } else {
            None
        }
    }

    /// The display text of the generated wrapper.
    pub fn display_text(&self) -> (r: String)
        ensures
            r@ == spec_display(*self),
    {
        let prepared = crate::render::ctx_text(self.ctx_debug.as_str(), self.ctx_name.as_str());
        match &self.source_text {
            Some(c) => crate::render::variant_text(
                self.msg.as_str(),
                prepared.as_str(),
                Some(c.as_str()),
            ),
            None => crate::render::variant_text(self.msg.as_str(), prepared.as_str(), None),
        }
    }
}

} // verus!
