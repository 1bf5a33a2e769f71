//! Resolution of an error definition list into the final per-function artifact:
//! the deduplicated ordered union of emitted variants, and, per inherited
//! block, the translation table and the handled sub-union.
//!
//! Names are deduplicated first-wins: a name is recorded as seen the first
//! time it appears, whether as an own declaration, an inherited redeclaration
//! or a handled marker, and every later declaration of it is a silent no-op.

use vstd::prelude::*;

use crate::ast::{ErrorDef, HandledError, InheritedErrorDef, OwnError};

verus! {

/// One case of the emitted union.
#[derive(Debug, Clone)]
pub struct ResolvedVariant {
    /// The winning declaration for this name.
    pub decl: OwnError,
    /// `None` for an own declaration; the source set's name for an inherited
    /// pass-through, whose wrapper type is reused unchanged.
    pub origin: Option<String>,
}

/// The per-block artifact of one inherited block.
#[derive(Debug, Clone)]
pub struct ResolvedBlock {
    pub source_set: String,
    /// The translation table: every redeclared (unhandled) name of the block,
    /// in order; each maps the source union's case onto the same-named case
    /// of the emitted union.
    pub unhandled: Vec<String>,
    /// The handled sub-union's cases, in order; the caller must map each.
    pub handled: Vec<String>,
}

/// The final artifact for one annotated function.
#[derive(Debug)]
pub struct ResolvedFunctionErrors {
    pub variants: Vec<ResolvedVariant>,
    pub blocks: Vec<ResolvedBlock>,
}

/// The view of one block: source set name, unhandled names, handled names.
pub type BlockView = (Seq<char>, Seq<Seq<char>>, Seq<Seq<char>>);

impl ResolvedBlock {
    pub open spec fn view_of(&self) -> BlockView {
        (self.source_set@, self.unhandled@.map_values(|n: String| n@), self.handled@.map_values(|n: String| n@))
    }
}

/// Whether a list of seen names holds the given name.
pub open spec fn contains_name(seen: Seq<String>, n: Seq<char>) -> bool {
    exists|i: int| 0 <= i < seen.len() && seen[i]@ == n
}

/// Marks one name as seen.
pub open spec fn mark_seen(seen: Seq<String>, name: String) -> Seq<String> {
    if contains_name(seen, name@) {
        seen
    } else {
        seen.push(name)
    }
}

/// Marks a handled group's names as seen, in order.
pub open spec fn mark_all(seen: Seq<String>, names: Seq<String>) -> Seq<String>
    decreases names.len(),
{
    if names.len() == 0 {
        seen
    } else {
        mark_all(mark_seen(seen, names[0]), names.drop_first())
    }
}

/// Processes one declaration: emits it unless its name was seen.
pub open spec fn step_decl(
    variants: Seq<ResolvedVariant>,
    seen: Seq<String>,
    decl: OwnError,
    origin: Option<String>,
) -> (Seq<ResolvedVariant>, Seq<String>) {
    if contains_name(seen, decl.name@) {
        (variants, seen)
    } else {
        let name = decl.name;
        (variants.push(ResolvedVariant { decl, origin }), seen.push(name))
    }
}

/// Processes an inherited block's items, front to back, gathering the block's
/// unhandled and handled name lists.
pub open spec fn resolve_items(
    variants: Seq<ResolvedVariant>,
    seen: Seq<String>,
    unhandled: Seq<Seq<char>>,
    handled: Seq<Seq<char>>,
    items: Seq<InheritedErrorDef>,
    src: String,
) -> (Seq<ResolvedVariant>, Seq<String>, Seq<Seq<char>>, Seq<Seq<char>>)
    decreases items.len(),
{
    if items.len() == 0 {
        (variants, seen, unhandled, handled)
    } else {
        match items[0] {
            InheritedErrorDef::Unhandled(ue) => {
                let name_view = ue.name@;
                let st = step_decl(variants, seen, ue, Some(src));
                resolve_items(st.0, st.1, unhandled.push(name_view), handled, items.drop_first(), src)
            },
            InheritedErrorDef::Handled(he) => {
                let hviews = he.names@.map_values(|n: String| n@);
                resolve_items(
                    variants,
                    mark_all(seen, he.names@),
                    unhandled,
                    handled + hviews,
                    items.drop_first(),
                    src,
                )
            },
        }
    }
}

/// Processes the whole definition list, front to back.
pub open spec fn resolve_defs(
    variants: Seq<ResolvedVariant>,
    seen: Seq<String>,
    blocks: Seq<BlockView>,
    defs: Seq<ErrorDef>,
) -> (Seq<ResolvedVariant>, Seq<String>, Seq<BlockView>)
    decreases defs.len(),
{
    if defs.len() == 0 {
        (variants, seen, blocks)
    } else {
        match defs[0] {
            ErrorDef::Own(oe) => {
                let st = step_decl(variants, seen, oe, None);
                resolve_defs(st.0, st.1, blocks, defs.drop_first())
            },
            ErrorDef::Inherited(ie) => {
                let src_view = ie.source@;
                let st = resolve_items(
                    variants,
                    seen,
                    Seq::empty(),
                    Seq::empty(),
                    ie.errors@,
                    ie.source,
                );
                resolve_defs(st.0, st.1, blocks.push((src_view, st.2, st.3)), defs.drop_first())
            },
        }
    }
}

/// The emitted union's cases for a definition list.
pub open spec fn spec_resolved_variants(defs: Seq<ErrorDef>) -> Seq<ResolvedVariant> {
    resolve_defs(Seq::empty(), Seq::empty(), Seq::empty(), defs).0
}

/// The per-block artifacts for a definition list.
pub open spec fn spec_resolved_blocks(defs: Seq<ErrorDef>) -> Seq<BlockView> {
    resolve_defs(Seq::empty(), Seq::empty(), Seq::empty(), defs).2
}

/// Resolves a definition list into the per-function artifact.
///
/// The emitted union holds one case per distinct name whose first appearance
/// is a declaration (own or inherited redeclaration); the first declaration
/// wins. Each inherited block yields its translation table and, where it has
/// handled markers, the handled sub-union's cases.
pub fn resolve(defs: Vec<ErrorDef>) -> (r: ResolvedFunctionErrors)
    ensures
        r.variants@ == spec_resolved_variants(defs@),
        r.blocks@.map_values(|b: ResolvedBlock| b.view_of()) == spec_resolved_blocks(defs@),
{
    let ghost defs0 = defs@;
    let mut defs = defs;
    let mut variants: Vec<ResolvedVariant> = Vec::new();
    let mut seen: Vec<String> = Vec::new();
    let mut blocks: Vec<ResolvedBlock> = Vec::new();
    proof {
        assert(blocks@.map_values(|b: ResolvedBlock| b.view_of()) =~= Seq::<BlockView>::empty());
    }
    while defs.len() > 0
        invariant
            resolve_defs(
                variants@,
                seen@,
                blocks@.map_values(|b: ResolvedBlock| b.view_of()),
                defs@,
            ) == resolve_defs(Seq::empty(), Seq::empty(), Seq::empty(), defs0),
        decreases defs@.len(),
    {
        let ghost pre_defs = defs@;
        let d = defs.remove(0);
        proof {
            assert(defs@ =~= pre_defs.drop_first());
        }
        match d {
            ErrorDef::Own(oe) => {
                if !crate::dispatch::names_contain(&seen, oe.name.as_str()) {
                    let name = oe.name.clone();
                    variants.push(ResolvedVariant { decl: oe, origin: None });
                    seen.push(name);
                }
            },
            ErrorDef::Inherited(ie) => {
                let src = ie.source;
                let mut items = ie.errors;
                let mut unhandled: Vec<String> = Vec::new();
                let mut handled: Vec<String> = Vec::new();
                let ghost v0 = variants@;
                let ghost s0 = seen@;
                let ghost items0 = items@;
                proof {
                    assert(unhandled@.map_values(|n: String| n@) =~= Seq::<Seq<char>>::empty());
                    assert(handled@.map_values(|n: String| n@) =~= Seq::<Seq<char>>::empty());
                }
                while items.len() > 0
                    invariant
                        resolve_items(
                            variants@,
                            seen@,
                            unhandled@.map_values(|n: String| n@),
                            handled@.map_values(|n: String| n@),
                            items@,
                            src,
                        ) == resolve_items(
                            v0,
                            s0,
                            Seq::empty(),
                            Seq::empty(),
                            items0,
                            src,
                        ),
                    decreases items@.len(),
                {
                    let ghost pre_items = items@;
                    let ghost pre_unh = unhandled@.map_values(|n: String| n@);
                    let ghost pre_hd = handled@.map_values(|n: String| n@);
                    let it = items.remove(0);
                    proof {
                        assert(items@ =~= pre_items.drop_first());
                    }
                    match it {
                        InheritedErrorDef::Unhandled(ue) => {
                            unhandled.push(ue.name.clone());
                            proof {
                                assert(unhandled@.map_values(|n: String| n@) =~= pre_unh.push(
                                    ue.name@,
                                ));
                            }
                            if !crate::dispatch::names_contain(&seen, ue.name.as_str()) {
                                let name = ue.name.clone();
                                variants.push(
                                    ResolvedVariant { decl: ue, origin: Some(src.clone()) },
                                );
                                seen.push(name);
                            }
                        },
                        InheritedErrorDef::Handled(he) => {
                            let mut names = he.names;
                            let ghost names0 = names@;
                            let ghost s1 = seen@;
                            proof {
                                assert(names@ =~= names0.skip(0));
                                assert(handled@.map_values(|n: String| n@) =~= pre_hd
                                    + names0.map_values(|n: String| n@).take(0));
                            }
                            while names.len() > 0
                                invariant
                                    mark_all(seen@, names@) == mark_all(s1, names0),
                                    handled@.map_values(|n: String| n@) == pre_hd + names0.map_values(
                                        |n: String| n@,
                                    ).take(names0.len() - names@.len()),
                                    names0.len() >= names@.len(),
                                    names@ == names0.skip(names0.len() - names@.len()),
                                decreases names@.len(),
                            {
                                let ghost pre_names = names@;
                                let ghost pre_hd2 = handled@.map_values(|n: String| n@);
                                let nm = names.remove(0);
                                proof {
                                    assert(names@ =~= pre_names.drop_first());
                                }
                                if !crate::dispatch::names_contain(&seen, nm.as_str()) {
                                    seen.push(nm.clone());
                                }
                                handled.push(nm);
                                proof {
                                    assert(handled@.map_values(|n: String| n@) =~= pre_hd2.push(
                                        pre_names[0]@,
                                    ));
                                    assert(names@ =~= names0.skip(names0.len() - names@.len()));
                                    assert(handled@.map_values(|n: String| n@) =~= pre_hd
                                        + names0.map_values(|n: String| n@).take(
                                        names0.len() - names@.len(),
                                    ));
                                }
                            }
                            proof {
                                assert(names0.map_values(|n: String| n@).take(names0.len() as int)
                                    =~= names0.map_values(|n: String| n@));
                                assert(handled@.map_values(|n: String| n@) =~= pre_hd
                                    + names0.map_values(|n: String| n@));
                            }
                        },
                    }
                }
                let block = ResolvedBlock { source_set: src, unhandled, handled };
                let ghost bv = block.view_of();
                let ghost pre_blocks = blocks@.map_values(|b: ResolvedBlock| b.view_of());
                blocks.push(block);
                proof {
                    assert(blocks@.map_values(|b: ResolvedBlock| b.view_of()) =~= pre_blocks.push(
                        bv,
                    ));
                }
            },
        }
    }
    ResolvedFunctionErrors { variants, blocks }
}

} // verus!
