//! Laws of the resolution pass, proved over the spec-level resolution.
//!
//! Dedup is first-wins: the emitted union holds at most one case per name,
//! and the case it holds is the first declaration of that name. A block
//! without handled entries re-exposes every variant it declares.

use vstd::prelude::*;

use crate::ast::{ErrorDef, InheritedErrorDef, OwnError};
use crate::resolve::{
    contains_name, mark_all, mark_seen, resolve_defs, resolve_items, spec_resolved_blocks,
    spec_resolved_variants, step_decl, BlockView, ResolvedVariant,
};

verus! {

/// The first event a name produces while walking a definition list in
/// declaration order.
pub enum FirstDecl {
    /// The first event is a declaration: an own declaration (`None` origin)
    /// or an inherited redeclaration (the source set as origin).
    Found(OwnError, Option<String>),
    /// The first event is a handled marker naming it.
    Intercepted,
    /// The name never appears.
    Absent,
}

/// The first event `name` produces among an inherited block's items.
pub open spec fn first_in_items(
    items: Seq<InheritedErrorDef>,
    src: String,
    name: Seq<char>,
) -> FirstDecl
    decreases items.len(),
{
    if items.len() == 0 {
        FirstDecl::Absent
    } else {
        match items[0] {
            InheritedErrorDef::Unhandled(ue) => {
                if ue.name@ == name {
                    FirstDecl::Found(ue, Some(src))
                } else {
                    first_in_items(items.drop_first(), src, name)
                }
            },
            InheritedErrorDef::Handled(he) => {
                if contains_name(he.names@, name) {
                    FirstDecl::Intercepted
                } else {
                    first_in_items(items.drop_first(), src, name)
                }
            },
        }
    }
}

/// The first event `name` produces in the whole definition list.
pub open spec fn first_decl(defs: Seq<ErrorDef>, name: Seq<char>) -> FirstDecl
    decreases defs.len(),
{
    if defs.len() == 0 {
        FirstDecl::Absent
    } else {
        match defs[0] {
            ErrorDef::Own(oe) => {
                if oe.name@ == name {
                    FirstDecl::Found(oe, None)
                } else {
                    first_decl(defs.drop_first(), name)
                }
            },
            ErrorDef::Inherited(ie) => {
                match first_in_items(ie.errors@, ie.source, name) {
                    FirstDecl::Absent => first_decl(defs.drop_first(), name),
                    fd => fd,
                }
            },
        }
    }
}

proof fn lemma_mark_seen_contains(seen: Seq<String>, m: String, n: Seq<char>)
    ensures
        contains_name(mark_seen(seen, m), n) == (contains_name(seen, n) || m@ == n),
{
    if contains_name(seen, m@) {
        assert(mark_seen(seen, m) == seen);
        if m@ == n {
            assert(contains_name(seen, n));
        }
    } else {
        let s2 = seen.push(m);
        if contains_name(seen, n) {
            let i = choose|i: int| 0 <= i < seen.len() && seen[i]@ == n;
            assert(s2[i]@ == n);
            assert(contains_name(s2, n));
        }
        if m@ == n {
            assert(s2[seen.len() as int]@ == n);
            assert(contains_name(s2, n));
        }
        if contains_name(s2, n) {
            let i = choose|i: int| 0 <= i < s2.len() && s2[i]@ == n;
            if i < seen.len() {
                assert(seen[i]@ == n);
            } else {
                assert(m@ == n);
            }
        }
    }
}

proof fn lemma_mark_all_contains(seen: Seq<String>, names: Seq<String>, n: Seq<char>)
    ensures
        contains_name(mark_all(seen, names), n) == (contains_name(seen, n) || contains_name(
            names,
            n,
        )),
    decreases names.len(),
{
    if names.len() == 0 {
        assert(!contains_name(names, n));
    } else {
        lemma_mark_seen_contains(seen, names[0], n);
        lemma_mark_all_contains(mark_seen(seen, names[0]), names.drop_first(), n);
        if contains_name(names, n) && names[0]@ != n {
            let i = choose|i: int| 0 <= i < names.len() && names[i]@ == n;
            assert(names.drop_first()[i - 1]@ == n);
            assert(contains_name(names.drop_first(), n));
        }
        if contains_name(names.drop_first(), n) {
            let i = choose|i: int| 0 <= i < names.drop_first().len() && names.drop_first()[i]@
                == n;
            assert(names[i + 1]@ == n);
            assert(contains_name(names, n));
        }
    }
}

/// The state invariant of resolution: every emitted name is seen, and the
/// emitted names are distinct.
pub open spec fn state_ok(variants: Seq<ResolvedVariant>, seen: Seq<String>) -> bool {
    &&& forall|i: int|
        0 <= i < variants.len() ==> contains_name(seen, #[trigger] variants[i].decl.name@)
    &&& forall|i: int, j: int|
        0 <= i < j < variants.len() ==> variants[i].decl.name@ != variants[j].decl.name@
}

proof fn lemma_step_decl_ok(
    variants: Seq<ResolvedVariant>,
    seen: Seq<String>,
    decl: OwnError,
    origin: Option<String>,
)
    requires
        state_ok(variants, seen),
    ensures
        state_ok(step_decl(variants, seen, decl, origin).0, step_decl(variants, seen, decl, origin).1),
        forall|n: Seq<char>|
            contains_name(seen, n) ==> contains_name(
                #[trigger] step_decl(variants, seen, decl, origin).1,
                n,
            ),
{
    let st = step_decl(variants, seen, decl, origin);
    if contains_name(seen, decl.name@) {
    } else {
        let v2 = st.0;
        let s2 = st.1;
        assert forall|n: Seq<char>| contains_name(seen, n) implies contains_name(s2, n) by {
            let i = choose|i: int| 0 <= i < seen.len() && seen[i]@ == n;
            assert(s2[i]@ == n);
        }
        assert(s2[seen.len() as int]@ == decl.name@);
        assert forall|i: int| 0 <= i < v2.len() implies contains_name(
            s2,
            #[trigger] v2[i].decl.name@,
        ) by {
            if i < variants.len() {
                assert(contains_name(seen, variants[i].decl.name@));
            } else {
                assert(v2[i] == ResolvedVariant { decl, origin });
            }
        }
        assert forall|i: int, j: int| 0 <= i < j < v2.len() implies v2[i].decl.name@
            != v2[j].decl.name@ by {
            if j < variants.len() {
            } else {
                assert(j == variants.len());
                assert(v2[j].decl.name@ == decl.name@);
                assert(contains_name(seen, variants[i].decl.name@));
                assert(!contains_name(seen, decl.name@));
            }
        }
    }
}

proof fn lemma_items_ok(
    variants: Seq<ResolvedVariant>,
    seen: Seq<String>,
    unhandled: Seq<Seq<char>>,
    handled: Seq<Seq<char>>,
    items: Seq<InheritedErrorDef>,
    src: String,
)
    requires
        state_ok(variants, seen),
    ensures
        ({
            let r = resolve_items(variants, seen, unhandled, handled, items, src);
            &&& state_ok(r.0, r.1)
            &&& forall|n: Seq<char>| contains_name(seen, n) ==> contains_name(#[trigger] r.1, n)
        }),
    decreases items.len(),
{
    let r = resolve_items(variants, seen, unhandled, handled, items, src);
    if items.len() == 0 {
    } else {
        match items[0] {
            InheritedErrorDef::Unhandled(ue) => {
                lemma_step_decl_ok(variants, seen, ue, Some(src));
                let st = step_decl(variants, seen, ue, Some(src));
                lemma_items_ok(
                    st.0,
                    st.1,
                    unhandled.push(ue.name@),
                    handled,
                    items.drop_first(),
                    src,
                );
            },
            InheritedErrorDef::Handled(he) => {
                let s2 = mark_all(seen, he.names@);
                assert forall|n: Seq<char>| contains_name(seen, n) implies contains_name(
                    s2,
                    n,
                ) by {
                    lemma_mark_all_contains(seen, he.names@, n);
                }
                assert(state_ok(variants, s2));
                lemma_items_ok(
                    variants,
                    s2,
                    unhandled,
                    handled + he.names@.map_values(|x: String| x@),
                    items.drop_first(),
                    src,
                );
            },
        }
    }
}

proof fn lemma_defs_ok(
    variants: Seq<ResolvedVariant>,
    seen: Seq<String>,
    blocks: Seq<BlockView>,
    defs: Seq<ErrorDef>,
)
    requires
        state_ok(variants, seen),
    ensures
        ({
            let r = resolve_defs(variants, seen, blocks, defs);
            state_ok(r.0, r.1)
        }),
    decreases defs.len(),
{
    if defs.len() == 0 {
    } else {
        match defs[0] {
            ErrorDef::Own(oe) => {
                lemma_step_decl_ok(variants, seen, oe, None);
                let st = step_decl(variants, seen, oe, None);
                lemma_defs_ok(st.0, st.1, blocks, defs.drop_first());
            },
            ErrorDef::Inherited(ie) => {
                lemma_items_ok(variants, seen, Seq::empty(), Seq::empty(), ie.errors@, ie.source);
                let st = resolve_items(
                    variants,
                    seen,
                    Seq::empty(),
                    Seq::empty(),
                    ie.errors@,
                    ie.source,
                );
                lemma_defs_ok(st.0, st.1, blocks.push((ie.source@, st.2, st.3)), defs.drop_first());
            },
        }
    }
}

/// Law (idempotent dedup, uniqueness half): however often a name is declared,
/// the emitted union holds at most one case for it.
pub proof fn lemma_resolved_names_distinct(defs: Seq<ErrorDef>)
    ensures
        forall|i: int, j: int|
            0 <= i < j < spec_resolved_variants(defs).len() ==> spec_resolved_variants(
                defs,
            )[i].decl.name@ != spec_resolved_variants(defs)[j].decl.name@,
{
    lemma_defs_ok(Seq::empty(), Seq::empty(), Seq::empty(), defs);
}

proof fn lemma_items_first(
    variants: Seq<ResolvedVariant>,
    seen: Seq<String>,
    unhandled: Seq<Seq<char>>,
    handled: Seq<Seq<char>>,
    items: Seq<InheritedErrorDef>,
    src: String,
    name: Seq<char>,
)
    ensures
        ({
            let r = resolve_items(variants, seen, unhandled, handled, items, src);
            &&& r.0.len() >= variants.len()
            &&& forall|i: int| 0 <= i < variants.len() ==> r.0[i] == variants[i]
            &&& contains_name(seen, name) ==> (contains_name(r.1, name) && forall|i: int|
                variants.len() <= i < r.0.len() ==> (#[trigger] r.0[i]).decl.name@ != name)
            &&& (!contains_name(seen, name)) ==> match first_in_items(items, src, name) {
                FirstDecl::Found(oe, origin) => oe.name@ == name && contains_name(r.1, name)
                    && exists|i: int|
                    variants.len() <= i < r.0.len() && r.0[i] == ResolvedVariant {
                        decl: oe,
                        origin,
                    },
                FirstDecl::Intercepted => contains_name(r.1, name) && forall|i: int|
                    variants.len() <= i < r.0.len() ==> (#[trigger] r.0[i]).decl.name@ != name,
                FirstDecl::Absent => !contains_name(r.1, name) && forall|i: int|
                    variants.len() <= i < r.0.len() ==> (#[trigger] r.0[i]).decl.name@ != name,
            }
        }),
    decreases items.len(),
{
    let r = resolve_items(variants, seen, unhandled, handled, items, src);
    if items.len() == 0 {
    } else {
        match items[0] {
            InheritedErrorDef::Unhandled(ue) => {
                let st = step_decl(variants, seen, ue, Some(src));
                lemma_mark_seen_contains(seen, ue.name, name);
                if !contains_name(seen, ue.name@) {
                    assert(st.1 == seen.push(ue.name));
                    assert(st.1 == mark_seen(seen, ue.name));
                } else {
                    assert(st.1 == seen);
                }
                lemma_items_first(
                    st.0,
                    st.1,
                    unhandled.push(ue.name@),
                    handled,
                    items.drop_first(),
                    src,
                    name,
                );
                assert(forall|i: int| 0 <= i < variants.len() ==> st.0[i] == variants[i]);
                if !contains_name(seen, name) && ue.name@ == name {
                    let iw = variants.len() as int;
                    assert(st.0[iw] == ResolvedVariant { decl: ue, origin: Some(src) });
                    assert(contains_name(st.1, name));
                    assert(r.0[iw] == st.0[iw]);
                    assert(variants.len() <= iw < r.0.len() && r.0[iw] == ResolvedVariant {
                        decl: ue,
                        origin: Some(src),
                    });
                }
                if !contains_name(seen, name) && ue.name@ != name {
                    assert(contains_name(st.1, name) == contains_name(seen, name));
                    assert(first_in_items(items, src, name) == first_in_items(
                        items.drop_first(),
                        src,
                        name,
                    ));
                    if first_in_items(items, src, name) is Found {
                        let (oe2, origin2): (OwnError, Option<String>) = choose|
                            oe2: OwnError,
                            origin2: Option<String>,
                        |
                            first_in_items(items.drop_first(), src, name) == FirstDecl::Found(
                                oe2,
                                origin2,
                            );
                        let iw = choose|i: int|
                            st.0.len() <= i < r.0.len() && r.0[i] == ResolvedVariant {
                                decl: oe2,
                                origin: origin2,
                            };
                        assert(variants.len() <= iw < r.0.len() && r.0[iw] == ResolvedVariant {
                            decl: oe2,
                            origin: origin2,
                        });
                    }
                    if first_in_items(items, src, name) is Intercepted || first_in_items(
                        items,
                        src,
                        name,
                    ) is Absent {
                        assert forall|i: int|
                            variants.len() <= i < r.0.len() implies (#[trigger] r.0[i]).decl.name@
                            != name by {
                            if i < st.0.len() {
                                assert(r.0[i] == st.0[i]);
                                if i < variants.len() {
                                } else {
                                    assert(st.0[i].decl.name@ == ue.name@);
                                }
                            }
                        }
                    }
                }
                if contains_name(seen, name) {
                    assert(contains_name(st.1, name));
                    assert forall|i: int|
                        variants.len() <= i < r.0.len() implies (#[trigger] r.0[i]).decl.name@
                        != name by {
                        if i < st.0.len() {
                            assert(r.0[i] == st.0[i]);
                            if i >= variants.len() {
                                assert(st.0[i].decl.name@ == ue.name@);
                            }
                        }
                    }
                }
            },
            InheritedErrorDef::Handled(he) => {
                let s2 = mark_all(seen, he.names@);
                lemma_mark_all_contains(seen, he.names@, name);
                assert forall|n: Seq<char>| contains_name(seen, n) implies contains_name(
                    s2,
                    n,
                ) by {
                    lemma_mark_all_contains(seen, he.names@, n);
                }
                lemma_items_first(
                    variants,
                    s2,
                    unhandled,
                    handled + he.names@.map_values(|x: String| x@),
                    items.drop_first(),
                    src,
                    name,
                );
            },
        }
    }
}

proof fn lemma_defs_first(
    variants: Seq<ResolvedVariant>,
    seen: Seq<String>,
    blocks: Seq<BlockView>,
    defs: Seq<ErrorDef>,
    name: Seq<char>,
)
    ensures
        ({
            let r = resolve_defs(variants, seen, blocks, defs);
            &&& r.0.len() >= variants.len()
            &&& forall|i: int| 0 <= i < variants.len() ==> r.0[i] == variants[i]
            &&& contains_name(seen, name) ==> forall|i: int|
                variants.len() <= i < r.0.len() ==> (#[trigger] r.0[i]).decl.name@ != name
            &&& (!contains_name(seen, name)) ==> match first_decl(defs, name) {
                FirstDecl::Found(oe, origin) => oe.name@ == name && exists|i: int|
                    variants.len() <= i < r.0.len() && r.0[i] == ResolvedVariant {
                        decl: oe,
                        origin,
                    },
                _ => forall|i: int|
                    variants.len() <= i < r.0.len() ==> (#[trigger] r.0[i]).decl.name@ != name,
            }
        }),
    decreases defs.len(),
{
    let r = resolve_defs(variants, seen, blocks, defs);
    if defs.len() == 0 {
    } else {
        match defs[0] {
            ErrorDef::Own(oe) => {
                let st = step_decl(variants, seen, oe, None);
                lemma_mark_seen_contains(seen, oe.name, name);
                if !contains_name(seen, oe.name@) {
                    assert(st.1 == mark_seen(seen, oe.name));
                } else {
                    assert(st.1 == seen);
                }
                lemma_defs_first(st.0, st.1, blocks, defs.drop_first(), name);
                assert(forall|i: int| 0 <= i < variants.len() ==> st.0[i] == variants[i]);
                if !contains_name(seen, name) && oe.name@ == name {
                    let iw = variants.len() as int;
                    assert(st.0[iw] == ResolvedVariant { decl: oe, origin: None });
                    assert(contains_name(st.1, name));
                    assert(r.0[iw] == st.0[iw]);
                    assert(variants.len() <= iw < r.0.len() && r.0[iw] == ResolvedVariant {
                        decl: oe,
                        origin: None,
                    });
                }
                if oe.name@ != name || contains_name(seen, name) {
                    assert(contains_name(st.1, name) == contains_name(seen, name));
                    if !contains_name(seen, name) && first_decl(defs, name) is Found {
                        assert(first_decl(defs, name) == first_decl(defs.drop_first(), name));
                        let (oe2, origin2): (OwnError, Option<String>) = choose|
                            oe2: OwnError,
                            origin2: Option<String>,
                        |
                            first_decl(defs.drop_first(), name) == FirstDecl::Found(oe2, origin2);
                        let iw = choose|i: int|
                            st.0.len() <= i < r.0.len() && r.0[i] == ResolvedVariant {
                                decl: oe2,
                                origin: origin2,
                            };
                        assert(variants.len() <= iw < r.0.len() && r.0[iw] == ResolvedVariant {
                            decl: oe2,
                            origin: origin2,
                        });
                    }
                    if contains_name(seen, name) || !(first_decl(defs, name) is Found) {
                        assert forall|i: int|
                            variants.len() <= i < r.0.len() implies (#[trigger] r.0[i]).decl.name@
                            != name by {
                            if i < st.0.len() {
                                assert(r.0[i] == st.0[i]);
                                if i >= variants.len() {
                                    assert(st.0[i].decl.name@ == oe.name@);
                                }
                            }
                        }
                    }
                }
            },
            ErrorDef::Inherited(ie) => {
                lemma_items_first(
                    variants,
                    seen,
                    Seq::empty(),
                    Seq::empty(),
                    ie.errors@,
                    ie.source,
                    name,
                );
                let st = resolve_items(
                    variants,
                    seen,
                    Seq::empty(),
                    Seq::empty(),
                    ie.errors@,
                    ie.source,
                );
                lemma_defs_first(
                    st.0,
                    st.1,
                    blocks.push((ie.source@, st.2, st.3)),
                    defs.drop_first(),
                    name,
                );
                assert(forall|i: int| 0 <= i < variants.len() ==> st.0[i] == variants[i]);
                if contains_name(seen, name) {
                    assert(contains_name(st.1, name));
                    assert forall|i: int|
                        variants.len() <= i < r.0.len() implies (#[trigger] r.0[i]).decl.name@
                        != name by {
                        if i < st.0.len() {
                            assert(r.0[i] == st.0[i]);
                        }
                    }
                } else {
                    match first_in_items(ie.errors@, ie.source, name) {
                        FirstDecl::Found(oe, origin) => {
                            assert(first_decl(defs, name) == FirstDecl::Found(oe, origin));
                            let iw = choose|i: int|
                                variants.len() <= i < st.0.len() && st.0[i] == ResolvedVariant {
                                    decl: oe,
                                    origin,
                                };
                            assert(r.0[iw] == st.0[iw]);
                            assert(variants.len() <= iw < r.0.len() && r.0[iw] == ResolvedVariant {
                                decl: oe,
                                origin,
                            });
                        },
                        FirstDecl::Intercepted => {
                            assert(first_decl(defs, name) == FirstDecl::Intercepted);
                            assert(contains_name(st.1, name));
                            assert forall|i: int|
                                variants.len() <= i < r.0.len() implies (
                                #[trigger] r.0[i]).decl.name@ != name by {
                                if i < st.0.len() {
                                    assert(r.0[i] == st.0[i]);
                                }
                            }
                        },
                        FirstDecl::Absent => {
                            assert(first_decl(defs, name) == first_decl(defs.drop_first(), name));
                            assert(!contains_name(st.1, name));
                            if !(first_decl(defs, name) is Found) {
                                assert forall|i: int|
                                    variants.len() <= i < r.0.len() implies (
                                    #[trigger] r.0[i]).decl.name@ != name by {
                                    if i < st.0.len() {
                                        assert(r.0[i] == st.0[i]);
                                    }
                                }
                            } else {
                                let (oe2, origin2): (OwnError, Option<String>) = choose|
                                    oe2: OwnError,
                                    origin2: Option<String>,
                                |
                                    first_decl(defs.drop_first(), name) == FirstDecl::Found(
                                        oe2,
                                        origin2,
                                    );
                                let iw = choose|i: int|
                                    st.0.len() <= i < r.0.len() && r.0[i] == ResolvedVariant {
                                        decl: oe2,
                                        origin: origin2,
                                    };
                                assert(variants.len() <= iw < r.0.len() && r.0[iw]
                                    == ResolvedVariant { decl: oe2, origin: origin2 });
                            }
                        },
                    }
                }
            },
        }
    }
}

/// Law (idempotent dedup, first-wins half): for every name, the emitted union
/// holds the first declaration of that name, with its message and shape, when
/// the name's first appearance is a declaration; it holds no case for the
/// name when the name never appears or appears first in a handled marker.
pub proof fn lemma_first_declaration_wins(defs: Seq<ErrorDef>, name: Seq<char>)
    ensures
        match first_decl(defs, name) {
            FirstDecl::Found(oe, origin) => oe.name@ == name && exists|i: int|
                0 <= i < spec_resolved_variants(defs).len() && spec_resolved_variants(defs)[i]
                    == ResolvedVariant { decl: oe, origin },
            _ => forall|i: int|
                0 <= i < spec_resolved_variants(defs).len() ==> (#[trigger] spec_resolved_variants(
                    defs,
                )[i]).decl.name@ != name,
        },
{
    lemma_defs_first(Seq::empty(), Seq::empty(), Seq::empty(), defs, name);
}

/// Law (idempotent dedup, characterization): every case of the emitted union
/// is exactly the first declaration of its name, shape and message included.
pub proof fn lemma_emitted_is_first_declaration(defs: Seq<ErrorDef>, i: int)
    requires
        0 <= i < spec_resolved_variants(defs).len(),
    ensures
        ({
            let v = spec_resolved_variants(defs)[i];
            first_decl(defs, v.decl.name@) == FirstDecl::Found(v.decl, v.origin)
        }),
{
    let v = spec_resolved_variants(defs)[i];
    let n = v.decl.name@;
    lemma_first_declaration_wins(defs, n);
    lemma_resolved_names_distinct(defs);
    match first_decl(defs, n) {
        FirstDecl::Found(oe, origin) => {
            let j = choose|j: int|
                0 <= j < spec_resolved_variants(defs).len() && spec_resolved_variants(defs)[j]
                    == ResolvedVariant { decl: oe, origin };
            assert(spec_resolved_variants(defs)[j].decl.name@ == n);
            if i != j {
                assert(spec_resolved_variants(defs)[i].decl.name@ != spec_resolved_variants(
                    defs,
                )[j].decl.name@);
            }
            assert(i == j);
        },
        _ => {
            assert(v.decl.name@ != n);
        },
    }
}

/// Law (pass-through reachability): a name an inherited block redeclares is a
/// case of the emitted union whenever its first appearance in the whole list
/// is a declaration (it is not, only when an earlier handled marker already
/// intercepted the name). Together with the conversion's contract this is the
/// fidelity of pass-through: the same case name, wrapping the same payload.
pub proof fn lemma_pass_through_reachable(defs: Seq<ErrorDef>, k: int, name: Seq<char>)
    requires
        0 <= k < spec_resolved_blocks(defs).len(),
        spec_resolved_blocks(defs)[k].1.contains(name),
        first_decl(defs, name) is Found,
    ensures
        exists|i: int|
            0 <= i < spec_resolved_variants(defs).len() && (#[trigger] spec_resolved_variants(
                defs,
            )[i]).decl.name@ == name,
{
    lemma_first_declaration_wins(defs, name);
    let (oe, origin): (OwnError, Option<String>) = choose|oe: OwnError, origin: Option<String>|
        first_decl(defs, name) == FirstDecl::Found(oe, origin);
    let i = choose|i: int|
        0 <= i < spec_resolved_variants(defs).len() && spec_resolved_variants(defs)[i]
            == ResolvedVariant { decl: oe, origin };
    assert(spec_resolved_variants(defs)[i].decl.name@ == name);
}

/// Law (boxed-debug source suppression): a variant declared with a debug-only
/// source kind never yields a cause from the accessor, even though a value is
/// stored, while its display text still names the stored cause.
pub proof fn lemma_debug_source_suppression(v: crate::dispatch::VariantValue)
    requires
        v.kind is BoxedDebug || v.kind is DynDebug,
        v.source_text is Some,
    ensures
        crate::dispatch::spec_cause(v) is None,
        crate::dispatch::spec_display(v) == crate::render::spec_variant_text(
            v.msg@,
            crate::render::spec_ctx_text(v.ctx_debug@, v.ctx_name@),
            Some(v.source_text->0@),
        ),
{
}

} // verus!
