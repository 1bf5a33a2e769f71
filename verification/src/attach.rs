//! The attachment pass entry points: from attribute argument text and the
//! annotated item to the rewritten item and the generated source.

use vstd::prelude::*;

use vstd::string::StringExecFns;

use crate::ast::{ErrorDef, ErrorNs, FledgedError, OwnError, SmartErrors};
use crate::emit::{
    fn_render, generated_text, smarterr_transform, spec_fn_render, spec_generated,
    spec_transform_ok, spec_vis_prefix, spec_vis_text, vis_prefix, vis_text,
};
use crate::item::{FnItem, ImplMember};
use crate::parse::{spec_parse_fledged, spec_parse_ns, spec_parse_smart, ParseError};
use crate::resolve::spec_resolved_variants;
use crate::token::{lex, spec_lex, LexError};

verus! {

/// A list of own declarations as a definition list.
pub open spec fn own_defs(oes: Seq<OwnError>) -> Seq<ErrorDef> {
    oes.map_values(|oe: OwnError| ErrorDef::Own(oe))
}

/// The diagnostic a lexing failure surfaces as.
pub open spec fn spec_lex_diag(le: LexError) -> crate::parse::SpecParseError {
    crate::parse::SpecParseError { pos: le.pos as int, msg: "unrecognized token"@ }
}

fn lex_diag(le: LexError) -> (r: ParseError)
    ensures
        r@ == spec_lex_diag(le),
{
    ParseError { pos: le.pos, msg: "unrecognized token".to_owned() }
}

/// Rewrites one annotated function: parses the argument text, resolves the
/// declared errors, and yields the rewritten function followed by the
/// generated items, or the first diagnostic.
pub fn smarterr(args: &str, item: FnItem) -> (r: Result<String, ParseError>)
    ensures
        match spec_lex(args@, 0) {
            Err(le) => r matches Err(e) && e@ == spec_lex_diag(le),
            Ok(ts) => match spec_parse_smart(ts) {
                Err(pe) => r matches Err(e) && e@ == pe,
                Ok(ds) => r matches Ok(t) && exists|
                    meta: SmartErrors,
                    nf: FnItem,
                    gen: Seq<char>,
                |
                    meta@ == ds && #[trigger] spec_transform_ok(item, meta, None, nf, gen) && t@
                        == spec_fn_render(nf@) + gen,
            },
        },
{
    let toks = match lex(args) {
        Ok(toks) => toks,
        Err(le) => {
            return Err(lex_diag(le));
        },
    };
    let meta = match SmartErrors::parse(&toks) {
        Ok(meta) => meta,
        Err(e) => {
            return Err(e);
        },
    };
    let ghost gmeta = meta;
    let (nf, gen) = smarterr_transform(item, meta, None);
    let ghost gnf = nf;
    let mut out = fn_render(&nf);
    out.append(gen.as_str());
    proof {
        assert(spec_transform_ok(item, gmeta, None, gnf, gen@) && out@ == spec_fn_render(gnf@)
            + gen@);
    }
    Ok(out)
}

/// Emits a standalone set: the union and its companions, from the argument
/// text of a fledged declaration.
pub fn smarterr_fledged(args: &str) -> (r: Result<String, ParseError>)
    ensures
        match spec_lex(args@, 0) {
            Err(le) => r matches Err(e) && e@ == spec_lex_diag(le),
            Ok(ts) => match spec_parse_fledged(ts) {
                Err(pe) => r matches Err(e) && e@ == pe,
                Ok(f) => r matches Ok(t) && exists|fe: FledgedError|
                    #[trigger] fe@ == f && t@ == spec_generated(
                        spec_resolved_variants(own_defs(fe.definition@)),
                        spec_vis_text(fe.vis),
                        fe.name@,
                    ),
            },
        },
{
    let toks = match lex(args) {
        Ok(toks) => toks,
        Err(le) => {
            return Err(lex_diag(le));
        },
    };
    let fe = match FledgedError::parse(&toks) {
        Ok(fe) => fe,
        Err(e) => {
            return Err(e);
        },
    };
    let ghost gfe = fe;
    let vt = vis_text(fe.vis);
    let name = fe.name;
    let mut defs: Vec<ErrorDef> = Vec::new();
    let mut definition = fe.definition;
    let ghost defs0 = definition@;
    proof {
        assert(own_defs(defs0.take(0)) =~= Seq::<ErrorDef>::empty());
        assert(defs@ =~= own_defs(defs0.take(0)));
        assert(definition@ =~= defs0.skip(0));
    }
    while definition.len() > 0
        invariant
            definition@.len() <= defs0.len(),
            defs@ == own_defs(defs0.take(defs0.len() - definition@.len())),
            definition@ == defs0.skip(defs0.len() - definition@.len()),
        decreases definition@.len(),
    {
        let ghost pre_def = definition@;
        let ghost pre_defs = defs@;
        let oe = definition.remove(0);
        let ghost goe = oe;
        defs.push(ErrorDef::Own(oe));
        proof {
            let k = defs0.len() - pre_def.len();
            assert(pre_def == defs0.skip(k));
            assert(defs0.skip(k)[0] == defs0[k]);
            assert(goe == defs0[k]);
            assert(definition@ =~= pre_def.drop_first());
            assert(definition@ =~= defs0.skip(k + 1));
            assert(defs@ =~= pre_defs.push(ErrorDef::Own(defs0[k])));
            assert(defs0.take(k + 1) =~= defs0.take(k).push(defs0[k]));
            assert(own_defs(defs0.take(k + 1)) =~= own_defs(defs0.take(k)).push(
                ErrorDef::Own(defs0[k]),
            ));
            assert(defs@ =~= own_defs(defs0.take(k + 1)));
        }
    }
    proof {
        assert(defs0.take(defs0.len() as int) =~= defs0);
        assert(defs@ == own_defs(defs0));
    }
    let resolved = crate::resolve::resolve(defs);
    let out = generated_text(&resolved.variants, vt.as_str(), name.as_str());
    proof {
        assert(gfe@ == spec_parse_fledged(crate::token::toks_view(toks@))->Ok_0);
        assert(out@ == spec_generated(
            spec_resolved_variants(own_defs(gfe.definition@)),
            spec_vis_text(gfe.vis),
            gfe.name@,
        ));
    }
    Ok(out)
}

/// What processing one member of an annotated impl block yields: its
/// rendered text inside the block, and what it adds to the hoisted module.
/// A member whose marking attribute fails to parse is kept unchanged.
pub open spec fn spec_member_ok(
    m: ImplMember,
    modname: String,
    rendered: Seq<char>,
    gen: Seq<char>,
) -> bool {
    match m {
        ImplMember::Other(s) => rendered == s@ + "\n"@ && gen == Seq::<char>::empty(),
        ImplMember::Method { item, attr_args } => match attr_args {
            None => rendered == spec_fn_render(item@) && gen == Seq::<char>::empty(),
            Some(a) => match spec_lex(a@, 0) {
                Err(_) => rendered == spec_fn_render(item@) && gen == Seq::<char>::empty(),
                Ok(ts) => match spec_parse_smart(ts) {
                    Err(_) => rendered == spec_fn_render(item@) && gen == Seq::<char>::empty(),
                    Ok(ds) => exists|meta: SmartErrors, nf: FnItem|
                        meta@ == ds && #[trigger] spec_transform_ok(
                            item,
                            meta,
                            Some(modname),
                            nf,
                            gen,
                        ) && rendered == spec_fn_render(nf@),
                },
            },
        },
    }
}

/// The concatenation of a list of texts, in order.
pub open spec fn concat_all(ss: Seq<Seq<char>>) -> Seq<char>
    decreases ss.len(),
{
    if ss.len() == 0 {
        Seq::empty()
    } else {
        ss[0] + concat_all(ss.drop_first())
    }
}

pub proof fn lemma_concat_all_push(ss: Seq<Seq<char>>, s: Seq<char>)
    ensures
        concat_all(ss.push(s)) == concat_all(ss) + s,
    decreases ss.len(),
{
    if ss.len() == 0 {
        assert(ss.push(s)[0] == s);
        assert(ss.push(s).drop_first() =~= Seq::<Seq<char>>::empty());
        assert(concat_all(Seq::<Seq<char>>::empty()) == Seq::<char>::empty());
        assert(concat_all(ss.push(s)) == ss.push(s)[0] + concat_all(ss.push(s).drop_first()));
        assert(concat_all(ss.push(s)) =~= s);
        assert(concat_all(ss) + s =~= s);
    } else {
        assert(ss.push(s)[0] == ss[0]);
        assert(ss.push(s).drop_first() =~= ss.drop_first().push(s));
        lemma_concat_all_push(ss.drop_first(), s);
        assert(concat_all(ss.push(s)) == ss[0] + (concat_all(ss.drop_first()) + s));
        assert(ss[0] + (concat_all(ss.drop_first()) + s) =~= (ss[0] + concat_all(ss.drop_first()))
            + s);
    }
}

/// Rewrites an annotated impl block: every marked method goes through the
/// attachment pass with the named module, and the generated items are
/// hoisted into that one module after the block.
#[verifier::rlimit(100)]
pub fn smarterr_mod(args: &str, header: String, members: Vec<ImplMember>) -> (r: Result<
    String,
    ParseError,
>)
    ensures
        match spec_lex(args@, 0) {
            Err(le) => r matches Err(e) && e@ == spec_lex_diag(le),
            Ok(ts) => match spec_parse_ns(ts) {
                Err(pe) => r matches Err(e) && e@ == pe,
                Ok(ns) => r matches Ok(t) && exists|
                    nsx: ErrorNs,
                    rendered: Seq<Seq<char>>,
                    gens: Seq<Seq<char>>,
                |
                    #![trigger nsx@, concat_all(rendered), concat_all(gens)]
                    {
                        &&& nsx@ == ns
                        &&& rendered.len() == members@.len()
                        &&& gens.len() == members@.len()
                        &&& forall|i: int|
                            0 <= i < members@.len() ==> spec_member_ok(
                                #[trigger] members@[i],
                                nsx.name,
                                rendered[i],
                                gens[i],
                            )
                        &&& t@ == header@ + " {\n"@ + concat_all(rendered) + "}\n"@
                            + spec_vis_prefix(spec_vis_text(nsx.vis)) + "mod "@ + nsx.name@
                            + " {\n    use super::*;\n"@ + concat_all(gens) + "}\n"@
                    },
            },
        },
{
    let toks = match lex(args) {
        Ok(toks) => toks,
        Err(le) => {
            return Err(lex_diag(le));
        },
    };
    let ns = match ErrorNs::parse(&toks) {
        Ok(ns) => ns,
        Err(e) => {
            return Err(e);
        },
    };
    let mut body_acc = String::new();
    let mut mod_acc = String::new();
    let ghost mut rendered_seq: Seq<Seq<char>> = Seq::empty();
    let ghost mut gens_seq: Seq<Seq<char>> = Seq::empty();
    let mut members = members;
    let ghost members0 = members@;
    while members.len() > 0
        invariant
            members@.len() <= members0.len(),
            rendered_seq.len() == members0.len() - members@.len(),
            gens_seq.len() == rendered_seq.len(),
            members@ == members0.skip(members0.len() - members@.len()),
            forall|k: int|
                0 <= k < rendered_seq.len() ==> spec_member_ok(
                    #[trigger] members0[k],
                    ns.name,
                    rendered_seq[k],
                    gens_seq[k],
                ),
            body_acc@ == concat_all(rendered_seq),
            mod_acc@ == concat_all(gens_seq),
        decreases members@.len(),
    {
        let ghost pre_members = members@;
        let m = members.remove(0);
        proof {
            assert(members@ =~= pre_members.drop_first());
            assert(members@ =~= members0.skip(members0.len() - members@.len()));
        }
        let ghost gm = m;
        let mut gen_i = String::new();
        let rendered_i: String;
        match m {
            ImplMember::Other(s) => {
                let mut t = s;
                t.append("\n");
                rendered_i = t;
            },
            ImplMember::Method { item, attr_args } => {
                match attr_args {
                    None => {
                        rendered_i = fn_render(&item);
                    },
                    Some(a) => {
                        match lex(a.as_str()) {
                            Err(_) => {
                                rendered_i = fn_render(&item);
                            },
                            Ok(atoks) => {
                                match SmartErrors::parse(&atoks) {
                                    Err(_) => {
                                        rendered_i = fn_render(&item);
                                    },
                                    Ok(meta) => {
                                        let ghost gmeta = meta;
                                        let ghost gitem = item;
                                        let modname = ns.name.clone();
                                        proof {
                                            assert(modname == ns.name);
                                        }
                                        let (nf, g) = smarterr_transform(
                                            item,
                                            meta,
                                            Some(modname),
                                        );
                                        let ghost gnf = nf;
                                        rendered_i = fn_render(&nf);
                                        gen_i = g;
                                        proof {
                                            assert(spec_transform_ok(
                                                gitem,
                                                gmeta,
                                                Some(ns.name),
                                                gnf,
                                                gen_i@,
                                            ));
                                        }
                                    },
                                }
                            },
                        }
                    },
                }
            },
        }
        proof {
            assert(spec_member_ok(gm, ns.name, rendered_i@, gen_i@));
        }
        body_acc.append(rendered_i.as_str());
        mod_acc.append(gen_i.as_str());
        proof {
            lemma_concat_all_push(rendered_seq, rendered_i@);
            lemma_concat_all_push(gens_seq, gen_i@);
            rendered_seq = rendered_seq.push(rendered_i@);
            gens_seq = gens_seq.push(gen_i@);
            let k = rendered_seq.len() - 1;
            assert(pre_members == members0.skip(k));
            assert(members0.skip(k)[0] == members0[k]);
            assert(gm == members0[k]);
        }
    }
    proof {
        assert(rendered_seq.len() == members0.len());
    }
    let mut out = header;
    out.append(" {\n");
    out.append(body_acc.as_str());
    out.append("}\n");
    let vp = vis_prefix(vis_text(ns.vis).as_str());
    out.append(vp.as_str());
    out.append("mod ");
    out.append(ns.name.as_str());
    out.append(" {\n    use super::*;\n");
    out.append(mod_acc.as_str());
    out.append("}\n");
    Ok(out)
}

} // verus!
