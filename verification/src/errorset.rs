//! The simpler facility: a function whose return type is already shaped as
//! `Container<Ok, (Error1, Error2, ...)>` gets a generated union collecting
//! the tuple's error types, and its return type is rewritten to name it.

use vstd::prelude::*;

use vstd::string::StringExecFns;

use crate::emit::{
    pascal_of, spec_vis_prefix, spec_vis_text, to_pascal, vis_prefix, vis_text,
};
use crate::item::FnItem;
use crate::parse::{
    diag_pos, err_at, ident_at, is_kw, kind_at, lemma_type_range, parse_type_toks, parse_vis,
    spec_parse_vis, spec_type_toks, ParseError, SpecParseError,
};
use crate::token::{lex, toks_view, SpecTokKind, SpecToken, TokKind, Token};

verus! {

/// The arguments of the facility's marking attribute: a visibility and an
/// optional module name.
#[derive(Debug, Clone)]
pub struct ErrorsetArgs {
    pub visibility: crate::ast::Vis,
    pub module: Option<String>,
}

/// The mathematical form of the attribute arguments.
pub struct SpecErrorsetArgs {
    pub visibility: crate::ast::Vis,
    pub module: Option<Seq<char>>,
}

impl View for ErrorsetArgs {
    type V = SpecErrorsetArgs;

    open spec fn view(&self) -> SpecErrorsetArgs {
        SpecErrorsetArgs {
            visibility: self.visibility,
            module: match self.module {
                Some(m) => Some(m@),
                None => None,
            },
        }
    }
}

/// Parses the attribute arguments: a visibility, then optionally `mod` and
/// a module name, and nothing else.
pub open spec fn spec_parse_errorset_args(ts: Seq<SpecToken>) -> Result<
    SpecErrorsetArgs,
    SpecParseError,
> {
    match spec_parse_vis(ts, 0) {
        Ok((v, j)) => {
            if j == ts.len() {
                Ok(SpecErrorsetArgs { visibility: v, module: None })
            } else if is_kw(ts, j, "mod"@) {
                match ident_at(ts, j + 1) {
                    Some(m) => {
                        if j + 2 == ts.len() {
                            Ok(SpecErrorsetArgs { visibility: v, module: Some(m) })
                        } else {
                            Err(err_at(ts, j + 2, "unexpected trailing tokens"@))
                        }
                    },
                    None => Err(err_at(ts, j + 1, "expected module name"@)),
                }
            } else {
                Err(err_at(ts, j, "expected `mod`"@))
            }
        },
        Err(e) => Err(e),
    }
}

impl ErrorsetArgs {
    /// Parses the attribute arguments.
    pub fn parse(toks: &Vec<Token>) -> (r: Result<ErrorsetArgs, ParseError>)
        ensures
            match spec_parse_errorset_args(toks_view(toks@)) {
                Ok(a) => r matches Ok(ra) && ra@ == a,
                Err(e) => r matches Err(re) && re@ == e,
            },
    {
        let (v, j) = match parse_vis(toks, 0) {
            Ok(x) => x,
            Err(e) => {
                return Err(e);
            },
        };
        if j == toks.len() {
            return Ok(ErrorsetArgs { visibility: v, module: None });
        }
        if crate::parse::peek_kw(toks, j, "mod") {
            proof {
                assert(j < toks_view(toks@).len());
                assert(toks@.len() == toks.len());
            }
            if j + 1 < toks.len() {
                let m = match &toks[j + 1].kind {
                    TokKind::Ident(s) => s.clone(),
                    _ => {
                        return Err(crate::parse::perr(toks, j + 1, "expected module name"));
                    },
                };
                if j + 2 == toks.len() {
                    Ok(ErrorsetArgs { visibility: v, module: Some(m) })
                } else {
                    Err(crate::parse::perr(toks, j + 2, "unexpected trailing tokens"))
                }
            } else {
                Err(crate::parse::perr(toks, j + 1, "expected module name"))
            }
        } else {
            Err(crate::parse::perr(toks, j, "expected `mod`"))
        }
    }
}

/// A path's segments: whether it starts with `::`, and the segment names up
/// to the first token that is not part of a plain path.
pub open spec fn spec_path_segs(ts: Seq<SpecToken>, pos: int) -> Option<(bool, Seq<Seq<char>>, int)> {
    if kind_at(ts, pos) == Some(SpecTokKind::PathSep) {
        match spec_segs_after(ts, pos + 1) {
            Some((segs, j)) => Some((true, segs, j)),
            None => None,
        }
    } else {
        match spec_segs_after(ts, pos) {
            Some((segs, j)) => Some((false, segs, j)),
            None => None,
        }
    }
}

/// The segment names from `pos` on: an identifier, then any number of
/// `:: identifier` pairs.
pub open spec fn spec_segs_after(ts: Seq<SpecToken>, pos: int) -> Option<(Seq<Seq<char>>, int)>
    decreases ts.len() - pos,
    when 0 <= pos <= ts.len()
{
    match ident_at(ts, pos) {
        Some(name) => {
            if kind_at(ts, pos + 1) == Some(SpecTokKind::PathSep) && ident_at(ts, pos + 2)
                is Some && pos + 1 < ts.len() {
                match spec_segs_after(ts, pos + 2) {
                    Some((rest, j)) => Some((seq![name] + rest, j)),
                    None => None,
                }
            } else {
                Some((seq![name], pos + 1))
            }
        },
        None => None,
    }
}

pub proof fn lemma_segs_range(ts: Seq<SpecToken>, pos: int)
    requires
        0 <= pos <= ts.len(),
    ensures
        match spec_segs_after(ts, pos) {
            Some((segs, j)) => pos < j <= ts.len() && segs.len() > 0,
            None => true,
        },
    decreases ts.len() - pos,
{
    match ident_at(ts, pos) {
        Some(_) => {
            if kind_at(ts, pos + 1) == Some(SpecTokKind::PathSep) && ident_at(ts, pos + 2)
                is Some && pos + 1 < ts.len() {
                lemma_segs_range(ts, pos + 2);
            }
        },
        None => {},
    }
}

/// The segment names from `pos` on, as the executable parser walks them.
pub fn path_segs(toks: &Vec<Token>, pos: usize) -> (r: Option<(bool, Vec<String>, usize)>)
    requires
        pos <= toks@.len(),
    ensures
        match spec_path_segs(toks_view(toks@), pos as int) {
            Some((lead, segs, j)) => r matches Some((rl, rs, rj)) && rl == lead && rs@.map_values(
                |n: String| n@,
            ) == segs && rj == j,
            None => r is None,
        },
{
    let mut lead = false;
    let mut p = pos;
    if p < toks.len() && matches!(&toks[p].kind, TokKind::PathSep) {
        lead = true;
        p = p + 1;
    }
    match segs_after(toks, p) {
        Some((segs, j)) => Some((lead, segs, j)),
        None => None,
    }
}

fn segs_after(toks: &Vec<Token>, pos: usize) -> (r: Option<(Vec<String>, usize)>)
    requires
        pos <= toks@.len(),
    ensures
        match spec_segs_after(toks_view(toks@), pos as int) {
            Some((segs, j)) => r matches Some((rs, rj)) && rs@.map_values(|n: String| n@) == segs
                && rj == j,
            None => r is None,
        },
    decreases toks@.len() - pos,
{
    if pos >= toks.len() {
        return None;
    }
    let name = match &toks[pos].kind {
        TokKind::Ident(s) => s.clone(),
        _ => {
            return None;
        },
    };
    let cont = pos + 1 < toks.len() && matches!(&toks[pos + 1].kind, TokKind::PathSep) && pos + 2
        < toks.len() && matches!(&toks[pos + 2].kind, TokKind::Ident(_));
    if cont {
        match segs_after(toks, pos + 2) {
            Some((mut rest, j)) => {
                let ghost pre = rest@.map_values(|n: String| n@);
                rest.insert(0, name);
                proof {
                    assert(rest@.map_values(|n: String| n@) =~= seq![
                        toks_view(toks@)[pos as int].kind->Ident_0,
                    ] + pre);
                }
                Some((rest, j))
            },
            None => None,
        }
    } else {
        let mut segs: Vec<String> = Vec::new();
        segs.push(name);
        proof {
            assert(segs@.map_values(|n: String| n@) =~= seq![
                toks_view(toks@)[pos as int].kind->Ident_0,
            ]);
        }
        Some((segs, pos + 1))
    }
}

/// One element of the tuple of error types: its last path segment, when the
/// element is a plain path, and its rendered text.
#[derive(Debug, Clone)]
pub struct Elem {
    pub ident: Option<String>,
    pub text: String,
}

/// The mathematical form of a tuple element.
pub struct SpecElem {
    pub ident: Option<Seq<char>>,
    pub text: Seq<char>,
}

impl View for Elem {
    type V = SpecElem;

    open spec fn view(&self) -> SpecElem {
        SpecElem {
            ident: match self.ident {
                Some(i) => Some(i@),
                None => None,
            },
            text: self.text@,
        }
    }
}

/// The shape of one generic argument.
pub enum SpecArgKind {
    /// A parenthesized group with zero elements, several elements, or a
    /// trailing comma.
    Tuple(Seq<SpecElem>),
    /// A parenthesized group holding exactly one element, no trailing comma.
    Paren,
    /// A plain path.
    PathLike,
    /// Anything else.
    Other,
}

/// One generic argument: its shape and its rendered text.
pub struct SpecArg {
    pub kind: SpecArgKind,
    pub text: Seq<char>,
}

/// The identifier of the last segment of the path at `pos`, when a path
/// starts there.
pub open spec fn spec_last_ident(ts: Seq<SpecToken>, pos: int) -> Option<Seq<char>> {
    match spec_path_segs(ts, pos) {
        Some((_, segs, _)) => Some(segs.last()),
        None => None,
    }
}

/// Parses the elements of a parenthesized group after its opening paren.
pub open spec fn spec_parse_elems(ts: Seq<SpecToken>, pos: int) -> Result<
    (Seq<SpecElem>, bool, int),
    SpecParseError,
>
    decreases ts.len() - pos,
    when 0 <= pos <= ts.len()
    via spec_parse_elems_dec
{
    if kind_at(ts, pos) == Some(SpecTokKind::RParen) {
        Ok((Seq::empty(), false, pos + 1))
    } else {
        match spec_type_toks(ts, pos, 0, 0) {
            Ok((text, j)) => {
                if j == pos {
                    Err(err_at(ts, pos, "expected type"@))
                } else {
                    let elem = SpecElem { ident: spec_last_ident(ts, pos), text };
                    if kind_at(ts, j) == Some(SpecTokKind::Comma) {
                        match spec_parse_elems(ts, j + 1) {
                            Ok((es, _, j2)) => Ok((seq![elem] + es, true, j2)),
                            Err(e) => Err(e),
                        }
                    } else if kind_at(ts, j) == Some(SpecTokKind::RParen) {
                        Ok((seq![elem], false, j + 1))
                    } else {
                        Err(err_at(ts, j, "expected comma or closing paren"@))
                    }
                }
            },
            Err(e) => Err(e),
        }
    }
}

#[via_fn]
proof fn spec_parse_elems_dec(ts: Seq<SpecToken>, pos: int) {
    lemma_type_range(ts, pos, 0, 0);
}

/// Parses one generic argument and classifies its shape.
pub open spec fn spec_parse_arg(ts: Seq<SpecToken>, pos: int) -> Result<
    (SpecArg, int),
    SpecParseError,
> {
    match spec_type_toks(ts, pos, 0, 0) {
        Ok((text, j)) => {
            if j == pos {
                Err(err_at(ts, pos, "expected type"@))
            } else {
                let kind = if kind_at(ts, pos) == Some(SpecTokKind::LParen) {
                    match spec_parse_elems(ts, pos + 1) {
                        Ok((elems, hadc, je)) => {
                            if je == j {
                                if elems.len() == 1 && !hadc {
                                    SpecArgKind::Paren
                                } else {
                                    SpecArgKind::Tuple(elems)
                                }
                            } else {
                                SpecArgKind::Other
                            }
                        },
                        Err(_) => SpecArgKind::Other,
                    }
                } else if ident_at(ts, pos) is Some || kind_at(ts, pos) == Some(
                    SpecTokKind::PathSep,
                ) {
                    SpecArgKind::PathLike
                } else {
                    SpecArgKind::Other
                };
                Ok((SpecArg { kind, text }, j))
            }
        },
        Err(e) => Err(e),
    }
}

pub proof fn lemma_arg_range(ts: Seq<SpecToken>, pos: int)
    requires
        0 <= pos <= ts.len(),
    ensures
        match spec_parse_arg(ts, pos) {
            Ok((_, j)) => pos < j <= ts.len(),
            Err(_) => true,
        },
{
    lemma_type_range(ts, pos, 0, 0);
}

/// Parses the generic argument list after its opening bracket, closing
/// bracket included.
pub open spec fn spec_parse_args(ts: Seq<SpecToken>, pos: int) -> Result<
    (Seq<SpecArg>, int),
    SpecParseError,
>
    decreases ts.len() - pos,
    when 0 <= pos <= ts.len()
    via spec_parse_args_dec
{
    if kind_at(ts, pos) matches Some(SpecTokKind::Gt(_)) {
        Ok((Seq::empty(), pos + 1))
    } else {
        match spec_parse_arg(ts, pos) {
            Ok((a, j)) => {
                if kind_at(ts, j) == Some(SpecTokKind::Comma) {
                    match spec_parse_args(ts, j + 1) {
                        Ok((rest, j2)) => Ok((seq![a] + rest, j2)),
                        Err(e) => Err(e),
                    }
                } else if kind_at(ts, j) matches Some(SpecTokKind::Gt(_)) {
                    Ok((seq![a], j + 1))
                } else {
                    Err(err_at(ts, j, "malformed generic arguments"@))
                }
            },
            Err(e) => Err(e),
        }
    }
}

#[via_fn]
proof fn spec_parse_args_dec(ts: Seq<SpecToken>, pos: int) {
    lemma_arg_range(ts, pos);
}

/// A parsed return type: leading `::`, segment names, generic arguments of
/// the last segment.
pub struct SpecRet {
    pub leading: bool,
    pub segs: Seq<Seq<char>>,
    pub args: Seq<SpecArg>,
}

/// Parses a whole return type of the shape the facility expects.
pub open spec fn spec_parse_ret(ts: Seq<SpecToken>) -> Result<SpecRet, SpecParseError> {
    match spec_path_segs(ts, 0) {
        None => Err(
            SpecParseError {
                pos: 0,
                msg: "Function must return a generic type with 2 parameters"@,
            },
        ),
        Some((leading, segs, j)) => {
            if kind_at(ts, j) matches Some(SpecTokKind::Lt(_)) {
                match spec_parse_args(ts, j + 1) {
                    Ok((args, j2)) => {
                        if j2 == ts.len() {
                            Ok(SpecRet { leading, segs, args })
                        } else {
                            Err(err_at(ts, j2, "unexpected trailing tokens"@))
                        }
                    },
                    Err(e) => Err(e),
                }
            } else {
                Err(
                    SpecParseError {
                        pos: diag_pos(ts, j),
                        msg: "Expected angle-bracketed generic arguments"@,
                    },
                )
            }
        },
    }
}

/// The shape of one generic argument, as owned values.
#[derive(Debug)]
pub enum ArgKind {
    Tuple(Vec<Elem>),
    Paren,
    PathLike,
    Other,
}

/// One generic argument, as owned values.
#[derive(Debug)]
pub struct Arg {
    pub kind: ArgKind,
    pub text: String,
}

impl View for ArgKind {
    type V = SpecArgKind;

    open spec fn view(&self) -> SpecArgKind {
        match self {
            ArgKind::Tuple(es) => SpecArgKind::Tuple(es@.map_values(|e: Elem| e@)),
            ArgKind::Paren => SpecArgKind::Paren,
            ArgKind::PathLike => SpecArgKind::PathLike,
            ArgKind::Other => SpecArgKind::Other,
        }
    }
}

impl View for Arg {
    type V = SpecArg;

    open spec fn view(&self) -> SpecArg {
        SpecArg { kind: self.kind@, text: self.text@ }
    }
}

/// The identifier of the last segment of the path at `pos`, when one is there.
fn last_ident(toks: &Vec<Token>, pos: usize) -> (r: Option<String>)
    requires
        pos <= toks@.len(),
    ensures
        match spec_last_ident(toks_view(toks@), pos as int) {
            Some(i) => r matches Some(ri) && ri@ == i,
            None => r is None,
        },
{
    match path_segs(toks, pos) {
        Some((_, segs, _)) => {
            proof {
                if kind_at(toks_view(toks@), pos as int) == Some(SpecTokKind::PathSep) {
                    lemma_segs_range(toks_view(toks@), pos + 1);
                } else {
                    lemma_segs_range(toks_view(toks@), pos as int);
                }
            }
            if segs.len() > 0 {
                Some(segs[segs.len() - 1].clone())
            } else {
                None
            }
        },
        None => None,
    }
}

/// Parses the elements of a parenthesized group after its opening paren.
fn parse_elems(toks: &Vec<Token>, pos: usize) -> (r: Result<(Vec<Elem>, bool, usize), ParseError>)
    requires
        pos <= toks@.len(),
    ensures
        match spec_parse_elems(toks_view(toks@), pos as int) {
            Ok((es, hadc, j)) => r matches Ok((res, rh, rj)) && res@.map_values(|e: Elem| e@) == es
                && rh == hadc && rj == j,
            Err(e) => r matches Err(re) && re@ == e,
        },
    decreases toks@.len() - pos,
{
    if pos < toks.len() && matches!(&toks[pos].kind, TokKind::RParen) {
        proof {
            assert(Seq::<Elem>::empty().map_values(|e: Elem| e@) =~= Seq::<SpecElem>::empty());
        }
        return Ok((Vec::new(), false, pos + 1));
    }
    let (text, j) = match parse_type_toks(toks, pos, 0, 0) {
        Ok(x) => x,
        Err(e) => {
            return Err(e);
        },
    };
    proof {
        lemma_type_range(toks_view(toks@), pos as int, 0, 0);
    }
    if j == pos {
        return Err(crate::parse::perr(toks, pos, "expected type"));
    }
    let ident = last_ident(toks, pos);
    let elem = Elem { ident, text };
    let ghost ev = elem@;
    if j < toks.len() && matches!(&toks[j].kind, TokKind::Comma) {
        match parse_elems(toks, j + 1) {
            Ok((mut es, _, j2)) => {
                let ghost pre = es@.map_values(|e: Elem| e@);
                es.insert(0, elem);
                proof {
                    assert(es@.map_values(|e: Elem| e@) =~= seq![ev] + pre);
                }
                Ok((es, true, j2))
            },
            Err(e) => Err(e),
        }
    } else if j < toks.len() && matches!(&toks[j].kind, TokKind::RParen) {
        let mut es: Vec<Elem> = Vec::new();
        es.push(elem);
        proof {
            assert(es@.map_values(|e: Elem| e@) =~= seq![ev]);
        }
        Ok((es, false, j + 1))
    } else {
        Err(crate::parse::perr(toks, j, "expected comma or closing paren"))
    }
}

/// Parses one generic argument and classifies its shape.
fn parse_arg(toks: &Vec<Token>, pos: usize) -> (r: Result<(Arg, usize), ParseError>)
    requires
        pos <= toks@.len(),
    ensures
        match spec_parse_arg(toks_view(toks@), pos as int) {
            Ok((a, j)) => r matches Ok((ra, rj)) && ra@ == a && rj == j,
            Err(e) => r matches Err(re) && re@ == e,
        },
{
    let (text, j) = match parse_type_toks(toks, pos, 0, 0) {
        Ok(x) => x,
        Err(e) => {
            return Err(e);
        },
    };
    if j == pos {
        return Err(crate::parse::perr(toks, pos, "expected type"));
    }
    let kind: ArgKind;
    if pos < toks.len() && matches!(&toks[pos].kind, TokKind::LParen) {
        match parse_elems(toks, pos + 1) {
            Ok((elems, hadc, je)) => {
                if je == j {
                    if elems.len() == 1 && !hadc {
                        kind = ArgKind::Paren;
                    } else {
                        proof {
                            if elems@.map_values(|e: Elem| e@).len() == 1 {
                                assert(elems@.len() == 1);
                            }
                        }
                        kind = ArgKind::Tuple(elems);
                    }
                } else {
                    kind = ArgKind::Other;
                }
            },
            Err(_) => {
                kind = ArgKind::Other;
            },
        }
    } else {
        let is_pathish = match &toks[pos].kind {
            TokKind::Ident(_) => true,
            TokKind::PathSep => true,
            _ => false,
        };
        if is_pathish {
            kind = ArgKind::PathLike;
        } else {
            kind = ArgKind::Other;
        }
    }
    Ok((Arg { kind, text }, j))
}

/// Parses the generic argument list after its opening bracket.
fn parse_args(toks: &Vec<Token>, pos: usize) -> (r: Result<(Vec<Arg>, usize), ParseError>)
    requires
        pos <= toks@.len(),
    ensures
        match spec_parse_args(toks_view(toks@), pos as int) {
            Ok((a_s, j)) => r matches Ok((ras, rj)) && ras@.map_values(|a: Arg| a@) == a_s && rj
                == j,
            Err(e) => r matches Err(re) && re@ == e,
        },
    decreases toks@.len() - pos,
{
    if pos < toks.len() && matches!(&toks[pos].kind, TokKind::Gt(_)) {
        proof {
            assert(Seq::<Arg>::empty().map_values(|a: Arg| a@) =~= Seq::<SpecArg>::empty());
        }
        return Ok((Vec::new(), pos + 1));
    }
    match parse_arg(toks, pos) {
        Ok((a, j)) => {
            proof {
                lemma_arg_range(toks_view(toks@), pos as int);
            }
            let ghost av = a@;
            if j < toks.len() && matches!(&toks[j].kind, TokKind::Comma) {
                match parse_args(toks, j + 1) {
                    Ok((mut rest, j2)) => {
                        let ghost pre = rest@.map_values(|x: Arg| x@);
                        rest.insert(0, a);
                        proof {
                            assert(rest@.map_values(|x: Arg| x@) =~= seq![av] + pre);
                        }
                        Ok((rest, j2))
                    },
                    Err(e) => Err(e),
                }
            } else if j < toks.len() && matches!(&toks[j].kind, TokKind::Gt(_)) {
                let mut a_s: Vec<Arg> = Vec::new();
                a_s.push(a);
                proof {
                    assert(a_s@.map_values(|x: Arg| x@) =~= seq![av]);
                }
                Ok((a_s, j + 1))
            } else {
                Err(crate::parse::perr(toks, j, "malformed generic arguments"))
            }
        },
        Err(e) => Err(e),
    }
}

/// A parsed return type, as owned values.
#[derive(Debug)]
pub struct RetType {
    pub leading: bool,
    pub segs: Vec<String>,
    pub args: Vec<Arg>,
}

/// Parses a whole return type of the shape the facility expects.
pub fn parse_ret(toks: &Vec<Token>) -> (r: Result<RetType, ParseError>)
    ensures
        match spec_parse_ret(toks_view(toks@)) {
            Ok(rt) => r matches Ok(rr) && rr.leading == rt.leading && rr.segs@.map_values(
                |n: String| n@,
            ) == rt.segs && rr.args@.map_values(|a: Arg| a@) == rt.args,
            Err(e) => r matches Err(re) && re@ == e,
        },
{
    match path_segs(toks, 0) {
        None => Err(
            ParseError {
                pos: 0,
                msg: "Function must return a generic type with 2 parameters".to_owned(),
            },
        ),
        Some((leading, segs, j)) => {
            proof {
                if kind_at(toks_view(toks@), 0) == Some(SpecTokKind::PathSep) {
                    lemma_segs_range(toks_view(toks@), 1);
                } else {
                    lemma_segs_range(toks_view(toks@), 0);
                }
            }
            if j < toks.len() && matches!(&toks[j].kind, TokKind::Lt(_)) {
                match parse_args(toks, j + 1) {
                    Ok((args, j2)) => {
                        if j2 == toks.len() {
                            Ok(RetType { leading, segs, args })
                        } else {
                            Err(crate::parse::perr(toks, j2, "unexpected trailing tokens"))
                        }
                    },
                    Err(e) => Err(e),
                }
            } else {
                let p: usize = if j < toks.len() {
                    toks[j].pos
                } else if toks.len() > 0 {
                    toks[toks.len() - 1].pos
                } else {
                    0
                };
                Err(
                    ParseError {
                        pos: p,
                        msg: "Expected angle-bracketed generic arguments".to_owned(),
                    },
                )
            }
        },
    }
}

/// The path segments joined with `::`.
pub open spec fn spec_segs_tail(segs: Seq<Seq<char>>) -> Seq<char>
    decreases segs.len(),
{
    if segs.len() == 0 {
        Seq::empty()
    } else {
        "::"@ + segs[0] + spec_segs_tail(segs.drop_first())
    }
}

pub open spec fn spec_segs_joined(segs: Seq<Seq<char>>) -> Seq<char> {
    if segs.len() == 0 {
        Seq::empty()
    } else {
        segs[0] + spec_segs_tail(segs.drop_first())
    }
}

/// The rewritten return type text: the path without the last segment's
/// arguments, then the first argument and the union's qualified name.
pub open spec fn spec_ret_text(
    leading: bool,
    segs: Seq<Seq<char>>,
    first: Seq<char>,
    epath: Seq<char>,
) -> Seq<char> {
    (if leading {
        "::"@
    } else {
        Seq::<char>::empty()
    }) + spec_segs_joined(segs) + "<"@ + first + ", "@ + epath + ">"@
}

/// The union's cases: one per distinct path element of the tuple, first
/// appearance wins; elements that are not plain paths yield no case.
pub open spec fn spec_eset_variants(elems: Seq<SpecElem>, seen: Seq<Seq<char>>) -> Seq<char>
    decreases elems.len(),
{
    if elems.len() == 0 {
        Seq::empty()
    } else {
        match elems[0].ident {
            None => spec_eset_variants(elems.drop_first(), seen),
            Some(id) => {
                if seen.contains(id) {
                    spec_eset_variants(elems.drop_first(), seen)
                } else {
                    "    #[error(transparent)]\n    "@ + id + "(#[from] "@ + elems[0].text
                        + "),\n"@ + spec_eset_variants(elems.drop_first(), seen.push(id))
                }
            },
        }
    }
}

/// The emitted union for a tuple of error types.
pub open spec fn spec_eset_enum(elems: Seq<SpecElem>, vis: Seq<char>, ename: Seq<char>) -> Seq<
    char,
> {
    "#[derive(::thiserror::Error, Debug)]\n"@ + spec_vis_prefix(vis) + "enum "@ + ename + " {\n"@
        + spec_eset_variants(elems, Seq::empty()) + "}\n"@
}

/// The outcome of processing one annotated function.
pub enum ProcessedSpec {
    /// The return type is not in the two-generic shape the facility
    /// rewrites; the function is left untouched.
    SUnchanged,
    /// The union's definition text and the rewritten return type text.
    SRewritten(Seq<char>, Seq<char>),
}

/// What processing one annotated function yields, stated over its parts.
pub open spec fn spec_process(a: ErrorsetArgs, item: FnItem) -> Result<
    ProcessedSpec,
    SpecParseError,
> {
    match item.ret {
        None => Err(SpecParseError { pos: 0, msg: "Function must have a valid return type"@ }),
        Some(rt) => match crate::token::spec_lex(rt@, 0) {
            Err(le) => Err(crate::attach::spec_lex_diag(le)),
            Ok(ts) => match spec_parse_ret(ts) {
                Err(e) => Err(e),
                Ok(ret) => {
                    if ret.args.len() != 2 {
                        Err(
                            SpecParseError {
                                pos: 0,
                                msg: "Expected exactly 2 generic arguments"@,
                            },
                        )
                    } else {
                        match ret.args[1].kind {
                            SpecArgKind::Paren => Ok(ProcessedSpec::SUnchanged),
                            SpecArgKind::PathLike => Ok(ProcessedSpec::SUnchanged),
                            SpecArgKind::Tuple(elems) => {
                                let ename = crate::emit::pascal_of(item.name@) + "Errors"@;
                                let vis_eff: Seq<char> = if a.module is Some {
                                    "pub"@
                                } else {
                                    item.vis@
                                };
                                let epath = crate::emit::spec_mod_prefix(a@.module) + ename;
                                Ok(
                                    ProcessedSpec::SRewritten(
                                        spec_eset_enum(elems, vis_eff, ename),
                                        spec_ret_text(
                                            ret.leading,
                                            ret.segs,
                                            ret.args[0].text,
                                            epath,
                                        ),
                                    ),
                                )
                            },
                            SpecArgKind::Other => Err(
                                SpecParseError {
                                    pos: 0,
                                    msg: "Expected the second generic argument to be a tuple"@,
                                },
                            ),
                        }
                    }
                },
            },
        },
    }
}

/// The result of the attachment step for one annotated function.
#[derive(Debug)]
pub enum Processed {
    /// The generated union and the rewritten function.
    Rewritten(Output),
    /// The function, untouched.
    Unchanged(FnItem),
}

/// The generated union and the rewritten function.
#[derive(Debug)]
pub struct Output {
    pub enum_def: String,
    pub fn_def: FnItem,
}

proof fn lemma_contains_map(seen: Seq<String>, n: Seq<char>)
    ensures
        crate::resolve::contains_name(seen, n) == seen.map_values(|s: String| s@).contains(n),
{
    let mapped = seen.map_values(|s: String| s@);
    if crate::resolve::contains_name(seen, n) {
        let i = choose|i: int| 0 <= i < seen.len() && seen[i]@ == n;
        assert(mapped[i] == n);
    }
    if mapped.contains(n) {
        let i = choose|i: int| 0 <= i < mapped.len() && mapped[i] == n;
        assert(seen[i]@ == n);
        assert(crate::resolve::contains_name(seen, n));
    }
}

#[verifier::rlimit(100)]
fn eset_variants(elems: &Vec<Elem>) -> (r: String)
    ensures
        r@ == spec_eset_variants(elems@.map_values(|e: Elem| e@), Seq::empty()),
{
    let ghost ev = elems@.map_values(|e: Elem| e@);
    let mut out = String::new();
    let mut seen: Vec<String> = Vec::new();
    let mut i: usize = 0;
    proof {
        assert(ev.skip(0) =~= ev);
        assert(seen@.map_values(|s: String| s@) =~= Seq::<Seq<char>>::empty());
    }
    while i < elems.len()
        invariant
            i <= elems@.len(),
            ev == elems@.map_values(|e: Elem| e@),
            out@ + spec_eset_variants(ev.skip(i as int), seen@.map_values(|s: String| s@))
                == spec_eset_variants(ev, Seq::empty()),
        decreases elems@.len() - i,
    {
        let ghost pre = out@;
        let ghost pre_seen_raw = seen@;
        let ghost pre_seen = seen@.map_values(|s: String| s@);
        match &elems[i].ident {
            None => (),
            Some(id) => {
                if !crate::dispatch::names_contain(&seen, id.as_str()) {
                    out.append("    #[error(transparent)]\n    ");
                    out.append(id.as_str());
                    out.append("(#[from] ");
                    out.append(elems[i].text.as_str());
                    out.append("),\n");
                    seen.push(id.clone());
                }
            },
        }
        i = i + 1;
        proof {
            assert(ev.skip(i - 1)[0] == ev[i - 1]);
            assert(ev.skip(i - 1).drop_first() =~= ev.skip(i as int));
            match ev[i - 1].ident {
                None => {},
                Some(id) => {
                    lemma_contains_map(pre_seen_raw, id);
                    if !pre_seen.contains(id) {
                        assert(seen@.map_values(|s: String| s@) =~= pre_seen.push(id));
                        assert(out@ =~= pre + ("    #[error(transparent)]\n    "@ + id
                            + "(#[from] "@ + ev[i - 1].text + "),\n"@));
                    }
                },
            }
            assert(out@ + spec_eset_variants(ev.skip(i as int), seen@.map_values(|s: String| s@))
                =~= pre + spec_eset_variants(ev.skip(i - 1), pre_seen));
        }
    }
    proof {
        assert(ev.skip(elems@.len() as int) =~= Seq::<SpecElem>::empty());
        assert(out@ + Seq::<char>::empty() =~= out@);
    }
    out
}

fn segs_joined(segs: &Vec<String>) -> (r: String)
    ensures
        r@ == spec_segs_joined(segs@.map_values(|s: String| s@)),
{
    let ghost sv = segs@.map_values(|s: String| s@);
    if segs.len() == 0 {
        return String::new();
    }
    let mut out = segs[0].clone();
    let mut i: usize = 1;
    proof {
        assert(sv.drop_first() =~= sv.skip(1));
    }
    while i < segs.len()
        invariant
            1 <= i <= segs@.len(),
            sv == segs@.map_values(|s: String| s@),
            sv.len() == segs@.len(),
            out@ + spec_segs_tail(sv.skip(i as int)) == spec_segs_joined(sv),
        decreases segs@.len() - i,
    {
        let ghost pre = out@;
        out.append("::");
        out.append(segs[i].as_str());
        i = i + 1;
        proof {
            assert(sv.skip(i - 1)[0] == sv[i - 1]);
            assert(sv.skip(i - 1).drop_first() =~= sv.skip(i as int));
            assert(out@ =~= pre + ("::"@ + sv[i - 1]));
            assert(out@ + spec_segs_tail(sv.skip(i as int)) =~= pre + spec_segs_tail(
                sv.skip(i - 1),
            ));
        }
    }
    proof {
        assert(sv.skip(segs@.len() as int) =~= Seq::<Seq<char>>::empty());
        assert(out@ + Seq::<char>::empty() =~= out@);
    }
    out
}

/// Processes one annotated function: checks the return type's shape, builds
/// the union definition and the rewritten signature, or reports why not.
pub fn process_fn(args: &ErrorsetArgs, item: FnItem) -> (r: Result<Processed, ParseError>)
    ensures
        match spec_process(*args, item) {
            Err(e) => r matches Err(re) && re@ == e,
            Ok(ProcessedSpec::SUnchanged) => r == Result::<Processed, ParseError>::Ok(
                Processed::Unchanged(item),
            ),
            Ok(ProcessedSpec::SRewritten(ed, rt)) => r matches Ok(p) && (p matches
                Processed::Rewritten(o) && o.enum_def@ == ed && o.fn_def.attrs == item.attrs
                && o.fn_def.vis == item.vis && o.fn_def.qualifiers == item.qualifiers
                && o.fn_def.name == item.name && o.fn_def.generics == item.generics
                && o.fn_def.params == item.params && o.fn_def.where_clause == item.where_clause
                && o.fn_def.body == item.body && (o.fn_def.ret matches Some(t) && t@ == rt)),
        },
{
    let toks = match &item.ret {
        None => {
            return Err(
                ParseError { pos: 0, msg: "Function must have a valid return type".to_owned() },
            );
        },
        Some(rt) => {
            match lex(rt.as_str()) {
                Err(le) => {
                    return Err(
                        ParseError { pos: le.pos, msg: "unrecognized token".to_owned() },
                    );
                },
                Ok(toks) => toks,
            }
        },
    };
    let ret = match parse_ret(&toks) {
        Ok(ret) => ret,
        Err(e) => {
            return Err(e);
        },
    };
    if ret.args.len() != 2 {
        return Err(
            ParseError { pos: 0, msg: "Expected exactly 2 generic arguments".to_owned() },
        );
    }
    let ghost rspec = spec_parse_ret(toks_view(toks@))->Ok_0;
    proof {
        assert(ret.args@.map_values(|a: Arg| a@)[1] == rspec.args[1]);
        assert(ret.args@.map_values(|a: Arg| a@)[0] == rspec.args[0]);
    }
    match &ret.args[1].kind {
        ArgKind::Paren => Ok(Processed::Unchanged(item)),
        ArgKind::PathLike => Ok(Processed::Unchanged(item)),
        ArgKind::Other => Err(
            ParseError {
                pos: 0,
                msg: "Expected the second generic argument to be a tuple".to_owned(),
            },
        ),
        ArgKind::Tuple(elems) => {
            let pasc = to_pascal(item.name.as_str());
            let mut ename = pasc;
            ename.append("Errors");
            let vis_eff: String = match &args.module {
                Some(_) => "pub".to_owned(),
                None => item.vis.clone(),
            };
            let enum_def = {
                let mut e = "#[derive(::thiserror::Error, Debug)]\n".to_owned();
                let vp = vis_prefix(vis_eff.as_str());
                e.append(vp.as_str());
                e.append("enum ");
                e.append(ename.as_str());
                e.append(" {\n");
                let vars = eset_variants(elems);
                e.append(vars.as_str());
                e.append("}\n");
                e
            };
            let mut rt = String::new();
            if ret.leading {
                rt.append("::");
            }
            let joined = segs_joined(&ret.segs);
            rt.append(joined.as_str());
            rt.append("<");
            rt.append(ret.args[0].text.as_str());
            rt.append(", ");
            match &args.module {
                Some(m) => {
                    rt.append(m.as_str());
                    rt.append("::");
                },
                None => (),
            }
            rt.append(ename.as_str());
            rt.append(">");
            proof {
                assert(enum_def@ =~= spec_eset_enum(
                    elems@.map_values(|e: Elem| e@),
                    (if (*args).module is Some {
                        "pub"@
                    } else {
                        item.vis@
                    }),
                    crate::emit::pascal_of(item.name@) + "Errors"@,
                ));
                assert(rt@ =~= spec_ret_text(
                    rspec.leading,
                    rspec.segs,
                    rspec.args[0].text,
                    crate::emit::spec_mod_prefix((*args)@.module) + (crate::emit::pascal_of(
                        item.name@,
                    ) + "Errors"@),
                ));
            }
            let fn_def = FnItem {
                attrs: item.attrs,
                vis: item.vis,
                qualifiers: item.qualifiers,
                name: item.name,
                generics: item.generics,
                params: item.params,
                ret: Some(rt),
                where_clause: item.where_clause,
                body: item.body,
            };
            Ok(Processed::Rewritten(Output { enum_def, fn_def }))
        },
    }
}

/// What one annotated function becomes, as source text.
pub open spec fn spec_handle_function(a: ErrorsetArgs, item: FnItem) -> Result<
    Seq<char>,
    SpecParseError,
> {
    match spec_process(a, item) {
        Err(e) => Err(e),
        Ok(ProcessedSpec::SUnchanged) => Ok(crate::emit::spec_fn_render(item@)),
        Ok(ProcessedSpec::SRewritten(ed, rt)) => {
            let fnv = crate::item::SpecFnItem {
                attrs: item@.attrs,
                vis: item@.vis,
                qualifiers: item@.qualifiers,
                name: item@.name,
                generics: item@.generics,
                params: item@.params,
                ret: Some(rt),
                where_clause: item@.where_clause,
                body: item@.body,
            };
            match a.module {
                Some(m) => Ok(
                    spec_vis_prefix(spec_vis_text(a.visibility)) + "mod "@ + m@
                        + " {\n    use super::*;\n"@ + ed + "}\n"@
                        + crate::emit::spec_fn_render(fnv),
                ),
                None => Ok(ed + crate::emit::spec_fn_render(fnv)),
            }
        },
    }
}

/// Rewrites one annotated function and emits its union, hoisted into the
/// named module when one was given.
pub fn handle_function(args: &ErrorsetArgs, item: FnItem) -> (r: Result<String, ParseError>)
    ensures
        match spec_handle_function(*args, item) {
            Ok(t) => r matches Ok(rt) && rt@ == t,
            Err(e) => r matches Err(re) && re@ == e,
        },
{
    match process_fn(args, item) {
        Err(e) => Err(e),
        Ok(Processed::Unchanged(it)) => Ok(crate::emit::fn_render(&it)),
        Ok(Processed::Rewritten(o)) => {
            let fn_text = crate::emit::fn_render(&o.fn_def);
            match &args.module {
                Some(m) => {
                    let mut out = vis_prefix(vis_text(args.visibility).as_str());
                    out.append("mod ");
                    out.append(m.as_str());
                    out.append(" {\n    use super::*;\n");
                    out.append(o.enum_def.as_str());
                    out.append("}\n");
                    out.append(fn_text.as_str());
                    proof {
                        assert(out@ =~= spec_handle_function(*args, item)->Ok_0);
                    }
                    Ok(out)
                },
                None => {
                    let mut out = o.enum_def;
                    out.append(fn_text.as_str());
                    proof {
                        assert(out@ =~= spec_handle_function(*args, item)->Ok_0);
                    }
                    Ok(out)
                },
            }
        },
    }
}

/// What processing one member of an annotated impl block yields: its
/// rendered text inside the block, and the union it adds to the module.
pub open spec fn spec_eset_member(m: crate::item::ImplMember, a: ErrorsetArgs) -> Result<
    (Seq<char>, Seq<char>),
    SpecParseError,
> {
    match m {
        crate::item::ImplMember::Other(s) => Ok((s@ + "\n"@, Seq::empty())),
        crate::item::ImplMember::Method { item, attr_args } => match attr_args {
            None => Ok((crate::emit::spec_fn_render(item@), Seq::empty())),
            Some(ar) => {
                if ar@.len() > 0 {
                    Err(
                        SpecParseError {
                            pos: 0,
                            msg: "errorset attribute must not have arguments inside impl blocks"@,
                        },
                    )
                } else {
                    match spec_process(a, item) {
                        Err(e) => Err(e),
                        Ok(ProcessedSpec::SUnchanged) => Ok(
                            (crate::emit::spec_fn_render(item@), Seq::empty()),
                        ),
                        Ok(ProcessedSpec::SRewritten(ed, rt)) => {
                            let fnv = crate::item::SpecFnItem {
                                attrs: item@.attrs,
                                vis: item@.vis,
                                qualifiers: item@.qualifiers,
                                name: item@.name,
                                generics: item@.generics,
                                params: item@.params,
                                ret: Some(rt),
                                where_clause: item@.where_clause,
                                body: item@.body,
                            };
                            Ok((crate::emit::spec_fn_render(fnv), ed))
                        },
                    }
                }
            },
        },
    }
}

/// What processing a member list yields: the members' rendered texts and
/// their unions, or the first diagnostic.
pub open spec fn spec_eset_members(ms: Seq<crate::item::ImplMember>, a: ErrorsetArgs) -> Result<
    (Seq<Seq<char>>, Seq<Seq<char>>),
    SpecParseError,
>
    decreases ms.len(),
{
    if ms.len() == 0 {
        Ok((Seq::empty(), Seq::empty()))
    } else {
        match spec_eset_member(ms[0], a) {
            Err(e) => Err(e),
            Ok((r0, g0)) => match spec_eset_members(ms.drop_first(), a) {
                Err(e) => Err(e),
                Ok((rs, gs)) => Ok((seq![r0] + rs, seq![g0] + gs)),
            },
        }
    }
}

/// Whether any member added a union to the module.
pub open spec fn spec_has_gen(gs: Seq<Seq<char>>) -> bool {
    exists|k: int| 0 <= k < gs.len() && gs[k].len() > 0
}

/// What an annotated impl block becomes, as source text.
pub open spec fn spec_handle_impl(
    a: ErrorsetArgs,
    header: Seq<char>,
    ms: Seq<crate::item::ImplMember>,
) -> Result<Seq<char>, SpecParseError> {
    match spec_eset_members(ms, a) {
        Err(e) => Err(e),
        Ok((rs, gs)) => {
            let impl_text = header + " {\n"@ + crate::attach::concat_all(rs) + "}\n"@;
            match a.module {
                Some(m) => {
                    if spec_has_gen(gs) {
                        Ok(
                            spec_vis_prefix(spec_vis_text(a.visibility)) + "mod "@ + m@
                                + " {\n    use super::*;\n"@ + crate::attach::concat_all(gs)
                                + "}\n"@ + impl_text,
                        )
                    } else {
                        Ok(impl_text)
                    }
                },
                None => Ok(crate::attach::concat_all(gs) + impl_text),
            }
        },
    }
}

/// Rewrites an annotated impl block: every marked method's union is emitted,
/// hoisted into the named module when one was given and any union exists.
#[verifier::rlimit(100)]
pub fn handle_impl_block(args: &ErrorsetArgs, header: String, members: Vec<
    crate::item::ImplMember,
>) -> (r: Result<String, ParseError>)
    ensures
        match spec_handle_impl(*args, header@, members@) {
            Ok(t) => r matches Ok(rt) && rt@ == t,
            Err(e) => r matches Err(re) && re@ == e,
        },
{
    let ghost members0 = members@;
    let mut body_acc = String::new();
    let mut mod_acc = String::new();
    let mut any_gen = false;
    let ghost mut rs_done: Seq<Seq<char>> = Seq::empty();
    let ghost mut gs_done: Seq<Seq<char>> = Seq::empty();
    let mut rest = members;
    #[verifier::loop_isolation(false)]
    while rest.len() > 0
        invariant
            rest@.len() <= members0.len(),
            rs_done.len() == members0.len() - rest@.len(),
            gs_done.len() == rs_done.len(),
            rest@ == members0.skip(members0.len() - rest@.len()),
            spec_eset_members(members0, *args) == (match spec_eset_members(rest@, *args) {
                Ok((rs, gs)) => Result::<
                    (Seq<Seq<char>>, Seq<Seq<char>>),
                    SpecParseError,
                >::Ok((rs_done + rs, gs_done + gs)),
                Err(e) => Err(e),
            }),
            body_acc@ == crate::attach::concat_all(rs_done),
            mod_acc@ == crate::attach::concat_all(gs_done),
            any_gen == spec_has_gen(gs_done),
        decreases rest@.len(),
    {
        let ghost pre_members = rest@;
        let ghost pre_rs = rs_done;
        let ghost pre_gs = gs_done;
        let m = rest.remove(0);
        proof {
            assert(rest@ =~= pre_members.drop_first());
            assert(rest@ =~= members0.skip(members0.len() - rest@.len()));
        }
        let ghost gm = m;
        let mut gen_i = String::new();
        let rendered_i: String;
        match m {
            crate::item::ImplMember::Other(s) => {
                let mut t = s;
                t.append("\n");
                rendered_i = t;
            },
            crate::item::ImplMember::Method { item, attr_args } => {
                match attr_args {
                    None => {
                        rendered_i = crate::emit::fn_render(&item);
                    },
                    Some(ar) => {
                        if vstd::string::StrSliceExecFns::unicode_len(ar.as_str()) > 0 {
                            proof {
                                assert(spec_eset_member(gm, *args) == Result::<
                                    (Seq<char>, Seq<char>),
                                    SpecParseError,
                                >::Err(
                                    SpecParseError {
                                        pos: 0,
                                        msg:
                                            "errorset attribute must not have arguments inside impl blocks"@,
                                    },
                                ));
                                assert(pre_members[0] == gm);
                                assert(spec_eset_members(pre_members, *args) == Result::<
                                    (Seq<Seq<char>>, Seq<Seq<char>>),
                                    SpecParseError,
                                >::Err(spec_eset_member(gm, *args)->Err_0));
                                assert(spec_eset_members(members0, *args)
                                    == spec_eset_members(pre_members, *args));
                                assert(spec_handle_impl(*args, header@, members0) is Err);
                            }
                            return Err(
                                ParseError {
                                    pos: 0,
                                    msg:
                                        "errorset attribute must not have arguments inside impl blocks".to_owned(),
                                },
                            );
                        }
                        let ghost gitem = item;
                        match process_fn(args, item) {
                            Err(e) => {
                                proof {
                                    assert(spec_eset_member(gm, *args) == Result::<
                                        (Seq<char>, Seq<char>),
                                        SpecParseError,
                                    >::Err(e@));
                                    assert(pre_members[0] == gm);
                                    assert(spec_eset_members(pre_members, *args) == Result::<
                                        (Seq<Seq<char>>, Seq<Seq<char>>),
                                        SpecParseError,
                                    >::Err(e@));
                                    assert(spec_eset_members(members0, *args)
                                        == spec_eset_members(pre_members, *args));
                                    assert(spec_handle_impl(*args, header@, members0) is Err);
                                }
                                return Err(e);
                            },
                            Ok(Processed::Unchanged(it)) => {
                                rendered_i = crate::emit::fn_render(&it);
                            },
                            Ok(Processed::Rewritten(o)) => {
                                rendered_i = crate::emit::fn_render(&o.fn_def);
                                gen_i = o.enum_def;
                            },
                        }
                    },
                }
            },
        }
        proof {
            assert(spec_eset_member(gm, *args) == Result::<
                (Seq<char>, Seq<char>),
                SpecParseError,
            >::Ok((rendered_i@, gen_i@)));
        }
        if vstd::string::StrSliceExecFns::unicode_len(gen_i.as_str()) > 0 {
            any_gen = true;
        }
        body_acc.append(rendered_i.as_str());
        mod_acc.append(gen_i.as_str());
        proof {
            crate::attach::lemma_concat_all_push(pre_rs, rendered_i@);
            crate::attach::lemma_concat_all_push(pre_gs, gen_i@);
            rs_done = rs_done.push(rendered_i@);
            gs_done = gs_done.push(gen_i@);
            let k = rs_done.len() - 1;
            assert(pre_members == members0.skip(k));
            assert(members0.skip(k)[0] == members0[k]);
            assert(gm == members0[k]);
            assert(pre_members[0] == gm);
            assert(pre_members.drop_first() =~= rest@);
            if spec_eset_members(rest@, *args) is Ok {
                let (rs, gs) = spec_eset_members(rest@, *args)->Ok_0;
                assert(spec_eset_members(pre_members, *args) == Result::<
                    (Seq<Seq<char>>, Seq<Seq<char>>),
                    SpecParseError,
                >::Ok((seq![rendered_i@] + rs, seq![gen_i@] + gs)));
                assert(pre_rs + (seq![rendered_i@] + rs) =~= rs_done + rs);
                assert(pre_gs + (seq![gen_i@] + gs) =~= gs_done + gs);
            } else {
                assert(spec_eset_members(pre_members, *args) == Result::<
                    (Seq<Seq<char>>, Seq<Seq<char>>),
                    SpecParseError,
                >::Err(spec_eset_members(rest@, *args)->Err_0));
            }
            if gen_i@.len() > 0 {
                assert(gs_done[k].len() > 0);
                assert(spec_has_gen(gs_done));
            } else if spec_has_gen(pre_gs) {
                let w = choose|w: int| 0 <= w < pre_gs.len() && pre_gs[w].len() > 0;
                assert(gs_done[w].len() > 0);
                assert(spec_has_gen(gs_done));
            } else {
                assert forall|w: int| 0 <= w < gs_done.len() implies !(gs_done[w].len() > 0) by {
                    if w < pre_gs.len() {
                        assert(!(pre_gs[w].len() > 0));
                    } else {
                        assert(gs_done[w] == gen_i@);
                    }
                }
                assert(!spec_has_gen(gs_done));
            }
        }
    }
    proof {
        assert(rs_done.len() == members0.len());
        assert(spec_eset_members(Seq::<crate::item::ImplMember>::empty(), *args) == Result::<
            (Seq<Seq<char>>, Seq<Seq<char>>),
            SpecParseError,
        >::Ok((Seq::empty(), Seq::empty())));
        assert(rs_done + Seq::<Seq<char>>::empty() =~= rs_done);
        assert(gs_done + Seq::<Seq<char>>::empty() =~= gs_done);
    }
    let mut impl_text = header;
    impl_text.append(" {\n");
    impl_text.append(body_acc.as_str());
    impl_text.append("}\n");
    match &args.module {
        Some(m) => {
            if any_gen {
                let mut out = vis_prefix(vis_text(args.visibility).as_str());
                out.append("mod ");
                out.append(m.as_str());
                out.append(" {\n    use super::*;\n");
                out.append(mod_acc.as_str());
                out.append("}\n");
                out.append(impl_text.as_str());
                Ok(out)
            } else {
                Ok(impl_text)
            }
        },
        None => {
            let mut out = mod_acc;
            out.append(impl_text.as_str());
            Ok(out)
        },
    }
}

/// The item an annotated input is: one function, or an impl block split
/// into its members.
#[derive(Debug)]
pub enum ErrorsetInput {
    Function(FnItem),
    Impl { header: String, members: Vec<crate::item::ImplMember> },
}

/// The whole facility: parses the attribute arguments and rewrites the
/// annotated item, emitting its unions.
pub fn errorset(attr: &str, input: ErrorsetInput) -> (r: Result<String, ParseError>)
    ensures
        match crate::token::spec_lex(attr@, 0) {
            Err(le) => r matches Err(e) && e@ == crate::attach::spec_lex_diag(le),
            Ok(ts) => match spec_parse_errorset_args(ts) {
                Err(pe) => r matches Err(e) && e@ == pe,
                Ok(sa) => exists|ax: ErrorsetArgs|
                    #[trigger] ax@ == sa && (match input {
                        ErrorsetInput::Function(item) => match spec_handle_function(ax, item) {
                            Ok(t) => r matches Ok(rt) && rt@ == t,
                            Err(e) => r matches Err(re) && re@ == e,
                        },
                        ErrorsetInput::Impl { header, members } => match spec_handle_impl(
                            ax,
                            header@,
                            members@,
                        ) {
                            Ok(t) => r matches Ok(rt) && rt@ == t,
                            Err(e) => r matches Err(re) && re@ == e,
                        },
                    }),
            },
        },
{
    let toks = match lex(attr) {
        Ok(toks) => toks,
        Err(le) => {
            return Err(ParseError { pos: le.pos, msg: "unrecognized token".to_owned() });
        },
    };
    let a = match ErrorsetArgs::parse(&toks) {
        Ok(a) => a,
        Err(e) => {
            return Err(e);
        },
    };
    let ghost ga = a;
    match input {
        ErrorsetInput::Function(item) => handle_function(&a, item),
        ErrorsetInput::Impl { header, members } => handle_impl_block(&a, header, members),
    }
}

} // verus!
