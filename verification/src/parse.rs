//! The recursive-descent parser of the error mini-language.
//!
//! Grammar, over the tokens of [`crate::token`]:
//!
//! ```text
//! smart     := [ def { "," def } [ "," ] ]
//! def       := inherited | own
//! inherited := "from" Ident "{" [ inhdef { "," inhdef } [ "," ] ] "}"
//! inhdef    := handled | own            (own: a field list is rejected)
//! handled   := "handled" Ident | "handled" "{" [ Ident { "," Ident } [ "," ] ] "}"
//! own       := [ vis ] Ident [ source ] [ fields ] [ "->" LitStr ]
//! source    := "<" [ type ] ">" | "<<" [ type ] ">>"
//! fields    := "{" [ field { "," field } [ "," ] ] "}"
//! field     := [ vis ] Ident ":" type
//! vis       := "pub" [ "(" ("crate" | "super") ")" ]
//! fledged   := [ vis ] Ident "{" [ own { "," own } [ "," ] ] "}"
//! ns        := [ vis ] Ident
//! ```
//!
//! Each parser is stated against a spec-level mirror of itself, so what it
//! accepts, what it produces and which diagnostic it reports are pinned for
//! every token sequence.

use vstd::prelude::*;

use vstd::string::StrSliceExecFns;

use crate::ast::{
    ErrorDef, ErrorNs, Field, FledgedError, HandledError, InheritedErrorDef, InheritedErrors,
    OwnError, SmartErrors, SourceKind, SpecDef, SpecField, SpecFledged, SpecInh, SpecInhDef,
    SpecNs, SpecOwn, SpecSource, Vis,
};
use crate::token::{toks_view, SpecTokKind, SpecToken, TokKind, Token};

verus! {

/// A diagnostic: the character position it points at, and its message.
#[derive(Debug, Clone)]
pub struct ParseError {
    pub pos: usize,
    pub msg: String,
}

/// The mathematical form of a diagnostic.
pub struct SpecParseError {
    pub pos: int,
    pub msg: Seq<char>,
}

impl View for ParseError {
    type V = SpecParseError;

    open spec fn view(&self) -> SpecParseError {
        SpecParseError { pos: self.pos as int, msg: self.msg@ }
    }
}

/// The token kind at a position, when there is one.
pub open spec fn kind_at(ts: Seq<SpecToken>, pos: int) -> Option<SpecTokKind> {
    if 0 <= pos < ts.len() {
        Some(ts[pos].kind)
    } else {
        None
    }
}

/// The identifier text at a position, when the token there is an identifier.
pub open spec fn ident_at(ts: Seq<SpecToken>, pos: int) -> Option<Seq<char>> {
    match kind_at(ts, pos) {
        Some(SpecTokKind::Ident(s)) => Some(s),
        _ => None,
    }
}

/// Whether the token at a position is the given keyword.
pub open spec fn is_kw(ts: Seq<SpecToken>, pos: int, kw: Seq<char>) -> bool {
    ident_at(ts, pos) == Some(kw)
}

/// The character position a diagnostic at token `pos` points at.
pub open spec fn diag_pos(ts: Seq<SpecToken>, pos: int) -> int {
    if 0 <= pos < ts.len() {
        ts[pos].pos
    } else if ts.len() > 0 {
        ts[ts.len() - 1].pos
    } else {
        0
    }
}

/// A diagnostic at token `pos`.
pub open spec fn err_at(ts: Seq<SpecToken>, pos: int, msg: Seq<char>) -> SpecParseError {
    SpecParseError { pos: diag_pos(ts, pos), msg }
}

/// Parses an optional visibility marker.
pub open spec fn spec_parse_vis(ts: Seq<SpecToken>, pos: int) -> Result<
    (Vis, int),
    SpecParseError,
> {
    if is_kw(ts, pos, "pub"@) {
        if kind_at(ts, pos + 1) == Some(SpecTokKind::LParen) {
            if is_kw(ts, pos + 2, "crate"@) && kind_at(ts, pos + 3) == Some(
                SpecTokKind::RParen,
            ) {
                Ok((Vis::PubCrate, pos + 4))
            } else if is_kw(ts, pos + 2, "super"@) && kind_at(ts, pos + 3) == Some(
                SpecTokKind::RParen,
            ) {
                Ok((Vis::PubSuper, pos + 4))
            } else {
                Err(err_at(ts, pos + 1, "malformed visibility"@))
            }
        } else {
            Ok((Vis::Public, pos + 1))
        }
    } else {
        Ok((Vis::Default, pos))
    }
}

/// Parses a type as a balanced token run, rendered to text; stops at a
/// separator that is not inside angle brackets or parentheses.
pub open spec fn spec_type_toks(ts: Seq<SpecToken>, pos: int, adepth: int, pdepth: int) -> Result<
    (Seq<char>, int),
    SpecParseError,
>
    decreases ts.len() - pos,
{
    if pos < 0 || pos >= ts.len() {
        if adepth == 0 && pdepth == 0 {
            Ok((Seq::empty(), pos))
        } else {
            Err(err_at(ts, pos, "unbalanced brackets in type"@))
        }
    } else {
        match ts[pos].kind {
            SpecTokKind::Ident(s) => {
                let sep: Seq<char> = if ident_at(ts, pos + 1) is Some {
                    " "@
                } else {
                    Seq::empty()
                };
                match spec_type_toks(ts, pos + 1, adepth, pdepth) {
                    Ok((t, j)) => Ok((s + sep + t, j)),
                    Err(e) => Err(e),
                }
            },
            SpecTokKind::PathSep => {
                match spec_type_toks(ts, pos + 1, adepth, pdepth) {
                    Ok((t, j)) => Ok(("::"@ + t, j)),
                    Err(e) => Err(e),
                }
            },
            SpecTokKind::Amp => {
                match spec_type_toks(ts, pos + 1, adepth, pdepth) {
                    Ok((t, j)) => Ok(("&"@ + t, j)),
                    Err(e) => Err(e),
                }
            },
            SpecTokKind::Lt(_) => {
                match spec_type_toks(ts, pos + 1, adepth + 1, pdepth) {
                    Ok((t, j)) => Ok(("<"@ + t, j)),
                    Err(e) => Err(e),
                }
            },
            SpecTokKind::Gt(_) => {
                if adepth == 0 && pdepth == 0 {
                    Ok((Seq::empty(), pos))
                } else if adepth > 0 {
                    match spec_type_toks(ts, pos + 1, adepth - 1, pdepth) {
                        Ok((t, j)) => Ok((">"@ + t, j)),
                        Err(e) => Err(e),
                    }
                } else {
                    Err(err_at(ts, pos, "unbalanced brackets in type"@))
                }
            },
            SpecTokKind::LParen => {
                match spec_type_toks(ts, pos + 1, adepth, pdepth + 1) {
                    Ok((t, j)) => Ok(("("@ + t, j)),
                    Err(e) => Err(e),
                }
            },
            SpecTokKind::RParen => {
                if pdepth == 0 && adepth == 0 {
                    Ok((Seq::empty(), pos))
                } else if pdepth > 0 {
                    match spec_type_toks(ts, pos + 1, adepth, pdepth - 1) {
                        Ok((t, j)) => Ok((")"@ + t, j)),
                        Err(e) => Err(e),
                    }
                } else {
                    Err(err_at(ts, pos, "unbalanced brackets in type"@))
                }
            },
            SpecTokKind::Comma => {
                if adepth == 0 && pdepth == 0 {
                    Ok((Seq::empty(), pos))
                } else {
                    match spec_type_toks(ts, pos + 1, adepth, pdepth) {
                        Ok((t, j)) => Ok((", "@ + t, j)),
                        Err(e) => Err(e),
                    }
                }
            },
            SpecTokKind::LBrace => {
                if adepth == 0 && pdepth == 0 {
                    Ok((Seq::empty(), pos))
                } else {
                    Err(err_at(ts, pos, "unexpected token in type"@))
                }
            },
            SpecTokKind::RBrace => {
                if adepth == 0 && pdepth == 0 {
                    Ok((Seq::empty(), pos))
                } else {
                    Err(err_at(ts, pos, "unexpected token in type"@))
                }
            },
            SpecTokKind::Arrow => {
                if adepth == 0 && pdepth == 0 {
                    Ok((Seq::empty(), pos))
                } else {
                    Err(err_at(ts, pos, "unexpected token in type"@))
                }
            },
            _ => Err(err_at(ts, pos, "unexpected token in type"@)),
        }
    }
}

pub proof fn lemma_type_range(ts: Seq<SpecToken>, pos: int, adepth: int, pdepth: int)
    requires
        0 <= pos <= ts.len(),
    ensures
        match spec_type_toks(ts, pos, adepth, pdepth) {
            Ok((t, j)) => pos <= j <= ts.len(),
            Err(_) => true,
        },
    decreases ts.len() - pos,
{
    if pos < ts.len() {
        match ts[pos].kind {
            SpecTokKind::Ident(_) => lemma_type_range(ts, pos + 1, adepth, pdepth),
            SpecTokKind::PathSep => lemma_type_range(ts, pos + 1, adepth, pdepth),
            SpecTokKind::Amp => lemma_type_range(ts, pos + 1, adepth, pdepth),
            SpecTokKind::Lt(_) => lemma_type_range(ts, pos + 1, adepth + 1, pdepth),
            SpecTokKind::Gt(_) => {
                if adepth > 0 {
                    lemma_type_range(ts, pos + 1, adepth - 1, pdepth);
                }
            },
            SpecTokKind::LParen => lemma_type_range(ts, pos + 1, adepth, pdepth + 1),
            SpecTokKind::RParen => {
                if pdepth > 0 {
                    lemma_type_range(ts, pos + 1, adepth, pdepth - 1);
                }
            },
            SpecTokKind::Comma => {
                if !(adepth == 0 && pdepth == 0) {
                    lemma_type_range(ts, pos + 1, adepth, pdepth);
                }
            },
            _ => {},
        }
    }
}

/// Parses a source bracket group after a variant name.
pub open spec fn spec_parse_source(ts: Seq<SpecToken>, pos: int) -> Result<
    (SpecSource, int),
    SpecParseError,
> {
    match kind_at(ts, pos) {
        Some(SpecTokKind::Lt(joint)) => {
            if joint && kind_at(ts, pos + 1) matches Some(SpecTokKind::Lt(_)) {
                match spec_type_toks(ts, pos + 2, 0, 0) {
                    Ok((text, j)) => {
                        if (kind_at(ts, j) matches Some(SpecTokKind::Gt(jg)) && jg) && (kind_at(
                            ts,
                            j + 1,
                        ) matches Some(SpecTokKind::Gt(_))) {
                            if j == pos + 2 {
                                Ok((SpecSource::DynDebug, j + 2))
                            } else {
                                Ok((SpecSource::BoxedDebug(text), j + 2))
                            }
                        } else {
                            Err(err_at(ts, j, "malformed source brackets"@))
                        }
                    },
                    Err(e) => Err(e),
                }
            } else {
                match spec_type_toks(ts, pos + 1, 0, 0) {
                    Ok((text, j)) => {
                        if kind_at(ts, j) matches Some(SpecTokKind::Gt(_)) {
                            if j == pos + 1 {
                                Ok((SpecSource::DynError, j + 1))
                            } else {
                                Ok((SpecSource::Typed(text), j + 1))
                            }
                        } else {
                            Err(err_at(ts, j, "malformed source brackets"@))
                        }
                    },
                    Err(e) => Err(e),
                }
            }
        },
        _ => Ok((SpecSource::NoSource, pos)),
    }
}

pub proof fn lemma_source_range(ts: Seq<SpecToken>, pos: int)
    requires
        0 <= pos <= ts.len(),
    ensures
        match spec_parse_source(ts, pos) {
            Ok((_, j)) => pos <= j <= ts.len(),
            Err(_) => true,
        },
{
    match kind_at(ts, pos) {
        Some(SpecTokKind::Lt(joint)) => {
            if joint && kind_at(ts, pos + 1) matches Some(SpecTokKind::Lt(_)) {
                lemma_type_range(ts, pos + 2, 0, 0);
            } else {
                lemma_type_range(ts, pos + 1, 0, 0);
            }
        },
        _ => {},
    }
}

/// Parses one field: optional visibility, name, colon, nonempty type.
pub open spec fn spec_parse_field(ts: Seq<SpecToken>, pos: int) -> Result<
    (SpecField, int),
    SpecParseError,
> {
    match spec_parse_vis(ts, pos) {
        Ok((vis, j0)) => {
            match ident_at(ts, j0) {
                Some(name) => {
                    if kind_at(ts, j0 + 1) == Some(SpecTokKind::Colon) {
                        match spec_type_toks(ts, j0 + 2, 0, 0) {
                            Ok((ty, j1)) => {
                                if j1 == j0 + 2 {
                                    Err(err_at(ts, j0 + 2, "expected field type"@))
                                } else {
                                    Ok((SpecField { vis, name, ty }, j1))
                                }
                            },
                            Err(e) => Err(e),
                        }
                    } else {
                        Err(err_at(ts, j0 + 1, "expected colon after field name"@))
                    }
                },
                None => Err(err_at(ts, j0, "expected field name"@)),
            }
        },
        Err(e) => Err(e),
    }
}

pub proof fn lemma_field_progress(ts: Seq<SpecToken>, pos: int)
    requires
        0 <= pos <= ts.len(),
    ensures
        match spec_parse_field(ts, pos) {
            Ok((_, j)) => pos < j <= ts.len(),
            Err(_) => true,
        },
{
    if spec_parse_field(ts, pos) is Ok {
        let (_, j0) = spec_parse_vis(ts, pos)->Ok_0;
        assert(pos <= j0 <= ts.len());
        lemma_type_range(ts, j0 + 2, 0, 0);
    }
}

/// Parses the items of a field list after its opening brace.
pub open spec fn spec_fields_list(ts: Seq<SpecToken>, pos: int) -> Result<
    (Seq<SpecField>, int),
    SpecParseError,
>
    decreases ts.len() - pos,
    when 0 <= pos <= ts.len()
    via spec_fields_list_dec
{
    if kind_at(ts, pos) == Some(SpecTokKind::RBrace) {
        Ok((Seq::empty(), pos + 1))
    } else {
        match spec_parse_field(ts, pos) {
            Ok((f, j)) => {
                if kind_at(ts, j) == Some(SpecTokKind::Comma) {
                    match spec_fields_list(ts, j + 1) {
                        Ok((fs, j2)) => Ok((seq![f] + fs, j2)),
                        Err(e) => Err(e),
                    }
                } else if kind_at(ts, j) == Some(SpecTokKind::RBrace) {
                    Ok((seq![f], j + 1))
                } else {
                    Err(err_at(ts, j, "expected comma or closing brace"@))
                }
            },
            Err(e) => Err(e),
        }
    }
}

#[via_fn]
proof fn spec_fields_list_dec(ts: Seq<SpecToken>, pos: int) {
    lemma_field_progress(ts, pos);
}

pub proof fn lemma_fields_list_range(ts: Seq<SpecToken>, pos: int)
    requires
        0 <= pos <= ts.len(),
    ensures
        match spec_fields_list(ts, pos) {
            Ok((_, j)) => pos < j <= ts.len(),
            Err(_) => true,
        },
    decreases ts.len() - pos,
{
    if kind_at(ts, pos) == Some(SpecTokKind::RBrace) {
    } else {
        lemma_field_progress(ts, pos);
        match spec_parse_field(ts, pos) {
            Ok((f, j)) => {
                if kind_at(ts, j) == Some(SpecTokKind::Comma) {
                    lemma_fields_list_range(ts, j + 1);
                }
            },
            Err(_) => {},
        }
    }
}

/// Parses an optional field list.
pub open spec fn spec_parse_fields(ts: Seq<SpecToken>, pos: int) -> Result<
    (Option<Seq<SpecField>>, int),
    SpecParseError,
> {
    if kind_at(ts, pos) == Some(SpecTokKind::LBrace) {
        match spec_fields_list(ts, pos + 1) {
            Ok((fs, j)) => Ok((Some(fs), j)),
            Err(e) => Err(e),
        }
    } else {
        Ok((None, pos))
    }
}

/// Parses one own declaration.
pub open spec fn spec_parse_own(ts: Seq<SpecToken>, pos: int) -> Result<
    (SpecOwn, int),
    SpecParseError,
> {
    match spec_parse_vis(ts, pos) {
        Ok((v, j0)) => {
            match ident_at(ts, j0) {
                Some(name) => {
                    match spec_parse_source(ts, j0 + 1) {
                        Ok((source, j1)) => {
                            match spec_parse_fields(ts, j1) {
                                Ok((fields, j2)) => {
                                    if kind_at(ts, j2) == Some(SpecTokKind::Arrow) {
                                        match kind_at(ts, j2 + 1) {
                                            Some(SpecTokKind::LitStr(m)) => Ok(
                                                (
                                                    SpecOwn {
                                                        vis: if v is Default {
                                                            None
                                                        } else {
                                                            Some(v)
                                                        },
                                                        name,
                                                        fields,
                                                        source,
                                                        msg: Some(m),
                                                    },
                                                    j2 + 2,
                                                ),
                                            ),
                                            _ => Err(
                                                err_at(ts, j2 + 1, "expected message literal"@),
                                            ),
                                        }
                                    } else {
                                        Ok(
                                            (
                                                SpecOwn {
                                                    vis: if v is Default {
                                                        None
                                                    } else {
                                                        Some(v)
                                                    },
                                                    name,
                                                    fields,
                                                    source,
                                                    msg: None,
                                                },
                                                j2,
                                            ),
                                        )
                                    }
                                },
                                Err(e) => Err(e),
                            }
                        },
                        Err(e) => Err(e),
                    }
                },
                None => Err(err_at(ts, j0, "expected error name"@)),
            }
        },
        Err(e) => Err(e),
    }
}

pub proof fn lemma_own_progress(ts: Seq<SpecToken>, pos: int)
    requires
        0 <= pos <= ts.len(),
    ensures
        match spec_parse_own(ts, pos) {
            Ok((_, j)) => pos < j <= ts.len(),
            Err(_) => true,
        },
{
    if spec_parse_own(ts, pos) is Ok {
        let (v, j0) = spec_parse_vis(ts, pos)->Ok_0;
        lemma_source_range(ts, j0 + 1);
        let (_, j1) = spec_parse_source(ts, j0 + 1)->Ok_0;
        if kind_at(ts, j1) == Some(SpecTokKind::LBrace) {
            lemma_fields_list_range(ts, j1 + 1);
        }
    }
}

/// Parses a handled marker: one name or a brace group of names.
pub open spec fn spec_handled_names(ts: Seq<SpecToken>, pos: int) -> Result<
    (Seq<Seq<char>>, int),
    SpecParseError,
>
    decreases ts.len() - pos,
    when 0 <= pos <= ts.len()
{
    if kind_at(ts, pos) == Some(SpecTokKind::RBrace) {
        Ok((Seq::empty(), pos + 1))
    } else {
        match ident_at(ts, pos) {
            Some(nm) => {
                if kind_at(ts, pos + 1) == Some(SpecTokKind::Comma) {
                    match spec_handled_names(ts, pos + 2) {
                        Ok((ns, j)) => Ok((seq![nm] + ns, j)),
                        Err(e) => Err(e),
                    }
                } else if kind_at(ts, pos + 1) == Some(SpecTokKind::RBrace) {
                    Ok((seq![nm], pos + 2))
                } else {
                    Err(err_at(ts, pos + 1, "expected comma or closing brace"@))
                }
            },
            None => Err(err_at(ts, pos, "expected error name"@)),
        }
    }
}

pub proof fn lemma_handled_names_range(ts: Seq<SpecToken>, pos: int)
    requires
        0 <= pos <= ts.len(),
    ensures
        match spec_handled_names(ts, pos) {
            Ok((_, j)) => pos < j <= ts.len(),
            Err(_) => true,
        },
    decreases ts.len() - pos,
{
    if kind_at(ts, pos) == Some(SpecTokKind::RBrace) {
    } else {
        match ident_at(ts, pos) {
            Some(_) => {
                if kind_at(ts, pos + 1) == Some(SpecTokKind::Comma) {
                    lemma_handled_names_range(ts, pos + 2);
                }
            },
            None => {},
        }
    }
}

/// Parses a handled marker, `handled` keyword included.
pub open spec fn spec_parse_handled(ts: Seq<SpecToken>, pos: int) -> Result<
    (Seq<Seq<char>>, int),
    SpecParseError,
> {
    if !is_kw(ts, pos, "handled"@) {
        Err(err_at(ts, pos, "expected `handled`"@))
    } else if kind_at(ts, pos + 1) == Some(SpecTokKind::LBrace) {
        spec_handled_names(ts, pos + 2)
    } else {
        match ident_at(ts, pos + 1) {
            Some(nm) => Ok((seq![nm], pos + 2)),
            None => Err(err_at(ts, pos + 1, "expected error name"@)),
        }
    }
}

/// Parses one item of an inherited block.
pub open spec fn spec_parse_inh_def(ts: Seq<SpecToken>, pos: int) -> Result<
    (SpecInhDef, int),
    SpecParseError,
> {
    if is_kw(ts, pos, "handled"@) {
        match spec_parse_handled(ts, pos) {
            Ok((ns, j)) => Ok((SpecInhDef::Handled(ns), j)),
            Err(e) => Err(e),
        }
    } else {
        match spec_parse_own(ts, pos) {
            Ok((oe, j)) => {
                if oe.fields is Some {
                    Err(err_at(ts, pos, "Inherited error cannot contain its own definition"@))
                } else {
                    Ok((SpecInhDef::Unhandled(oe), j))
                }
            },
            Err(e) => Err(e),
        }
    }
}

pub proof fn lemma_inh_def_progress(ts: Seq<SpecToken>, pos: int)
    requires
        0 <= pos <= ts.len(),
    ensures
        match spec_parse_inh_def(ts, pos) {
            Ok((_, j)) => pos < j <= ts.len(),
            Err(_) => true,
        },
{
    if is_kw(ts, pos, "handled"@) {
        if kind_at(ts, pos + 1) == Some(SpecTokKind::LBrace) {
            lemma_handled_names_range(ts, pos + 2);
        }
    } else {
        lemma_own_progress(ts, pos);
    }
}

/// Parses the items of an inherited block after its opening brace.
pub open spec fn spec_inh_items(ts: Seq<SpecToken>, pos: int) -> Result<
    (Seq<SpecInhDef>, int),
    SpecParseError,
>
    decreases ts.len() - pos,
    when 0 <= pos <= ts.len()
    via spec_inh_items_dec
{
    if kind_at(ts, pos) == Some(SpecTokKind::RBrace) {
        Ok((Seq::empty(), pos + 1))
    } else {
        match spec_parse_inh_def(ts, pos) {
            Ok((d, j)) => {
                if kind_at(ts, j) == Some(SpecTokKind::Comma) {
                    match spec_inh_items(ts, j + 1) {
                        Ok((ds, j2)) => Ok((seq![d] + ds, j2)),
                        Err(e) => Err(e),
                    }
                } else if kind_at(ts, j) == Some(SpecTokKind::RBrace) {
                    Ok((seq![d], j + 1))
                } else {
                    Err(err_at(ts, j, "expected comma or closing brace"@))
                }
            },
            Err(e) => Err(e),
        }
    }
}

#[via_fn]
proof fn spec_inh_items_dec(ts: Seq<SpecToken>, pos: int) {
    lemma_inh_def_progress(ts, pos);
}

pub proof fn lemma_inh_items_range(ts: Seq<SpecToken>, pos: int)
    requires
        0 <= pos <= ts.len(),
    ensures
        match spec_inh_items(ts, pos) {
            Ok((_, j)) => pos < j <= ts.len(),
            Err(_) => true,
        },
    decreases ts.len() - pos,
{
    if kind_at(ts, pos) == Some(SpecTokKind::RBrace) {
    } else {
        lemma_inh_def_progress(ts, pos);
        match spec_parse_inh_def(ts, pos) {
            Ok((_, j)) => {
                if kind_at(ts, j) == Some(SpecTokKind::Comma) {
                    lemma_inh_items_range(ts, j + 1);
                }
            },
            Err(_) => {},
        }
    }
}

/// Parses an inherited block, `from` keyword included.
pub open spec fn spec_parse_inherited(ts: Seq<SpecToken>, pos: int) -> Result<
    (SpecInh, int),
    SpecParseError,
> {
    if !is_kw(ts, pos, "from"@) {
        Err(err_at(ts, pos, "expected `from`"@))
    } else {
        match ident_at(ts, pos + 1) {
            Some(src) => {
                if kind_at(ts, pos + 2) == Some(SpecTokKind::LBrace) {
                    match spec_inh_items(ts, pos + 3) {
                        Ok((items, j)) => Ok((SpecInh { source: src, errors: items }, j)),
                        Err(e) => Err(e),
                    }
                } else {
                    Err(err_at(ts, pos + 2, "expected brace group after set name"@))
                }
            },
            None => Err(err_at(ts, pos + 1, "expected set name"@)),
        }
    }
}

/// Parses one entry of the definition list.
pub open spec fn spec_parse_def(ts: Seq<SpecToken>, pos: int) -> Result<
    (SpecDef, int),
    SpecParseError,
> {
    if is_kw(ts, pos, "from"@) {
        match spec_parse_inherited(ts, pos) {
            Ok((ie, j)) => Ok((SpecDef::Inherited(ie), j)),
            Err(e) => Err(e),
        }
    } else {
        match spec_parse_own(ts, pos) {
            Ok((oe, j)) => Ok((SpecDef::Own(oe), j)),
            Err(e) => Err(e),
        }
    }
}

pub proof fn lemma_def_progress(ts: Seq<SpecToken>, pos: int)
    requires
        0 <= pos <= ts.len(),
    ensures
        match spec_parse_def(ts, pos) {
            Ok((_, j)) => pos < j <= ts.len(),
            Err(_) => true,
        },
{
    if is_kw(ts, pos, "from"@) {
        if spec_parse_def(ts, pos) is Ok {
            lemma_inh_items_range(ts, pos + 3);
        }
    } else {
        lemma_own_progress(ts, pos);
    }
}

/// Parses a whole definition list, to the end of the tokens.
pub open spec fn spec_parse_defs(ts: Seq<SpecToken>, pos: int) -> Result<
    (Seq<SpecDef>, int),
    SpecParseError,
>
    decreases ts.len() - pos,
    when 0 <= pos <= ts.len()
    via spec_parse_defs_dec
{
    if pos >= ts.len() {
        Ok((Seq::empty(), pos))
    } else {
        match spec_parse_def(ts, pos) {
            Ok((d, j)) => {
                if j >= ts.len() {
                    Ok((seq![d], j))
                } else if kind_at(ts, j) == Some(SpecTokKind::Comma) {
                    match spec_parse_defs(ts, j + 1) {
                        Ok((ds, j2)) => Ok((seq![d] + ds, j2)),
                        Err(e) => Err(e),
                    }
                } else {
                    Err(err_at(ts, j, "expected comma"@))
                }
            },
            Err(e) => Err(e),
        }
    }
}

#[via_fn]
proof fn spec_parse_defs_dec(ts: Seq<SpecToken>, pos: int) {
    lemma_def_progress(ts, pos);
}

/// Parses the whole argument list of a per-function declaration.
pub open spec fn spec_parse_smart(ts: Seq<SpecToken>) -> Result<Seq<SpecDef>, SpecParseError> {
    match spec_parse_defs(ts, 0) {
        Ok((ds, _)) => Ok(ds),
        Err(e) => Err(e),
    }
}

/// Parses the own declarations of a fledged set after its opening brace.
pub open spec fn spec_own_list(ts: Seq<SpecToken>, pos: int) -> Result<
    (Seq<SpecOwn>, int),
    SpecParseError,
>
    decreases ts.len() - pos,
    when 0 <= pos <= ts.len()
    via spec_own_list_dec
{
    if kind_at(ts, pos) == Some(SpecTokKind::RBrace) {
        Ok((Seq::empty(), pos + 1))
    } else {
        match spec_parse_own(ts, pos) {
            Ok((oe, j)) => {
                if kind_at(ts, j) == Some(SpecTokKind::Comma) {
                    match spec_own_list(ts, j + 1) {
                        Ok((oes, j2)) => Ok((seq![oe] + oes, j2)),
                        Err(e) => Err(e),
                    }
                } else if kind_at(ts, j) == Some(SpecTokKind::RBrace) {
                    Ok((seq![oe], j + 1))
                } else {
                    Err(err_at(ts, j, "expected comma or closing brace"@))
                }
            },
            Err(e) => Err(e),
        }
    }
}

#[via_fn]
proof fn spec_own_list_dec(ts: Seq<SpecToken>, pos: int) {
    lemma_own_progress(ts, pos);
}

/// Parses a fledged set declaration: visibility, name, own declarations.
pub open spec fn spec_parse_fledged(ts: Seq<SpecToken>) -> Result<SpecFledged, SpecParseError> {
    match spec_parse_vis(ts, 0) {
        Ok((v, j0)) => {
            match ident_at(ts, j0) {
                Some(name) => {
                    if kind_at(ts, j0 + 1) == Some(SpecTokKind::LBrace) {
                        match spec_own_list(ts, j0 + 2) {
                            Ok((oes, j)) => {
                                if j == ts.len() {
                                    Ok(SpecFledged { vis: v, name, definition: oes })
                                } else {
                                    Err(err_at(ts, j, "unexpected trailing tokens"@))
                                }
                            },
                            Err(e) => Err(e),
                        }
                    } else {
                        Err(err_at(ts, j0 + 1, "expected brace group after set name"@))
                    }
                },
                None => Err(err_at(ts, j0, "expected set name"@)),
            }
        },
        Err(e) => Err(e),
    }
}

/// Parses a module name with a visibility.
pub open spec fn spec_parse_ns(ts: Seq<SpecToken>) -> Result<SpecNs, SpecParseError> {
    match spec_parse_vis(ts, 0) {
        Ok((v, j0)) => {
            match ident_at(ts, j0) {
                Some(name) => {
                    if j0 + 1 == ts.len() {
                        Ok(SpecNs { vis: v, name })
                    } else {
                        Err(err_at(ts, j0 + 1, "unexpected trailing tokens"@))
                    }
                },
                None => Err(err_at(ts, j0, "expected module name"@)),
            }
        },
        Err(e) => Err(e),
    }
}

/// Builds the diagnostic the specs describe at token `pos`.
pub fn perr(toks: &Vec<Token>, pos: usize, msg: &str) -> (r: ParseError)
    ensures
        r@ == err_at(toks_view(toks@), pos as int, msg@),
{
    let p: usize = if pos < toks.len() {
        toks[pos].pos
    } else if toks.len() > 0 {
        toks[toks.len() - 1].pos
    } else {
        0
    };
    ParseError { pos: p, msg: msg.to_owned() }
}

/// Whether the token at `pos` is the given keyword.
pub fn peek_kw(toks: &Vec<Token>, pos: usize, kw: &str) -> (r: bool)
    ensures
        r == is_kw(toks_view(toks@), pos as int, kw@),
{
    if pos < toks.len() {
        match &toks[pos].kind {
            TokKind::Ident(s) => crate::text::str_eq(s.as_str(), kw),
            _ => false,
        }
    } else {
        false
    }
}

/// Parses an optional visibility marker.
pub fn parse_vis(toks: &Vec<Token>, pos: usize) -> (r: Result<(Vis, usize), ParseError>)
    requires
        pos <= toks@.len(),
    ensures
        match spec_parse_vis(toks_view(toks@), pos as int) {
            Ok((v, j)) => r matches Ok((rv, rj)) && rv == v && rj == j,
            Err(e) => r matches Err(re) && re@ == e,
        },
{
    if peek_kw(toks, pos, "pub") {
        proof {
            assert(pos < toks_view(toks@).len());
            assert(toks@.len() == toks.len());
        }
        let p1 = pos + 1;
        if p1 < toks.len() && matches!(&toks[p1].kind, TokKind::LParen) {
            let p2 = p1 + 1;
            let crate_kw = peek_kw(toks, p2, "crate");
            let super_kw = peek_kw(toks, p2, "super");
            if (crate_kw || super_kw) && p2 < toks.len() {
                let p3 = p2 + 1;
                if p3 < toks.len() && matches!(&toks[p3].kind, TokKind::RParen) {
                    let v = if crate_kw {
                        Vis::PubCrate
                    } else {
                        Vis::PubSuper
                    };
                    return Ok((v, p3 + 1));
                }
            }
            Err(perr(toks, p1, "malformed visibility"))
        } else {
            Ok((Vis::Public, p1))
        }
    } else {
        Ok((Vis::Default, pos))
    }
}

/// Appends a rendered tail to a literal prefix.
fn prefixed(lit: &str, rest: &str) -> (r: String)
    ensures
        r@ == lit@ + rest@,
{
    let mut out = lit.to_owned();
    vstd::string::StringExecFns::append(&mut out, rest);
    out
}

/// Parses a type as a balanced token run, rendered to text.
pub fn parse_type_toks(toks: &Vec<Token>, pos: usize, adepth: usize, pdepth: usize) -> (r: Result<
    (String, usize),
    ParseError,
>)
    requires
        adepth + pdepth <= pos <= toks@.len(),
    ensures
        match spec_type_toks(toks_view(toks@), pos as int, adepth as int, pdepth as int) {
            Ok((t, j)) => r matches Ok((rt, rj)) && rt@ == t && rj == j,
            Err(e) => r matches Err(re) && re@ == e,
        },
    decreases toks@.len() - pos,
{
    if pos >= toks.len() {
        if adepth == 0 && pdepth == 0 {
            Ok((String::new(), pos))
        } else {
            Err(perr(toks, pos, "unbalanced brackets in type"))
        }
    } else {
        match &toks[pos].kind {
            TokKind::Ident(s) => {
                let sep_needed = pos + 1 < toks.len() && matches!(
                    &toks[pos + 1].kind,
                    TokKind::Ident(_),
                );
                match parse_type_toks(toks, pos + 1, adepth, pdepth) {
                    Ok((t, j)) => {
                        let mut out = s.clone();
                        if sep_needed {
                            vstd::string::StringExecFns::append(&mut out, " ");
                        }
                        vstd::string::StringExecFns::append(&mut out, t.as_str());
                        Ok((out, j))
                    },
                    Err(e) => Err(e),
                }
            },
            TokKind::PathSep => {
                match parse_type_toks(toks, pos + 1, adepth, pdepth) {
                    Ok((t, j)) => Ok((prefixed("::", t.as_str()), j)),
                    Err(e) => Err(e),
                }
            },
            TokKind::Amp => {
                match parse_type_toks(toks, pos + 1, adepth, pdepth) {
                    Ok((t, j)) => Ok((prefixed("&", t.as_str()), j)),
                    Err(e) => Err(e),
                }
            },
            TokKind::Lt(_) => {
                match parse_type_toks(toks, pos + 1, adepth + 1, pdepth) {
                    Ok((t, j)) => Ok((prefixed("<", t.as_str()), j)),
                    Err(e) => Err(e),
                }
            },
            TokKind::Gt(_) => {
                if adepth == 0 && pdepth == 0 {
                    Ok((String::new(), pos))
                } else if adepth > 0 {
                    match parse_type_toks(toks, pos + 1, adepth - 1, pdepth) {
                        Ok((t, j)) => Ok((prefixed(">", t.as_str()), j)),
                        Err(e) => Err(e),
                    }
                } else {
                    Err(perr(toks, pos, "unbalanced brackets in type"))
                }
            },
            TokKind::LParen => {
                match parse_type_toks(toks, pos + 1, adepth, pdepth + 1) {
                    Ok((t, j)) => Ok((prefixed("(", t.as_str()), j)),
                    Err(e) => Err(e),
                }
            },
            TokKind::RParen => {
                if pdepth == 0 && adepth == 0 {
                    Ok((String::new(), pos))
                } else if pdepth > 0 {
                    match parse_type_toks(toks, pos + 1, adepth, pdepth - 1) {
                        Ok((t, j)) => Ok((prefixed(")", t.as_str()), j)),
                        Err(e) => Err(e),
                    }
                } else {
                    Err(perr(toks, pos, "unbalanced brackets in type"))
                }
            },
            TokKind::Comma => {
                if adepth == 0 && pdepth == 0 {
                    Ok((String::new(), pos))
                } else {
                    match parse_type_toks(toks, pos + 1, adepth, pdepth) {
                        Ok((t, j)) => Ok((prefixed(", ", t.as_str()), j)),
                        Err(e) => Err(e),
                    }
                }
            },
            TokKind::LBrace => {
                if adepth == 0 && pdepth == 0 {
                    Ok((String::new(), pos))
                } else {
                    Err(perr(toks, pos, "unexpected token in type"))
                }
            },
            TokKind::RBrace => {
                if adepth == 0 && pdepth == 0 {
                    Ok((String::new(), pos))
                } else {
                    Err(perr(toks, pos, "unexpected token in type"))
                }
            },
            TokKind::Arrow => {
                if adepth == 0 && pdepth == 0 {
                    Ok((String::new(), pos))
                } else {
                    Err(perr(toks, pos, "unexpected token in type"))
                }
            },
            _ => Err(perr(toks, pos, "unexpected token in type")),
        }
    }
}

/// Parses a source bracket group after a variant name.
pub fn parse_source(toks: &Vec<Token>, pos: usize) -> (r: Result<(SourceKind, usize), ParseError>)
    requires
        pos <= toks@.len(),
    ensures
        match spec_parse_source(toks_view(toks@), pos as int) {
            Ok((k, j)) => r matches Ok((rk, rj)) && rk@ == k && rj == j,
            Err(e) => r matches Err(re) && re@ == e,
        },
{
    let is_lt_joint = pos < toks.len() && matches!(&toks[pos].kind, TokKind::Lt(true));
    let is_lt = pos < toks.len() && matches!(&toks[pos].kind, TokKind::Lt(_));
    if is_lt {
        if is_lt_joint && pos + 1 < toks.len() && matches!(&toks[pos + 1].kind, TokKind::Lt(_)) {
            let start = pos + 2;
            match parse_type_toks(toks, start, 0, 0) {
                Ok((text, j)) => {
                    let close1 = j < toks.len() && matches!(&toks[j].kind, TokKind::Gt(true));
                    if close1 && j + 1 < toks.len() && matches!(&toks[j + 1].kind, TokKind::Gt(_)) {
                        if j == start {
                            Ok((SourceKind::DynDebug, j + 2))
                        } else {
                            Ok((SourceKind::BoxedDebug(text), j + 2))
                        }
                    } else {
                        Err(perr(toks, j, "malformed source brackets"))
                    }
                },
                Err(e) => Err(e),
            }
        } else {
            let start = pos + 1;
            match parse_type_toks(toks, start, 0, 0) {
                Ok((text, j)) => {
                    if j < toks.len() && matches!(&toks[j].kind, TokKind::Gt(_)) {
                        if j == start {
                            Ok((SourceKind::DynError, j + 1))
                        } else {
                            Ok((SourceKind::Typed(text), j + 1))
                        }
                    } else {
                        Err(perr(toks, j, "malformed source brackets"))
                    }
                },
                Err(e) => Err(e),
            }
        }
    } else {
        Ok((SourceKind::NoSource, pos))
    }
}

/// Parses one field: optional visibility, name, colon, nonempty type.
fn parse_field(toks: &Vec<Token>, pos: usize) -> (r: Result<(Field, usize), ParseError>)
    requires
        pos <= toks@.len(),
    ensures
        match spec_parse_field(toks_view(toks@), pos as int) {
            Ok((f, j)) => r matches Ok((rf, rj)) && rf@ == f && rj == j,
            Err(e) => r matches Err(re) && re@ == e,
        },
{
    let (vis, j0) = match parse_vis(toks, pos) {
        Ok(v) => v,
        Err(e) => {
            return Err(e);
        },
    };
    if j0 < toks.len() {
        let name = match &toks[j0].kind {
            TokKind::Ident(s) => s.clone(),
            _ => {
                return Err(perr(toks, j0, "expected field name"));
            },
        };
        if j0 + 1 < toks.len() && matches!(&toks[j0 + 1].kind, TokKind::Colon) {
            match parse_type_toks(toks, j0 + 2, 0, 0) {
                Ok((ty, j1)) => {
                    if j1 == j0 + 2 {
                        Err(perr(toks, j0 + 2, "expected field type"))
                    } else {
                        Ok((Field { vis, name, ty }, j1))
                    }
                },
                Err(e) => Err(e),
            }
        } else {
            Err(perr(toks, j0 + 1, "expected colon after field name"))
        }
    } else {
        Err(perr(toks, j0, "expected field name"))
    }
}

/// Parses the items of a field list after its opening brace.
fn fields_list(toks: &Vec<Token>, pos: usize) -> (r: Result<(Vec<Field>, usize), ParseError>)
    requires
        pos <= toks@.len(),
    ensures
        match spec_fields_list(toks_view(toks@), pos as int) {
            Ok((fs, j)) => r matches Ok((rfs, rj)) && rfs@.map_values(|f: Field| f@) == fs && rj
                == j,
            Err(e) => r matches Err(re) && re@ == e,
        },
    decreases toks@.len() - pos,
{
    if pos < toks.len() && matches!(&toks[pos].kind, TokKind::RBrace) {
        proof {
            assert(Seq::<Field>::empty().map_values(|f: Field| f@) =~= Seq::<SpecField>::empty());
        }
        return Ok((Vec::new(), pos + 1));
    }
    match parse_field(toks, pos) {
        Ok((f, j)) => {
            proof {
                lemma_field_progress(toks_view(toks@), pos as int);
            }
            if j < toks.len() && matches!(&toks[j].kind, TokKind::Comma) {
                match fields_list(toks, j + 1) {
                    Ok((mut fs, j2)) => {
                        let ghost pre = fs@.map_values(|x: Field| x@);
                        fs.insert(0, f);
                        proof {
                            assert(fs@.map_values(|x: Field| x@) =~= seq![f@] + pre);
                        }
                        Ok((fs, j2))
                    },
                    Err(e) => Err(e),
                }
            } else if j < toks.len() && matches!(&toks[j].kind, TokKind::RBrace) {
                let mut fs: Vec<Field> = Vec::new();
                fs.push(f);
                proof {
                    assert(fs@.map_values(|x: Field| x@) =~= seq![f@]);
                }
                Ok((fs, j + 1))
            } else {
                Err(perr(toks, j, "expected comma or closing brace"))
            }
        },
        Err(e) => Err(e),
    }
}

/// Parses an optional field list.
fn parse_fields(toks: &Vec<Token>, pos: usize) -> (r: Result<(Option<Vec<Field>>, usize), ParseError>)
    requires
        pos <= toks@.len(),
    ensures
        match spec_parse_fields(toks_view(toks@), pos as int) {
            Ok((fso, j)) => r matches Ok((ro, rj)) && rj == j && (match (ro, fso) {
                (Some(rfs), Some(fs)) => rfs@.map_values(|f: Field| f@) == fs,
                (None, None) => true,
                _ => false,
            }),
            Err(e) => r matches Err(re) && re@ == e,
        },
{
    if pos < toks.len() && matches!(&toks[pos].kind, TokKind::LBrace) {
        match fields_list(toks, pos + 1) {
            Ok((fs, j)) => Ok((Some(fs), j)),
            Err(e) => Err(e),
        }
    } else {
        Ok((None, pos))
    }
}

impl OwnError {
    /// Parses one own declaration.
    pub fn parse(toks: &Vec<Token>, pos: usize) -> (r: Result<(OwnError, usize), ParseError>)
        requires
            pos <= toks@.len(),
        ensures
            match spec_parse_own(toks_view(toks@), pos as int) {
                Ok((oe, j)) => r matches Ok((roe, rj)) && roe@ == oe && rj == j,
                Err(e) => r matches Err(re) && re@ == e,
            },
    {
        let (v, j0) = match parse_vis(toks, pos) {
            Ok(x) => x,
            Err(e) => {
                return Err(e);
            },
        };
        if j0 >= toks.len() {
            return Err(perr(toks, j0, "expected error name"));
        }
        let name = match &toks[j0].kind {
            TokKind::Ident(s) => s.clone(),
            _ => {
                return Err(perr(toks, j0, "expected error name"));
            },
        };
        let (source, j1) = match parse_source(toks, j0 + 1) {
            Ok(x) => x,
            Err(e) => {
                return Err(e);
            },
        };
        proof {
            lemma_source_range(toks_view(toks@), j0 + 1);
        }
        let (fields, j2) = match parse_fields(toks, j1) {
            Ok(x) => x,
            Err(e) => {
                return Err(e);
            },
        };
        proof {
            if kind_at(toks_view(toks@), j1 as int) == Some(SpecTokKind::LBrace) {
                lemma_fields_list_range(toks_view(toks@), j1 + 1);
            }
        }
        let vis = if matches!(v, Vis::Default) {
            None
        } else {
            Some(v)
        };
        if j2 < toks.len() && matches!(&toks[j2].kind, TokKind::Arrow) {
            if j2 + 1 < toks.len() {
                let m = match &toks[j2 + 1].kind {
                    TokKind::LitStr(m) => m.clone(),
                    _ => {
                        return Err(perr(toks, j2 + 1, "expected message literal"));
                    },
                };
                Ok((OwnError { vis, name, fields, source, msg: Some(m) }, j2 + 2))
            } else {
                Err(perr(toks, j2 + 1, "expected message literal"))
            }
        } else {
            Ok((OwnError { vis, name, fields, source, msg: None }, j2))
        }
    }
}

impl HandledError {
    /// Parses a handled marker, `handled` keyword included.
    pub fn parse(toks: &Vec<Token>, pos: usize) -> (r: Result<(HandledError, usize), ParseError>)
        requires
            pos <= toks@.len(),
        ensures
            match spec_parse_handled(toks_view(toks@), pos as int) {
                Ok((ns, j)) => r matches Ok((rh, rj)) && rh.names@.map_values(|n: String| n@) == ns
                    && rj == j,
                Err(e) => r matches Err(re) && re@ == e,
            },
    {
        if !peek_kw(toks, pos, "handled") {
            return Err(perr(toks, pos, "expected `handled`"));
        }
        proof {
            assert(pos < toks_view(toks@).len());
            assert(toks@.len() == toks.len());
        }
        if pos + 1 < toks.len() && matches!(&toks[pos + 1].kind, TokKind::LBrace) {
            match handled_names(toks, pos + 2) {
                Ok((names, j)) => Ok((HandledError { names }, j)),
                Err(e) => Err(e),
            }
        } else {
            if pos + 1 < toks.len() {
                let nm = match &toks[pos + 1].kind {
                    TokKind::Ident(s) => s.clone(),
                    _ => {
                        return Err(perr(toks, pos + 1, "expected error name"));
                    },
                };
                let mut names: Vec<String> = Vec::new();
                names.push(nm);
                proof {
                    assert(names@.map_values(|n: String| n@) =~= seq![
                        toks_view(toks@)[pos + 1].kind->Ident_0,
                    ]);
                }
                Ok((HandledError { names }, pos + 2))
            } else {
                Err(perr(toks, pos + 1, "expected error name"))
            }
        }
    }
}

/// Parses the brace group of a handled marker after its opening brace.
fn handled_names(toks: &Vec<Token>, pos: usize) -> (r: Result<(Vec<String>, usize), ParseError>)
    requires
        pos <= toks@.len(),
    ensures
        match spec_handled_names(toks_view(toks@), pos as int) {
            Ok((ns, j)) => r matches Ok((rns, rj)) && rns@.map_values(|n: String| n@) == ns && rj
                == j,
            Err(e) => r matches Err(re) && re@ == e,
        },
    decreases toks@.len() - pos,
{
    if pos < toks.len() && matches!(&toks[pos].kind, TokKind::RBrace) {
        proof {
            assert(Seq::<String>::empty().map_values(|n: String| n@) =~= Seq::<Seq<char>>::empty());
        }
        return Ok((Vec::new(), pos + 1));
    }
    if pos >= toks.len() {
        return Err(perr(toks, pos, "expected error name"));
    }
    let nm = match &toks[pos].kind {
        TokKind::Ident(s) => s.clone(),
        _ => {
            return Err(perr(toks, pos, "expected error name"));
        },
    };
    if pos + 1 < toks.len() && matches!(&toks[pos + 1].kind, TokKind::Comma) {
        match handled_names(toks, pos + 2) {
            Ok((mut ns, j)) => {
                let ghost pre = ns@.map_values(|x: String| x@);
                ns.insert(0, nm);
                proof {
                    assert(ns@.map_values(|x: String| x@) =~= seq![toks_view(toks@)[pos as int].kind->Ident_0]
                        + pre);
                }
                Ok((ns, j))
            },
            Err(e) => Err(e),
        }
    } else if pos + 1 < toks.len() && matches!(&toks[pos + 1].kind, TokKind::RBrace) {
        let mut ns: Vec<String> = Vec::new();
        ns.push(nm);
        proof {
            assert(ns@.map_values(|x: String| x@) =~= seq![
                toks_view(toks@)[pos as int].kind->Ident_0,
            ]);
        }
        Ok((ns, pos + 2))
    } else {
        Err(perr(toks, pos + 1, "expected comma or closing brace"))
    }
}

impl InheritedErrorDef {
    /// Parses one item of an inherited block.
    pub fn parse(toks: &Vec<Token>, pos: usize) -> (r: Result<
        (InheritedErrorDef, usize),
        ParseError,
    >)
        requires
            pos <= toks@.len(),
        ensures
            match spec_parse_inh_def(toks_view(toks@), pos as int) {
                Ok((d, j)) => r matches Ok((rd, rj)) && rd@ == d && rj == j,
                Err(e) => r matches Err(re) && re@ == e,
            },
    {
        if peek_kw(toks, pos, "handled") {
            match HandledError::parse(toks, pos) {
                Ok((he, j)) => Ok((InheritedErrorDef::Handled(he), j)),
                Err(e) => Err(e),
            }
        } else {
            match OwnError::parse(toks, pos) {
                Ok((oe, j)) => {
                    if oe.fields.is_some() {
                        Err(perr(toks, pos, "Inherited error cannot contain its own definition"))
                    } else {
                        Ok((InheritedErrorDef::Unhandled(oe), j))
                    }
                },
                Err(e) => Err(e),
            }
        }
    }
}

/// Parses the items of an inherited block after its opening brace.
fn inh_items(toks: &Vec<Token>, pos: usize) -> (r: Result<
    (Vec<InheritedErrorDef>, usize),
    ParseError,
>)
    requires
        pos <= toks@.len(),
    ensures
        match spec_inh_items(toks_view(toks@), pos as int) {
            Ok((ds, j)) => r matches Ok((rds, rj)) && rds@.map_values(|d: InheritedErrorDef| d@)
                == ds && rj == j,
            Err(e) => r matches Err(re) && re@ == e,
        },
    decreases toks@.len() - pos,
{
    if pos < toks.len() && matches!(&toks[pos].kind, TokKind::RBrace) {
        proof {
            assert(Seq::<InheritedErrorDef>::empty().map_values(|d: InheritedErrorDef| d@)
                =~= Seq::<SpecInhDef>::empty());
        }
        return Ok((Vec::new(), pos + 1));
    }
    match InheritedErrorDef::parse(toks, pos) {
        Ok((d, j)) => {
            proof {
                lemma_inh_def_progress(toks_view(toks@), pos as int);
            }
            if j < toks.len() && matches!(&toks[j].kind, TokKind::Comma) {
                match inh_items(toks, j + 1) {
                    Ok((mut ds, j2)) => {
                        let ghost dv = d@;
                        let ghost pre = ds@.map_values(|x: InheritedErrorDef| x@);
                        ds.insert(0, d);
                        proof {
                            assert(ds@.map_values(|x: InheritedErrorDef| x@) =~= seq![dv] + pre);
                        }
                        Ok((ds, j2))
                    },
                    Err(e) => Err(e),
                }
            } else if j < toks.len() && matches!(&toks[j].kind, TokKind::RBrace) {
                let ghost dv = d@;
                let mut ds: Vec<InheritedErrorDef> = Vec::new();
                ds.push(d);
                proof {
                    assert(ds@.map_values(|x: InheritedErrorDef| x@) =~= seq![dv]);
                }
                Ok((ds, j + 1))
            } else {
                Err(perr(toks, j, "expected comma or closing brace"))
            }
        },
        Err(e) => Err(e),
    }
}

impl InheritedErrors {
    /// Parses an inherited block, `from` keyword included.
    pub fn parse(toks: &Vec<Token>, pos: usize) -> (r: Result<(InheritedErrors, usize), ParseError>)
        requires
            pos <= toks@.len(),
        ensures
            match spec_parse_inherited(toks_view(toks@), pos as int) {
                Ok((ie, j)) => r matches Ok((rie, rj)) && rie@ == ie && rj == j,
                Err(e) => r matches Err(re) && re@ == e,
            },
    {
        if !peek_kw(toks, pos, "from") {
            return Err(perr(toks, pos, "expected `from`"));
        }
        proof {
            assert(pos < toks_view(toks@).len());
            assert(toks@.len() == toks.len());
        }
        if pos + 1 >= toks.len() {
            return Err(perr(toks, pos + 1, "expected set name"));
        }
        let src = match &toks[pos + 1].kind {
            TokKind::Ident(s) => s.clone(),
            _ => {
                return Err(perr(toks, pos + 1, "expected set name"));
            },
        };
        if pos + 2 < toks.len() && matches!(&toks[pos + 2].kind, TokKind::LBrace) {
            match inh_items(toks, pos + 3) {
                Ok((items, j)) => Ok((InheritedErrors { source: src, errors: items }, j)),
                Err(e) => Err(e),
            }
        } else {
            Err(perr(toks, pos + 2, "expected brace group after set name"))
        }
    }
}

impl ErrorDef {
    /// Parses one entry of the definition list.
    pub fn parse(toks: &Vec<Token>, pos: usize) -> (r: Result<(ErrorDef, usize), ParseError>)
        requires
            pos <= toks@.len(),
        ensures
            match spec_parse_def(toks_view(toks@), pos as int) {
                Ok((d, j)) => r matches Ok((rd, rj)) && rd@ == d && rj == j,
                Err(e) => r matches Err(re) && re@ == e,
            },
    {
        if peek_kw(toks, pos, "from") {
            match InheritedErrors::parse(toks, pos) {
                Ok((ie, j)) => Ok((ErrorDef::Inherited(ie), j)),
                Err(e) => Err(e),
            }
        } else {
            match OwnError::parse(toks, pos) {
                Ok((oe, j)) => Ok((ErrorDef::Own(oe), j)),
                Err(e) => Err(e),
            }
        }
    }
}

/// Parses a whole definition list, to the end of the tokens.
fn parse_defs(toks: &Vec<Token>, pos: usize) -> (r: Result<(Vec<ErrorDef>, usize), ParseError>)
    requires
        pos <= toks@.len(),
    ensures
        match spec_parse_defs(toks_view(toks@), pos as int) {
            Ok((ds, j)) => r matches Ok((rds, rj)) && rds@.map_values(|d: ErrorDef| d@) == ds && rj
                == j,
            Err(e) => r matches Err(re) && re@ == e,
        },
    decreases toks@.len() - pos,
{
    if pos >= toks.len() {
        proof {
            assert(Seq::<ErrorDef>::empty().map_values(|d: ErrorDef| d@) =~= Seq::<
                SpecDef,
            >::empty());
        }
        return Ok((Vec::new(), pos));
    }
    match ErrorDef::parse(toks, pos) {
        Ok((d, j)) => {
            proof {
                lemma_def_progress(toks_view(toks@), pos as int);
            }
            if j >= toks.len() {
                let ghost dv = d@;
                let mut ds: Vec<ErrorDef> = Vec::new();
                ds.push(d);
                proof {
                    assert(ds@.map_values(|x: ErrorDef| x@) =~= seq![dv]);
                }
                Ok((ds, j))
            } else if matches!(&toks[j].kind, TokKind::Comma) {
                match parse_defs(toks, j + 1) {
                    Ok((mut ds, j2)) => {
                        let ghost dv = d@;
                        let ghost pre = ds@.map_values(|x: ErrorDef| x@);
                        ds.insert(0, d);
                        proof {
                            assert(ds@.map_values(|x: ErrorDef| x@) =~= seq![dv] + pre);
                        }
                        Ok((ds, j2))
                    },
                    Err(e) => Err(e),
                }
            } else {
                Err(perr(toks, j, "expected comma"))
            }
        },
        Err(e) => Err(e),
    }
}

impl SmartErrors {
    /// Parses the whole argument list of a per-function declaration.
    pub fn parse(toks: &Vec<Token>) -> (r: Result<SmartErrors, ParseError>)
        ensures
            match spec_parse_smart(toks_view(toks@)) {
                Ok(ds) => r matches Ok(rs) && rs@ == ds,
                Err(e) => r matches Err(re) && re@ == e,
            },
    {
        match parse_defs(toks, 0) {
            Ok((ds, _)) => Ok(SmartErrors { errors: ds }),
            Err(e) => Err(e),
        }
    }
}

/// Parses the own declarations of a fledged set after its opening brace.
fn own_list(toks: &Vec<Token>, pos: usize) -> (r: Result<(Vec<OwnError>, usize), ParseError>)
    requires
        pos <= toks@.len(),
    ensures
        match spec_own_list(toks_view(toks@), pos as int) {
            Ok((oes, j)) => r matches Ok((roes, rj)) && roes@.map_values(|oe: OwnError| oe@) == oes
                && rj == j,
            Err(e) => r matches Err(re) && re@ == e,
        },
    decreases toks@.len() - pos,
{
    if pos < toks.len() && matches!(&toks[pos].kind, TokKind::RBrace) {
        proof {
            assert(Seq::<OwnError>::empty().map_values(|oe: OwnError| oe@) =~= Seq::<
                SpecOwn,
            >::empty());
        }
        return Ok((Vec::new(), pos + 1));
    }
    match OwnError::parse(toks, pos) {
        Ok((oe, j)) => {
            proof {
                lemma_own_progress(toks_view(toks@), pos as int);
            }
            if j < toks.len() && matches!(&toks[j].kind, TokKind::Comma) {
                match own_list(toks, j + 1) {
                    Ok((mut oes, j2)) => {
                        let ghost ov = oe@;
                        let ghost pre = oes@.map_values(|x: OwnError| x@);
                        oes.insert(0, oe);
                        proof {
                            assert(oes@.map_values(|x: OwnError| x@) =~= seq![ov] + pre);
                        }
                        Ok((oes, j2))
                    },
                    Err(e) => Err(e),
                }
            } else if j < toks.len() && matches!(&toks[j].kind, TokKind::RBrace) {
                let ghost ov = oe@;
                let mut oes: Vec<OwnError> = Vec::new();
                oes.push(oe);
                proof {
                    assert(oes@.map_values(|x: OwnError| x@) =~= seq![ov]);
                }
                Ok((oes, j + 1))
            } else {
                Err(perr(toks, j, "expected comma or closing brace"))
            }
        },
        Err(e) => Err(e),
    }
}

impl FledgedError {
    /// Parses a fledged set declaration: visibility, name, own declarations.
    pub fn parse(toks: &Vec<Token>) -> (r: Result<FledgedError, ParseError>)
        ensures
            match spec_parse_fledged(toks_view(toks@)) {
                Ok(f) => r matches Ok(rf) && rf@ == f,
                Err(e) => r matches Err(re) && re@ == e,
            },
    {
        let (v, j0) = match parse_vis(toks, 0) {
            Ok(x) => x,
            Err(e) => {
                return Err(e);
            },
        };
        if j0 >= toks.len() {
            return Err(perr(toks, j0, "expected set name"));
        }
        let name = match &toks[j0].kind {
            TokKind::Ident(s) => s.clone(),
            _ => {
                return Err(perr(toks, j0, "expected set name"));
            },
        };
        if j0 + 1 < toks.len() && matches!(&toks[j0 + 1].kind, TokKind::LBrace) {
            match own_list(toks, j0 + 2) {
                Ok((oes, j)) => {
                    if j == toks.len() {
                        Ok(FledgedError { vis: v, name, definition: oes })
                    } else {
                        Err(perr(toks, j, "unexpected trailing tokens"))
                    }
                },
                Err(e) => Err(e),
            }
        } else {
            Err(perr(toks, j0 + 1, "expected brace group after set name"))
        }
    }
}

impl ErrorNs {
    /// Parses a module name with a visibility.
    pub fn parse(toks: &Vec<Token>) -> (r: Result<ErrorNs, ParseError>)
        ensures
            match spec_parse_ns(toks_view(toks@)) {
                Ok(ns) => r matches Ok(rns) && rns@ == ns,
                Err(e) => r matches Err(re) && re@ == e,
            },
    {
        let (v, j0) = match parse_vis(toks, 0) {
            Ok(x) => x,
            Err(e) => {
                return Err(e);
            },
        };
        if j0 >= toks.len() {
            return Err(perr(toks, j0, "expected module name"));
        }
        let name = match &toks[j0].kind {
            TokKind::Ident(s) => s.clone(),
            _ => {
                return Err(perr(toks, j0, "expected module name"));
            },
        };
        if j0 + 1 == toks.len() {
            Ok(ErrorNs { vis: v, name })
        } else {
            Err(perr(toks, j0 + 1, "unexpected trailing tokens"))
        }
    }
}

} // verus!
