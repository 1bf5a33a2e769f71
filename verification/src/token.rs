//! The lexer of the error mini-language: attribute argument text to tokens.
//!
//! Tokens carry their character position for diagnostics. Angle brackets are
//! lexed one character at a time; a `joint` flag records whether the next
//! character is the same bracket, which is how `<<` and `>>` are told apart
//! from nested brackets.

use vstd::prelude::*;

use vstd::string::StrSliceExecFns;

verus! {

/// The kind of one token, with its text where it has one.
#[derive(Debug, Clone)]
pub enum TokKind {
    Ident(String),
    /// A string literal's inner text, escapes kept as written.
    LitStr(String),
    /// `<`; joint when the next character is another `<`.
    Lt(bool),
    /// `>`; joint when the next character is another `>`.
    Gt(bool),
    LBrace,
    RBrace,
    LParen,
    RParen,
    Comma,
    Colon,
    PathSep,
    Arrow,
    Amp,
}

/// One token with the character position it starts at.
#[derive(Debug, Clone)]
pub struct Token {
    pub kind: TokKind,
    pub pos: usize,
}

/// The mathematical form of a token kind: text as character sequences.
pub enum SpecTokKind {
    Ident(Seq<char>),
    LitStr(Seq<char>),
    Lt(bool),
    Gt(bool),
    LBrace,
    RBrace,
    LParen,
    RParen,
    Comma,
    Colon,
    PathSep,
    Arrow,
    Amp,
}

/// The mathematical form of a token.
pub struct SpecToken {
    pub kind: SpecTokKind,
    pub pos: int,
}

impl View for TokKind {
    type V = SpecTokKind;

    open spec fn view(&self) -> SpecTokKind {
        match self {
            TokKind::Ident(s) => SpecTokKind::Ident(s@),
            TokKind::LitStr(s) => SpecTokKind::LitStr(s@),
            TokKind::Lt(j) => SpecTokKind::Lt(*j),
            TokKind::Gt(j) => SpecTokKind::Gt(*j),
            TokKind::LBrace => SpecTokKind::LBrace,
            TokKind::RBrace => SpecTokKind::RBrace,
            TokKind::LParen => SpecTokKind::LParen,
            TokKind::RParen => SpecTokKind::RParen,
            TokKind::Comma => SpecTokKind::Comma,
            TokKind::Colon => SpecTokKind::Colon,
            TokKind::PathSep => SpecTokKind::PathSep,
            TokKind::Arrow => SpecTokKind::Arrow,
            TokKind::Amp => SpecTokKind::Amp,
        }
    }
}

impl View for Token {
    type V = SpecToken;

    open spec fn view(&self) -> SpecToken {
        SpecToken { kind: self.kind@, pos: self.pos as int }
    }
}

/// The views of a token list.
pub open spec fn toks_view(ts: Seq<Token>) -> Seq<SpecToken> {
    ts.map_values(|t: Token| t@)
}

/// A place in the input the lexer rejects.
#[derive(Debug, Clone, PartialEq, Eq, Structural)]
pub struct LexError {
    pub pos: usize,
}

pub open spec fn is_space(c: char) -> bool {
    c == ' ' || c == '\t' || c == '\n' || c == '\r'
}

pub open spec fn is_ident_start(c: char) -> bool {
    c == '_' || ('a' <= c && c <= 'z') || ('A' <= c && c <= 'Z')
}

pub open spec fn is_ident_char(c: char) -> bool {
    is_ident_start(c) || ('0' <= c && c <= '9')
}

fn is_space_e(c: char) -> (r: bool)
    ensures
        r == is_space(c),
{
    c == ' ' || c == '\t' || c == '\n' || c == '\r'
}

fn is_ident_start_e(c: char) -> (r: bool)
    ensures
        r == is_ident_start(c),
{
    c == '_' || ('a' <= c && c <= 'z') || ('A' <= c && c <= 'Z')
}

fn is_ident_char_e(c: char) -> (r: bool)
    ensures
        r == is_ident_char(c),
{
    is_ident_start_e(c) || ('0' <= c && c <= '9')
}

/// How many identifier characters follow from position `i`.
pub open spec fn ident_len(cs: Seq<char>, i: int) -> nat
    decreases cs.len() - i,
{
    if 0 <= i < cs.len() && is_ident_char(cs[i]) {
        (1 + ident_len(cs, i + 1)) as nat
    } else {
        0
    }
}

pub proof fn lemma_ident_len_bound(cs: Seq<char>, i: int)
    requires
        0 <= i <= cs.len(),
    ensures
        i + ident_len(cs, i) <= cs.len(),
    decreases cs.len() - i,
{
    if i < cs.len() && is_ident_char(cs[i]) {
        lemma_ident_len_bound(cs, i + 1);
    }
}

/// The position of the closing quote of a literal whose body starts at `i`,
/// or `None` when the literal is unterminated. A backslash escapes the next
/// character.
pub open spec fn lit_end(cs: Seq<char>, i: int) -> Option<int>
    decreases cs.len() - i,
{
    if i < 0 || i >= cs.len() {
        None
    } else if cs[i] == '"' {
        Some(i)
    } else if cs[i] == '\\' {
        if i + 1 < cs.len() {
            lit_end(cs, i + 2)
        } else {
            None
        }
    } else {
        lit_end(cs, i + 1)
    }
}

pub proof fn lemma_lit_end_bound(cs: Seq<char>, i: int)
    requires
        0 <= i,
    ensures
        match lit_end(cs, i) {
            Some(e) => i <= e < cs.len() && cs[e] == '"',
            None => true,
        },
    decreases cs.len() - i,
{
    if 0 <= i < cs.len() && cs[i] != '"' {
        if cs[i] == '\\' {
            if i + 1 < cs.len() {
                lemma_lit_end_bound(cs, i + 2);
            }
        } else {
            lemma_lit_end_bound(cs, i + 1);
        }
    }
}

/// The tokens of the character sequence from position `i` on, or the
/// position of the first character no token starts with.
pub open spec fn spec_lex(cs: Seq<char>, i: int) -> Result<Seq<SpecToken>, LexError>
    decreases cs.len() - i,
    when 0 <= i
    via spec_lex_dec
{
    if i >= cs.len() {
        Ok(Seq::empty())
    } else {
        let c = cs[i];
        if is_space(c) {
            spec_lex(cs, i + 1)
        } else if is_ident_start(c) {
            let j = i + 1 + ident_len(cs, i + 1);
            let tok = SpecToken { kind: SpecTokKind::Ident(cs.subrange(i, j)), pos: i };
            lex_cons(tok, spec_lex(cs, j))
        } else if c == '"' {
            match lit_end(cs, i + 1) {
                Some(e) => {
                    let tok = SpecToken {
                        kind: SpecTokKind::LitStr(cs.subrange(i + 1, e)),
                        pos: i,
                    };
                    lex_cons(tok, spec_lex(cs, e + 1))
                },
                None => Err(LexError { pos: i as usize }),
            }
        } else if c == '<' {
            let joint = i + 1 < cs.len() && cs[i + 1] == '<';
            lex_cons(SpecToken { kind: SpecTokKind::Lt(joint), pos: i }, spec_lex(cs, i + 1))
        } else if c == '>' {
            let joint = i + 1 < cs.len() && cs[i + 1] == '>';
            lex_cons(SpecToken { kind: SpecTokKind::Gt(joint), pos: i }, spec_lex(cs, i + 1))
        } else if c == ':' {
            if i + 1 < cs.len() && cs[i + 1] == ':' {
                lex_cons(SpecToken { kind: SpecTokKind::PathSep, pos: i }, spec_lex(cs, i + 2))
            } else {
                lex_cons(SpecToken { kind: SpecTokKind::Colon, pos: i }, spec_lex(cs, i + 1))
            }
        } else if c == '-' {
            if i + 1 < cs.len() && cs[i + 1] == '>' {
                lex_cons(SpecToken { kind: SpecTokKind::Arrow, pos: i }, spec_lex(cs, i + 2))
            } else {
                Err(LexError { pos: i as usize })
            }
        } else if c == '{' {
            lex_cons(SpecToken { kind: SpecTokKind::LBrace, pos: i }, spec_lex(cs, i + 1))
        } else if c == '}' {
            lex_cons(SpecToken { kind: SpecTokKind::RBrace, pos: i }, spec_lex(cs, i + 1))
        } else if c == '(' {
            lex_cons(SpecToken { kind: SpecTokKind::LParen, pos: i }, spec_lex(cs, i + 1))
        } else if c == ')' {
            lex_cons(SpecToken { kind: SpecTokKind::RParen, pos: i }, spec_lex(cs, i + 1))
        } else if c == ',' {
            lex_cons(SpecToken { kind: SpecTokKind::Comma, pos: i }, spec_lex(cs, i + 1))
        } else if c == '&' {
            lex_cons(SpecToken { kind: SpecTokKind::Amp, pos: i }, spec_lex(cs, i + 1))
        } else {
            Err(LexError { pos: i as usize })
        }
    }
}

/// Puts one token in front of a lexing outcome.
pub open spec fn lex_cons(
    tok: SpecToken,
    rest: Result<Seq<SpecToken>, LexError>,
) -> Result<Seq<SpecToken>, LexError> {
    match rest {
        Ok(ts) => Ok(seq![tok] + ts),
        Err(e) => Err(e),
    }
}

#[via_fn]
proof fn spec_lex_dec(cs: Seq<char>, i: int) {
    if 0 <= i < cs.len() {
        if is_ident_start(cs[i]) {
            lemma_ident_len_bound(cs, i + 1);
        }
        if cs[i] == '"' {
            lemma_lit_end_bound(cs, i + 1);
        }
    }
}

/// Combines already-produced tokens with the outcome of lexing the rest.
pub open spec fn lex_combine(
    acc: Seq<SpecToken>,
    rest: Result<Seq<SpecToken>, LexError>,
) -> Result<Seq<SpecToken>, LexError> {
    match rest {
        Ok(ts) => Ok(acc + ts),
        Err(e) => Err(e),
    }
}

proof fn lemma_combine_cons(
    acc: Seq<SpecToken>,
    tok: SpecToken,
    rest: Result<Seq<SpecToken>, LexError>,
)
    ensures
        lex_combine(acc, lex_cons(tok, rest)) == lex_combine(acc.push(tok), rest),
{
    match rest {
        Ok(ts) => {
            assert(acc + (seq![tok] + ts) =~= acc.push(tok) + ts);
        },
        Err(_) => {},
    }
}

/// Lexes a whole input into tokens, or reports the first offending position.
pub fn lex(s: &str) -> (r: Result<Vec<Token>, LexError>)
    ensures
        match spec_lex(s@, 0) {
            Ok(sts) => r is Ok && toks_view(r->Ok_0@) == sts,
            Err(e) => r == Result::<Vec<Token>, LexError>::Err(e),
        },
{
    let cs = crate::text::str_to_chars(s);
    let n: usize = cs.len();
    let mut out: Vec<Token> = Vec::new();
    let mut i: usize = 0;
    proof {
        assert(toks_view(out@) =~= Seq::<SpecToken>::empty());
        assert(Seq::<SpecToken>::empty() + spec_lex(s@, 0)->Ok_0 =~= spec_lex(s@, 0)->Ok_0);
    }
    while i < n
        invariant
            cs@ == s@,
            n == s@.len(),
            i <= n,
            lex_combine(toks_view(out@), spec_lex(s@, i as int)) == spec_lex(s@, 0),
        decreases n - i,
    {
        let ghost pre_i = i as int;
        let ghost pre_out = toks_view(out@);
        let c = cs[i];
        if is_space_e(c) {
            i = i + 1;
        } else if is_ident_start_e(c) {
            let start = i;
            let mut j = i + 1;
            while j < n && is_ident_char_e(cs[j])
                invariant
                    cs@ == s@,
                    n == s@.len(),
                    start < j <= n,
                    ident_len(s@, start + 1) == ident_len(s@, j as int) + (j - start - 1),
                decreases n - j,
            {
                j = j + 1;
            }
            proof {
                assert(ident_len(s@, j as int) == 0);
            }
            let text = s.substring_char(start, j).to_owned();
            let ghost tok = SpecToken {
                kind: SpecTokKind::Ident(s@.subrange(start as int, j as int)),
                pos: start as int,
            };
            out.push(Token { kind: TokKind::Ident(text), pos: start });
            i = j;
            proof {
                assert(toks_view(out@) =~= pre_out.push(tok));
                assert(spec_lex(s@, pre_i) == lex_cons(tok, spec_lex(s@, i as int)));
                lemma_combine_cons(pre_out, tok, spec_lex(s@, i as int));
            }
        } else if c == '"' {
            let mut j = i + 1;
            let mut terminated: bool = false;
            while j < n && !terminated
                invariant
                    cs@ == s@,
                    n == s@.len(),
                    i < n,
                    s@[i as int] == '"',
                    !is_space(s@[i as int]),
                    !is_ident_start(s@[i as int]),
                    i + 1 <= j <= n,
                    !terminated ==> lit_end(s@, j as int) == lit_end(s@, i + 1),
                    terminated ==> j >= i + 2 && lit_end(s@, i + 1) == Some(j - 1),
                    lex_combine(toks_view(out@), spec_lex(s@, i as int)) == spec_lex(s@, 0),
                decreases n - j,
            {
                let d = cs[j];
                if d == '"' {
                    terminated = true;
                    j = j + 1;
                } else if d == '\\' {
                    if j + 1 <= n - 1 {
                        j = j + 2;
                    } else {
                        proof {
                            assert(lit_end(s@, j as int) is None);
                            assert(lit_end(s@, i + 1) is None);
                            assert(spec_lex(s@, i as int) == Result::<
                                Seq<SpecToken>,
                                LexError,
                            >::Err(LexError { pos: i }));
                        }
                        return Err(LexError { pos: i });
                    }
                } else {
                    j = j + 1;
                }
            }
            if !terminated {
                proof {
                    assert(lit_end(s@, j as int) is None);
                    assert(lit_end(s@, i + 1) is None);
                }
                return Err(LexError { pos: i });
            }
            let text = s.substring_char(i + 1, j - 1).to_owned();
            let ghost tok = SpecToken {
                kind: SpecTokKind::LitStr(s@.subrange(i + 1, j - 1)),
                pos: i as int,
            };
            out.push(Token { kind: TokKind::LitStr(text), pos: i });
            i = j;
            proof {
                assert(toks_view(out@) =~= pre_out.push(tok));
                assert(spec_lex(s@, pre_i) == lex_cons(tok, spec_lex(s@, i as int)));
                lemma_combine_cons(pre_out, tok, spec_lex(s@, i as int));
            }
        } else if c == '<' {
            let joint = i + 1 < n && cs[i + 1] == '<';
            let ghost tok = SpecToken { kind: SpecTokKind::Lt(joint), pos: i as int };
            out.push(Token { kind: TokKind::Lt(joint), pos: i });
            i = i + 1;
            proof {
                assert(toks_view(out@) =~= pre_out.push(tok));
                assert(spec_lex(s@, pre_i) == lex_cons(tok, spec_lex(s@, i as int)));
                lemma_combine_cons(pre_out, tok, spec_lex(s@, i as int));
            }
        } else if c == '>' {
            let joint = i + 1 < n && cs[i + 1] == '>';
            let ghost tok = SpecToken { kind: SpecTokKind::Gt(joint), pos: i as int };
            out.push(Token { kind: TokKind::Gt(joint), pos: i });
            i = i + 1;
            proof {
                assert(toks_view(out@) =~= pre_out.push(tok));
                assert(spec_lex(s@, pre_i) == lex_cons(tok, spec_lex(s@, i as int)));
                lemma_combine_cons(pre_out, tok, spec_lex(s@, i as int));
            }
        } else if c == ':' {
            if i + 1 < n && cs[i + 1] == ':' {
                let ghost tok = SpecToken { kind: SpecTokKind::PathSep, pos: i as int };
                out.push(Token { kind: TokKind::PathSep, pos: i });
                i = i + 2;
                proof {
                    assert(toks_view(out@) =~= pre_out.push(tok));
                    assert(spec_lex(s@, pre_i) == lex_cons(tok, spec_lex(s@, i as int)));
                    lemma_combine_cons(pre_out, tok, spec_lex(s@, i as int));
                }
            } else {
                let ghost tok = SpecToken { kind: SpecTokKind::Colon, pos: i as int };
                out.push(Token { kind: TokKind::Colon, pos: i });
                i = i + 1;
                proof {
                    assert(toks_view(out@) =~= pre_out.push(tok));
                    assert(spec_lex(s@, pre_i) == lex_cons(tok, spec_lex(s@, i as int)));
                    lemma_combine_cons(pre_out, tok, spec_lex(s@, i as int));
                }
            }
        } else if c == '-' {
            if i + 1 < n && cs[i + 1] == '>' {
                let ghost tok = SpecToken { kind: SpecTokKind::Arrow, pos: i as int };
                out.push(Token { kind: TokKind::Arrow, pos: i });
                i = i + 2;
                proof {
                    assert(toks_view(out@) =~= pre_out.push(tok));
                    assert(spec_lex(s@, pre_i) == lex_cons(tok, spec_lex(s@, i as int)));
                    lemma_combine_cons(pre_out, tok, spec_lex(s@, i as int));
                }
            } else {
                return Err(LexError { pos: i });
            }
        } else if c == '{' || c == '}' || c == '(' || c == ')' || c == ',' || c == '&' {
            let kind = if c == '{' {
                TokKind::LBrace
            } else if c == '}' {
                TokKind::RBrace
            } else if c == '(' {
                TokKind::LParen
            } else if c == ')' {
                TokKind::RParen
            } else if c == ',' {
                TokKind::Comma
            } else {
                TokKind::Amp
            };
            let ghost tok = SpecToken { kind: kind@, pos: i as int };
            out.push(Token { kind, pos: i });
            i = i + 1;
            proof {
                assert(toks_view(out@) =~= pre_out.push(tok));
                assert(spec_lex(s@, pre_i) == lex_cons(tok, spec_lex(s@, i as int)));
                lemma_combine_cons(pre_out, tok, spec_lex(s@, i as int));
            }
        } else {
            return Err(LexError { pos: i });
        }
    }
    proof {
        assert(spec_lex(s@, n as int) == Result::<Seq<SpecToken>, LexError>::Ok(
            Seq::<SpecToken>::empty(),
        ));
        assert(toks_view(out@) + Seq::<SpecToken>::empty() =~= toks_view(out@));
    }
    Ok(out)
}

} // verus!
