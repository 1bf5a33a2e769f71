//! Rendering of error text: the display composition used by generated code.
//!
//! A variant's failure text is its default message, followed by its context
//! structure's debug representation with double quotes turned into single
//! quotes and the leading type name stripped, followed, when a cause is
//! stored, by `", caused by: "` and the cause's own text.

use vstd::prelude::*;

use vstd::string::StrSliceExecFns;
use vstd::string::StringExecFns;

verus! {

/// The given characters with every double quote replaced by a single quote.
pub open spec fn spec_quotes_replaced(cs: Seq<char>) -> Seq<char> {
    cs.map_values(|c: char| if c == '"' { '\'' } else { c })
}

/// `cs` without the leading `prefix`, or empty when `cs` does not start
/// with `prefix`.
pub open spec fn spec_prefix_stripped(cs: Seq<char>, prefix: Seq<char>) -> Seq<char> {
    if prefix.is_prefix_of(cs) {
        cs.skip(prefix.len() as int)
    } else {
        Seq::empty()
    }
}

/// The context part of a variant's text, from the context structure's debug
/// representation: quotes replaced, then the leading type name stripped.
pub open spec fn spec_ctx_text(debug: Seq<char>, ty_name: Seq<char>) -> Seq<char> {
    spec_prefix_stripped(spec_quotes_replaced(debug), ty_name)
}

/// A variant's full failure text.
pub open spec fn spec_variant_text(
    msg: Seq<char>,
    ctx_text: Seq<char>,
    cause: Option<Seq<char>>,
) -> Seq<char> {
    match cause {
        None => msg + ctx_text,
        Some(c) => msg + ctx_text + ", caused by: "@ + c,
    }
}

/// Relies on `String`'s `FromIterator` over characters: collecting yields a
/// string holding exactly the given characters in order.
#[verifier::external_body]
pub fn chars_to_string(v: &Vec<char>) -> (r: String)
    ensures
        r@ == v@,
{
    v.iter().collect()
}

/// Replaces every double quote by a single quote.
pub fn replace_quotes(s: &str) -> (r: String)
    ensures
        r@ == spec_quotes_replaced(s@),
{
    let cs = crate::text::str_to_chars(s);
    let mut out: Vec<char> = Vec::new();
    let mut i: usize = 0;
    while i < cs.len()
        invariant
            cs@ == s@,
            i <= cs@.len(),
            out@ == spec_quotes_replaced(s@).take(i as int),
        decreases cs@.len() - i,
    {
        let c = cs[i];
        if c == '"' {
            out.push('\'');
        } else {
            out.push(c);
        }
        i = i + 1;
        proof {
            assert(out@ =~= spec_quotes_replaced(s@).take(i as int));
        }
    }
    proof {
        assert(spec_quotes_replaced(s@).take(cs@.len() as int) =~= spec_quotes_replaced(s@));
    }
    chars_to_string(&out)
}

/// Strips `prefix` from the front of `s`; yields the empty string when `s`
/// does not start with `prefix`.
pub fn strip_prefix_or_empty(s: &str, prefix: &str) -> (r: String)
    ensures
        r@ == spec_prefix_stripped(s@, prefix@),
{
    let cs = crate::text::str_to_chars(s);
    let ps = crate::text::str_to_chars(prefix);
    if ps.len() > cs.len() {
        proof {
            assert(!prefix@.is_prefix_of(s@));
        }
        return String::new();
    }
    let mut i: usize = 0;
    while i < ps.len()
        invariant
            cs@ == s@,
            ps@ == prefix@,
            ps@.len() <= cs@.len(),
            i <= ps@.len(),
            forall|k: int| 0 <= k < i ==> cs@[k] == ps@[k],
        decreases ps@.len() - i,
    {
        if cs[i] != ps[i] {
            proof {
                assert(!prefix@.is_prefix_of(s@)) by {
                    assert(s@[i as int] != prefix@[i as int]);
                }
            }
            return String::new();
        }
        i = i + 1;
    }
    proof {
        assert(prefix@.is_prefix_of(s@)) by {
            assert(prefix@ =~= s@.take(prefix@.len() as int));
        }
    }
    let mut out: Vec<char> = Vec::new();
    let mut j: usize = ps.len();
    while j < cs.len()
        invariant
            cs@ == s@,
            ps@ == prefix@,
            ps@.len() <= j <= cs@.len(),
            out@ == s@.skip(prefix@.len() as int).take(j - ps@.len()),
        decreases cs@.len() - j,
    {
        out.push(cs[j]);
        j = j + 1;
        proof {
            assert(out@ =~= s@.skip(prefix@.len() as int).take(j - ps@.len()));
        }
    }
    proof {
        assert(s@.skip(prefix@.len() as int).take(cs@.len() - ps@.len()) =~= s@.skip(
            prefix@.len() as int,
        ));
    }
    chars_to_string(&out)
}

/// The context part of a variant's text: quotes replaced, type name stripped.
pub fn ctx_text(debug: &str, ty_name: &str) -> (r: String)
    ensures
        r@ == spec_ctx_text(debug@, ty_name@),
{
    let replaced = replace_quotes(debug);
    strip_prefix_or_empty(replaced.as_str(), ty_name)
}

/// Composes a variant's full failure text from its default message, its
/// prepared context text and, when present, its cause's text.
pub fn variant_text(msg: &str, ctx: &str, cause: Option<&str>) -> (r: String)
    ensures
        r@ == spec_variant_text(msg@, ctx@, match cause {
            Some(c) => Some(c@),
            None => None,
        }),
{
    let mut out = String::new();
    out.append(msg);
    out.append(ctx);
    match cause {
        None => {
            proof {
                assert(out@ =~= spec_variant_text(msg@, ctx@, None));
            }
            out
        },
        Some(c) => {
            out.append(", caused by: ");
            out.append(c);
            proof {
                assert(out@ =~= spec_variant_text(msg@, ctx@, Some(c@)));
            }
            out
        },
    }
}

} // verus!
