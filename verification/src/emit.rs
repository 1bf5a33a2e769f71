//! The code emitter: from the resolved model to generated source text.
//!
//! Every emitter is deterministic and its output text is stated exactly by a
//! spec function, so the generated source is pinned character by character.

use vstd::prelude::*;

use vstd::string::StringExecFns;

use crate::ast::{Field, OwnError, SourceKind, SpecField, Vis};
use crate::resolve::{ResolvedBlock, ResolvedVariant};

verus! {

/// What convert_case's Pascal conversion yields for the given characters.
pub uninterp spec fn pascal_of(s: Seq<char>) -> Seq<char>;

/// Relies on convert_case's `Casing::to_case` with `Case::Pascal`: the result
/// depends on the input characters alone.
#[verifier::external_body]
pub fn to_pascal(s: &str) -> (r: String)
    ensures
        r@ == pascal_of(s@),
{
    convert_case::Casing::to_case(&s, convert_case::Case::Pascal)
}

/// The visibility marker's text.
pub open spec fn spec_vis_text(v: Vis) -> Seq<char> {
    match v {
        Vis::Default => Seq::empty(),
        Vis::Public => "pub"@,
        Vis::PubCrate => "pub(crate)"@,
        Vis::PubSuper => "pub(super)"@,
    }
}

pub fn vis_text(v: Vis) -> (r: String)
    ensures
        r@ == spec_vis_text(v),
{
    match v {
        Vis::Default => String::new(),
        Vis::Public => "pub".to_owned(),
        Vis::PubCrate => "pub(crate)".to_owned(),
        Vis::PubSuper => "pub(super)".to_owned(),
    }
}

/// A visibility text as a prefix: followed by one space when nonempty.
pub open spec fn spec_vis_prefix(v: Seq<char>) -> Seq<char> {
    if v.len() == 0 {
        v
    } else {
        v + " "@
    }
}

pub fn vis_prefix(v: &str) -> (r: String)
    ensures
        r@ == spec_vis_prefix(v@),
{
    if v.unicode_len() == 0 {
        String::new()
    } else {
        let mut out = v.to_owned();
        out.append(" ");
        out
    }
}

/// The effective visibility text of a variant: its own override, or the
/// enclosing set's visibility.
pub open spec fn spec_decl_vis(decl_vis: Option<Vis>, enclosing: Seq<char>) -> Seq<char> {
    match decl_vis {
        Some(v) => spec_vis_text(v),
        None => enclosing,
    }
}

pub fn decl_vis(over: &Option<Vis>, enclosing: &str) -> (r: String)
    ensures
        r@ == spec_decl_vis(*over, enclosing@),
{
    match over {
        Some(v) => vis_text(*v),
        None => enclosing.to_owned(),
    }
}

/// The rendered field list of a context structure, braces included.
pub open spec fn spec_fields_inner(fs: Seq<SpecField>) -> Seq<char>
    decreases fs.len(),
{
    if fs.len() == 0 {
        Seq::empty()
    } else {
        "    "@ + spec_vis_prefix(spec_vis_text(fs[0].vis)) + fs[0].name + ": "@ + fs[0].ty + ",\n"@
            + spec_fields_inner(fs.drop_first())
    }
}

/// The context structure's body text: `{}` when there are no fields.
pub open spec fn spec_fields_text(fields: Option<Seq<SpecField>>) -> Seq<char> {
    let fs: Seq<SpecField> = match fields {
        Some(fs) => fs,
        None => Seq::empty(),
    };
    if fs.len() == 0 {
        "{}"@
    } else {
        "{\n"@ + spec_fields_inner(fs) + "}"@
    }
}

#[verifier::rlimit(100)]
fn fields_inner(fs: &Vec<Field>) -> (r: String)
    ensures
        r@ == spec_fields_inner(fs@.map_values(|f: Field| f@)),
{
    let ghost fsv = fs@.map_values(|f: Field| f@);
    let mut out = String::new();
    let mut i: usize = 0;
    proof {
        assert(fsv.skip(0) =~= fsv);
    }
    while i < fs.len()
        invariant
            i <= fs@.len(),
            fsv == fs@.map_values(|f: Field| f@),
            out@ + spec_fields_inner(fsv.skip(i as int)) == spec_fields_inner(fsv),
        decreases fs@.len() - i,
    {
        let ghost pre = out@;
        out.append("    ");
        let vp = vis_prefix(vis_text(fs[i].vis).as_str());
        out.append(vp.as_str());
        out.append(fs[i].name.as_str());
        out.append(": ");
        out.append(fs[i].ty.as_str());
        out.append(",\n");
        i = i + 1;
        proof {
            assert(fsv.skip(i - 1)[0] == fsv[i - 1]);
            assert(fsv.skip(i - 1).drop_first() =~= fsv.skip(i as int));
            assert(spec_fields_inner(fsv.skip(i - 1)) == "    "@ + spec_vis_prefix(
                spec_vis_text(fsv[i - 1].vis),
            ) + fsv[i - 1].name + ": "@ + fsv[i - 1].ty + ",\n"@ + spec_fields_inner(
                fsv.skip(i as int),
            ));
            assert(out@ =~= pre + ("    "@ + spec_vis_prefix(spec_vis_text(fsv[i - 1].vis))
                + fsv[i - 1].name + ": "@ + fsv[i - 1].ty + ",\n"@));
            assert(out@ + spec_fields_inner(fsv.skip(i as int)) =~= pre + spec_fields_inner(
                fsv.skip(i - 1),
            ));
        }
    }
    proof {
        assert(fsv.skip(fs@.len() as int) =~= Seq::<SpecField>::empty());
        assert(out@ + Seq::<char>::empty() =~= out@);
    }
    out
}

fn fields_text(fields: &Option<Vec<Field>>) -> (r: String)
    ensures
        r@ == spec_fields_text(match fields {
            Some(fs) => Some(fs@.map_values(|f: Field| f@)),
            None => None,
        }),
{
    match fields {
        Some(fs) => {
            if fs.len() == 0 {
                proof {
                    assert(fs@.map_values(|f: Field| f@) =~= Seq::<SpecField>::empty());
                }
                "{}".to_owned()
            } else {
                let mut out = "{\n".to_owned();
                let inner = fields_inner(fs);
                out.append(inner.as_str());
                out.append("}");
                proof {
                    assert(out@ =~= "{\n"@ + spec_fields_inner(
                        fs@.map_values(|f: Field| f@),
                    ) + "}"@);
                }
                out
            }
        },
        None => "{}".to_owned(),
    }
}

/// The message literal's inner text: the message, or empty.
pub open spec fn spec_msg_text(msg: Option<Seq<char>>) -> Seq<char> {
    match msg {
        Some(m) => m,
        None => Seq::empty(),
    }
}

impl OwnError {
    /// The emitted union case for this variant.
    pub open spec fn spec_enum_item(&self) -> Seq<char> {
        "    "@ + self.name@ + "("@ + self.name@ + "),\n"@
    }

    /// Emits the union case for this variant.
    pub fn to_enum_error_item(&self) -> (r: String)
        ensures
            r@ == self.spec_enum_item(),
    {
        let mut out = "    ".to_owned();
        out.append(self.name.as_str());
        out.append("(");
        out.append(self.name.as_str());
        out.append("),\n");
        proof {
            assert(out@ =~= self.spec_enum_item());
        }
        out
    }

    /// The emitted cause accessor arm for this variant, empty for variants
    /// whose source kind exposes no cause.
    pub open spec fn spec_sources_arm(&self, err_enum: Seq<char>) -> Seq<char> {
        if self.source@.spec_kind_exposes() {
            "            "@ + err_enum + "::"@ + self.name@ + "(err) => err.source(),\n"@
        } else {
            Seq::empty()
        }
    }

    /// Emits the cause accessor arm for this variant.
    pub fn to_errors_sources(&self, err_enum: &str) -> (r: String)
        ensures
            r@ == self.spec_sources_arm(err_enum@),
    {
        if self.source.exposes_cause() {
            let mut out = "            ".to_owned();
            out.append(err_enum);
            out.append("::");
            out.append(self.name.as_str());
            out.append("(err) => err.source(),\n");
            proof {
                assert(out@ =~= self.spec_sources_arm(err_enum@));
            }
            out
        } else {
            String::new()
        }
    }

    /// The emitted display arm for this variant.
    pub open spec fn spec_display_arm(&self, err_enum: Seq<char>) -> Seq<char> {
        "            "@ + err_enum + "::"@ + self.name@
            + "(err) => { write!(f, \"{}{}\", err.default_message(), err)?; },\n"@
    }

    /// Emits the display arm for this variant.
    pub fn to_display(&self, err_enum: &str) -> (r: String)
        ensures
            r@ == self.spec_display_arm(err_enum@),
    {
        let mut out = "            ".to_owned();
        out.append(err_enum);
        out.append("::");
        out.append(self.name.as_str());
        out.append("(err) => { write!(f, \"{}{}\", err.default_message(), err)?; },\n");
        proof {
            assert(out@ =~= self.spec_display_arm(err_enum@));
        }
        out
    }
}

impl crate::ast::SpecSource {
    /// Whether the kind exposes its stored cause through the accessor.
    pub open spec fn spec_kind_exposes(&self) -> bool {
        self is Typed || self is DynError
    }
}

/// The per-kind emission parameters of a wrapper struct: the generics of
/// `new`, the parameter type of `new`, the initializer of the stored cause,
/// the stored field's type, and the body of the cause accessor.
pub open spec fn spec_kind_parts(k: crate::ast::SpecSource) -> (Seq<char>, Seq<char>, Seq<char>, Seq<char>, Seq<char>) {
    match k {
        crate::ast::SpecSource::Typed(t) => (Seq::empty(), t, "src"@, t, "Some(&self.src as _)"@),
        crate::ast::SpecSource::DynError => (
            "<ES: std::error::Error + 'static>"@,
            "ES"@,
            "Box::new(src)"@,
            "Box<dyn std::error::Error + 'static>"@,
            "Some(&*self.src)"@,
        ),
        crate::ast::SpecSource::BoxedDebug(t) => (
            Seq::empty(),
            t,
            "smarterr::RawError::new(src)"@,
            "smarterr::RawError<"@ + t + ">"@,
            "None"@,
        ),
        crate::ast::SpecSource::DynDebug => (
            "<ES: std::fmt::Debug + 'static>"@,
            "ES"@,
            "smarterr::RawError::new(Box::new(src))"@,
            "smarterr::RawError<Box<dyn std::fmt::Debug + 'static>>"@,
            "None"@,
        ),
        crate::ast::SpecSource::NoSource => (
            Seq::empty(),
            Seq::empty(),
            Seq::empty(),
            Seq::empty(),
            "None"@,
        ),
    }
}

impl OwnError {
    /// The emitted wrapper struct and its impl.
    pub open spec fn spec_ctx_head(&self, enclosing: Seq<char>) -> Seq<char> {
        let v = spec_vis_prefix(spec_decl_vis(self.vis, enclosing));
        let n = self.name@;
        let c = self.name@ + "Ctx"@;
        let m = spec_msg_text(self@.msg);
        if self.source@ is NoSource {
            "#[derive(std::fmt::Debug)]\n"@ + v + "struct "@ + n + " {\n    ctx: "@ + c
                + ",\n}\nimpl "@ + n + " {\n    pub fn new<ES>(_src: ES, ctx: "@ + c
                + ") -> Self {\n        "@ + n
                + " { ctx }\n    }\n    pub fn source(&self) -> Option<&(dyn std::error::Error + 'static)> {\n        None\n    }\n    pub fn default_message(&self) -> &'static str {\n        \""@
                + m + "\"\n    }\n}\n"@
        } else {
            let parts = spec_kind_parts(self.source@);
            "#[derive(std::fmt::Debug)]\n"@ + v + "struct "@ + n + " {\n    src: "@ + parts.3
                + ",\n    ctx: "@ + c + ",\n}\nimpl "@ + n + " {\n    pub fn new"@ + parts.0
                + "(src: "@ + parts.1 + ", ctx: "@ + c + ") -> Self {\n        "@ + n
                + " { src: "@ + parts.2
                + ", ctx }\n    }\n    pub fn source(&self) -> Option<&(dyn std::error::Error + 'static)> {\n        "@
                + parts.4
                + "\n    }\n    pub fn default_message(&self) -> &'static str {\n        \""@ + m
                + "\"\n    }\n}\n"@
        }
    }

    /// The emitted display impl and context structure.
    pub open spec fn spec_ctx_tail(&self, enclosing: Seq<char>) -> Seq<char> {
        let v = spec_vis_prefix(spec_decl_vis(self.vis, enclosing));
        let n = self.name@;
        let c = self.name@ + "Ctx"@;
        let ft = spec_fields_text(self@.fields);
        "impl std::fmt::Display for "@ + n
            + " {\n    fn fmt(&self, f: &mut std::fmt::Formatter<'_>) -> std::fmt::Result {\n        let x = smarterr::ctx_text(&format!(\"{:?}\", self.ctx), \""@
            + c + "\");\n"@ + (match self.source@ {
            crate::ast::SpecSource::NoSource => "        write!(f, \"{}\", x)\n"@,
            crate::ast::SpecSource::Typed(_) => "        write!(f, \"{}, caused by: {}\", x, self.src)\n"@,
            crate::ast::SpecSource::DynError => "        write!(f, \"{}, caused by: {}\", x, self.src)\n"@,
            _ => "        write!(f, \"{}, caused by: {}\", x, self.src.text())\n"@,
        }) + "    }\n}\n#[allow(dead_code)]\n#[derive(std::fmt::Debug)]\n"@ + v + "struct "@ + c
            + " "@ + ft + "\n"@
    }

    /// The emitted wrapper struct, its impl, its display impl and its
    /// context structure, for a variant declared by this function.
    pub open spec fn spec_ctx_text(&self, enclosing: Seq<char>) -> Seq<char> {
        self.spec_ctx_head(enclosing) + self.spec_ctx_tail(enclosing)
    }

    /// Emits the wrapper struct, impls and context structure.
    #[verifier::rlimit(100)]
    pub fn to_ctx(&self, enclosing: &str) -> (r: String)
        ensures
            r@ == self.spec_ctx_text(enclosing@),
    {
        let vt = decl_vis(&self.vis, enclosing);
        let v = vis_prefix(vt.as_str());
        let mut out = "#[derive(std::fmt::Debug)]\n".to_owned();
        out.append(v.as_str());
        out.append("struct ");
        out.append(self.name.as_str());
        match &self.source {
            SourceKind::NoSource => {
                out.append(" {\n    ctx: ");
                out.append(self.name.as_str());
                out.append("Ctx");
                out.append(",\n}\nimpl ");
                out.append(self.name.as_str());
                out.append(" {\n    pub fn new<ES>(_src: ES, ctx: ");
                out.append(self.name.as_str());
                out.append("Ctx");
                out.append(") -> Self {\n        ");
                out.append(self.name.as_str());
                out.append(
                    " { ctx }\n    }\n    pub fn source(&self) -> Option<&(dyn std::error::Error + 'static)> {\n        None\n    }\n    pub fn default_message(&self) -> &'static str {\n        \"",
                );
            },
            _ => {
                let (ng, sp, se, st, src_body) = kind_parts(&self.source);
                out.append(" {\n    src: ");
                out.append(st.as_str());
                out.append(",\n    ctx: ");
                out.append(self.name.as_str());
                out.append("Ctx");
                out.append(",\n}\nimpl ");
                out.append(self.name.as_str());
                out.append(" {\n    pub fn new");
                out.append(ng.as_str());
                out.append("(src: ");
                out.append(sp.as_str());
                out.append(", ctx: ");
                out.append(self.name.as_str());
                out.append("Ctx");
                out.append(") -> Self {\n        ");
                out.append(self.name.as_str());
                out.append(" { src: ");
                out.append(se.as_str());
                out.append(
                    ", ctx }\n    }\n    pub fn source(&self) -> Option<&(dyn std::error::Error + 'static)> {\n        ",
                );
                out.append(src_body.as_str());
                out.append("\n    }\n    pub fn default_message(&self) -> &'static str {\n        \"");
            },
        }
        match &self.msg {
            Some(m) => out.append(m.as_str()),
            None => (),
        }
        out.append("\"\n    }\n}\n");
        proof {
            assert(out@ =~= self.spec_ctx_head(enclosing@));
        }
        let mut tail = "impl std::fmt::Display for ".to_owned();
        tail.append(self.name.as_str());
        tail.append(
            " {\n    fn fmt(&self, f: &mut std::fmt::Formatter<'_>) -> std::fmt::Result {\n        let x = smarterr::ctx_text(&format!(\"{:?}\", self.ctx), \"",
        );
        tail.append(self.name.as_str());
        tail.append("Ctx");
        tail.append("\");\n");
        match &self.source {
            SourceKind::NoSource => tail.append("        write!(f, \"{}\", x)\n"),
            SourceKind::Typed(_) => tail.append(
                "        write!(f, \"{}, caused by: {}\", x, self.src)\n",
            ),
            SourceKind::DynError => tail.append(
                "        write!(f, \"{}, caused by: {}\", x, self.src)\n",
            ),
            _ => tail.append("        write!(f, \"{}, caused by: {}\", x, self.src.text())\n"),
        }
        tail.append("    }\n}\n#[allow(dead_code)]\n#[derive(std::fmt::Debug)]\n");
        tail.append(v.as_str());
        tail.append("struct ");
        tail.append(self.name.as_str());
        tail.append("Ctx");
        tail.append(" ");
        let ft = fields_text(&self.fields);
        tail.append(ft.as_str());
        tail.append("\n");
        proof {
            assert(tail@ =~= self.spec_ctx_tail(enclosing@));
        }
        out.append(tail.as_str());
        out
    }

    /// The emitted conversion impl: a context value and a cause make the
    /// union value for this variant.
    pub open spec fn spec_into_error_text(&self, err_enum: Seq<char>) -> Seq<char> {
        let n = self.name@;
        let c = self.name@ + "Ctx"@;
        let head: Seq<char> = match self.source@ {
            crate::ast::SpecSource::Typed(t) => "impl smarterr::IntoError<"@ + err_enum + ", "@ + t
                + "> for "@ + c + " {\n    fn into_error(self, source: "@ + t + ") -> "@,
            crate::ast::SpecSource::BoxedDebug(t) => "impl smarterr::IntoError<"@ + err_enum
                + ", "@ + t + "> for "@ + c + " {\n    fn into_error(self, source: "@ + t
                + ") -> "@,
            crate::ast::SpecSource::DynError => "impl<ES: std::error::Error + 'static> smarterr::IntoError<"@
                + err_enum + ", ES> for "@ + c + " {\n    fn into_error(self, source: ES) -> "@,
            _ => "impl<ES: std::fmt::Debug + 'static> smarterr::IntoError<"@ + err_enum
                + ", ES> for "@ + c + " {\n    fn into_error(self, source: ES) -> "@,
        };
        head + err_enum + " {\n        "@ + err_enum + "::"@ + n + "("@ + n
            + "::new(source, self))\n    }\n}\n"@
    }

    /// Emits the conversion impl for this variant.
    pub fn to_into_error_impl(&self, err_enum: &str) -> (r: String)
        ensures
            r@ == self.spec_into_error_text(err_enum@),
    {
        let mut out = String::new();
        match &self.source {
            SourceKind::Typed(t) => {
                out.append("impl smarterr::IntoError<");
                out.append(err_enum);
                out.append(", ");
                out.append(t.as_str());
                out.append("> for ");
                out.append(self.name.as_str());
                out.append("Ctx");
                out.append(" {\n    fn into_error(self, source: ");
                out.append(t.as_str());
                out.append(") -> ");
            },
            SourceKind::BoxedDebug(t) => {
                out.append("impl smarterr::IntoError<");
                out.append(err_enum);
                out.append(", ");
                out.append(t.as_str());
                out.append("> for ");
                out.append(self.name.as_str());
                out.append("Ctx");
                out.append(" {\n    fn into_error(self, source: ");
                out.append(t.as_str());
                out.append(") -> ");
            },
            SourceKind::DynError => {
                out.append("impl<ES: std::error::Error + 'static> smarterr::IntoError<");
                out.append(err_enum);
                out.append(", ES> for ");
                out.append(self.name.as_str());
                out.append("Ctx");
                out.append(" {\n    fn into_error(self, source: ES) -> ");
            },
            _ => {
                out.append("impl<ES: std::fmt::Debug + 'static> smarterr::IntoError<");
                out.append(err_enum);
                out.append(", ES> for ");
                out.append(self.name.as_str());
                out.append("Ctx");
                out.append(" {\n    fn into_error(self, source: ES) -> ");
            },
        }
        out.append(err_enum);
        out.append(" {\n        ");
        out.append(err_enum);
        out.append("::");
        out.append(self.name.as_str());
        out.append("(");
        out.append(self.name.as_str());
        out.append("::new(source, self))\n    }\n}\n");
        proof {
            assert(out@ =~= self.spec_into_error_text(err_enum@));
        }
        out
    }
}

/// The module path prefix generated references carry: `m::`, or nothing.
pub open spec fn spec_mod_prefix(module: Option<Seq<char>>) -> Seq<char> {
    match module {
        Some(m) => m + "::"@,
        None => Seq::empty(),
    }
}

fn mod_prefix(module: &Option<String>) -> (r: String)
    ensures
        r@ == spec_mod_prefix(match module {
            Some(m) => Some(m@),
            None => None,
        }),
{
    match module {
        Some(m) => {
            let mut out = m.clone();
            out.append("::");
            out
        },
        None => String::new(),
    }
}

/// The cases of a handled sub-union, one per handled name.
pub open spec fn spec_handled_items(ns: Seq<Seq<char>>, prefix: Seq<char>) -> Seq<char>
    decreases ns.len(),
{
    if ns.len() == 0 {
        Seq::empty()
    } else {
        "    "@ + ns[0] + "("@ + prefix + ns[0] + "),\n"@ + spec_handled_items(
            ns.drop_first(),
            prefix,
        )
    }
}

/// The rethrow arms of a dispatch: one per redeclared name.
pub open spec fn spec_unhandled_arms(
    ns: Seq<Seq<char>>,
    src: Seq<char>,
    err_enum: Seq<char>,
    prefix: Seq<char>,
) -> Seq<char>
    decreases ns.len(),
{
    if ns.len() == 0 {
        Seq::empty()
    } else {
        "                "@ + prefix + src + "::"@ + ns[0] + "(e) => Err("@ + prefix + err_enum
            + "::"@ + ns[0] + "(e)),\n"@ + spec_unhandled_arms(
            ns.drop_first(),
            src,
            err_enum,
            prefix,
        )
    }
}

/// The interception arms of a dispatch: one per handled name.
pub open spec fn spec_handled_arms(ns: Seq<Seq<char>>, src: Seq<char>, prefix: Seq<char>) -> Seq<
    char,
>
    decreases ns.len(),
{
    if ns.len() == 0 {
        Seq::empty()
    } else {
        "                "@ + prefix + src + "::"@ + ns[0] + "(e) => handler("@ + src
            + "Handled::"@ + ns[0] + "(e)),\n"@ + spec_handled_arms(ns.drop_first(), src, prefix)
    }
}

/// The conversion arms of a pass-through-only block.
pub open spec fn spec_from_arms(
    ns: Seq<Seq<char>>,
    src: Seq<char>,
    err_enum: Seq<char>,
    prefix: Seq<char>,
) -> Seq<char>
    decreases ns.len(),
{
    if ns.len() == 0 {
        Seq::empty()
    } else {
        "            "@ + prefix + src + "::"@ + ns[0] + "(ctx) => "@ + prefix + err_enum + "::"@
            + ns[0] + "(ctx),\n"@ + spec_from_arms(ns.drop_first(), src, err_enum, prefix)
    }
}

/// What one inherited block injects at the call site: a handled sub-union
/// with its dispatch impl, or a plain conversion impl.
pub open spec fn spec_block_text(
    b: crate::resolve::BlockView,
    err_enum: Seq<char>,
    prefix: Seq<char>,
) -> Seq<char> {
    if b.2.len() > 0 {
        "enum "@ + b.0 + "Handled {\n"@ + spec_handled_items(b.2, prefix) + "}\n"@
            + "impl<T> ErrorHandler<T, "@ + b.0 + "Handled, "@ + prefix + err_enum
            + "> for Result<T, "@ + prefix + b.0 + "> {\n    fn handle<F: FnOnce("@ + b.0
            + "Handled) -> Result<T, "@ + prefix + err_enum
            + ">>(self, handler: F) -> Result<T, "@ + prefix + err_enum
            + "> {\n        match self {\n            Ok(v) => Ok(v),\n            Err(e) => match e {\n"@
            + spec_unhandled_arms(b.1, b.0, err_enum, prefix) + spec_handled_arms(b.2, b.0, prefix)
            + "            },\n        }\n    }\n}\n"@
    } else {
        "impl From<"@ + prefix + b.0 + "> for "@ + prefix + err_enum + " {\n    fn from(source: "@
            + prefix + b.0 + ") -> Self {\n        match source {\n"@ + spec_from_arms(
            b.1,
            b.0,
            err_enum,
            prefix,
        ) + "        }\n    }\n}\n"@
    }
}

/// What all blocks inject, in order.
pub open spec fn spec_blocks_text(
    bs: Seq<crate::resolve::BlockView>,
    err_enum: Seq<char>,
    prefix: Seq<char>,
) -> Seq<char>
    decreases bs.len(),
{
    if bs.len() == 0 {
        Seq::empty()
    } else {
        spec_block_text(bs[0], err_enum, prefix) + spec_blocks_text(
            bs.drop_first(),
            err_enum,
            prefix,
        )
    }
}

/// The dispatch capability's local declaration.
pub open spec fn spec_handler_trait() -> Seq<char> {
    "trait ErrorHandler<T, EH, ER> {\n    fn handle<F: FnOnce(EH) -> Result<T, ER>>(self, handler: F) -> Result<T, ER>;\n}\n"@
}

/// What is prepended to the function body: nothing without blocks, else the
/// capability declaration and every block's injection.
pub open spec fn spec_prelude(
    bs: Seq<crate::resolve::BlockView>,
    err_enum: Seq<char>,
    prefix: Seq<char>,
) -> Seq<char> {
    if bs.len() == 0 {
        Seq::empty()
    } else {
        spec_handler_trait() + spec_blocks_text(bs, err_enum, prefix)
    }
}

#[verifier::rlimit(100)]
fn handled_items_text(ns: &Vec<String>, prefix: &str) -> (r: String)
    ensures
        r@ == spec_handled_items(ns@.map_values(|n: String| n@), prefix@),
{
    let ghost nv = ns@.map_values(|n: String| n@);
    let mut out = String::new();
    let mut i: usize = 0;
    proof {
        assert(nv.skip(0) =~= nv);
    }
    while i < ns.len()
        invariant
            i <= ns@.len(),
            nv == ns@.map_values(|n: String| n@),
            out@ + spec_handled_items(nv.skip(i as int), prefix@) == spec_handled_items(
                nv,
                prefix@,
            ),
        decreases ns@.len() - i,
    {
        let ghost pre = out@;
        out.append("    ");
        out.append(ns[i].as_str());
        out.append("(");
        out.append(prefix);
        out.append(ns[i].as_str());
        out.append("),\n");
        i = i + 1;
        proof {
            assert(nv.skip(i - 1)[0] == nv[i - 1]);
            assert(nv.skip(i - 1).drop_first() =~= nv.skip(i as int));
            assert(out@ =~= pre + ("    "@ + nv[i - 1] + "("@ + prefix@ + nv[i - 1] + "),\n"@));
            assert(out@ + spec_handled_items(nv.skip(i as int), prefix@) =~= pre
                + spec_handled_items(nv.skip(i - 1), prefix@));
        }
    }
    proof {
        assert(nv.skip(ns@.len() as int) =~= Seq::<Seq<char>>::empty());
        assert(out@ + Seq::<char>::empty() =~= out@);
    }
    out
}

#[verifier::rlimit(100)]
fn unhandled_arms_text(ns: &Vec<String>, src: &str, err_enum: &str, prefix: &str) -> (r: String)
    ensures
        r@ == spec_unhandled_arms(ns@.map_values(|n: String| n@), src@, err_enum@, prefix@),
{
    let ghost nv = ns@.map_values(|n: String| n@);
    let mut out = String::new();
    let mut i: usize = 0;
    proof {
        assert(nv.skip(0) =~= nv);
    }
    while i < ns.len()
        invariant
            i <= ns@.len(),
            nv == ns@.map_values(|n: String| n@),
            out@ + spec_unhandled_arms(nv.skip(i as int), src@, err_enum@, prefix@)
                == spec_unhandled_arms(nv, src@, err_enum@, prefix@),
        decreases ns@.len() - i,
    {
        let ghost pre = out@;
        out.append("                ");
        out.append(prefix);
        out.append(src);
        out.append("::");
        out.append(ns[i].as_str());
        out.append("(e) => Err(");
        out.append(prefix);
        out.append(err_enum);
        out.append("::");
        out.append(ns[i].as_str());
        out.append("(e)),\n");
        i = i + 1;
        proof {
            assert(nv.skip(i - 1)[0] == nv[i - 1]);
            assert(nv.skip(i - 1).drop_first() =~= nv.skip(i as int));
            assert(out@ =~= pre + ("                "@ + prefix@ + src@ + "::"@ + nv[i - 1]
                + "(e) => Err("@ + prefix@ + err_enum@ + "::"@ + nv[i - 1] + "(e)),\n"@));
            assert(out@ + spec_unhandled_arms(nv.skip(i as int), src@, err_enum@, prefix@) =~= pre
                + spec_unhandled_arms(nv.skip(i - 1), src@, err_enum@, prefix@));
        }
    }
    proof {
        assert(nv.skip(ns@.len() as int) =~= Seq::<Seq<char>>::empty());
        assert(out@ + Seq::<char>::empty() =~= out@);
    }
    out
}

#[verifier::rlimit(100)]
fn handled_arms_text(ns: &Vec<String>, src: &str, prefix: &str) -> (r: String)
    ensures
        r@ == spec_handled_arms(ns@.map_values(|n: String| n@), src@, prefix@),
{
    let ghost nv = ns@.map_values(|n: String| n@);
    let mut out = String::new();
    let mut i: usize = 0;
    proof {
        assert(nv.skip(0) =~= nv);
    }
    while i < ns.len()
        invariant
            i <= ns@.len(),
            nv == ns@.map_values(|n: String| n@),
            out@ + spec_handled_arms(nv.skip(i as int), src@, prefix@) == spec_handled_arms(
                nv,
                src@,
                prefix@,
            ),
        decreases ns@.len() - i,
    {
        let ghost pre = out@;
        out.append("                ");
        out.append(prefix);
        out.append(src);
        out.append("::");
        out.append(ns[i].as_str());
        out.append("(e) => handler(");
        out.append(src);
        out.append("Handled::");
        out.append(ns[i].as_str());
        out.append("(e)),\n");
        i = i + 1;
        proof {
            assert(nv.skip(i - 1)[0] == nv[i - 1]);
            assert(nv.skip(i - 1).drop_first() =~= nv.skip(i as int));
            assert(out@ =~= pre + ("                "@ + prefix@ + src@ + "::"@ + nv[i - 1]
                + "(e) => handler("@ + src@ + "Handled::"@ + nv[i - 1] + "(e)),\n"@));
            assert(out@ + spec_handled_arms(nv.skip(i as int), src@, prefix@) =~= pre
                + spec_handled_arms(nv.skip(i - 1), src@, prefix@));
        }
    }
    proof {
        assert(nv.skip(ns@.len() as int) =~= Seq::<Seq<char>>::empty());
        assert(out@ + Seq::<char>::empty() =~= out@);
    }
    out
}

#[verifier::rlimit(100)]
fn from_arms_text(ns: &Vec<String>, src: &str, err_enum: &str, prefix: &str) -> (r: String)
    ensures
        r@ == spec_from_arms(ns@.map_values(|n: String| n@), src@, err_enum@, prefix@),
{
    let ghost nv = ns@.map_values(|n: String| n@);
    let mut out = String::new();
    let mut i: usize = 0;
    proof {
        assert(nv.skip(0) =~= nv);
    }
    while i < ns.len()
        invariant
            i <= ns@.len(),
            nv == ns@.map_values(|n: String| n@),
            out@ + spec_from_arms(nv.skip(i as int), src@, err_enum@, prefix@) == spec_from_arms(
                nv,
                src@,
                err_enum@,
                prefix@,
            ),
        decreases ns@.len() - i,
    {
        let ghost pre = out@;
        out.append("            ");
        out.append(prefix);
        out.append(src);
        out.append("::");
        out.append(ns[i].as_str());
        out.append("(ctx) => ");
        out.append(prefix);
        out.append(err_enum);
        out.append("::");
        out.append(ns[i].as_str());
        out.append("(ctx),\n");
        i = i + 1;
        proof {
            assert(nv.skip(i - 1)[0] == nv[i - 1]);
            assert(nv.skip(i - 1).drop_first() =~= nv.skip(i as int));
            assert(out@ =~= pre + ("            "@ + prefix@ + src@ + "::"@ + nv[i - 1]
                + "(ctx) => "@ + prefix@ + err_enum@ + "::"@ + nv[i - 1] + "(ctx),\n"@));
            assert(out@ + spec_from_arms(nv.skip(i as int), src@, err_enum@, prefix@) =~= pre
                + spec_from_arms(nv.skip(i - 1), src@, err_enum@, prefix@));
        }
    }
    proof {
        assert(nv.skip(ns@.len() as int) =~= Seq::<Seq<char>>::empty());
        assert(out@ + Seq::<char>::empty() =~= out@);
    }
    out
}

impl ResolvedBlock {
    /// Emits what this block injects at the call site.
    #[verifier::rlimit(100)]
    pub fn to_block_text(&self, err_enum: &str, prefix: &str) -> (r: String)
        ensures
            r@ == spec_block_text(self.view_of(), err_enum@, prefix@),
    {
        if self.handled.len() > 0 {
            let mut out = "enum ".to_owned();
            out.append(self.source_set.as_str());
            out.append("Handled {\n");
            let items = handled_items_text(&self.handled, prefix);
            out.append(items.as_str());
            out.append("}\n");
            out.append("impl<T> ErrorHandler<T, ");
            out.append(self.source_set.as_str());
            out.append("Handled, ");
            out.append(prefix);
            out.append(err_enum);
            out.append("> for Result<T, ");
            out.append(prefix);
            out.append(self.source_set.as_str());
            out.append("> {\n    fn handle<F: FnOnce(");
            out.append(self.source_set.as_str());
            out.append("Handled) -> Result<T, ");
            out.append(prefix);
            out.append(err_enum);
            out.append(">>(self, handler: F) -> Result<T, ");
            out.append(prefix);
            out.append(err_enum);
            out.append(
                "> {\n        match self {\n            Ok(v) => Ok(v),\n            Err(e) => match e {\n",
            );
            let ua = unhandled_arms_text(&self.unhandled, self.source_set.as_str(), err_enum, prefix);
            out.append(ua.as_str());
            let ha = handled_arms_text(&self.handled, self.source_set.as_str(), prefix);
            out.append(ha.as_str());
            out.append("            },\n        }\n    }\n}\n");
            proof {
                assert(out@ =~= spec_block_text(self.view_of(), err_enum@, prefix@));
            }
            out
        } else {
            let mut out = "impl From<".to_owned();
            out.append(prefix);
            out.append(self.source_set.as_str());
            out.append("> for ");
            out.append(prefix);
            out.append(err_enum);
            out.append(" {\n    fn from(source: ");
            out.append(prefix);
            out.append(self.source_set.as_str());
            out.append(") -> Self {\n        match source {\n");
            let fa = from_arms_text(&self.unhandled, self.source_set.as_str(), err_enum, prefix);
            out.append(fa.as_str());
            out.append("        }\n    }\n}\n");
            proof {
                assert(out@ =~= spec_block_text(self.view_of(), err_enum@, prefix@));
            }
            out
        }
    }
}

/// Emits what is prepended to the function body for the given blocks.
#[verifier::rlimit(100)]
pub fn prelude_text(bs: &Vec<ResolvedBlock>, err_enum: &str, prefix: &str) -> (r: String)
    ensures
        r@ == spec_prelude(
            bs@.map_values(|b: ResolvedBlock| b.view_of()),
            err_enum@,
            prefix@,
        ),
{
    let ghost bv = bs@.map_values(|b: ResolvedBlock| b.view_of());
    if bs.len() == 0 {
        proof {
            assert(bv.len() == 0);
        }
        return String::new();
    }
    let mut out =
        "trait ErrorHandler<T, EH, ER> {\n    fn handle<F: FnOnce(EH) -> Result<T, ER>>(self, handler: F) -> Result<T, ER>;\n}\n".to_owned();
    proof {
        assert(out@ =~= spec_handler_trait());
        assert(bv.skip(0) =~= bv);
    }
    let mut i: usize = 0;
    while i < bs.len()
        invariant
            i <= bs@.len(),
            bv == bs@.map_values(|b: ResolvedBlock| b.view_of()),
            out@ + spec_blocks_text(bv.skip(i as int), err_enum@, prefix@) == spec_handler_trait()
                + spec_blocks_text(bv, err_enum@, prefix@),
        decreases bs@.len() - i,
    {
        let ghost pre = out@;
        let bt = bs[i].to_block_text(err_enum, prefix);
        out.append(bt.as_str());
        i = i + 1;
        proof {
            assert(bv.skip(i - 1)[0] == bv[i - 1]);
            assert(bv.skip(i - 1).drop_first() =~= bv.skip(i as int));
            assert(out@ =~= pre + spec_block_text(bv[i - 1], err_enum@, prefix@));
            assert(out@ + spec_blocks_text(bv.skip(i as int), err_enum@, prefix@) =~= pre
                + spec_blocks_text(bv.skip(i - 1), err_enum@, prefix@));
        }
    }
    proof {
        assert(bv.skip(bs@.len() as int) =~= Seq::<crate::resolve::BlockView>::empty());
        assert(out@ + Seq::<char>::empty() =~= out@);
        assert(bv.len() > 0);
    }
    out
}

/// The union's cases, one per resolved variant.
pub open spec fn spec_enum_items(vs: Seq<ResolvedVariant>) -> Seq<char>
    decreases vs.len(),
{
    if vs.len() == 0 {
        Seq::empty()
    } else {
        vs[0].decl.spec_enum_item() + spec_enum_items(vs.drop_first())
    }
}

/// The cause accessor's arms, one per resolved variant that exposes a cause.
pub open spec fn spec_sources_arms(vs: Seq<ResolvedVariant>, err_enum: Seq<char>) -> Seq<char>
    decreases vs.len(),
{
    if vs.len() == 0 {
        Seq::empty()
    } else {
        vs[0].decl.spec_sources_arm(err_enum) + spec_sources_arms(vs.drop_first(), err_enum)
    }
}

/// The display arms, one per resolved variant.
pub open spec fn spec_display_arms(vs: Seq<ResolvedVariant>, err_enum: Seq<char>) -> Seq<char>
    decreases vs.len(),
{
    if vs.len() == 0 {
        Seq::empty()
    } else {
        vs[0].decl.spec_display_arm(err_enum) + spec_display_arms(vs.drop_first(), err_enum)
    }
}

/// The wrapper and context structures: one group per variant this function
/// declares itself; an inherited pass-through reuses the source set's.
pub open spec fn spec_ctxs_text(vs: Seq<ResolvedVariant>, enclosing: Seq<char>) -> Seq<char>
    decreases vs.len(),
{
    if vs.len() == 0 {
        Seq::empty()
    } else {
        (if vs[0].origin is None {
            vs[0].decl.spec_ctx_text(enclosing)
        } else {
            Seq::empty()
        }) + spec_ctxs_text(vs.drop_first(), enclosing)
    }
}

/// The conversion impls, one per resolved variant.
pub open spec fn spec_into_impls(vs: Seq<ResolvedVariant>, err_enum: Seq<char>) -> Seq<char>
    decreases vs.len(),
{
    if vs.len() == 0 {
        Seq::empty()
    } else {
        vs[0].decl.spec_into_error_text(err_enum) + spec_into_impls(vs.drop_first(), err_enum)
    }
}

/// All the items generated beside the function: the union, its error and
/// display impls, the wrapper and context structures, the conversion impls.
pub open spec fn spec_generated(
    vs: Seq<ResolvedVariant>,
    vis: Seq<char>,
    err_enum: Seq<char>,
) -> Seq<char> {
    "#[derive(std::fmt::Debug)]\n"@ + spec_vis_prefix(vis) + "enum "@ + err_enum + " {\n"@
        + spec_enum_items(vs) + "}\n"@ + "impl std::error::Error for "@ + err_enum
        + " {\n    fn source(&self) -> Option<&(dyn std::error::Error + 'static)> {\n        match self {\n"@
        + spec_sources_arms(vs, err_enum)
        + "            _ => None,\n        }\n    }\n}\nimpl std::fmt::Display for "@ + err_enum
        + " {\n    fn fmt(&self, f: &mut std::fmt::Formatter<'_>) -> std::fmt::Result {\n        match self {\n"@
        + spec_display_arms(vs, err_enum) + "        }\n        Ok(())\n    }\n}\n"@
        + spec_ctxs_text(vs, vis) + spec_into_impls(vs, err_enum)
}

#[verifier::rlimit(100)]
fn enum_items_text(vs: &Vec<ResolvedVariant>) -> (r: String)
    ensures
        r@ == spec_enum_items(vs@),
{
    let mut out = String::new();
    let mut i: usize = 0;
    proof {
        assert(vs@.skip(0) =~= vs@);
    }
    while i < vs.len()
        invariant
            i <= vs@.len(),
            out@ + spec_enum_items(vs@.skip(i as int)) == spec_enum_items(vs@),
        decreases vs@.len() - i,
    {
        let ghost pre = out@;
        let t = vs[i].decl.to_enum_error_item();
        out.append(t.as_str());
        i = i + 1;
        proof {
            assert(vs@.skip(i - 1)[0] == vs@[i - 1]);
            assert(vs@.skip(i - 1).drop_first() =~= vs@.skip(i as int));
            assert(out@ + spec_enum_items(vs@.skip(i as int)) =~= pre + spec_enum_items(
                vs@.skip(i - 1),
            ));
        }
    }
    proof {
        assert(vs@.skip(vs@.len() as int) =~= Seq::<ResolvedVariant>::empty());
        assert(out@ + Seq::<char>::empty() =~= out@);
    }
    out
}

#[verifier::rlimit(100)]
fn sources_arms_text(vs: &Vec<ResolvedVariant>, err_enum: &str) -> (r: String)
    ensures
        r@ == spec_sources_arms(vs@, err_enum@),
{
    let mut out = String::new();
    let mut i: usize = 0;
    proof {
        assert(vs@.skip(0) =~= vs@);
    }
    while i < vs.len()
        invariant
            i <= vs@.len(),
            out@ + spec_sources_arms(vs@.skip(i as int), err_enum@) == spec_sources_arms(
                vs@,
                err_enum@,
            ),
        decreases vs@.len() - i,
    {
        let ghost pre = out@;
        let t = vs[i].decl.to_errors_sources(err_enum);
        out.append(t.as_str());
        i = i + 1;
        proof {
            assert(vs@.skip(i - 1)[0] == vs@[i - 1]);
            assert(vs@.skip(i - 1).drop_first() =~= vs@.skip(i as int));
            assert(out@ + spec_sources_arms(vs@.skip(i as int), err_enum@) =~= pre
                + spec_sources_arms(vs@.skip(i - 1), err_enum@));
        }
    }
    proof {
        assert(vs@.skip(vs@.len() as int) =~= Seq::<ResolvedVariant>::empty());
        assert(out@ + Seq::<char>::empty() =~= out@);
    }
    out
}

#[verifier::rlimit(100)]
fn display_arms_text(vs: &Vec<ResolvedVariant>, err_enum: &str) -> (r: String)
    ensures
        r@ == spec_display_arms(vs@, err_enum@),
{
    let mut out = String::new();
    let mut i: usize = 0;
    proof {
        assert(vs@.skip(0) =~= vs@);
    }
    while i < vs.len()
        invariant
            i <= vs@.len(),
            out@ + spec_display_arms(vs@.skip(i as int), err_enum@) == spec_display_arms(
                vs@,
                err_enum@,
            ),
        decreases vs@.len() - i,
    {
        let ghost pre = out@;
        let t = vs[i].decl.to_display(err_enum);
        out.append(t.as_str());
        i = i + 1;
        proof {
            assert(vs@.skip(i - 1)[0] == vs@[i - 1]);
            assert(vs@.skip(i - 1).drop_first() =~= vs@.skip(i as int));
            assert(out@ + spec_display_arms(vs@.skip(i as int), err_enum@) =~= pre
                + spec_display_arms(vs@.skip(i - 1), err_enum@));
        }
    }
    proof {
        assert(vs@.skip(vs@.len() as int) =~= Seq::<ResolvedVariant>::empty());
        assert(out@ + Seq::<char>::empty() =~= out@);
    }
    out
}

#[verifier::rlimit(100)]
fn ctxs_text(vs: &Vec<ResolvedVariant>, enclosing: &str) -> (r: String)
    ensures
        r@ == spec_ctxs_text(vs@, enclosing@),
{
    let mut out = String::new();
    let mut i: usize = 0;
    proof {
        assert(vs@.skip(0) =~= vs@);
    }
    while i < vs.len()
        invariant
            i <= vs@.len(),
            out@ + spec_ctxs_text(vs@.skip(i as int), enclosing@) == spec_ctxs_text(
                vs@,
                enclosing@,
            ),
        decreases vs@.len() - i,
    {
        let ghost pre = out@;
        if vs[i].origin.is_none() {
            let t = vs[i].decl.to_ctx(enclosing);
            out.append(t.as_str());
        }
        i = i + 1;
        proof {
            assert(vs@.skip(i - 1)[0] == vs@[i - 1]);
            assert(vs@.skip(i - 1).drop_first() =~= vs@.skip(i as int));
            if vs@[i - 1].origin is None {
                assert(out@ =~= pre + vs@[i - 1].decl.spec_ctx_text(enclosing@));
            } else {
                assert(out@ =~= pre + Seq::<char>::empty());
            }
            assert(out@ + spec_ctxs_text(vs@.skip(i as int), enclosing@) =~= pre + spec_ctxs_text(
                vs@.skip(i - 1),
                enclosing@,
            ));
        }
    }
    proof {
        assert(vs@.skip(vs@.len() as int) =~= Seq::<ResolvedVariant>::empty());
        assert(out@ + Seq::<char>::empty() =~= out@);
    }
    out
}

#[verifier::rlimit(100)]
fn into_impls_text(vs: &Vec<ResolvedVariant>, err_enum: &str) -> (r: String)
    ensures
        r@ == spec_into_impls(vs@, err_enum@),
{
    let mut out = String::new();
    let mut i: usize = 0;
    proof {
        assert(vs@.skip(0) =~= vs@);
    }
    while i < vs.len()
        invariant
            i <= vs@.len(),
            out@ + spec_into_impls(vs@.skip(i as int), err_enum@) == spec_into_impls(
                vs@,
                err_enum@,
            ),
        decreases vs@.len() - i,
    {
        let ghost pre = out@;
        let t = vs[i].decl.to_into_error_impl(err_enum);
        out.append(t.as_str());
        i = i + 1;
        proof {
            assert(vs@.skip(i - 1)[0] == vs@[i - 1]);
            assert(vs@.skip(i - 1).drop_first() =~= vs@.skip(i as int));
            assert(out@ + spec_into_impls(vs@.skip(i as int), err_enum@) =~= pre + spec_into_impls(
                vs@.skip(i - 1),
                err_enum@,
            ));
        }
    }
    proof {
        assert(vs@.skip(vs@.len() as int) =~= Seq::<ResolvedVariant>::empty());
        assert(out@ + Seq::<char>::empty() =~= out@);
    }
    out
}

/// Emits all generated items for the given resolved variants.
#[verifier::rlimit(100)]
pub fn generated_text(vs: &Vec<ResolvedVariant>, vis: &str, err_enum: &str) -> (r: String)
    ensures
        r@ == spec_generated(vs@, vis@, err_enum@),
{
    let mut out = "#[derive(std::fmt::Debug)]\n".to_owned();
    let vp = vis_prefix(vis);
    out.append(vp.as_str());
    out.append("enum ");
    out.append(err_enum);
    out.append(" {\n");
    let items = enum_items_text(vs);
    out.append(items.as_str());
    out.append("}\n");
    out.append("impl std::error::Error for ");
    out.append(err_enum);
    out.append(
        " {\n    fn source(&self) -> Option<&(dyn std::error::Error + 'static)> {\n        match self {\n",
    );
    let sa = sources_arms_text(vs, err_enum);
    out.append(sa.as_str());
    out.append("            _ => None,\n        }\n    }\n}\nimpl std::fmt::Display for ");
    out.append(err_enum);
    out.append(
        " {\n    fn fmt(&self, f: &mut std::fmt::Formatter<'_>) -> std::fmt::Result {\n        match self {\n",
    );
    let da = display_arms_text(vs, err_enum);
    out.append(da.as_str());
    out.append("        }\n        Ok(())\n    }\n}\n");
    let cx = ctxs_text(vs, vis);
    out.append(cx.as_str());
    let ii = into_impls_text(vs, err_enum);
    out.append(ii.as_str());
    proof {
        assert(out@ =~= spec_generated(vs@, vis@, err_enum@));
    }
    out
}

/// The rewritten return type: the declared success type, or unit, paired
/// with the union under its possibly module-qualified name.
pub open spec fn spec_new_ret(ret: Option<Seq<char>>, epath: Seq<char>) -> Seq<char> {
    "std::result::Result<"@ + (match ret {
        Some(t) => t,
        None => "()"@,
    }) + ", "@ + epath + ">"@
}

/// What the attachment pass does to one annotated function: `out` is the
/// rewritten function and `gen` the generated items.
pub open spec fn spec_transform_ok(
    item: crate::item::FnItem,
    meta: crate::ast::SmartErrors,
    module: Option<String>,
    out: crate::item::FnItem,
    gen: Seq<char>,
) -> bool {
    let vis_eff: Seq<char> = if module is Some {
        "pub"@
    } else {
        item.vis@
    };
    let ename = pascal_of(item.name@ + "Error"@);
    let prefix = spec_mod_prefix(match module {
        Some(m) => Some(m@),
        None => None,
    });
    let vs = crate::resolve::spec_resolved_variants(meta.errors@);
    let bs = crate::resolve::spec_resolved_blocks(meta.errors@);
    &&& out.attrs == item.attrs
    &&& out.vis == item.vis
    &&& out.qualifiers == item.qualifiers
    &&& out.name == item.name
    &&& out.generics == item.generics
    &&& out.params == item.params
    &&& out.where_clause == item.where_clause
    &&& out.ret matches Some(t) && t@ == spec_new_ret(item@.ret, prefix + ename)
    &&& out.body@ == spec_prelude(bs, ename, prefix) + item.body@
    &&& gen == spec_generated(vs, vis_eff, ename)
}

/// The attachment pass for one annotated function: resolves the declared
/// errors, rewrites the return type, prepends the dispatch plumbing, and
/// yields the generated items.
pub fn smarterr_transform(
    item: crate::item::FnItem,
    meta: crate::ast::SmartErrors,
    module: Option<String>,
) -> (r: (crate::item::FnItem, String))
    ensures
        spec_transform_ok(item, meta, module, r.0, r.1@),
{
    let vis_eff: String = match &module {
        Some(_) => "pub".to_owned(),
        None => item.vis.clone(),
    };
    let mut base = item.name.clone();
    base.append("Error");
    let ename = to_pascal(base.as_str());
    let prefix = mod_prefix(&module);
    let resolved = crate::resolve::resolve(meta.errors);
    let gen = generated_text(&resolved.variants, vis_eff.as_str(), ename.as_str());
    let mut body = prelude_text(&resolved.blocks, ename.as_str(), prefix.as_str());
    body.append(item.body.as_str());
    let mut new_ret = "std::result::Result<".to_owned();
    match &item.ret {
        Some(t) => new_ret.append(t.as_str()),
        None => new_ret.append("()"),
    }
    new_ret.append(", ");
    new_ret.append(prefix.as_str());
    new_ret.append(ename.as_str());
    new_ret.append(">");
    proof {
        assert(new_ret@ =~= spec_new_ret(item@.ret, prefix@ + ename@));
        assert(body@ =~= spec_prelude(
            resolved.blocks@.map_values(|b: ResolvedBlock| b.view_of()),
            ename@,
            prefix@,
        ) + item.body@);
    }
    let out = crate::item::FnItem {
        attrs: item.attrs,
        vis: item.vis,
        qualifiers: item.qualifiers,
        name: item.name,
        generics: item.generics,
        params: item.params,
        ret: Some(new_ret),
        where_clause: item.where_clause,
        body,
    };
    (out, gen)
}

/// The attribute lines of a rendered function, each on its own line.
pub open spec fn spec_attrs_text(attrs: Seq<Seq<char>>) -> Seq<char>
    decreases attrs.len(),
{
    if attrs.len() == 0 {
        Seq::empty()
    } else {
        attrs[0] + "\n"@ + spec_attrs_text(attrs.drop_first())
    }
}

/// A function item rendered back to source text.
pub open spec fn spec_fn_render(f: crate::item::SpecFnItem) -> Seq<char> {
    spec_attrs_text(f.attrs) + spec_vis_prefix(f.vis) + f.qualifiers + "fn "@ + f.name + f.generics
        + "("@ + f.params + ")"@ + (match f.ret {
        Some(t) => " -> "@ + t,
        None => Seq::empty(),
    }) + (if f.where_clause.len() == 0 {
        Seq::empty()
    } else {
        " "@ + f.where_clause
    }) + " {\n"@ + f.body + "\n}\n"@
}

#[verifier::rlimit(100)]
fn attrs_text(attrs: &Vec<String>) -> (r: String)
    ensures
        r@ == spec_attrs_text(attrs@.map_values(|a: String| a@)),
{
    let ghost av = attrs@.map_values(|a: String| a@);
    let mut out = String::new();
    let mut i: usize = 0;
    proof {
        assert(av.skip(0) =~= av);
    }
    while i < attrs.len()
        invariant
            i <= attrs@.len(),
            av == attrs@.map_values(|a: String| a@),
            out@ + spec_attrs_text(av.skip(i as int)) == spec_attrs_text(av),
        decreases attrs@.len() - i,
    {
        let ghost pre = out@;
        out.append(attrs[i].as_str());
        out.append("\n");
        i = i + 1;
        proof {
            assert(av.skip(i - 1)[0] == av[i - 1]);
            assert(av.skip(i - 1).drop_first() =~= av.skip(i as int));
            assert(out@ =~= pre + (av[i - 1] + "\n"@));
            assert(out@ + spec_attrs_text(av.skip(i as int)) =~= pre + spec_attrs_text(
                av.skip(i - 1),
            ));
        }
    }
    proof {
        assert(av.skip(attrs@.len() as int) =~= Seq::<Seq<char>>::empty());
        assert(out@ + Seq::<char>::empty() =~= out@);
    }
    out
}

/// Renders a function item back to source text.
#[verifier::rlimit(100)]
pub fn fn_render(f: &crate::item::FnItem) -> (r: String)
    ensures
        r@ == spec_fn_render(f@),
{
    let mut out = attrs_text(&f.attrs);
    let vp = vis_prefix(f.vis.as_str());
    out.append(vp.as_str());
    out.append(f.qualifiers.as_str());
    out.append("fn ");
    out.append(f.name.as_str());
    out.append(f.generics.as_str());
    out.append("(");
    out.append(f.params.as_str());
    out.append(")");
    match &f.ret {
        Some(t) => {
            out.append(" -> ");
            out.append(t.as_str());
        },
        None => (),
    }
    if vstd::string::StrSliceExecFns::unicode_len(f.where_clause.as_str()) != 0 {
        out.append(" ");
        out.append(f.where_clause.as_str());
    }
    out.append(" {\n");
    out.append(f.body.as_str());
    out.append("\n}\n");
    proof {
        assert(out@ =~= spec_fn_render(f@));
    }
    out
}

/// The per-kind emission parameters, as owned strings.
fn kind_parts(k: &SourceKind) -> (r: (String, String, String, String, String))
    ensures
        (r.0@, r.1@, r.2@, r.3@, r.4@) == spec_kind_parts(k@),
{
    match k {
        SourceKind::Typed(t) => (
            String::new(),
            t.clone(),
            "src".to_owned(),
            t.clone(),
            "Some(&self.src as _)".to_owned(),
        ),
        SourceKind::DynError => (
            "<ES: std::error::Error + 'static>".to_owned(),
            "ES".to_owned(),
            "Box::new(src)".to_owned(),
            "Box<dyn std::error::Error + 'static>".to_owned(),
            "Some(&*self.src)".to_owned(),
        ),
        SourceKind::BoxedDebug(t) => {
            let mut st = "smarterr::RawError<".to_owned();
            st.append(t.as_str());
            st.append(">");
            proof {
                assert(st@ =~= "smarterr::RawError<"@ + t@ + ">"@);
            }
            (
                String::new(),
                t.clone(),
                "smarterr::RawError::new(src)".to_owned(),
                st,
                "None".to_owned(),
            )
        },
        SourceKind::DynDebug => (
            "<ES: std::fmt::Debug + 'static>".to_owned(),
            "ES".to_owned(),
            "smarterr::RawError::new(Box::new(src))".to_owned(),
            "smarterr::RawError<Box<dyn std::fmt::Debug + 'static>>".to_owned(),
            "None".to_owned(),
        ),
        SourceKind::NoSource => (
            String::new(),
            String::new(),
            String::new(),
            String::new(),
            "None".to_owned(),
        ),
    }
}

} // verus!
