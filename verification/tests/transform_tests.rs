// The transformation pipeline run on source text: lexing, parsing,
// resolution, emission and the runtime model, checked on concrete inputs.

use smarterr::ast::{SmartErrors, SourceKind};
use smarterr::attach::{smarterr, smarterr_fledged};
use smarterr::dispatch::{handle, pass_through, UnionValue, VariantValue};
use smarterr::item::FnItem;
use smarterr::resolve::{resolve, ResolvedBlock};
use smarterr::token::lex;
use smarterr::{ctx_text, variant_text};

fn parse_defs(src: &str) -> SmartErrors {
    let toks = lex(src).unwrap();
    SmartErrors::parse(&toks).unwrap()
}

fn fn_item(name: &str, vis: &str, params: &str, ret: Option<&str>, body: &str) -> FnItem {
    FnItem {
        attrs: Vec::new(),
        vis: vis.to_string(),
        qualifiers: String::new(),
        name: name.to_string(),
        generics: String::new(),
        params: params.to_string(),
        ret: ret.map(|t| t.to_string()),
        where_clause: String::new(),
        body: body.to_string(),
    }
}

#[test]
fn dedup_keeps_first_declaration() {
    let meta = parse_defs("AlfaError -> \"first\", AlfaError{ind: i32} -> \"second\"");
    let r = resolve(meta.errors);
    assert_eq!(r.variants.len(), 1);
    assert_eq!(r.variants[0].decl.name, "AlfaError");
    assert_eq!(r.variants[0].decl.msg.as_deref(), Some("first"));
    assert!(r.variants[0].decl.fields.is_none());
}

#[test]
fn resolution_partitions_handled_and_pass_through() {
    let meta = parse_defs(
        "from GreekFuncError { AlfaError, BetaError<>, BetaWrappedError<ParseIntError>, handled GammaError, handled GammaWrappedError }, FirstError{ind: i32} -> \"First error\"",
    );
    let r = resolve(meta.errors);
    let names: Vec<&str> = r.variants.iter().map(|v| v.decl.name.as_str()).collect();
    assert_eq!(names, vec!["AlfaError", "BetaError", "BetaWrappedError", "FirstError"]);
    assert_eq!(r.variants[0].origin.as_deref(), Some("GreekFuncError"));
    assert!(r.variants[3].origin.is_none());
    assert_eq!(r.blocks.len(), 1);
    assert_eq!(r.blocks[0].source_set, "GreekFuncError");
    assert_eq!(r.blocks[0].unhandled, vec!["AlfaError", "BetaError", "BetaWrappedError"]);
    assert_eq!(r.blocks[0].handled, vec!["GammaError", "GammaWrappedError"]);
}

#[test]
fn cross_block_dedup_keeps_translation_arms() {
    let meta = parse_defs(
        "from GreekFuncError { AlfaError, handled GammaError }, from LatinFuncError { AlfaError, ZError<<String>> }",
    );
    let r = resolve(meta.errors);
    let names: Vec<&str> = r.variants.iter().map(|v| v.decl.name.as_str()).collect();
    assert_eq!(names, vec!["AlfaError", "ZError"]);
    assert_eq!(r.blocks[1].unhandled, vec!["AlfaError", "ZError"]);
    assert_eq!(r.blocks[1].handled.len(), 0);
}

#[test]
fn display_composition_without_source() {
    let x = ctx_text("AlfaErrorCtx { ind: -1, ext: \"ext\" }", "AlfaErrorCtx");
    assert_eq!(variant_text("Alfa error", &x, None), "Alfa error { ind: -1, ext: 'ext' }");
}

#[test]
fn display_composition_with_cause() {
    let x = ctx_text("BetaErrorCtx { ind: -2 }", "BetaErrorCtx");
    assert_eq!(
        variant_text("Beta error", &x, Some("invalid digit found in string")),
        "Beta error { ind: -2 }, caused by: invalid digit found in string"
    );
}

#[test]
fn ctx_text_of_unexpected_debug_shape_is_empty() {
    assert_eq!(ctx_text("SomethingElse { a: 1 }", "AlfaErrorCtx"), "");
}

#[test]
fn boxed_debug_source_is_suppressed_but_displayed() {
    let v = VariantValue {
        kind: SourceKind::BoxedDebug("i32".to_string()),
        msg: "Gamma Wrapped error".to_string(),
        ctx_debug: "GammaWrappedErrorCtx { ext: \"ext\" }".to_string(),
        ctx_name: "GammaWrappedErrorCtx".to_string(),
        source_text: Some("raw error 5000000".to_string()),
    };
    assert!(v.cause().is_none());
    assert_eq!(
        v.display_text(),
        "Gamma Wrapped error { ext: 'ext' }, caused by: raw error 5000000"
    );
    let t = VariantValue {
        kind: SourceKind::Typed("ParseIntError".to_string()),
        msg: "Beta Wrapped Error".to_string(),
        ctx_debug: "BetaWrappedErrorCtx".to_string(),
        ctx_name: "BetaWrappedErrorCtx".to_string(),
        source_text: Some("invalid digit found in string".to_string()),
    };
    assert_eq!(t.cause().unwrap(), "invalid digit found in string");
}

fn sample_block() -> ResolvedBlock {
    ResolvedBlock {
        source_set: "GreekFuncError".to_string(),
        unhandled: vec![
            "AlfaError".to_string(),
            "BetaError".to_string(),
            "BetaWrappedError".to_string(),
        ],
        handled: vec!["GammaError".to_string(), "GammaWrappedError".to_string()],
    }
}

#[test]
fn pass_through_preserves_case_and_payload() {
    let block = sample_block();
    let v = UnionValue { variant: "AlfaError".to_string(), payload: 7u32 };
    let out = pass_through(&block, v).unwrap();
    assert_eq!(out.variant, "AlfaError");
    assert_eq!(out.payload, 7);
    let w = UnionValue { variant: "GammaError".to_string(), payload: 7u32 };
    assert!(pass_through(&block, w).is_none());
}

#[test]
fn handled_dispatch_routes_each_case() {
    let block = sample_block();
    let ok: Result<u32, UnionValue<u32>> = Ok(5);
    assert_eq!(handle(&block, ok, |_e| Ok(0)).unwrap().unwrap(), 5);

    let rethrown: Result<u32, UnionValue<u32>> =
        Err(UnionValue { variant: "BetaError".to_string(), payload: 9 });
    let out = handle(&block, rethrown, |_e| Ok(0)).unwrap().unwrap_err();
    assert_eq!(out.variant, "BetaError");
    assert_eq!(out.payload, 9);

    let intercepted: Result<u32, UnionValue<u32>> =
        Err(UnionValue { variant: "GammaWrappedError".to_string(), payload: 3 });
    let out = handle(&block, intercepted, |e| {
        Err(UnionValue { variant: "ZError".to_string(), payload: e.payload + 1 })
    })
    .unwrap()
    .unwrap_err();
    assert_eq!(out.variant, "ZError");
    assert_eq!(out.payload, 4);

    let unknown: Result<u32, UnionValue<u32>> =
        Err(UnionValue { variant: "NoSuchError".to_string(), payload: 1 });
    assert!(handle(&block, unknown, |_e| Ok(0)).is_none());
}

#[test]
fn smarterr_rewrites_signature_and_emits_union() {
    let args = "AlfaError{ind: i32, ext: String} -> \"Alfa error\", BetaError<>{ind: i32} -> \"Beta error\", BetaWrappedError<ParseIntError> -> \"Beta Wrapped Error\", GammaError<<>>{ext: String} -> \"Gamma error\", GammaWrappedError<<i32>>{ext: String} -> \"Gamma Wrapped error\"";
    let item = fn_item("greek_func", "pub", "err_ind: usize", Some("String"), "    Ok(ok_str)");
    let out = smarterr(args, item).unwrap();
    assert!(out.contains("pub fn greek_func(err_ind: usize) -> std::result::Result<String, GreekFuncError>"));
    assert!(out.contains("pub enum GreekFuncError {"));
    assert!(out.contains("    AlfaError(AlfaError),"));
    assert!(out.contains("    GammaWrappedError(GammaWrappedError),"));
    assert!(out.contains("src: smarterr::RawError<i32>,"));
    assert!(out.contains("src: smarterr::RawError<Box<dyn std::fmt::Debug + 'static>>,"));
    assert!(out.contains("src: Box<dyn std::error::Error + 'static>,"));
    assert!(out.contains("src: ParseIntError,"));
    assert!(out.contains("impl smarterr::IntoError<GreekFuncError, ParseIntError> for BetaWrappedErrorCtx"));
    assert!(out.contains("impl<ES: std::fmt::Debug + 'static> smarterr::IntoError<GreekFuncError, ES> for GammaErrorCtx"));
    assert!(out.contains("GreekFuncError::BetaError(err) => err.source(),"));
    assert!(!out.contains("GreekFuncError::GammaError(err) => err.source(),"));
    assert!(out.contains("smarterr::ctx_text(&format!(\"{:?}\", self.ctx), \"AlfaErrorCtx\")"));
}

#[test]
fn smarterr_injects_dispatch_for_handled_blocks() {
    let args = "from GreekFuncError { AlfaError, BetaError<>, BetaWrappedError<ParseIntError>, GammaError<<>>, handled GammaWrappedError }, XError{ind: i32, ext: String} -> \"X error\"";
    let item = fn_item("latin_func", "", "err_ind: usize", None, "    Ok(())");
    let out = smarterr(args, item).unwrap();
    assert!(out.contains("fn latin_func(err_ind: usize) -> std::result::Result<(), LatinFuncError>"));
    assert!(out.contains("trait ErrorHandler<T, EH, ER>"));
    assert!(out.contains("enum GreekFuncErrorHandled {"));
    assert!(out.contains("    GammaWrappedError(GammaWrappedError),"));
    assert!(out.contains("GreekFuncError::AlfaError(e) => Err(LatinFuncError::AlfaError(e)),"));
    assert!(out.contains(
        "GreekFuncError::GammaWrappedError(e) => handler(GreekFuncErrorHandled::GammaWrappedError(e)),"
    ));
    // an inherited pass-through reuses the source set's wrapper: no new struct
    assert!(!out.contains("struct AlfaError"));
    assert!(out.contains("struct XError"));
}

#[test]
fn smarterr_emits_plain_conversion_without_handled() {
    let args = "from GreekFuncError { AlfaError, BetaError<> }, XError{ind: i32} -> \"X error\"";
    let item = fn_item("plain_func", "", "", None, "    Ok(())");
    let out = smarterr(args, item).unwrap();
    assert!(out.contains("impl From<GreekFuncError> for PlainFuncError {"));
    assert!(out.contains("GreekFuncError::AlfaError(ctx) => PlainFuncError::AlfaError(ctx),"));
    assert!(!out.contains("enum GreekFuncErrorHandled"));
}

#[test]
fn fledged_set_is_emitted_standalone() {
    let out = smarterr_fledged("DomainErrors{ DomainError<<i32>> -> \"Domain error\" }").unwrap();
    assert!(out.contains("enum DomainErrors {"));
    assert!(out.contains("    DomainError(DomainError),"));
    assert!(out.contains("src: smarterr::RawError<i32>,"));
    assert!(out.contains("\"Domain error\""));
    assert!(out.contains("impl smarterr::IntoError<DomainErrors, i32> for DomainErrorCtx"));
    let out = smarterr_fledged(
        "pub PlanetsError { MercuryError{} -> \"Mercury error\", pub MarsError{ind: usize} -> \"Mars Error\", SaturnError<<i32>> -> \"Saturn error\", EarthError<ParseIntError> -> \"EarthError\" }",
    )
    .unwrap();
    assert!(out.contains("pub enum PlanetsError {"));
    assert!(out.contains("pub struct MarsError {"));
    assert!(out.contains("    ind: usize,"));
}

#[test]
fn inherited_redeclaration_with_fields_is_rejected() {
    let toks = lex("from GreekFuncError { AlfaError{ind: i32} }").unwrap();
    let e = SmartErrors::parse(&toks).unwrap_err();
    assert_eq!(e.msg, "Inherited error cannot contain its own definition");
}

#[test]
fn lexer_reports_unsupported_characters() {
    assert!(lex("AlfaError -> \"msg\"").is_ok());
    let e = lex("AlfaError # 1").unwrap_err();
    assert_eq!(e.pos, 10);
    let e = lex("\"unterminated").unwrap_err();
    assert_eq!(e.pos, 0);
}

#[test]
fn parser_reads_the_documented_grammar() {
    let meta = parse_defs(
        "pub ZError<<String>>{ind: usize} -> \"Z Error\", BetaWrappedError<std::num::ParseIntError> -> \"Imported Beta Wrapped Error\"",
    );
    assert_eq!(meta.errors.len(), 2);
    match &meta.errors[0] {
        smarterr::ast::ErrorDef::Own(oe) => {
            assert_eq!(oe.name, "ZError");
            assert!(matches!(oe.vis, Some(smarterr::ast::Vis::Public)));
            match &oe.source {
                SourceKind::BoxedDebug(t) => assert_eq!(t, "String"),
                _ => panic!("expected a boxed debug source"),
            }
            let fields = oe.fields.as_ref().unwrap();
            assert_eq!(fields.len(), 1);
            assert_eq!(fields[0].name, "ind");
            assert_eq!(fields[0].ty, "usize");
            assert_eq!(oe.msg.as_deref(), Some("Z Error"));
        },
        _ => panic!("expected an own declaration"),
    }
    match &meta.errors[1] {
        smarterr::ast::ErrorDef::Own(oe) => {
            match &oe.source {
                SourceKind::Typed(t) => assert_eq!(t, "std::num::ParseIntError"),
                _ => panic!("expected a typed source"),
            }
        },
        _ => panic!("expected an own declaration"),
    }
}

#[test]
fn fledged_duplicate_names_are_deduplicated() {
    let out = smarterr_fledged(
        "DomainErrors{ DomainError -> \"first\", DomainError -> \"second\" }",
    )
    .unwrap();
    assert_eq!(out.matches("    DomainError(DomainError),").count(), 1);
    assert!(out.contains("\"first\""));
    assert!(!out.contains("\"second\""));
}

#[test]
fn parser_diagnostics_name_the_offending_place() {
    let toks = lex("AlfaError BetaError").unwrap();
    let e = SmartErrors::parse(&toks).unwrap_err();
    assert_eq!(e.msg, "expected comma");
    assert_eq!(e.pos, 10);

    let toks = lex("pub(self) AlfaError").unwrap();
    let e = SmartErrors::parse(&toks).unwrap_err();
    assert_eq!(e.msg, "malformed visibility");

    let toks = lex("AlfaError<ParseIntError").unwrap();
    let e = SmartErrors::parse(&toks).unwrap_err();
    assert_eq!(e.msg, "malformed source brackets");

    let toks = lex("from GreekFuncError").unwrap();
    let e = SmartErrors::parse(&toks).unwrap_err();
    assert_eq!(e.msg, "expected brace group after set name");
}

#[test]
fn methods_share_one_hoisted_module() {
    let new_item = FnItem {
        attrs: Vec::new(),
        vis: "pub".to_string(),
        qualifiers: String::new(),
        name: "new".to_string(),
        generics: String::new(),
        params: "a: &str, b: &str".to_string(),
        ret: Some("Self".to_string()),
        where_clause: String::new(),
        body: "    Ok(Self { a: 0, b: 0 })".to_string(),
    };
    let plain = FnItem {
        attrs: Vec::new(),
        vis: String::new(),
        qualifiers: String::new(),
        name: "last".to_string(),
        generics: String::new(),
        params: "self".to_string(),
        ret: Some("i32".to_string()),
        where_clause: String::new(),
        body: "    self.a".to_string(),
    };
    let out = smarterr::attach::smarterr_mod(
        "test_err",
        "impl Test".to_string(),
        vec![
            smarterr::item::ImplMember::Method {
                item: new_item,
                attr_args: Some(
                    "InitFailed{pub a: String, pub b: String} -> \"Init error\"".to_string(),
                ),
            },
            smarterr::item::ImplMember::Method { item: plain, attr_args: None },
        ],
    )
    .unwrap();
    assert!(out.contains("mod test_err {"));
    assert!(out.contains("pub enum NewError {"));
    assert!(out.contains("pub fn new(a: &str, b: &str) -> std::result::Result<Self, test_err::NewError>"));
    assert!(out.contains("fn last(self) -> i32"));
    assert!(out.contains("pub struct InitFailedCtx {"));
    assert!(out.contains("    pub a: String,"));
}

#[test]
fn entry_points_surface_diagnostics() {
    let e = smarterr("AlfaError @", fn_item("f", "", "", None, "")).unwrap_err();
    assert_eq!(e.msg, "unrecognized token");
    assert_eq!(e.pos, 10);
    let e = smarterr("from X", fn_item("f", "", "", None, "")).unwrap_err();
    assert_eq!(e.msg, "expected brace group after set name");
    let e = smarterr_fledged("Domain").unwrap_err();
    assert_eq!(e.msg, "expected brace group after set name");
    let e = smarterr::errorset::errorset(
        "mod a b",
        smarterr::errorset::ErrorsetInput::Function(fn_item("f", "", "", Some("u32"), "")),
    )
    .unwrap_err();
    assert_eq!(e.msg, "unexpected trailing tokens");
}
