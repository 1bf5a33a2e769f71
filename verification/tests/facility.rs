// The expanded form of functions and methods annotated for the simpler
// facility, plus the facility run on the same items as source text.

use std::num::ParseIntError;

use smarterr::errorset::{errorset, ErrorsetInput};
use smarterr::item::{FnItem, ImplMember};

#[derive(Debug)]
pub struct Error1 {
    pub data: u32,
    pub source: ParseIntError,
}

#[derive(Debug)]
pub struct Error2 {
    pub message: String,
}

#[derive(Debug)]
enum ErrorSetErrors {
    Error1(Error1),
    Error2(Error2),
}

fn error_set() -> Result<(), ErrorSetErrors> {
    let _t = "-123"
        .parse::<u32>()
        .map_err(|source| ErrorSetErrors::Error1(Error1 { data: 42, source }))?;
    Err(ErrorSetErrors::Error2(Error2 { message: "Error message".to_owned() }))
}

#[test]
fn fire_error1() {
    match error_set() {
        Ok(_) => println!("No error occurred"),
        Err(ErrorSetErrors::Error1(e)) => println!("Error1: {:#?}", e),
        Err(ErrorSetErrors::Error2(e)) => println!("Error2: {:#?}", e),
    }
}

struct _SomeStruct {}

#[derive(Debug)]
enum MethodOneErrors {
    Error1(Error1),
    #[allow(dead_code)]
    Error2(Error2),
}

#[derive(Debug)]
enum MethodTwoErrors {
    #[allow(dead_code)]
    Error1(Error1),
    Error2(Error2),
}

impl _SomeStruct {
    fn method_one<T>(&self, input: T) -> Result<(), MethodOneErrors>
    where
        T: AsRef<str>,
    {
        Err(MethodOneErrors::Error1(Error1 {
            data: 7,
            source: input.as_ref().parse::<u32>().unwrap_err(),
        }))
    }

    fn method_two(&self) -> Result<(), MethodTwoErrors> {
        Err(MethodTwoErrors::Error2(Error2 { message: "Another error".to_string() }))
    }

    fn method_three(&self) -> Result<(), (Error1, Error2)> {
        Ok(())
    }

    fn method_to_skip(&self) -> u32 {
        42
    }
}

#[test]
fn method_errors() {
    let s = _SomeStruct {};
    match s.method_one("fail") {
        Err(MethodOneErrors::Error1(e)) => assert!(e.data == 7),
        _ => panic!("Expected Error1"),
    }
    match s.method_two() {
        Err(MethodTwoErrors::Error2(e)) => assert_eq!(e.message, "Another error"),
        _ => panic!("Expected Error2"),
    }
    assert_eq!(s.method_three().unwrap(), ());
    assert_eq!(s.method_to_skip(), 42);
}

fn with_where_item() -> FnItem {
    FnItem {
        attrs: Vec::new(),
        vis: String::new(),
        qualifiers: String::new(),
        name: "with_where".to_string(),
        generics: "<T: AsRef<str>>".to_string(),
        params: "x: T".to_string(),
        ret: Some("Result<(), (Error1, Error2)>".to_string()),
        where_clause: "where T: Clone".to_string(),
        body: "    let _ = x.as_ref().parse::<u32>().map_err(|source| Error1 { data: 0, source })?;\n    Ok(())".to_string(),
    }
}

#[test]
fn test_where_clause() {
    let out = errorset(
        "pub(crate) mod where_mod",
        ErrorsetInput::Function(with_where_item()),
    )
    .unwrap();
    assert!(out.contains("pub(crate) mod where_mod"));
    assert!(out.contains("pub enum WithWhereErrors"));
    assert!(out.contains("Error1(#[from] Error1)"));
    assert!(out.contains("Error2(#[from] Error2)"));
    assert!(out.contains("fn with_where<T: AsRef<str>>(x: T) -> Result<(), where_mod::WithWhereErrors> where T: Clone"));
}

#[derive(Debug)]
enum DupErrorsErrors {
    Error1(Error1),
}

fn dup_errors() -> Result<(), DupErrorsErrors> {
    Err(DupErrorsErrors::Error1(Error1 {
        data: 1,
        source: "fail".parse::<u32>().unwrap_err(),
    }))
}

#[test]
fn test_dedup_enum() {
    match dup_errors() {
        Err(DupErrorsErrors::Error1(e)) => assert_eq!(e.data, 1),
        _ => panic!("Expected Error1"),
    }
    let item = FnItem {
        attrs: Vec::new(),
        vis: String::new(),
        qualifiers: String::new(),
        name: "dup_errors".to_string(),
        generics: String::new(),
        params: String::new(),
        ret: Some("Result<(), (Error1, Error1)>".to_string()),
        where_clause: String::new(),
        body: "    Ok(())".to_string(),
    };
    let out = errorset("pub(crate) mod de_mod", ErrorsetInput::Function(item)).unwrap();
    assert!(out.contains("pub enum DupErrorsErrors"));
    assert_eq!(out.matches("#[from] Error1").count(), 1);
}

#[test]
fn impl_block_methods_are_rewritten_and_unions_hoisted() {
    let method_one = FnItem {
        attrs: Vec::new(),
        vis: String::new(),
        qualifiers: String::new(),
        name: "method_one".to_string(),
        generics: "<T>".to_string(),
        params: "&self, input: T".to_string(),
        ret: Some("Result<(), (Error1, Error2)>".to_string()),
        where_clause: "where T: AsRef<str>".to_string(),
        body: "    Ok(())".to_string(),
    };
    let method_to_skip = FnItem {
        attrs: Vec::new(),
        vis: String::new(),
        qualifiers: String::new(),
        name: "method_to_skip".to_string(),
        generics: String::new(),
        params: "&self".to_string(),
        ret: Some("u32".to_string()),
        where_clause: String::new(),
        body: "    42".to_string(),
    };
    let out = errorset(
        "pub(crate) mod eei",
        ErrorsetInput::Impl {
            header: "impl _SomeStruct".to_string(),
            members: vec![
                ImplMember::Method { item: method_one, attr_args: Some(String::new()) },
                ImplMember::Method { item: method_to_skip, attr_args: None },
            ],
        },
    )
    .unwrap();
    assert!(out.contains("pub(crate) mod eei"));
    assert!(out.contains("pub enum MethodOneErrors"));
    assert!(out.contains("-> Result<(), eei::MethodOneErrors>"));
    assert!(out.contains("fn method_to_skip(&self) -> u32"));
    assert!(!out.contains("MethodToSkipErrors"));
}

#[test]
fn errorset_attr_with_args_inside_impl_is_rejected() {
    let method = FnItem {
        attrs: Vec::new(),
        vis: String::new(),
        qualifiers: String::new(),
        name: "method_one".to_string(),
        generics: String::new(),
        params: "&self".to_string(),
        ret: Some("Result<(), (Error1, Error2)>".to_string()),
        where_clause: String::new(),
        body: "    Ok(())".to_string(),
    };
    let out = errorset(
        "pub(crate) mod eei",
        ErrorsetInput::Impl {
            header: "impl _SomeStruct".to_string(),
            members: vec![
                ImplMember::Method { item: method, attr_args: Some("pub".to_string()) },
            ],
        },
    );
    assert_eq!(
        out.unwrap_err().msg,
        "errorset attribute must not have arguments inside impl blocks"
    );
}

#[test]
fn errorset_shape_diagnostics() {
    let base = |ret: Option<&str>| FnItem {
        attrs: Vec::new(),
        vis: String::new(),
        qualifiers: String::new(),
        name: "f".to_string(),
        generics: String::new(),
        params: String::new(),
        ret: ret.map(|t| t.to_string()),
        where_clause: String::new(),
        body: String::new(),
    };
    let e = errorset("", ErrorsetInput::Function(base(None))).unwrap_err();
    assert_eq!(e.msg, "Function must have a valid return type");
    let e = errorset("", ErrorsetInput::Function(base(Some("Result<u32>")))).unwrap_err();
    assert_eq!(e.msg, "Expected exactly 2 generic arguments");
    let e = errorset("", ErrorsetInput::Function(base(Some("Result<u32, &Error1>")))).unwrap_err();
    assert_eq!(e.msg, "Expected the second generic argument to be a tuple");
    let e = errorset("", ErrorsetInput::Function(base(Some("u32")))).unwrap_err();
    assert_eq!(e.msg, "Expected angle-bracketed generic arguments");
    let out = errorset(
        "",
        ErrorsetInput::Function(base(Some("Result<u32, (Error1)>"))),
    )
    .unwrap();
    assert!(out.contains("fn f() -> Result<u32, (Error1)>"));
    assert!(!out.contains("enum"));
}
