use smarterr::{ctx_text, variant_text, IntoError, RawError, Throwable};

fn raw_throwable(val: i32) -> Result<i32, RawError<i32>> {
    val.throw(|v| RawError::new_with(v, "raw error"))
}

#[test]
pub fn test_throwable() {
    assert_eq!(raw_throwable(0).unwrap(), 0);
    assert_eq!(raw_throwable(10).is_err(), true);
    assert_eq!(raw_throwable(10).unwrap_err().text(), "raw error { value: 10 }");
}

#[derive(Debug)]
struct DomainErrorCtx {}

#[derive(Debug)]
struct DomainError {
    src: RawError<i32>,
    ctx: DomainErrorCtx,
}

impl DomainError {
    fn new(src: RawError<i32>, ctx: DomainErrorCtx) -> Self {
        DomainError { src, ctx }
    }

    fn default_message(&self) -> &'static str {
        "Domain error"
    }

    fn render(&self) -> String {
        let x = ctx_text(&format!("{:?}", self.ctx), "DomainErrorCtx");
        variant_text(self.default_message(), &x, Some(&self.src.text()))
    }
}

#[derive(Debug)]
enum DomainErrors {
    DomainError(DomainError),
}

impl DomainErrors {
    fn render(&self) -> String {
        match self {
            DomainErrors::DomainError(e) => e.render(),
        }
    }
}

impl IntoError<DomainErrors, RawError<i32>> for DomainErrorCtx {
    fn into_error(self, source: RawError<i32>) -> DomainErrors {
        DomainErrors::DomainError(DomainError::new(source, self))
    }
}

fn raw_erroneous(val: i32) -> Result<i32, RawError<i32>> {
    val.throw(|v| RawError::new_with(v, "raw error"))
}

fn raw_erroneous_then(val: i32) -> Result<i32, RawError<i32>> {
    val.throw(|v| RawError::new_with(v, "raw error"))
}

fn raw_erroneous_ctx(val: i32) -> Result<i32, DomainErrors> {
    val.throw(|v| DomainErrorCtx {}.into_error(RawError::new_with(v, "raw error")))
}

#[test]
pub fn test_erroneous() {
    assert_eq!(raw_erroneous(0).unwrap(), 0);
    assert_eq!(raw_erroneous_then(10).is_err(), true);
    assert_eq!(raw_erroneous_then(10).unwrap_err().text(), "raw error { value: 10 }");
    assert_eq!(
        raw_erroneous_ctx(10).unwrap_err().render(),
        "Domain error, caused by: raw error { value: 10 }"
    );
}

#[test]
fn raw_error_plain_text_replaces_quotes() {
    let e = RawError::new("Error raised".to_string());
    assert_eq!(e.text(), "raw error 'Error raised'");
    let n = RawError::new(5000000);
    assert_eq!(n.text(), "raw error 5000000");
}

#[test]
fn throwable_option_and_result() {
    let some: Option<u8> = Some(7);
    let none: Option<u8> = None;
    assert_eq!(some.throw(|_| "failed"), Ok(7));
    assert_eq!(none.throw(|_| "failed"), Err("failed"));
    assert_eq!(some.raise(|v| v + 1), Err(8));
    assert_eq!(none.raise(|v| v + 1), Ok(None));

    let ok: Result<u8, i8> = Ok(3);
    let err: Result<u8, i8> = Err(-1);
    assert_eq!(ok.throw(|e| e as i32), Ok(3));
    assert_eq!(err.throw(|e| e as i32), Err(-1i32));
    assert_eq!(ok.raise(|v| v as i32), Err(3i32));
    assert_eq!(err.raise(|v| v as i32), Ok(-1i8));
}

#[test]
fn throwable_plain_values() {
    assert_eq!(true.throw(|b| b), Ok(true));
    assert_eq!(false.throw(|b| b), Err(false));
    assert_eq!(0i32.throw(|v| v), Ok(0));
    assert_eq!(5i32.throw(|v| v), Err(5));
    assert_eq!(0usize.raise(|v| v), Err(0));
    assert_eq!(3usize.raise(|v| v), Ok(3));
    assert_eq!("".to_string().throw(|s| s), Err(String::new()));
    assert_eq!("x".to_string().throw(|s| s), Ok("x".to_string()));
}
