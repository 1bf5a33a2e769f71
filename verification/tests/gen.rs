// The expanded form of a chain of annotated functions, written against the
// runtime support: what the emitter produces for the declarations
//
//   greek_func:   AlfaError{ind, ext} -> "Alfa error",
//                 BetaError<>{ind} -> "Beta error",
//                 BetaWrappedError<ParseIntError> -> "Beta Wrapped Error",
//                 GammaError<<>>{ext} -> "Gamma error",
//                 GammaWrappedError<<i32>>{ext} -> "Gamma Wrapped error"
//   latin_func:   from GreekFuncError { ..., handled GammaWrappedError }, X, Y, Z<<String>>
//   numeric_func: from GreekFuncError { handled Gamma*, ... }, from LatinFuncError { ... }

use std::num::ParseIntError;

use smarterr::{ctx_text, variant_text, RawError, Throwable};

#[derive(Debug)]
struct AlfaErrorCtx {
    ind: i32,
    ext: String,
}

#[derive(Debug)]
struct AlfaError {
    ctx: AlfaErrorCtx,
}

impl AlfaError {
    fn render(&self) -> String {
        let x = ctx_text(&format!("{:?}", self.ctx), "AlfaErrorCtx");
        variant_text("Alfa error", &x, None)
    }
}

#[derive(Debug)]
struct BetaErrorCtx {
    ind: i32,
}

#[derive(Debug)]
struct BetaError {
    src: Box<dyn std::error::Error + 'static>,
    ctx: BetaErrorCtx,
}

impl BetaError {
    fn render(&self) -> String {
        let x = ctx_text(&format!("{:?}", self.ctx), "BetaErrorCtx");
        variant_text("Beta error", &x, Some(&self.src.to_string()))
    }
}

#[derive(Debug)]
struct BetaWrappedErrorCtx {}

#[derive(Debug)]
struct BetaWrappedError {
    src: ParseIntError,
    ctx: BetaWrappedErrorCtx,
}

impl BetaWrappedError {
    fn render(&self) -> String {
        let x = ctx_text(&format!("{:?}", self.ctx), "BetaWrappedErrorCtx");
        variant_text("Beta Wrapped Error", &x, Some(&self.src.to_string()))
    }
}

#[derive(Debug)]
struct GammaErrorCtx {
    ext: String,
}

#[derive(Debug)]
struct GammaError {
    src: RawError<Box<dyn std::fmt::Debug + 'static>>,
    ctx: GammaErrorCtx,
}

impl GammaError {
    fn render(&self) -> String {
        let x = ctx_text(&format!("{:?}", self.ctx), "GammaErrorCtx");
        variant_text("Gamma error", &x, Some(&self.src.text()))
    }
}

#[derive(Debug)]
struct GammaWrappedErrorCtx {
    ext: String,
}

#[derive(Debug)]
struct GammaWrappedError {
    src: RawError<i32>,
    ctx: GammaWrappedErrorCtx,
}

impl GammaWrappedError {
    fn render(&self) -> String {
        let x = ctx_text(&format!("{:?}", self.ctx), "GammaWrappedErrorCtx");
        variant_text("Gamma Wrapped error", &x, Some(&self.src.text()))
    }
}

#[derive(Debug)]
enum GreekFuncError {
    AlfaError(AlfaError),
    BetaError(BetaError),
    BetaWrappedError(BetaWrappedError),
    GammaError(GammaError),
    GammaWrappedError(GammaWrappedError),
}

impl GreekFuncError {
    fn render(&self) -> String {
        match self {
            GreekFuncError::AlfaError(e) => e.render(),
            GreekFuncError::BetaError(e) => e.render(),
            GreekFuncError::BetaWrappedError(e) => e.render(),
            GreekFuncError::GammaError(e) => e.render(),
            GreekFuncError::GammaWrappedError(e) => e.render(),
        }
    }
}

pub fn greek_func(err_ind: usize) -> Result<String, GreekFuncError> {
    let ok_str = "All is ok".to_string();
    let err_str = "Error raised".to_string();
    let ext = "ext".to_string();
    match err_ind {
        0 => Ok(ok_str),
        1 => err_str.raise(|_v| {
            GreekFuncError::AlfaError(AlfaError { ctx: AlfaErrorCtx { ind: -1, ext } })
        }),
        2 => "z12"
            .parse::<i32>()
            .throw(|e| {
                GreekFuncError::BetaError(BetaError {
                    src: Box::new(e),
                    ctx: BetaErrorCtx { ind: -2 },
                })
            })
            .map(|_| ok_str),
        3 => "z12"
            .parse::<i32>()
            .throw(|e| {
                GreekFuncError::BetaWrappedError(BetaWrappedError {
                    src: e,
                    ctx: BetaWrappedErrorCtx {},
                })
            })
            .map(|_| ok_str),
        4 => err_str.raise(|v| {
            GreekFuncError::GammaError(GammaError {
                src: RawError::new(Box::new(v) as Box<dyn std::fmt::Debug>),
                ctx: GammaErrorCtx { ext },
            })
        }),
        5 => 5000000
            .throw(|v| {
                GreekFuncError::GammaWrappedError(GammaWrappedError {
                    src: RawError::new(v),
                    ctx: GammaWrappedErrorCtx { ext },
                })
            })
            .map(|_| ok_str),
        _ => Ok(ok_str),
    }
}

trait ErrorHandler<T, EH, ER> {
    fn handle<F: FnOnce(EH) -> Result<T, ER>>(self, handler: F) -> Result<T, ER>;
}

#[derive(Debug)]
struct XErrorCtx {
    ind: i32,
    ext: String,
}

#[derive(Debug)]
struct XError {
    ctx: XErrorCtx,
}

#[derive(Debug)]
struct YErrorCtx {
    ind: i32,
}

#[derive(Debug)]
struct YError {
    ctx: YErrorCtx,
}

#[derive(Debug)]
struct ZErrorCtx {
    ind: usize,
}

#[derive(Debug)]
struct ZError {
    src: RawError<String>,
    ctx: ZErrorCtx,
}

#[derive(Debug)]
enum LatinFuncError {
    AlfaError(AlfaError),
    BetaError(BetaError),
    BetaWrappedError(BetaWrappedError),
    GammaError(GammaError),
    XError(XError),
    YError(YError),
    ZError(ZError),
}

enum LatinGreekHandled {
    GammaWrappedError(GammaWrappedError),
}

impl<T> ErrorHandler<T, LatinGreekHandled, LatinFuncError> for Result<T, GreekFuncError> {
    fn handle<F: FnOnce(LatinGreekHandled) -> Result<T, LatinFuncError>>(
        self,
        handler: F,
    ) -> Result<T, LatinFuncError> {
        match self {
            Ok(v) => Ok(v),
            Err(e) => match e {
                GreekFuncError::AlfaError(e) => Err(LatinFuncError::AlfaError(e)),
                GreekFuncError::BetaError(e) => Err(LatinFuncError::BetaError(e)),
                GreekFuncError::BetaWrappedError(e) => Err(LatinFuncError::BetaWrappedError(e)),
                GreekFuncError::GammaError(e) => Err(LatinFuncError::GammaError(e)),
                GreekFuncError::GammaWrappedError(e) => {
                    handler(LatinGreekHandled::GammaWrappedError(e))
                }
            },
        }
    }
}

fn latin_func(err_ind: usize) -> Result<(), LatinFuncError> {
    greek_func(err_ind).handle(|h| match h {
        LatinGreekHandled::GammaWrappedError(data) => data.ctx.ext.throw(|s| {
            LatinFuncError::ZError(ZError {
                src: RawError::new(s),
                ctx: ZErrorCtx { ind: err_ind },
            })
        }),
    })?;
    Ok(())
}

#[derive(Debug)]
struct FirstErrorCtx {
    ind: i32,
    ext: String,
}

#[derive(Debug)]
struct FirstError {
    ctx: FirstErrorCtx,
}

#[derive(Debug)]
struct SecondErrorCtx {
    ind: i32,
}

#[derive(Debug)]
struct SecondError {
    ctx: SecondErrorCtx,
}

#[derive(Debug)]
struct ThirdErrorCtx {}

#[derive(Debug)]
struct ThirdError {
    ctx: ThirdErrorCtx,
}

#[derive(Debug)]
enum NumericFuncError {
    AlfaError(AlfaError),
    BetaError(BetaError),
    BetaWrappedError(BetaWrappedError),
    ZError(ZError),
    FirstError(FirstError),
    SecondError(SecondError),
    ThirdError(ThirdError),
}

enum NumericGreekHandled {
    GammaError(GammaError),
    GammaWrappedError(GammaWrappedError),
}

impl<T> ErrorHandler<T, NumericGreekHandled, NumericFuncError> for Result<T, GreekFuncError> {
    fn handle<F: FnOnce(NumericGreekHandled) -> Result<T, NumericFuncError>>(
        self,
        handler: F,
    ) -> Result<T, NumericFuncError> {
        match self {
            Ok(v) => Ok(v),
            Err(e) => match e {
                GreekFuncError::AlfaError(e) => Err(NumericFuncError::AlfaError(e)),
                GreekFuncError::BetaError(e) => Err(NumericFuncError::BetaError(e)),
                GreekFuncError::BetaWrappedError(e) => Err(NumericFuncError::BetaWrappedError(e)),
                GreekFuncError::GammaError(e) => handler(NumericGreekHandled::GammaError(e)),
                GreekFuncError::GammaWrappedError(e) => {
                    handler(NumericGreekHandled::GammaWrappedError(e))
                }
            },
        }
    }
}

enum NumericLatinHandled {
    GammaError(GammaError),
    XError(XError),
    YError(YError),
}

impl<T> ErrorHandler<T, NumericLatinHandled, NumericFuncError> for Result<T, LatinFuncError> {
    fn handle<F: FnOnce(NumericLatinHandled) -> Result<T, NumericFuncError>>(
        self,
        handler: F,
    ) -> Result<T, NumericFuncError> {
        match self {
            Ok(v) => Ok(v),
            Err(e) => match e {
                LatinFuncError::AlfaError(e) => Err(NumericFuncError::AlfaError(e)),
                LatinFuncError::BetaError(e) => Err(NumericFuncError::BetaError(e)),
                LatinFuncError::BetaWrappedError(e) => Err(NumericFuncError::BetaWrappedError(e)),
                LatinFuncError::ZError(e) => Err(NumericFuncError::ZError(e)),
                LatinFuncError::GammaError(e) => handler(NumericLatinHandled::GammaError(e)),
                LatinFuncError::XError(e) => handler(NumericLatinHandled::XError(e)),
                LatinFuncError::YError(e) => handler(NumericLatinHandled::YError(e)),
            },
        }
    }
}

#[derive(Debug)]
struct MarsErrorCtx {
    ind: usize,
}

#[derive(Debug)]
struct MarsError {
    ctx: MarsErrorCtx,
}

#[derive(Debug)]
enum PlanetsError {
    MarsError(MarsError),
}

pub fn numeric_func(err_ind: usize) -> Result<String, NumericFuncError> {
    let g = greek_func(err_ind).handle(|h| match h {
        NumericGreekHandled::GammaWrappedError(e) => e.ctx.ext.clone().raise(|_v| {
            NumericFuncError::FirstError(FirstError {
                ctx: FirstErrorCtx { ind: err_ind as i32, ext: e.ctx.ext },
            })
        }),
        NumericGreekHandled::GammaError(e) => e.ctx.ext.raise(|_v| {
            NumericFuncError::SecondError(SecondError {
                ctx: SecondErrorCtx { ind: err_ind as i32 },
            })
        }),
    })?;

    latin_func(err_ind).handle(|h| match h {
        NumericLatinHandled::XError(e) => ().raise(|_| {
            NumericFuncError::FirstError(FirstError {
                ctx: FirstErrorCtx { ind: err_ind as i32, ext: e.ctx.ext },
            })
        }),
        NumericLatinHandled::YError(e) => ().raise(|_| {
            NumericFuncError::SecondError(SecondError { ctx: SecondErrorCtx { ind: e.ctx.ind } })
        }),
        NumericLatinHandled::GammaError(_) => Ok(()),
    })?;

    let t: Result<(), PlanetsError> = ().raise(|_| {
        PlanetsError::MarsError(MarsError { ctx: MarsErrorCtx { ind: err_ind } })
    });
    let _t: Result<(), GreekFuncError> = t.throw(|_e| {
        GreekFuncError::BetaError(BetaError {
            src: Box::new("z".parse::<i32>().unwrap_err()),
            ctx: BetaErrorCtx { ind: err_ind as i32 },
        })
    });

    let _t = RawError::new(10);

    Ok(g)
}

#[test]
pub fn gen_test() {
    assert_eq!(greek_func(1).unwrap_err().render(), "Alfa error { ind: -1, ext: 'ext' }");
    assert_eq!(
        greek_func(2).unwrap_err().render(),
        "Beta error { ind: -2 }, caused by: invalid digit found in string"
    );
    assert_eq!(
        greek_func(3).unwrap_err().render(),
        "Beta Wrapped Error, caused by: invalid digit found in string"
    );
    assert_eq!(
        greek_func(4).unwrap_err().render(),
        "Gamma error { ext: 'ext' }, caused by: raw error 'Error raised'"
    );
    assert_eq!(
        greek_func(5).unwrap_err().render(),
        "Gamma Wrapped error { ext: 'ext' }, caused by: raw error 5000000"
    );

    assert!(numeric_func(0).is_ok());
    assert!(latin_func(0).is_ok());
}
