//! Runtime support consumed by generated code: turning plain values into
//! `Result`s according to a type-specific failure predicate, and the raw
//! wrapper that stores a cause that is only printable.

use vstd::prelude::*;

use vstd::string::StrSliceExecFns;
use vstd::string::StringExecFns;

verus! {

/// A value that can be read as failed or succeeded and converted into a
/// `Result` accordingly.
///
/// The failure state is type specific: zero for numbers, `false` for `bool`,
/// emptiness for strings, `None` for `Option`, `Err` for `Result`.
pub trait Throwable where Self: Sized {
    type T;

    type ES;

    /// Whether this value is in its failure state.
    spec fn spec_failed(&self) -> bool;

    /// The success payload handed out when the value is not failed.
    spec fn spec_ok_value(self) -> Self::T;

    /// The failure payload handed to the error mapping when the value is failed.
    spec fn spec_err_value(self) -> Self::ES;

    /// Keeps the error state of the source unchanged: a failed value is mapped
    /// through `err_map` into the error branch, any other passes through as `Ok`.
    fn throw<E, F: FnOnce(Self::ES) -> E>(self, err_map: F) -> (r: Result<Self::T, E>)
        requires
            self.spec_failed() ==> call_requires(err_map, (self.spec_err_value(),)),
        ensures
            !self.spec_failed() ==> r == Ok::<Self::T, E>(self.spec_ok_value()),
            self.spec_failed() ==> r is Err && call_ensures(
                err_map,
                (self.spec_err_value(),),
                r->Err_0,
            ),
    ;

    /// Inverts the error state of the source: a failed value passes through as
    /// `Ok`, any other is mapped through `ok_to_err_map` into the error branch.
    fn raise<E, F: FnOnce(Self::T) -> E>(self, ok_to_err_map: F) -> (r: Result<Self::ES, E>)
        requires
            !self.spec_failed() ==> call_requires(ok_to_err_map, (self.spec_ok_value(),)),
        ensures
            self.spec_failed() ==> r == Ok::<Self::ES, E>(self.spec_err_value()),
            !self.spec_failed() ==> r is Err && call_ensures(
                ok_to_err_map,
                (self.spec_ok_value(),),
                r->Err_0,
            ),
    ;
}

impl<T> Throwable for Option<T> {
    type T = T;

    type ES = Option<T>;

    open spec fn spec_failed(&self) -> bool {
        self is None
    }

    open spec fn spec_ok_value(self) -> T {
        self->0
    }

    open spec fn spec_err_value(self) -> Option<T> {
        self
    }

    fn throw<E, F: FnOnce(Option<T>) -> E>(self, err_map: F) -> (r: Result<T, E>) {
        match self {
            Some(v) => Ok(v),
            None => Err(err_map(self)),
        }
    }

    fn raise<E, F: FnOnce(T) -> E>(self, ok_to_err_map: F) -> (r: Result<Option<T>, E>) {
        match self {
            Some(v) => Err(ok_to_err_map(v)),
            None => Ok(self),
        }
    }
}

impl<T, ES> Throwable for Result<T, ES> {
    type T = T;

    type ES = ES;

    open spec fn spec_failed(&self) -> bool {
        self is Err
    }

    open spec fn spec_ok_value(self) -> T {
        self->Ok_0
    }

    open spec fn spec_err_value(self) -> ES {
        self->Err_0
    }

    fn throw<E, F: FnOnce(ES) -> E>(self, err_map: F) -> (r: Result<T, E>) {
        match self {
            Ok(v) => Ok(v),
            Err(e) => Err(err_map(e)),
        }
    }

    fn raise<E, F: FnOnce(T) -> E>(self, ok_to_err_map: F) -> (r: Result<ES, E>) {
        match self {
            Ok(v) => Err(ok_to_err_map(v)),
            Err(e) => Ok(e),
        }
    }
}

impl Throwable for () {
    type T = ();

    type ES = ();

    open spec fn spec_failed(&self) -> bool {
        false
    }

    open spec fn spec_ok_value(self) -> () {
        self
    }

    open spec fn spec_err_value(self) -> () {
        self
    }

    fn throw<E, F: FnOnce(()) -> E>(self, err_map: F) -> (r: Result<(), E>) {
        Ok(self)
    }

    fn raise<E, F: FnOnce(()) -> E>(self, ok_to_err_map: F) -> (r: Result<(), E>) {
        Err(ok_to_err_map(self))
    }
}

impl Throwable for bool {
    type T = bool;

    type ES = bool;

    open spec fn spec_failed(&self) -> bool {
        !*self
    }

    open spec fn spec_ok_value(self) -> bool {
        self
    }

    open spec fn spec_err_value(self) -> bool {
        self
    }

    fn throw<E, F: FnOnce(bool) -> E>(self, err_map: F) -> (r: Result<bool, E>) {
        if self {
            Ok(self)
        } else {
            Err(err_map(self))
        }
    }

    fn raise<E, F: FnOnce(bool) -> E>(self, ok_to_err_map: F) -> (r: Result<bool, E>) {
        if !self {
            Ok(self)
        } else {
            Err(ok_to_err_map(self))
        }
    }
}

impl Throwable for i32 {
    type T = i32;

    type ES = i32;

    open spec fn spec_failed(&self) -> bool {
        *self != 0
    }

    open spec fn spec_ok_value(self) -> i32 {
        self
    }

    open spec fn spec_err_value(self) -> i32 {
        self
    }

    fn throw<E, F: FnOnce(i32) -> E>(self, err_map: F) -> (r: Result<i32, E>) {
        if self == 0 {
            Ok(self)
        } else {
            Err(err_map(self))
        }
    }

    fn raise<E, F: FnOnce(i32) -> E>(self, ok_to_err_map: F) -> (r: Result<i32, E>) {
        if self != 0 {
            Ok(self)
        } else {
            Err(ok_to_err_map(self))
        }
    }
}

impl Throwable for usize {
    type T = usize;

    type ES = usize;

    open spec fn spec_failed(&self) -> bool {
        *self != 0
    }

    open spec fn spec_ok_value(self) -> usize {
        self
    }

    open spec fn spec_err_value(self) -> usize {
        self
    }

    fn throw<E, F: FnOnce(usize) -> E>(self, err_map: F) -> (r: Result<usize, E>) {
        if self == 0 {
            Ok(self)
        } else {
            Err(err_map(self))
        }
    }

    fn raise<E, F: FnOnce(usize) -> E>(self, ok_to_err_map: F) -> (r: Result<usize, E>) {
        if self != 0 {
            Ok(self)
        } else {
            Err(ok_to_err_map(self))
        }
    }
}

impl Throwable for String {
    type T = String;

    type ES = String;

    open spec fn spec_failed(&self) -> bool {
        self@.len() == 0
    }

    open spec fn spec_ok_value(self) -> String {
        self
    }

    open spec fn spec_err_value(self) -> String {
        self
    }

    fn throw<E, F: FnOnce(String) -> E>(self, err_map: F) -> (r: Result<String, E>) {
        if !self.as_str().is_empty() {
            Ok(self)
        } else {
            Err(err_map(self))
        }
    }

    fn raise<E, F: FnOnce(String) -> E>(self, ok_to_err_map: F) -> (r: Result<String, E>) {
        if self.as_str().is_empty() {
            Ok(self)
        } else {
            Err(ok_to_err_map(self))
        }
    }
}

/// The text of a raw wrapper built from a value's debug representation alone:
/// `"raw error "` followed by the representation, quotes turned into single
/// quotes.
pub open spec fn spec_raw_plain_text(debug: Seq<char>) -> Seq<char> {
    "raw error "@ + crate::render::spec_quotes_replaced(debug)
}

/// The text of a raw wrapper built with an explicit message: the message,
/// then the debug representation inside `" { value: ... }"`.
pub open spec fn spec_raw_with_text(msg: Seq<char>, debug: Seq<char>) -> Seq<char> {
    msg + " { value: "@ + crate::render::spec_quotes_replaced(debug) + " }"@
}

/// Relies on `core::fmt::Debug` through the `format!` macro; nothing is
/// assumed of the produced text, since the trait is implemented by callers.
#[verifier::external_body]
fn debug_text<T: core::fmt::Debug>(t: &T) -> String {
    format!("{:?}", t)
}

/// A single-value error wrapper for a cause that is only printable: it keeps
/// the value and its rendered text, prepared at construction.
#[derive(Debug)]
pub struct RawError<T> {
    value: T,
    text: String,
}

impl<T: core::fmt::Debug> RawError<T> {
    /// The rendered text of this wrapper.
    pub closed spec fn spec_text(&self) -> Seq<char> {
        self.text@
    }

    /// The stored value.
    pub closed spec fn spec_value(&self) -> &T {
        &self.value
    }

    /// Wraps a value under the default `"raw error"` message.
    pub fn new(value: T) -> (r: RawError<T>)
        ensures
            r.spec_value() == value,
            exists|d: Seq<char>| r.spec_text() == spec_raw_plain_text(d),
    {
        let d = debug_text(&value);
        let mut text = String::from_str("raw error ");
        let replaced = crate::render::replace_quotes(d.as_str());
        text.append(replaced.as_str());
        proof {
            assert(text@ =~= spec_raw_plain_text(d@));
        }
        RawError { value, text }
    }

    /// Wraps a value under the given message.
    pub fn new_with(value: T, msg: &str) -> (r: RawError<T>)
        ensures
            r.spec_value() == value,
            exists|d: Seq<char>| r.spec_text() == spec_raw_with_text(msg@, d),
    {
        let d = debug_text(&value);
        let mut text = String::new();
        text.append(msg);
        text.append(" { value: ");
        let replaced = crate::render::replace_quotes(d.as_str());
        text.append(replaced.as_str());
        text.append(" }");
        proof {
            assert(text@ =~= spec_raw_with_text(msg@, d@));
        }
        RawError { value, text }
    }

    /// The rendered text, as generated display code prints it.
    pub fn text(&self) -> (r: String)
        ensures
            r@ == self.spec_text(),
    {
        self.text.clone()
    }
}

/// The capability generated code relies on to turn a context value and a
/// cause into a target union value; generated conversion impls provide it.
pub trait IntoError<T, ES> where Self: Sized {
    fn into_error(self, source: ES) -> T;
}

} // verus!
