use vstd::prelude::*;

use crate::error::TesseractError;

verus! {

/// A string the engine returned through a pointer, read at the boundary.
pub enum NativeText {
    /// The engine returned a null pointer.
    Null,
    /// The bytes up to the terminating zero are not valid UTF-8.
    NotUtf8,
    /// The bytes up to the terminating zero, decoded.
    Text(String),
}

/// The abstract form of a [`NativeText`].
pub enum NativeTextView {
    Null,
    NotUtf8,
    Text(Seq<char>),
}

impl View for NativeText {
    type V = NativeTextView;

    open spec fn view(&self) -> NativeTextView {
        match self {
            NativeText::Null => NativeTextView::Null,
            NativeText::NotUtf8 => NativeTextView::NotUtf8,
            NativeText::Text(s) => NativeTextView::Text(s@),
        }
    }
}

/// The text a pointer-returning call yields: a null pointer is `on_null`,
/// undecodable bytes are `Utf8Error`.
pub open spec fn text_spec(raw: NativeTextView, on_null: TesseractError) -> Result<
    Seq<char>,
    TesseractError,
> {
    match raw {
        NativeTextView::Null => Err(on_null),
        NativeTextView::NotUtf8 => Err(TesseractError::Utf8Error),
        NativeTextView::Text(s) => Ok(s),
    }
}

/// The text a pointer-returning call yields, where a null pointer stands for
/// no text at all: it is the empty string.
pub open spec fn optional_text_spec(raw: NativeTextView) -> Result<Seq<char>, TesseractError> {
    match raw {
        NativeTextView::Null => Ok(Seq::empty()),
        NativeTextView::NotUtf8 => Err(TesseractError::Utf8Error),
        NativeTextView::Text(s) => Ok(s),
    }
}

/// The view of a text result.
pub open spec fn text_result_view(r: Result<String, TesseractError>) -> Result<
    Seq<char>,
    TesseractError,
> {
    match r {
        Ok(s) => Ok(s@),
        Err(e) => Err(e),
    }
}

/// Turns a string the engine returned into an owned one; see [`text_spec`].
pub fn owned_text(raw: NativeText, on_null: TesseractError) -> (r: Result<String, TesseractError>)
    ensures
        text_result_view(r) == text_spec(raw@, on_null),
{
    match raw {
        NativeText::Null => Err(on_null),
        NativeText::NotUtf8 => Err(TesseractError::Utf8Error),
        NativeText::Text(s) => Ok(s),
    }
}

/// Turns a string the engine may omit into an owned one; see
/// [`optional_text_spec`].
pub fn optional_text(raw: NativeText) -> (r: Result<String, TesseractError>)
    ensures
        text_result_view(r) == optional_text_spec(raw@),
{
    match raw {
        NativeText::Null => Ok(String::new()),
        NativeText::NotUtf8 => Err(TesseractError::Utf8Error),
        NativeText::Text(s) => Ok(s),
    }
}

/// An integer status where one value means success: anything else is `error`.
pub fn status_result(status: i32, success: i32, error: TesseractError) -> (r: Result<
    (),
    TesseractError,
>)
    ensures
        r == if status == success {
            Ok(())
        } else {
            Err(error)
        },
{
    if status == success {
        Ok(())
    } else {
        Err(error)
    }
}

/// A C truth value where zero means failure: zero is `error`, anything else
/// success.
pub fn flag_result(flag: i32, error: TesseractError) -> (r: Result<(), TesseractError>)
    ensures
        r == if flag != 0 {
            Ok(())
        } else {
            Err(error)
        },
{
    if flag != 0 {
        Ok(())
    } else {
        Err(error)
    }
}

/// An object the engine returned through a pointer: a null pointer is `error`.
pub fn present_or(present: bool, error: TesseractError) -> (r: Result<(), TesseractError>)
    ensures
        r == if present {
            Ok(())
        } else {
            Err(error)
        },
{
    if present {
        Ok(())
    } else {
        Err(error)
    }
}

/// The script name of an orientation and script detection: a zero `flag`
/// means the detection failed, reported as `OcrError`; otherwise the engine
/// may name no script, which is the empty string.
pub fn detected_script(flag: i32, script: NativeText) -> (r: Result<String, TesseractError>)
    ensures
        text_result_view(r) == if flag == 0 {
            Err(TesseractError::OcrError)
        } else {
            optional_text_spec(script@)
        },
{
    match flag_result(flag, TesseractError::OcrError) {
        Err(e) => Err(e),
        Ok(()) => optional_text(script),
    }
}

} // verus!
