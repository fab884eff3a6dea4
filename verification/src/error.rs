//! The errors of file and device operations.
use vstd::prelude::*;

use crate::text::{push_text, text};

verus! {

#[verifier::external_type_specification]
#[verifier::external_body]
pub struct ExIoError(std::io::Error);

/// What can go wrong when talking to adb or to the local disk.
#[derive(Debug)]
pub enum AppError {
    AdbNotFound,
    NoDevice,
    Unauthorized,
    Adb(String),
    PermissionDenied(String),
    NotFound(String),
    TransferFailed(String),
    Io(std::io::Error),
}

/// The plain values of an `AppError`; of an I/O error only its kind.
pub enum ErrView {
    AdbNotFound,
    NoDevice,
    Unauthorized,
    Adb(Seq<char>),
    PermissionDenied(Seq<char>),
    NotFound(Seq<char>),
    TransferFailed(Seq<char>),
    Io,
}

/// The plain values of an error.
pub open spec fn err_view(e: AppError) -> ErrView {
    match e {
        AppError::AdbNotFound => ErrView::AdbNotFound,
        AppError::NoDevice => ErrView::NoDevice,
        AppError::Unauthorized => ErrView::Unauthorized,
        AppError::Adb(s) => ErrView::Adb(s@),
        AppError::PermissionDenied(s) => ErrView::PermissionDenied(s@),
        AppError::NotFound(s) => ErrView::NotFound(s@),
        AppError::TransferFailed(s) => ErrView::TransferFailed(s@),
        AppError::Io(_) => ErrView::Io,
    }
}

/// Results of file and device operations.
pub type Result<T> = std::result::Result<T, AppError>;

/// Calls `Display::fmt` of `std::io::Error` through `to_string`; its text
/// comes from the operating system and is not stated here.
#[verifier::external_body]
fn io_error_text(e: &std::io::Error) -> String {
    e.to_string()
}

/// The text shown for an error, for every kind but an I/O error, whose text
/// the operating system gives.
pub open spec fn err_text(e: ErrView) -> Seq<char> {
    match e {
        ErrView::AdbNotFound => "adb not found in PATH – install with: brew install android-platform-tools"@,
        ErrView::NoDevice => "no Android device connected"@,
        ErrView::Unauthorized => "device unauthorized – check your phone and accept the USB debugging prompt"@,
        ErrView::Adb(s) => "adb error: "@ + s,
        ErrView::PermissionDenied(s) => "permission denied: "@ + s,
        ErrView::NotFound(s) => "path not found: "@ + s,
        ErrView::TransferFailed(s) => "transfer failed: "@ + s,
        ErrView::Io => Seq::empty(),
    }
}

/// The text shown for an error.
pub open spec fn error_text(e: AppError) -> Seq<char> {
    err_text(err_view(e))
}

fn prefixed(prefix: &str, detail: &String) -> (r: String)
    ensures
        r@ == prefix@ + detail@,
{
    let mut out = text(prefix);
    push_text(&mut out, detail.as_str());
    out
}

impl AppError {
    /// The text shown for the error.
    pub fn message(&self) -> (r: String)
        ensures
            !(self is Io) ==> r@ == error_text(*self),
    {
        match self {
            AppError::AdbNotFound => text(
                "adb not found in PATH – install with: brew install android-platform-tools",
            ),
            AppError::NoDevice => text("no Android device connected"),
            AppError::Unauthorized => text(
                "device unauthorized – check your phone and accept the USB debugging prompt",
            ),
            AppError::Adb(s) => prefixed("adb error: ", s),
            AppError::PermissionDenied(s) => prefixed("permission denied: ", s),
            AppError::NotFound(s) => prefixed("path not found: ", s),
            AppError::TransferFailed(s) => prefixed("transfer failed: ", s),
            AppError::Io(e) => io_error_text(e),
        }
    }
}

} // verus!
