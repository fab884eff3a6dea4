//! The work on the disk or the device that a key asks for, and what came of
//! it. The library decides which operation runs on which paths; the program
//! around it runs the operation and hands back the outcome.
use vstd::prelude::*;

use crate::app::{devices_view, entries_view, Pane};
use crate::file_entry::{Device, DeviceView, EntryView, FileEntry};

verus! {

/// One operation on the local disk (`Pane::Local`) or on the device
/// (`Pane::Android`), or a transfer between them.
#[derive(Debug)]
pub enum Op {
    /// Ask adb which devices are connected.
    Devices,
    /// List a directory.
    List { pane: Pane, path: String },
    /// List a directory on the device with `ls -la`, where `find` cannot
    /// print what a listing needs.
    ListPlain { path: String },
    /// Create a directory.
    Mkdir { pane: Pane, path: String },
    /// Rename a file or directory.
    Rename { pane: Pane, from: String, to: String },
    /// Delete a file, or a directory with its contents when `recursive`.
    Delete { pane: Pane, path: String, recursive: bool },
    /// Copy a local file or directory to the device.
    Push { local: String, remote: String },
    /// Copy a file or directory from the device to the local disk.
    Pull { remote: String, local: String },
}

/// The plain values of an `Op`.
pub enum OpView {
    Devices,
    List { pane: Pane, path: Seq<char> },
    ListPlain { path: Seq<char> },
    Mkdir { pane: Pane, path: Seq<char> },
    Rename { pane: Pane, from: Seq<char>, to: Seq<char> },
    Delete { pane: Pane, path: Seq<char>, recursive: bool },
    Push { local: Seq<char>, remote: Seq<char> },
    Pull { remote: Seq<char>, local: Seq<char> },
}

impl View for Op {
    type V = OpView;

    open spec fn view(&self) -> OpView {
        match self {
            Op::Devices => OpView::Devices,
            Op::List { pane, path } => OpView::List { pane: *pane, path: path@ },
            Op::ListPlain { path } => OpView::ListPlain { path: path@ },
            Op::Mkdir { pane, path } => OpView::Mkdir { pane: *pane, path: path@ },
            Op::Rename { pane, from, to } => OpView::Rename { pane: *pane, from: from@, to: to@ },
            Op::Delete { pane, path, recursive } => OpView::Delete {
                pane: *pane,
                path: path@,
                recursive: *recursive,
            },
            Op::Push { local, remote } => OpView::Push { local: local@, remote: remote@ },
            Op::Pull { remote, local } => OpView::Pull { remote: remote@, local: local@ },
        }
    }
}

/// The plain values of an optional operation.
pub open spec fn op_view(o: Option<Op>) -> Option<OpView> {
    match o {
        Some(op) => Some(op@),
        None => None,
    }
}

/// What came of an operation; a failure carries the text that explains it.
#[derive(Debug)]
pub enum Outcome {
    /// A create, rename, delete, push or pull finished.
    Done(Result<(), String>),
    /// A listing finished.
    Listed(Result<Vec<FileEntry>, String>),
    /// The search for devices finished.
    Found(Result<Vec<Device>, String>),
    /// The device cannot list that way; another way is to be tried.
    Unsupported,
}

/// The plain values of an `Outcome`.
pub enum OutcomeView {
    Done(Result<(), Seq<char>>),
    Listed(Result<Seq<EntryView>, Seq<char>>),
    Found(Result<Seq<DeviceView>, Seq<char>>),
    Unsupported,
}

impl View for Outcome {
    type V = OutcomeView;

    open spec fn view(&self) -> OutcomeView {
        match self {
            Outcome::Done(r) => OutcomeView::Done(
                match r {
                    Ok(()) => Ok(()),
                    Err(m) => Err(m@),
                },
            ),
            Outcome::Listed(r) => OutcomeView::Listed(
                match r {
                    Ok(v) => Ok(entries_view(v@)),
                    Err(m) => Err(m@),
                },
            ),
            Outcome::Found(r) => OutcomeView::Found(
                match r {
                    Ok(v) => Ok(devices_view(v@)),
                    Err(m) => Err(m@),
                },
            ),
            Outcome::Unsupported => OutcomeView::Unsupported,
        }
    }
}

} // verus!
