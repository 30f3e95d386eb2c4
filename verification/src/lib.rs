//! Decision logic of an unattended uploader that drains a staging directory
//! of DICOM files into an imaging server.
//!
//! The crate holds no I/O. A host program walks the directory, sends the
//! requests, removes the files and sleeps; after each of those operations it
//! reports what happened to the [`driver::Driver`], which answers with the
//! next operation to perform. Every rule of the uploader (which files are
//! candidates, what counts as a successful upload, when a file is removed,
//! when the process gives up, how long it sleeps) is decided here and stated
//! in the contracts of the functions below.

pub mod config;
pub mod driver;
pub mod failure;
pub mod history;
pub mod scanner;
pub mod uploader;
