//! Verified core of a local PDF toolkit: page-list rules, how documents
//! are written, where results go, command-line parsing, batch planning and
//! the requests and replies of the desktop interface.
pub mod batch;
pub mod cli;
pub mod ipc;
pub mod options;
pub mod pages;
pub mod paths;
pub mod render;
pub mod requests;
pub mod text;
