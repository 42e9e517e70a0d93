//! Bounded, custodied reading of request artifacts.
//!
//! A request package is a manifest and the artifacts that it declares. A session takes the package
//! into custody ([`custody`]): the manifest must have the expected digest and binding, and each
//! artifact the declared size and digest. From then on the session ([`session`]) hands out the
//! artifacts page by page, through cursors that are good for one use, and admits tool results and
//! provider requests within fixed budgets and a deadline. Provider requests must expose the one
//! tool that reads pages, and no other ([`provider`], [`tool`]).
//!
//! The library decides and computes. It opens no file, reads no clock and no environment: its
//! caller does, and hands over what was found. What holds over whole series of operations is stated
//! in [`laws`].

pub mod answers;
pub mod cursor;
pub mod custody;
pub mod digest;
pub mod encoding;
pub mod environment;
pub mod error;
pub mod files;
pub mod forms;
pub mod json;
pub mod laws;
pub mod limits;
pub mod manifest;
pub mod page;
pub mod provider;
pub mod session;
pub mod text;
pub mod tool;
