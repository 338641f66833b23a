//! Verified core of a cabling lookup tool for a data-center
//! infrastructure management database.
//!
//! The library resolves a wall-socket port label into the identity of the
//! network switch it is physically patched to.  It works on an in-memory
//! snapshot of the two relevant tables (`Store`); reading those tables from
//! the relational store, and every other kind of I/O, is left to the
//! surrounding front ends.
//!
//! The pieces are:
//! - `text`: character classes, whitespace trimming and decimal rendering;
//! - `label`: the validity pattern for wall-socket labels;
//! - `store`: the plain data model of devices and ports;
//! - `config`: credential precedence for opening a connection;
//! - `catalog`: the list of syntactically valid labels in a store;
//! - `resolver`: the four-way join from a label to the remote switch;
//! - `errors`: the typed failures the library returns.

pub mod catalog;
pub mod config;
pub mod errors;
pub mod label;
pub mod resolver;
pub mod store;
pub mod text;
