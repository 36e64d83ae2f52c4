//! A linter and autofixer for Nix expressions: rules are dispatched over a
//! parsed syntax tree, and their suggestions are spliced back into the text.
use vstd::prelude::*;

pub mod session;
pub mod syntax;
pub mod report;
pub mod make;
pub mod lints;
pub mod registry;
pub mod lint;
pub mod fix;
pub mod single;
pub mod explain;
pub mod config;
pub mod position;

verus! {

} // verus!
