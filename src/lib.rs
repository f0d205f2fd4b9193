//! A running standup note: four item lists and the history of appends that
//! undo walks back, with the decisions around loading, migrating and
//! archiving the file that holds it.
use vstd::prelude::*;

pub mod record;
pub mod store;
pub mod archive;
pub mod command;

verus! {

/// Which record file a run works on.
#[derive(Clone, Copy, Debug, PartialEq, Eq, Structural)]
pub enum Env {
    Prod,
    Test,
}

} // verus!
