use vstd::prelude::*;

verus! {

/// The strategy of a player who moves through the user interface: it is
/// never asked for a move.
#[derive(Debug, Clone, Copy)]
pub struct Human;

} // verus!
