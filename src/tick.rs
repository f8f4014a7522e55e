use crate::keys::KeysResponse;
use vstd::prelude::*;

verus! {

/// What every component sees of the current frame: its number and the
/// keys.
#[derive(Clone, Copy, PartialEq, Eq, Structural, Debug)]
pub struct TickContext {
    pub tick_count: u32,
    pub keys: KeysResponse,
}

} // verus!
