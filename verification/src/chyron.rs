//! All mutable state of chyron mode.
use vstd::prelude::*;

use crate::ticker::{TickerState, UtcTimestamp};

verus! {

/// All mutable state for chyron mode.
pub struct ChyronState {
    pub ticker: TickerState,
    pub last_sync_time: Option<UtcTimestamp>,
}

impl ChyronState {
    /// Chyron state before anything happened: a fresh ticker and no sync
    /// yet.
    pub fn new(default_speed: u8) -> (res: Self)
        ensures
            res.ticker.wf(),
            res.ticker.is_initial(default_speed),
            res.last_sync_time is None,
    {
        ChyronState { ticker: TickerState::new(default_speed), last_sync_time: None }
    }
}

} // verus!
