//! What a puzzle does to the players in its areas.

use vstd::prelude::*;
use crate::controller::puzzle::area::{PlayerStateCondition, PlayerStateModification};

verus! {

/// Something a puzzle does to the players in an area who match a condition.
#[derive(Debug)]
pub enum Action<Area, Setting> {
    Link { from: Area, matches: PlayerStateCondition, target: LinkTarget<Setting> },
    Move { from: Area, to: Area, matches: PlayerStateCondition },
    Mark { location: Area, matches: PlayerStateCondition, modification: PlayerStateModification },
}

/// Where a link sends players: the next realm, home, or a realm setting.
#[derive(Copy, Clone, Debug, PartialEq, Eq)]
pub enum LinkTarget<Setting> {
    Next,
    Home,
    Setting(Setting),
}

} // verus!
