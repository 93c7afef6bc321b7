//! The boss-bar posture readout: where its hook goes, when it writes, and
//! what each boss bar entry shows.

use vstd::prelude::*;
use crate::config::{Config, HpBarTracks};

verus! {

/// The readout hook goes at the boss-bar timer, when its signature was found.
pub fn install(timer_addr: Option<u64>) -> (r: Option<u64>)
    ensures
        r == timer_addr,
{
    timer_addr
}

/// Posture is written over the damage readout only in posture mode.
pub fn posture_mode(cfg: &Config) -> (r: bool)
    ensures
        r == (cfg.hp_bar_tracks == HpBarTracks::Posture),
{
    match cfg.hp_bar_tracks {
        HpBarTracks::Posture => true,
        HpBarTracks::Hp => false,
    }
}

/// The damage value one boss bar entry gets (and its hit flag set), given
/// whether the boss has posture left, that posture as an integer, and what
/// the entry shows now: the posture while any is left, or once it is gone,
/// while the entry still shows a different positive value; otherwise the
/// entry is left alone.
pub fn boss_bar_update(stagger_positive: bool, damage: i32, damage_taken: i32) -> (r: Option<i32>)
    ensures
        r == if stagger_positive || (damage_taken > 0 && damage_taken != damage) {
            Some(damage)
        } else {
            None
        },
{
    if stagger_positive {
        Some(damage)
    } else if damage_taken > 0 && damage_taken != damage {
        Some(damage)
    } else {
        None
    }
}

} // verus!
