//! The settings that a search tree is built with.

use vstd::prelude::*;

use crate::number::parse_u32;
use crate::number::unsigned_value;
use crate::number::within;

verus! {

/// What to change in the engine's default settings.
#[derive(Debug, Clone, Copy, PartialEq, Eq, Structural)]
pub struct MctsSettings {
    /// How deep rollouts go.
    pub rollout_depth: Option<u16>,
    /// The temperature of rollouts, in hundredths.
    pub rollout_temperature_percent: Option<u8>,
    /// The Dirichlet noise at the root, in hundredths.
    pub dirichlet_percent: Option<u8>,
    /// How many slots the arena has.
    pub arena_slots: Option<u32>,
}

/// How many slots of the arena one megabyte holds, at 16 bytes for each slot.
pub const SLOTS_PER_MEGABYTE: u32 = 65536;

/// How many slots an arena has whose size in megabytes is written as `text`: as many as it
/// holds, or as many as can be counted. `None` if there is no size, or if it is no number.
pub open spec fn arena_slots_value(text: Option<Seq<char>>) -> Option<u32> {
    match text {
        None => None,
        Some(text) => match within(unsigned_value(text), 0, u32::MAX as int) {
            None => None,
            Some(mb) => if mb * SLOTS_PER_MEGABYTE > u32::MAX {
                Some(u32::MAX)
            } else {
                Some((mb * SLOTS_PER_MEGABYTE) as u32)
            },
        },
    }
}

/// The text that `arena_size_mb` holds, if any.
pub open spec fn text_of(arena_size_mb: Option<&str>) -> Option<Seq<char>> {
    match arena_size_mb {
        Some(text) => Some(text@),
        None => None,
    }
}

/// Builds the settings of a bot. `arena_size_mb` is the size of the arena in megabytes, as
/// text, where one is asked for.
pub fn build_mcts_settings(
    is_slatebot: bool,
    is_cobblebot: bool,
    arena_size_mb: Option<&str>,
) -> (settings: MctsSettings)
    ensures
        settings == (MctsSettings {
            rollout_depth: if is_slatebot || is_cobblebot {
                Some(200u16)
            } else {
                None
            },
            rollout_temperature_percent: if is_slatebot || is_cobblebot {
                Some(20u8)
            } else {
                None
            },
            dirichlet_percent: if is_cobblebot && !is_slatebot {
                Some(25u8)
            } else {
                None
            },
            arena_slots: arena_slots_value(text_of(arena_size_mb)),
        }),
{
    let mut settings = if is_slatebot {
        MctsSettings {
            rollout_depth: Some(200),
            rollout_temperature_percent: Some(20),
            dirichlet_percent: None,
            arena_slots: None,
        }
    } else if is_cobblebot {
        MctsSettings {
            rollout_depth: Some(200),
            rollout_temperature_percent: Some(20),
            dirichlet_percent: Some(25),
            arena_slots: None,
        }
    } else {
        MctsSettings {
            rollout_depth: None,
            rollout_temperature_percent: None,
            dirichlet_percent: None,
            arena_slots: None,
        }
    };
    if let Some(text) = arena_size_mb {
        if let Some(mb) = parse_u32(text) {
            let slots: u64 = mb as u64 * SLOTS_PER_MEGABYTE as u64;
            settings.arena_slots = if slots > u32::MAX as u64 {
                Some(u32::MAX)
            } else {
                Some(slots as u32)
            };
        }
    }
    settings
}

} // verus!
