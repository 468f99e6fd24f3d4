//! Hiding the wallpaper while a session is viewed, and bringing it back even
//! after a helper that was killed.
use vstd::prelude::*;

verus! {

/// The wallpaper before it was hidden.
#[derive(Debug, Clone, Copy, PartialEq, Eq, Structural)]
pub struct Wallpaper {
    /// The colour behind it.
    pub color: u32,
    pub enabled: bool,
}

/// The journal's entry for a wallpaper.
pub open spec fn entry_of(wallpaper: Wallpaper) -> u64 {
    (wallpaper.color + (if wallpaper.enabled {
        0x1_0000_0000int
    } else {
        0
    })) as u64
}

/// The wallpaper that an entry tells of.
pub open spec fn wallpaper_of(entry: u64) -> Wallpaper {
    Wallpaper {
        color: (entry % 0x1_0000_0000) as u32,
        enabled: entry / 0x1_0000_0000 % 2 == 1,
    }
}

pub fn encode(wallpaper: &Wallpaper) -> (entry: u64)
    ensures
        entry == entry_of(*wallpaper),
{
    if wallpaper.enabled {
        wallpaper.color as u64 + 0x1_0000_0000
    } else {
        wallpaper.color as u64
    }
}

pub fn decode(entry: u64) -> (wallpaper: Wallpaper)
    ensures
        wallpaper == wallpaper_of(entry),
{
    Wallpaper {
        color: (entry % 0x1_0000_0000) as u32,
        enabled: entry / 0x1_0000_0000 % 2 == 1,
    }
}

/// What was written to the journal is read back.
pub proof fn journal_round_trips(wallpaper: Wallpaper)
    ensures
        wallpaper_of(entry_of(wallpaper)) == wallpaper,
{
}

/// What a wish to hide the wallpaper or not leads to.
#[derive(Debug, Clone, Copy, PartialEq, Eq, Structural)]
pub enum WallpaperAction {
    Nothing,
    Hide,
    /// Bring back what this helper hid.
    Restore,
    /// Bring back what an earlier helper may have left hidden.
    RestoreInterrupted,
}

pub fn set_hidden(current: bool, hidden: bool) -> (action: WallpaperAction)
    ensures
        action == (if hidden {
            if current {
                WallpaperAction::Nothing
            } else {
                WallpaperAction::Hide
            }
        } else if current {
            WallpaperAction::Restore
        } else {
            WallpaperAction::RestoreInterrupted
        }),
{
    if hidden {
        if current {
            WallpaperAction::Nothing
        } else {
            WallpaperAction::Hide
        }
    } else if current {
        WallpaperAction::Restore
    } else {
        WallpaperAction::RestoreInterrupted
    }
}

/// What hiding the wallpaper has to bring back, and whether that is written to
/// the journal. An entry that is there tells of the wallpaper before an earlier
/// helper hid it, and what is visible now does not.
pub open spec fn original_of(journal: Option<u64>, visible: Wallpaper) -> (Wallpaper, bool) {
    match journal {
        Some(entry) => (wallpaper_of(entry), false),
        None => (visible, true),
    }
}

pub fn original(journal: Option<u64>, visible: Wallpaper) -> (result: (Wallpaper, bool))
    ensures
        result == original_of(journal, visible),
{
    match journal {
        Some(entry) => (decode(entry), false),
        None => (visible, true),
    }
}

/// Whether a wallpaper that was left hidden is brought back: the journal tells
/// of one, no helper that runs owns it, and the journal still tells of it then.
pub fn restores_interrupted(before: Option<u64>, owned: bool, after: Option<u64>) -> (wallpaper:
    Option<Wallpaper>)
    ensures
        wallpaper == (if before is Some && !owned && after is Some {
            Some(wallpaper_of(after->Some_0))
        } else {
            None
        }),
{
    if before.is_none() || owned {
        return None;
    }
    match after {
        Some(entry) => Some(decode(entry)),
        None => None,
    }
}

/// A desktop as the user sees it, and the journal in the user's profile.
pub struct Desktop {
    pub visible: Wallpaper,
    pub journal: Option<u64>,
}

impl Desktop {
    /// After a helper hid the wallpaper.
    pub open spec fn hidden(self) -> Desktop {
        let (original, saves) = original_of(self.journal, self.visible);
        Desktop {
            visible: Wallpaper { color: 0, enabled: false },
            journal: if saves {
                Some(entry_of(original))
            } else {
                self.journal
            },
        }
    }

    /// After what the journal tells of was brought back.
    pub open spec fn restored(self) -> Desktop {
        match self.journal {
            Some(entry) => Desktop { visible: wallpaper_of(entry), journal: None },
            None => self,
        }
    }
}

/// A desktop after a number of helpers hid the wallpaper and were killed.
pub open spec fn hidden_times(desktop: Desktop, helpers: nat) -> Desktop
    decreases helpers,
{
    if helpers == 0 {
        desktop
    } else {
        hidden_times(desktop, (helpers - 1) as nat).hidden()
    }
}

/// However many helpers hid the wallpaper and were killed, bringing it back
/// gives the user the wallpaper there was before the first of them, and leaves
/// no journal.
pub proof fn wallpaper_survives_killed_helpers(visible: Wallpaper, helpers: nat)
    requires
        helpers > 0,
    ensures
        hidden_times(Desktop { visible, journal: None }, helpers).restored() == (Desktop {
            visible,
            journal: None,
        }),
    decreases helpers,
{
    let before = Desktop { visible, journal: None };
    lemma_hidden(before, visible, helpers);
    journal_round_trips(visible);
}

proof fn lemma_hidden(before: Desktop, visible: Wallpaper, helpers: nat)
    requires
        before == (Desktop { visible, journal: None }),
        helpers > 0,
    ensures
        hidden_times(before, helpers) == (Desktop {
            visible: Wallpaper { color: 0, enabled: false },
            journal: Some(entry_of(visible)),
        }),
    decreases helpers,
{
    if helpers > 1 {
        lemma_hidden(before, visible, (helpers - 1) as nat);
    } else {
        assert(hidden_times(before, 0) == before);
    }
}

/// An entry is the colour, and above it one bit for whether there is a picture;
/// every entry that can be written tells of one wallpaper.
pub proof fn entries_hold_colour_and_picture(wallpaper: Wallpaper, color: u32)
    ensures
        entry_of(wallpaper) % 0x1_0000_0000 == wallpaper.color,
        entry_of(wallpaper) / 0x1_0000_0000 == (if wallpaper.enabled {
            1u64
        } else {
            0u64
        }),
        wallpaper_of(color as u64) == (Wallpaper { color, enabled: false }),
        wallpaper_of((color + 0x1_0000_0000) as u64) == (Wallpaper { color, enabled: true }),
{
}

/// What is in the journal is what comes back, and is not written over; what is
/// visible is written there only where the journal is empty. Hiding leaves a black
/// desktop without a picture.
pub proof fn journals_are_not_written_over(entry: u64, visible: Wallpaper)
    ensures
        original_of(Some(entry), visible) == (wallpaper_of(entry), false),
        original_of(None, visible) == (visible, true),
        ({
            let hidden = (Desktop { visible, journal: Some(entry) }).hidden();
            hidden.journal == Some(entry) && hidden.visible.color == 0 && !hidden.visible.enabled
        }),
        ({
            let hidden = (Desktop { visible, journal: None }).hidden();
            hidden.journal == Some(entry_of(visible)) && hidden.visible.color == 0
                && !hidden.visible.enabled
        }),
        (Desktop { visible, journal: None }).restored() == (Desktop { visible, journal: None }),
        (Desktop { visible, journal: Some(entry) }).restored() == (Desktop {
            visible: wallpaper_of(entry),
            journal: None,
        }),
{
}

} // verus!
