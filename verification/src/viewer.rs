//! The interactive viewer's state: the assets, the selected row and the
//! help popup, with the key bindings that change them.

use vstd::prelude::*;

use crate::models::CryptoAsset;

verus! {

/// A key press, as the viewer understands it.
#[derive(Clone, Copy, PartialEq, Eq, Structural)]
pub enum Key {
    /// `q` or `Esc`.
    Quit,
    /// Down arrow or `j`.
    Down,
    /// Up arrow or `k`.
    Up,
    /// `?`.
    Help,
    /// Anything else.
    Other,
}

/// The key a typed character stands for.
pub open spec fn char_key(c: char) -> Key {
    if c == 'q' {
        Key::Quit
    } else if c == 'j' {
        Key::Down
    } else if c == 'k' {
        Key::Up
    } else if c == '?' {
        Key::Help
    } else {
        Key::Other
    }
}

/// The key a typed character stands for.
pub fn key_of_char(c: char) -> (r: Key)
    ensures
        r == char_key(c),
{
    if c == 'q' {
        Key::Quit
    } else if c == 'j' {
        Key::Down
    } else if c == 'k' {
        Key::Up
    } else if c == '?' {
        Key::Help
    } else {
        Key::Other
    }
}

/// The viewer's state.
pub struct Viewer {
    /// The assets shown, one per row.
    pub assets: Vec<CryptoAsset>,
    /// The selected row, if any.
    pub selected: Option<usize>,
    /// Whether the help popup is shown.
    pub show_help: bool,
}

/// The row selected after moving down from `sel` in a table of `n > 0`
/// rows: the next one, wrapping from the last to the first.
pub open spec fn next_row(sel: Option<usize>, n: nat) -> Option<usize> {
    match sel {
        Some(i) => if i >= n - 1 {
            Some(0)
        } else {
            Some((i + 1) as usize)
        },
        None => Some(0),
    }
}

/// The row selected after moving up from `sel` in a table of `n > 0`
/// rows: the previous one, wrapping from the first to the last.
pub open spec fn previous_row(sel: Option<usize>, n: nat) -> Option<usize> {
    match sel {
        Some(i) => if i == 0 {
            Some((n - 1) as usize)
        } else {
            Some((i - 1) as usize)
        },
        None => Some(0),
    }
}

impl Viewer {
    /// The selection designates a row of the table.
    pub open spec fn wf(&self) -> bool {
        self.selected matches Some(i) ==> i < self.assets@.len()
    }

    /// A viewer of the assets, with the first row selected when there is one.
    pub fn new(assets: Vec<CryptoAsset>) -> (r: Self)
        ensures
            r.wf(),
            r.assets@ == assets@,
            r.selected == (if assets@.len() > 0 {
                Some(0usize)
            } else {
                None
            }),
            !r.show_help,
    {
        let selected = if assets.len() > 0 {
            Some(0)
        } else {
            None
        };
        Viewer { assets, selected, show_help: false }
    }

    /// Move the selection down, wrapping around.
    pub fn next(&mut self)
        requires
            old(self).wf(),
        ensures
            final(self).wf(),
            final(self).assets@ == old(self).assets@,
            final(self).show_help == old(self).show_help,
            final(self).selected == (if old(self).assets@.len() == 0 {
                old(self).selected
            } else {
                next_row(old(self).selected, old(self).assets@.len())
            }),
    {
        if self.assets.len() == 0 {
            return;
        }
        let i = match self.selected {
            Some(i) => {
                if i >= self.assets.len() - 1 {
                    0
                } else {
                    i + 1
                }
            },
            None => 0,
        };
        self.selected = Some(i);
    }

    /// Move the selection up, wrapping around.
    pub fn previous(&mut self)
        requires
            old(self).wf(),
        ensures
            final(self).wf(),
            final(self).assets@ == old(self).assets@,
            final(self).show_help == old(self).show_help,
            final(self).selected == (if old(self).assets@.len() == 0 {
                old(self).selected
            } else {
                previous_row(old(self).selected, old(self).assets@.len())
            }),
    {
        if self.assets.len() == 0 {
            return;
        }
        let i = match self.selected {
            Some(i) => {
                if i == 0 {
                    self.assets.len() - 1
                } else {
                    i - 1
                }
            },
            None => 0,
        };
        self.selected = Some(i);
    }

    /// The selected asset, if any.
    pub fn selected_asset(&self) -> (r: Option<&CryptoAsset>)
        ensures
            r matches Some(a) ==> self.selected matches Some(i) && i < self.assets@.len() && *a
                == self.assets@[i as int],
            r is None ==> (self.selected matches Some(i) ==> i >= self.assets@.len()),
    {
        match self.selected {
            Some(i) => {
                if i < self.assets.len() {
                    Some(&self.assets[i])
                } else {
                    None
                }
            },
            None => None,
        }
    }

    /// React to a key press; returns whether the viewer should quit.
    pub fn handle_key(&mut self, key: Key) -> (quit: bool)
        requires
            old(self).wf(),
        ensures
            final(self).wf(),
            quit == (key == Key::Quit),
            final(self).assets@ == old(self).assets@,
            final(self).show_help == (if key == Key::Help {
                !old(self).show_help
            } else {
                old(self).show_help
            }),
            final(self).selected == (if old(self).assets@.len() == 0 {
                old(self).selected
            } else if key == Key::Down {
                next_row(old(self).selected, old(self).assets@.len())
            } else if key == Key::Up {
                previous_row(old(self).selected, old(self).assets@.len())
            } else {
                old(self).selected
            }),
    {
        match key {
            Key::Quit => true,
            Key::Down => {
                self.next();
                false
            },
            Key::Up => {
                self.previous();
                false
            },
            Key::Help => {
                self.show_help = !self.show_help;
                false
            },
            Key::Other => false,
        }
    }
}

// ---------------------------------------------------------------------------
// Laws
// ---------------------------------------------------------------------------

/// Moving down then up comes back to a selected row.
pub proof fn law_down_then_up_returns(sel: Option<usize>, n: nat)
    requires
        n > 0,
        n <= usize::MAX,
        sel matches Some(i) && i < n,
    ensures
        previous_row(next_row(sel, n), n) == sel,
{
}

/// Moving up then down comes back to a selected row.
pub proof fn law_up_then_down_returns(sel: Option<usize>, n: nat)
    requires
        n > 0,
        n <= usize::MAX,
        sel matches Some(i) && i < n,
    ensures
        next_row(previous_row(sel, n), n) == sel,
{
}

/// Moving keeps a row of the table selected.
pub proof fn law_moves_stay_in_the_table(sel: Option<usize>, n: nat)
    requires
        n > 0,
        n <= usize::MAX,
        sel matches Some(i) ==> i < n,
    ensures
        next_row(sel, n) matches Some(j) && j < n,
        previous_row(sel, n) matches Some(j) && j < n,
{
}

} // verus!
