//! The keys that move the selection of a table and call its commands.

use crate::fields::{compare_names, NameOrder};
use vstd::prelude::*;

verus! {

/// The selection of a table and whether its key help is shown.
#[derive(Debug)]
pub struct TableViewKeybinds {
    selected_idx: Option<usize>,
    show_key_binds: bool,
}

/// What a `TableViewKeybinds` holds.
pub struct KeybindsView {
    pub selected: Option<usize>,
    pub help_shown: bool,
}

/// What a key asks the table's owner to do.
#[derive(Debug, Clone, Copy, PartialEq, Eq)]
pub enum TableViewKeybindsUpdate {
    TogglePlayPause,
    Selected(usize),
    GotoTasks,
    GotoResources,
}

impl View for TableViewKeybinds {
    type V = KeybindsView;

    closed spec fn view(&self) -> KeybindsView {
        KeybindsView { selected: self.selected_idx, help_shown: self.show_key_binds }
    }
}

/// The selection once the table has `rows` rows: a selection beyond the
/// last row moves to the last row. An empty table leaves it as it is.
pub open spec fn clamped(selected: Option<usize>, rows: int) -> Option<usize> {
    match selected {
        Some(idx) => if rows > 0 && idx > rows - 1 {
            Some((rows - 1) as usize)
        } else {
            Some(idx)
        },
        None => None,
    }
}

/// The selection one row up: the first row stays selected.
pub open spec fn moved_up(selected: Option<usize>) -> Option<usize> {
    match selected {
        Some(idx) => if idx != 0 {
            Some((idx - 1) as usize)
        } else {
            Some(idx)
        },
        None => None,
    }
}

/// The selection one row down: the first row where nothing was selected.
pub open spec fn moved_down(selected: Option<usize>) -> Option<usize> {
    match selected {
        Some(idx) => if idx < usize::MAX {
            Some((idx + 1) as usize)
        } else {
            Some(idx)
        },
        None => Some(0),
    }
}

/// The state after the key `key`: `k` and `j` move the selection up and
/// down, `?` shows or hides the help, no other key changes anything.
pub open spec fn after_key(view: KeybindsView, key: Seq<char>) -> KeybindsView {
    if key == "k"@ {
        KeybindsView { selected: moved_up(view.selected), ..view }
    } else if key == "j"@ {
        KeybindsView { selected: moved_down(view.selected), ..view }
    } else if key == "Enter"@ || key == " "@ {
        view
    } else if key == "?"@ {
        KeybindsView { help_shown: !view.help_shown, ..view }
    } else {
        view
    }
}

/// What the key `key` asks for: `Enter` opens the selected row, if there is
/// one, the space bar pauses or resumes, `t` and `r` go to the tasks and to
/// the resources. Any other key asks for nothing.
pub open spec fn asked_by_key(
    view: KeybindsView,
    key: Seq<char>,
) -> Option<TableViewKeybindsUpdate> {
    if key == "k"@ || key == "j"@ {
        None
    } else if key == "Enter"@ {
        match view.selected {
            Some(idx) => Some(TableViewKeybindsUpdate::Selected(idx)),
            None => None,
        }
    } else if key == " "@ {
        Some(TableViewKeybindsUpdate::TogglePlayPause)
    } else if key == "?"@ {
        None
    } else if key == "t"@ {
        Some(TableViewKeybindsUpdate::GotoTasks)
    } else if key == "r"@ {
        Some(TableViewKeybindsUpdate::GotoResources)
    } else {
        None
    }
}

fn is_key(key: &str, name: &str) -> (r: bool)
    ensures
        r == (key@ == name@),
{
    match compare_names(key, name) {
        NameOrder::Same => true,
        _ => false,
    }
}

impl Default for TableViewKeybinds {
    fn default() -> (r: Self)
        ensures
            r@ == (KeybindsView { selected: None, help_shown: false }),
    {
        TableViewKeybinds { selected_idx: None, show_key_binds: false }
    }
}

impl TableViewKeybinds {
    /// The row that is selected, if any.
    pub fn selected_idx(&self) -> (r: Option<usize>)
        ensures
            r == self@.selected,
    {
        self.selected_idx
    }

    /// Whether the key help is shown.
    pub fn help_shown(&self) -> (r: bool)
        ensures
            r == self@.help_shown,
    {
        self.show_key_binds
    }

    /// Keeps the selection within a table of `new_max` rows.
    pub fn clamp_selected_idx(&mut self, new_max: usize)
        ensures
            final(self)@ == (KeybindsView {
                selected: clamped(old(self)@.selected, new_max as int),
                ..old(self)@
            }),
    {
        match self.selected_idx {
            Some(idx) => {
                if new_max > 0 && idx > new_max - 1 {
                    self.selected_idx = Some(new_max - 1);
                }
            },
            None => {},
        }
    }

    /// Takes the key `key`.
    pub fn update(&mut self, key: &str) -> (r: Option<TableViewKeybindsUpdate>)
        ensures
            final(self)@ == after_key(old(self)@, key@),
            r == asked_by_key(old(self)@, key@),
    {
        if is_key(key, "k") {
            match self.selected_idx {
                Some(idx) => {
                    if idx != 0 {
                        self.selected_idx = Some(idx - 1);
                    }
                },
                None => {},
            }
            None
        } else if is_key(key, "j") {
            match self.selected_idx {
                Some(idx) => {
                    if idx < usize::MAX {
                        self.selected_idx = Some(idx + 1);
                    }
                },
                None => {
                    self.selected_idx = Some(0);
                },
            }
            None
        } else if is_key(key, "Enter") {
            match self.selected_idx {
                Some(idx) => Some(TableViewKeybindsUpdate::Selected(idx)),
                None => None,
            }
        } else if is_key(key, " ") {
            Some(TableViewKeybindsUpdate::TogglePlayPause)
        } else if is_key(key, "?") {
            self.show_key_binds = !self.show_key_binds;
            None
        } else if is_key(key, "t") {
            Some(TableViewKeybindsUpdate::GotoTasks)
        } else if is_key(key, "r") {
            Some(TableViewKeybindsUpdate::GotoResources)
        } else {
            None
        }
    }
}

} // verus!
