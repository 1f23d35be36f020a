use vstd::prelude::*;

verus! {

/// A tab title and whether it is the active one.
#[derive(Debug, Clone, Copy)]
pub struct Tab<'a> {
    pub label: &'a str,
    pub active: bool,
}

/// The panes the keyboard focus moves between.
#[derive(Debug, Clone, Copy, PartialEq, Eq, Structural)]
pub enum Pane {
    Info,
    Params,
    Output,
}

impl Pane {
    /// The pane after this one, wrapping around.
    pub fn next(self) -> (r: Pane)
        ensures
            r == match self {
                Pane::Info => Pane::Params,
                Pane::Params => Pane::Output,
                Pane::Output => Pane::Info,
            },
    {
        match self {
            Pane::Info => Pane::Params,
            Pane::Params => Pane::Output,
            Pane::Output => Pane::Info,
        }
    }

    /// The pane before this one, wrapping around.
    pub fn prev(self) -> (r: Pane)
        ensures
            r == match self {
                Pane::Info => Pane::Output,
                Pane::Params => Pane::Info,
                Pane::Output => Pane::Params,
            },
    {
        match self {
            Pane::Info => Pane::Output,
            Pane::Params => Pane::Info,
            Pane::Output => Pane::Params,
        }
    }
}

/// The selected row after moving down a list of `len` rows, wrapping around.
pub fn select_next(selected: usize, len: usize) -> (r: usize)
    requires
        len > 0,
    ensures
        r == if selected + 1 >= len { 0 } else { selected + 1 },
{
    if selected >= len - 1 { 0 } else { selected + 1 }
}

/// The selected row after moving up a list of `len` rows, wrapping around.
pub fn select_prev(selected: usize, len: usize) -> (r: usize)
    requires
        len > 0,
    ensures
        r == if selected == 0 || selected >= len { (len - 1) as usize } else { (selected - 1) as usize },
{
    if selected == 0 || selected >= len { len - 1 } else { selected - 1 }
}

} // verus!
