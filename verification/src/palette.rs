//! Colours the interface paints with.
use vstd::prelude::*;

verus! {

/// A terminal foreground colour.
#[derive(Clone, Copy, PartialEq, Eq, Debug, Structural)]
pub enum Color {
    Green,
    Blue,
    Yellow,
    Cyan,
    Red,
    DarkGray,
}

/// Border colour of a pane: cyan when it has the focus, dark gray otherwise.
pub fn focus_color(focused: bool) -> (c: Color)
    ensures
        c == (if focused { Color::Cyan } else { Color::DarkGray }),
{
    if focused {
        Color::Cyan
    } else {
        Color::DarkGray
    }
}

} // verus!
