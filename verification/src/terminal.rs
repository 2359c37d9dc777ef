//! Frame-level decisions: the terminal guard, whether the welcome screen shows, and
//! where the "Copied" toast goes.

use vstd::prelude::*;

use crate::app_state::{App, Area, MsgView};

verus! {

/// Guard that restores terminal state when the TUI ends (the restoring is done by the
/// caller that owns the terminal).
pub struct TerminalGuard;

impl TerminalGuard {
    pub fn new() -> (r: Self) {
        TerminalGuard
    }
}

/// Start a frame: without messages the welcome screen shows, and the history has no area
/// or block ranges to hit-test.
pub fn begin_frame(app: &mut App) -> (welcome: bool)
    ensures
        welcome == (old(app).msgs().len() == 0),
        welcome ==> final(app).history_area is None && final(app).message_line_ranges@.len() == 0
            && *final(app) == (App {
            history_area: None,
            message_line_ranges: final(app).message_line_ranges,
            ..*old(app)
        }),
        !welcome ==> *final(app) == *old(app),
{
    let welcome = app.messages.len() == 0;
    if welcome {
        app.history_area = None;
        app.message_line_ranges.clear();
    }
    welcome
}

/// Width of the "Copied" toast: its text ` Copied ` and two border cells.
pub const TOAST_WIDTH: u16 = 10;

/// Height of the header above the history.
pub const HEADER_HEIGHT: u16 = 2;

/// Where the "Copied" toast goes: at the top right, below the header, one cell from the
/// right edge.
pub fn toast_area(area: Area) -> (r: Area)
    requires
        area.x + area.width <= u16::MAX,
        area.y + HEADER_HEIGHT <= u16::MAX,
    ensures
        r.x == area.x + (if area.width > TOAST_WIDTH + 1 {
            area.width - TOAST_WIDTH - 1
        } else {
            0
        }),
        r.y == area.y + HEADER_HEIGHT,
        r.width == TOAST_WIDTH,
        r.height == 3,
{
    let free = area.width.saturating_sub(TOAST_WIDTH).saturating_sub(1);
    Area { x: area.x + free, y: area.y + HEADER_HEIGHT, width: TOAST_WIDTH, height: 3 }
}

} // verus!
