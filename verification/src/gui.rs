//! What the window shows, as far as it is text, and whether there can be one.

use vstd::prelude::*;

verus! {

/// Whether a window can be shown: where at least one of the two kinds of display is there. If not,
/// the reason.
pub fn check_display(display: bool, wayland: bool) -> (r: Result<(), String>)
    ensures
        match r {
            Ok(_) => display || wayland,
            Err(reason) => !display && !wayland && reason@
                == "Neither DISPLAY nor WAYLAND_DISPLAY environment variables are set. Cannot initialize GUI."@,
        },
{
    if !display && !wayland {
        Err(
            "Neither DISPLAY nor WAYLAND_DISPLAY environment variables are set. Cannot initialize GUI.".to_owned(),
        )
    } else {
        Ok(())
    }
}

/// How the state of the transmitter is shown.
pub fn state_label(tx_now: bool) -> (s: &'static str)
    ensures
        s@ == (if tx_now {
            "TX"@
        } else {
            "RX"@
        }),
{
    if tx_now {
        "TX"
    } else {
        "RX"
    }
}

} // verus!
