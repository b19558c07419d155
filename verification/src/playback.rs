//! What a trace playback shows besides the trace itself: whether it plays,
//! and its clock.
use crate::text::{decimal, padded_digits, push_char, push_decimal, push_padded_digits};
use vstd::prelude::*;

verus! {

/// Whether a playback has a trace loaded, and whether it runs.
#[derive(Clone, Copy, Debug, PartialEq, Eq, Structural)]
pub enum PlaybackStatus {
    Empty,
    Paused,
    Playing,
}

/// The clock label of `total` whole seconds: `h:mm:ss` from an hour on,
/// else `m:ss`.
pub open spec fn clock_label(total: nat) -> Seq<char> {
    let hours = total / 3600;
    let minutes = (total % 3600) / 60;
    let seconds = total % 60;
    if hours > 0 {
        decimal(hours) + seq![':'] + padded_digits(minutes, 10, 2) + seq![':'] + padded_digits(
            seconds,
            10,
            2,
        )
    } else {
        decimal(minutes) + seq![':'] + padded_digits(seconds, 10, 2)
    }
}

/// The clock label of a cursor or a duration, in whole seconds.
pub fn format_playback_clock(total_seconds: u64) -> (r: String)
    ensures
        r@ == clock_label(total_seconds as nat),
{
    let hours = total_seconds / 3600;
    let minutes = (total_seconds % 3600) / 60;
    let remainder = total_seconds % 60;
    let mut s = String::new();
    if hours > 0 {
        push_decimal(&mut s, hours);
        push_char(&mut s, ':');
        push_padded_digits(&mut s, minutes, 10, 2);
    } else {
        push_decimal(&mut s, minutes);
    }
    push_char(&mut s, ':');
    push_padded_digits(&mut s, remainder, 10, 2);
    proof {
        let h = hours as nat;
        let m = minutes as nat;
        let sec = remainder as nat;
        if hours > 0 {
            assert(s@ =~= decimal(h) + seq![':'] + padded_digits(m, 10, 2) + seq![':']
                + padded_digits(sec, 10, 2));
        } else {
            assert(s@ =~= decimal(m) + seq![':'] + padded_digits(sec, 10, 2));
        }
    }
    s
}

} // verus!
