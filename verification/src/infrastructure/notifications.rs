//! The texts of the desktop notifications.
use vstd::prelude::*;

use crate::text::{append_str, chars_of, string_from_chars};

verus! {

/// The application name notifications are sent under.
pub const APP_NAME: &'static str = "radio-slate";

/// The icon notifications carry.
pub const APP_ICON: &'static str = "audio-x-generic";

/// The body of the notification sent when playback stops.
pub const STOPPED_BODY: &'static str = "Playback stopped";

/// The body of the notification sent when `station_name` starts playing.
pub fn now_playing_body(station_name: &str) -> (r: String)
    ensures
        r@ == "Now playing: "@ + station_name@,
{
    let mut v = chars_of("Now playing: ");
    append_str(&mut v, station_name);
    string_from_chars(&v)
}

} // verus!
