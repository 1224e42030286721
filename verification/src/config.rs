//! Application settings and remembered state, and how loaded settings are
//! made sane.
use vstd::prelude::*;

use crate::text::{trim, trimmed_str};

verus! {

/// The stream played when nothing else is configured.
pub const DEFAULT_STATION_URL: &'static str = "http://live-mp3-128.kexp.org/kexp128.mp3";

/// The tray icon used when none is configured.
pub const DEFAULT_TRAY_ICON: &'static str = "audio-x-generic";

/// The directory, under the configuration and state roots, the files live in.
pub const APP_DIR: &'static str = "radio-slate";

/// User settings.
#[derive(Debug, Clone, PartialEq, Eq)]
pub struct AppConfig {
    pub volume_percent: u8,
    pub default_station_url: String,
    pub tray_autoplay: bool,
    pub tray_icon: String,
}

impl Default for AppConfig {
    /// Volume 70, the KEXP stream, no tray autoplay, the generic audio icon.
    fn default() -> (r: AppConfig)
        ensures
            r.volume_percent == 70,
            r.default_station_url@ == DEFAULT_STATION_URL@,
            !r.tray_autoplay,
            r.tray_icon@ == DEFAULT_TRAY_ICON@,
    {
        AppConfig {
            volume_percent: 70,
            default_station_url: DEFAULT_STATION_URL.to_owned(),
            tray_autoplay: false,
            tray_icon: DEFAULT_TRAY_ICON.to_owned(),
        }
    }
}

/// Settings whose volume is at most 100 and whose url and icon are not
/// blank.
pub open spec fn is_sane(c: AppConfig) -> bool {
    c.volume_percent <= 100 && trim(c.default_station_url@).len() > 0 && trim(c.tray_icon@).len()
        > 0
}

impl AppConfig {
    /// The settings with the volume capped at 100 and a blank url or icon
    /// replaced by its default; everything else is kept.
    pub fn sanitized(self) -> (r: AppConfig)
        ensures
            r.volume_percent == if self.volume_percent < 100 {
                self.volume_percent
            } else {
                100
            },
            r.default_station_url@ == if trim(self.default_station_url@).len() == 0 {
                DEFAULT_STATION_URL@
            } else {
                self.default_station_url@
            },
            r.tray_icon@ == if trim(self.tray_icon@).len() == 0 {
                DEFAULT_TRAY_ICON@
            } else {
                self.tray_icon@
            },
            r.tray_autoplay == self.tray_autoplay,
    {
        let mut c = self;
        if c.volume_percent > 100 {
            c.volume_percent = 100;
        }
        if trimmed_str(c.default_station_url.as_str()).len() == 0 {
            c.default_station_url = DEFAULT_STATION_URL.to_owned();
        }
        if trimmed_str(c.tray_icon.as_str()).len() == 0 {
            c.tray_icon = DEFAULT_TRAY_ICON.to_owned();
        }
        c
    }

    /// The settings in use given what was read from the settings file:
    /// what was read, sanitized, or the defaults when nothing could be read.
    pub fn from_loaded(loaded: Option<AppConfig>) -> (r: AppConfig)
        ensures
            match loaded {
                Some(c) => {
                    &&& r.volume_percent == if c.volume_percent < 100 {
                        c.volume_percent
                    } else {
                        100
                    }
                    &&& r.default_station_url@ == if trim(c.default_station_url@).len() == 0 {
                        DEFAULT_STATION_URL@
                    } else {
                        c.default_station_url@
                    }
                    &&& r.tray_icon@ == if trim(c.tray_icon@).len() == 0 {
                        DEFAULT_TRAY_ICON@
                    } else {
                        c.tray_icon@
                    }
                    &&& r.tray_autoplay == c.tray_autoplay
                },
                None => {
                    &&& r.volume_percent == 70
                    &&& r.default_station_url@ == DEFAULT_STATION_URL@
                    &&& !r.tray_autoplay
                    &&& r.tray_icon@ == DEFAULT_TRAY_ICON@
                },
            },
    {
        match loaded {
            Some(c) => c.sanitized(),
            None => AppConfig::default(),
        }
    }
}

/// Facts about the default settings' texts.
proof fn lemma_default_texts_not_blank()
    ensures
        trim(DEFAULT_STATION_URL@).len() > 0,
        trim(DEFAULT_TRAY_ICON@).len() > 0,
{
    reveal_strlit("http://live-mp3-128.kexp.org/kexp128.mp3");
    reveal_strlit("audio-x-generic");
    crate::text::lemma_trim_fixed(DEFAULT_STATION_URL@);
    crate::text::lemma_trim_fixed(DEFAULT_TRAY_ICON@);
}

/// Sanitized settings are sane, and sane settings are left as they are:
/// sanitizing twice changes nothing more than sanitizing once.
pub proof fn lemma_sanitized_is_sane(before: AppConfig, after: AppConfig)
    requires
        after.volume_percent == if before.volume_percent < 100 {
            before.volume_percent
        } else {
            100
        },
        after.default_station_url@ == if trim(before.default_station_url@).len() == 0 {
            DEFAULT_STATION_URL@
        } else {
            before.default_station_url@
        },
        after.tray_icon@ == if trim(before.tray_icon@).len() == 0 {
            DEFAULT_TRAY_ICON@
        } else {
            before.tray_icon@
        },
    ensures
        is_sane(after),
        is_sane(before) ==> after.volume_percent == before.volume_percent
            && after.default_station_url@ == before.default_station_url@ && after.tray_icon@
            == before.tray_icon@,
{
    lemma_default_texts_not_blank();
}

/// The default settings are sane.
pub proof fn lemma_default_is_sane(c: AppConfig)
    requires
        c.volume_percent == 70,
        c.default_station_url@ == DEFAULT_STATION_URL@,
        c.tray_icon@ == DEFAULT_TRAY_ICON@,
    ensures
        is_sane(c),
{
    lemma_default_texts_not_blank();
}

/// What the application remembers between runs.
#[derive(Debug, Clone, PartialEq, Eq)]
pub struct AppState {
    pub last_station_url: Option<String>,
}

impl Default for AppState {
    /// Nothing remembered.
    fn default() -> (r: AppState)
        ensures
            r.last_station_url is None,
    {
        AppState { last_station_url: None }
    }
}

} // verus!
