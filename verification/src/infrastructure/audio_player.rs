//! The audio playback abstraction and the command lines of the stream
//! players it drives.
use vstd::prelude::*;

use crate::domain::station::{PlaybackError, Station};
use crate::text::{append_str, chars_of, decimal, push_decimal, string_from_chars};

verus! {

/// Starts and stops the audio of a station. Implementations talk to the
/// outside world, so nothing is promised of their outcome.
pub trait AudioPlayback {
    /// Starts playing `station`.
    fn play_station(&self, station: &Station) -> Result<(), PlaybackError>;

    /// Stops whatever is playing.
    fn stop_playback(&self) -> Result<(), PlaybackError>;
}

/// Settings for playing http(s) streams through `mpv`, or `ffplay` when
/// `mpv` cannot be started.
pub struct HttpAudioPlayer {
    volume_percent: u8,
}

/// The views of a sequence of strings.
pub open spec fn string_views(v: Seq<String>) -> Seq<Seq<char>> {
    v.map_values(|s: String| s@)
}

/// The arguments `mpv` is started with for `url` at `volume` percent.
pub open spec fn mpv_arguments(volume: nat, url: Seq<char>) -> Seq<Seq<char>> {
    seq![
        "--no-video"@,
        "--really-quiet"@,
        "--no-terminal"@,
        "--volume="@ + decimal(volume),
        url,
    ]
}

/// The arguments `ffplay` is started with for `url` at `volume` percent.
pub open spec fn ffplay_arguments(volume: nat, url: Seq<char>) -> Seq<Seq<char>> {
    seq!["-nodisp"@, "-autoexit"@, "-vn"@, "-loglevel"@, "quiet"@, "-volume"@, decimal(volume), url]
}

/// The stream players, in the order they are tried.
#[derive(Debug, Clone, Copy, PartialEq, Eq)]
pub enum Player {
    /// `mpv`, tried first.
    Mpv,
    /// `ffplay`, tried when `mpv` cannot be started.
    Ffplay,
}

impl Player {
    /// The program to start.
    pub fn program(&self) -> (r: &'static str)
        ensures
            r@ == match *self {
                Player::Mpv => "mpv"@,
                Player::Ffplay => "ffplay"@,
            },
    {
        match self {
            Player::Mpv => "mpv",
            Player::Ffplay => "ffplay",
        }
    }
}

/// What to do next while starting a stream.
#[derive(Debug, Clone)]
pub enum LaunchStep {
    /// Start the player with these arguments.
    Start(Player, Vec<String>),
    /// No player could be started: report this error.
    GiveUp(PlaybackError),
}

impl HttpAudioPlayer {
    /// The volume, in percent, the streams are played at.
    pub closed spec fn volume(&self) -> nat {
        self.volume_percent as nat
    }

    /// A player at `volume_percent`, capped at 100.
    pub fn new(volume_percent: u8) -> (r: HttpAudioPlayer)
        ensures
            r.volume() == if volume_percent < 100 {
                volume_percent as nat
            } else {
                100
            },
    {
        let v = if volume_percent < 100 {
            volume_percent
        } else {
            100
        };
        HttpAudioPlayer { volume_percent: v }
    }

    /// The volume, in percent.
    pub fn volume_percent(&self) -> (r: u8)
        ensures
            r == self.volume(),
            r <= 100,
    {
        proof {
            use_type_invariant(self);
        }
        self.volume_percent
    }

    #[verifier::type_invariant]
    spec fn volume_in_range(&self) -> bool {
        self.volume_percent <= 100
    }

    /// The `mpv` command line for `url`.
    pub fn mpv_args(&self, url: &str) -> (r: Vec<String>)
        ensures
            string_views(r@) == mpv_arguments(self.volume(), url@),
    {
        let mut volume = chars_of("--volume=");
        push_decimal(self.volume_percent as u64, &mut volume);
        let mut v: Vec<String> = Vec::new();
        v.push("--no-video".to_owned());
        v.push("--really-quiet".to_owned());
        v.push("--no-terminal".to_owned());
        v.push(string_from_chars(&volume));
        v.push(url.to_owned());
        assert(string_views(v@) =~= mpv_arguments(self.volume(), url@));
        v
    }

    /// The `ffplay` command line for `url`.
    pub fn ffplay_args(&self, url: &str) -> (r: Vec<String>)
        ensures
            string_views(r@) == ffplay_arguments(self.volume(), url@),
    {
        let mut volume: Vec<char> = Vec::new();
        push_decimal(self.volume_percent as u64, &mut volume);
        assert(Seq::<char>::empty() + decimal(self.volume()) =~= decimal(self.volume()));
        let mut v: Vec<String> = Vec::new();
        v.push("-nodisp".to_owned());
        v.push("-autoexit".to_owned());
        v.push("-vn".to_owned());
        v.push("-loglevel".to_owned());
        v.push("quiet".to_owned());
        v.push("-volume".to_owned());
        v.push(string_from_chars(&volume));
        v.push(url.to_owned());
        assert(string_views(v@) =~= ffplay_arguments(self.volume(), url@));
        v
    }

    /// The next step in starting `url`: `mpv` first; `ffplay` when `mpv`
    /// failed to start; and when `ffplay` failed too, giving up with the
    /// error that says why it failed (`failed` names the player that last
    /// failed and why).
    pub fn launch_step(&self, url: &str, failed: Option<(Player, &str)>) -> (r: LaunchStep)
        ensures
            match failed {
                None => r matches LaunchStep::Start(Player::Mpv, a) && string_views(a@)
                    == mpv_arguments(self.volume(), url@),
                Some((Player::Mpv, _)) => r matches LaunchStep::Start(Player::Ffplay, a)
                    && string_views(a@) == ffplay_arguments(self.volume(), url@),
                Some((Player::Ffplay, e)) => r matches LaunchStep::GiveUp(
                    PlaybackError::PlayerUnavailable(m),
                ) && m@ == "failed to start audio player (mpv/ffplay): "@ + e@,
            },
    {
        match failed {
            None => LaunchStep::Start(Player::Mpv, self.mpv_args(url)),
            Some((Player::Mpv, _)) => LaunchStep::Start(Player::Ffplay, self.ffplay_args(url)),
            Some((Player::Ffplay, detail)) => LaunchStep::GiveUp(
                HttpAudioPlayer::launch_failure(detail),
            ),
        }
    }

    /// The error for when neither player could be started; `detail` says why
    /// the last attempt failed.
    pub fn launch_failure(detail: &str) -> (r: PlaybackError)
        ensures
            r matches PlaybackError::PlayerUnavailable(m) && m@
                == "failed to start audio player (mpv/ffplay): "@ + detail@,
    {
        let mut v = chars_of("failed to start audio player (mpv/ffplay): ");
        append_str(&mut v, detail);
        PlaybackError::PlayerUnavailable(string_from_chars(&v))
    }
}

} // verus!
