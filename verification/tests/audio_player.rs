use radio_slate::domain::PlaybackError;
use radio_slate::infrastructure::{HttpAudioPlayer, LaunchStep, Player};

#[test]
fn player_volume_is_capped() {
    assert_eq!(HttpAudioPlayer::new(250).volume_percent(), 100);
    assert_eq!(HttpAudioPlayer::new(70).volume_percent(), 70);
}

#[test]
fn player_command_lines() {
    let p = HttpAudioPlayer::new(70);
    assert_eq!(
        p.mpv_args("http://a.test/s"),
        vec!["--no-video", "--really-quiet", "--no-terminal", "--volume=70", "http://a.test/s"]
    );
    assert_eq!(
        p.ffplay_args("http://a.test/s"),
        vec!["-nodisp", "-autoexit", "-vn", "-loglevel", "quiet", "-volume", "70", "http://a.test/s"]
    );
    assert_eq!(HttpAudioPlayer::new(0).ffplay_args("u")[6], "0");
}

#[test]
fn launch_failure_message() {
    assert_eq!(
        HttpAudioPlayer::launch_failure("not found"),
        PlaybackError::PlayerUnavailable(
            "failed to start audio player (mpv/ffplay): not found".to_string()
        )
    );
}

#[test]
fn launch_tries_mpv_then_ffplay_then_gives_up() {
    let player = HttpAudioPlayer::new(70);
    let url = "http://live-mp3-128.kexp.org/kexp128.mp3";
    match player.launch_step(url, None) {
        LaunchStep::Start(Player::Mpv, args) => assert_eq!(args, player.mpv_args(url)),
        other => panic!("expected mpv first, got {other:?}"),
    }
    match player.launch_step(url, Some((Player::Mpv, "not found"))) {
        LaunchStep::Start(Player::Ffplay, args) => assert_eq!(args, player.ffplay_args(url)),
        other => panic!("expected ffplay second, got {other:?}"),
    }
    match player.launch_step(url, Some((Player::Ffplay, "not found"))) {
        LaunchStep::GiveUp(error) => assert_eq!(
            error,
            PlaybackError::PlayerUnavailable(
                "failed to start audio player (mpv/ffplay): not found".to_string()
            )
        ),
        other => panic!("expected to give up, got {other:?}"),
    }
    assert_eq!(Player::Mpv.program(), "mpv");
    assert_eq!(Player::Ffplay.program(), "ffplay");
}
