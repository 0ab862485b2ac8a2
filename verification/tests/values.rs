use oxo::error::{AppError, AppErrorType};
use oxo::policy::LoopMode;
use oxo::presets::LofiSong;
use oxo::track::duration_parts;

#[test]
fn message_prefers_the_explicit_text() {
    let e = AppError {
        cause: Some("io".to_string()),
        message: Some("try again later".to_string()),
        error_type: AppErrorType::SessionError,
    };
    assert_eq!(e.message(), "try again later");
}

#[test]
fn message_default_for_not_found() {
    let e = AppError::not_found();
    assert_eq!(e.message(), "The requested item was not found");
}

#[test]
fn message_default_for_other_kinds() {
    for kind in [
        AppErrorType::NotPlaying,
        AppErrorType::IndexOutOfRange,
        AppErrorType::SourceUnavailable,
        AppErrorType::SessionError,
    ] {
        let e = AppError::of_type(kind);
        assert_eq!(e.message(), "An unexpected error has occured");
    }
}

#[test]
fn not_found_has_no_cause_or_message() {
    let e = AppError::not_found();
    assert_eq!(e.error_type, AppErrorType::NotFound);
    assert!(e.cause.is_none());
    assert!(e.message.is_none());
}

#[test]
fn loop_mode_defaults_to_off() {
    assert_eq!(LoopMode::default(), LoopMode::Off);
}

#[test]
fn lofi_song_urls_are_fixed() {
    assert_eq!(LofiSong::LofiGirl.url(), "https://www.youtube.com/watch?v=jfKfPfyJRdk");
    assert_eq!(LofiSong::Undertale.url(), "https://www.youtube.com/watch?v=A7vMrjsBMTI");
    assert_eq!(LofiSong::Zelda.url(), "https://www.youtube.com/watch?v=-z3RRwk2rdU");
    assert_eq!(LofiSong::AnimeOps.url(), "https://www.youtube.com/watch?v=GNWLILeztaI");
    assert_eq!(LofiSong::Metal.url(), "https://www.youtube.com/watch?v=83PnFc6eh-4");
    assert_eq!(LofiSong::Djent.url(), "https://www.youtube.com/watch?v=1XFtipo7v0Y");
}

#[test]
fn duration_parts_split_exactly() {
    assert_eq!(duration_parts(0), (0, 0, 0));
    assert_eq!(duration_parts(59), (0, 0, 59));
    assert_eq!(duration_parts(60), (0, 1, 0));
    assert_eq!(duration_parts(3599), (0, 59, 59));
    assert_eq!(duration_parts(3600), (1, 0, 0));
    assert_eq!(duration_parts(3661), (1, 1, 1));
    assert_eq!(duration_parts(86399), (23, 59, 59));
}

#[test]
fn only_the_default_preset_streams_all_day() {
    assert_eq!(LofiSong::default(), LofiSong::LofiGirl);
    assert!(LofiSong::LofiGirl.is_24_7());
    assert!(!LofiSong::Undertale.is_24_7());
    assert!(!LofiSong::Zelda.is_24_7());
    assert!(!LofiSong::AnimeOps.is_24_7());
    assert!(!LofiSong::Metal.is_24_7());
    assert!(!LofiSong::Djent.is_24_7());
}
