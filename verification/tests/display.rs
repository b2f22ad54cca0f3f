use rusic::controller::LoopMode;
use rusic::display::{favorite_target, favorite_title, format_time, loop_title, shuffle_title, theme_class, FavoriteTarget};

#[test]
fn time_is_minutes_and_two_digit_seconds() {
    assert_eq!(format_time(0), "0:00");
    assert_eq!(format_time(65), "1:05");
    assert_eq!(format_time(600), "10:00");
    assert_eq!(format_time(3599), "59:59");
    assert_eq!(format_time(3600), "60:00");
}

#[test]
fn button_titles() {
    assert_eq!(loop_title(LoopMode::Off), "Repeat: Off");
    assert_eq!(loop_title(LoopMode::Queue), "Repeat: Queue");
    assert_eq!(loop_title(LoopMode::Track), "Repeat: Track");
    assert_eq!(shuffle_title(true), "Shuffle: On");
    assert_eq!(favorite_title(false), "Add to Favorites");
}

#[test]
fn album_art_theme_uses_default_class() {
    assert_eq!(theme_class("album-art"), "theme-default");
    assert_eq!(theme_class("nord"), "theme-nord");
}

#[test]
fn favorites_are_looked_up_by_item_id_or_path() {
    assert!(matches!(favorite_target("/x.mp3"), FavoriteTarget::Local));
    match favorite_target("jellyfin:abc:tag") {
        FavoriteTarget::Remote(id) => assert_eq!(id, "abc"),
        _ => panic!("expected remote"),
    }
}
