use wie::event_queue::{EventQueueEvent, KEY_EVENT, NOTIFY_EVENT, REPAINT_EVENT};
use wie::web::{
    archive_platform, file_kind, file_name, jar_app_id, jar_emulator, vibration_duration, AppFileKind,
    ArchivePlatform, ImportError, JarEmulator,
};

fn chars(s: &str) -> Vec<char> {
    s.chars().collect()
}

fn text(v: &[char]) -> String {
    v.iter().collect()
}

#[test]
fn file_kind_goes_by_extension_in_any_case() {
    assert_eq!(file_kind(&chars("game.zip")), Ok(AppFileKind::Archive));
    assert_eq!(file_kind(&chars("GAME.ZIP")), Ok(AppFileKind::Archive));
    assert_eq!(file_kind(&chars("dir/Game.Jar")), Ok(AppFileKind::Jar));
    assert_eq!(file_kind(&chars("game.jad")), Err(ImportError::UnknownFileFormat));
    assert_eq!(file_kind(&chars("zip")), Err(ImportError::UnknownFileFormat));
    assert_eq!(file_kind(&chars("")), Err(ImportError::UnknownFileFormat));
    assert_eq!(file_kind(&chars("a.jar.zip")), Ok(AppFileKind::Archive));
}

#[test]
fn archive_needs_a_jar_and_a_loading_emulator() {
    let with_jar = vec![chars("app.jad"), chars("client.bin"), chars("App.JAR")];
    let without_jar = vec![chars("app.jad"), chars("jar")];
    assert_eq!(archive_platform(&without_jar, true, true, true), Err(ImportError::NoJarFile));
    assert_eq!(archive_platform(&Vec::new(), true, false, false), Err(ImportError::NoJarFile));
    assert_eq!(archive_platform(&with_jar, true, true, true), Ok(ArchivePlatform::Ktf));
    assert_eq!(archive_platform(&with_jar, false, true, true), Ok(ArchivePlatform::Lgt));
    assert_eq!(archive_platform(&with_jar, false, false, true), Ok(ArchivePlatform::Skt));
    assert_eq!(archive_platform(&with_jar, false, false, false), Err(ImportError::UnknownArchiveFormat));
}

#[test]
fn jar_runs_in_first_loading_emulator_else_j2me() {
    assert_eq!(jar_emulator(true, true, true), JarEmulator::Ktf);
    assert_eq!(jar_emulator(false, true, false), JarEmulator::Lgt);
    assert_eq!(jar_emulator(false, false, true), JarEmulator::Skt);
    assert_eq!(jar_emulator(false, false, false), JarEmulator::J2me);
}

#[test]
fn file_name_is_what_follows_the_last_slash() {
    assert_eq!(text(&file_name(&chars("games/ktf/Game.jar"))), "Game.jar");
    assert_eq!(text(&file_name(&chars("Game.jar"))), "Game.jar");
    assert_eq!(text(&file_name(&chars("games/"))), "");
    assert_eq!(text(&file_name(&chars(""))), "");
}

#[test]
fn jar_app_id_drops_extension_only_for_phone_platforms() {
    assert_eq!(text(&jar_app_id(&chars("Game.jar"), true)), "Game");
    assert_eq!(text(&jar_app_id(&chars("Game.jar"), false)), "Game.jar");
}

#[test]
fn vibration_is_skipped_when_empty_and_capped() {
    assert_eq!(vibration_duration(0, 100), None);
    assert_eq!(vibration_duration(500, 0), None);
    assert_eq!(vibration_duration(500, 1), Some(500));
    assert_eq!(vibration_duration(u64::MAX, 255), Some(u32::MAX));
    assert_eq!(vibration_duration(u32::MAX as u64 + 1, 3), Some(u32::MAX));
}

#[test]
fn queue_event_kinds_round_trip_through_their_numbers() {
    for kind in [EventQueueEvent::KeyEvent, EventQueueEvent::RepaintEvent, EventQueueEvent::NotifyEvent] {
        assert_eq!(EventQueueEvent::from_raw(kind.raw()), Some(kind));
    }
    assert_eq!(EventQueueEvent::KeyEvent.raw(), KEY_EVENT);
    assert_eq!(EventQueueEvent::RepaintEvent.raw(), REPAINT_EVENT);
    assert_eq!(EventQueueEvent::NotifyEvent.raw(), NOTIFY_EVENT);
    assert_eq!(EventQueueEvent::from_raw(7), None);
}

use wie::event_queue::{BackendEvent, KeyCode};
use wie::key_repeat::{KeyRepeat, KEY_REPEAT_INTERVAL};

#[test]
fn held_key_repeats_after_the_interval_once_per_interval() {
    let mut keys = KeyRepeat::new();
    assert_eq!(keys.key_down(KeyCode::UP, 1000), BackendEvent::Keydown(KeyCode::UP));
    assert_eq!(keys.update(1050, false), vec![]);
    assert_eq!(keys.update(1000 + KEY_REPEAT_INTERVAL, false), vec![]);
    assert_eq!(keys.update(1101, true), vec![BackendEvent::Redraw, BackendEvent::Keyrepeat(KeyCode::UP)]);
    // a second update at the same time repeats nothing
    assert_eq!(keys.update(1101, false), vec![]);
    assert_eq!(keys.update(1201, false), vec![]);
    assert_eq!(keys.update(1202, false), vec![BackendEvent::Keyrepeat(KeyCode::UP)]);
}

#[test]
fn released_key_stops_repeating() {
    let mut keys = KeyRepeat::new();
    keys.key_down(KeyCode::NUM5, 0);
    assert_eq!(keys.key_up(KeyCode::NUM5), BackendEvent::Keyup(KeyCode::NUM5));
    assert_eq!(keys.update(10_000, false), vec![]);
    assert_eq!(keys.update(20_000, true), vec![BackendEvent::Redraw]);
}

#[test]
fn every_due_key_repeats_once() {
    let mut keys = KeyRepeat::new();
    keys.key_down(KeyCode::LEFT, 0);
    keys.key_down(KeyCode::STAR, 50);
    keys.key_down(KeyCode::OK, 500);
    // pressing again restarts the wait
    keys.key_down(KeyCode::LEFT, 40);
    let mut repeated = keys.update(200, false);
    repeated.sort_by_key(|e| format!("{:?}", e));
    assert_eq!(repeated, vec![BackendEvent::Keyrepeat(KeyCode::LEFT), BackendEvent::Keyrepeat(KeyCode::STAR)]);
    assert_eq!(keys.update(200, false), vec![]);
    // a clock that went back repeats nothing
    assert_eq!(keys.update(100, false), vec![]);
}
