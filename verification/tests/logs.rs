use camofy::logs::cleanup_rotated_logs;
use camofy::logs::effective_log_max_bytes;
use camofy::logs::new_shared_log_write_state;
use camofy::logs::read_log_tail;
use camofy::logs::rotate_log_file;
use camofy::logs::rotated_log_name;
use camofy::logs::write_log_with_rotation_and_space_guard;
use camofy::logs::LogWriteAction;
use camofy::logs::LogWriteEvent;
use camofy::logs::LogWriteState;

const MIB: u64 = 1024 * 1024;

#[test]
fn fresh_log_state() {
    let state = new_shared_log_write_state();
    assert_eq!(state, LogWriteState::default());
    assert!(!state.logging_disabled && !state.warning_emitted);
    assert_eq!(state.bytes_since_last_disk_check, 0);
}

#[test]
fn small_writes_are_appended_without_a_look_at_the_disk() {
    let mut state = new_shared_log_write_state();
    let action = write_log_with_rotation_and_space_guard(&mut state, LogWriteEvent::Write { len: 100 });
    assert_eq!(action, LogWriteAction::RotateAndAppend);
    assert_eq!(state.bytes_since_last_disk_check, 100);
    let action = write_log_with_rotation_and_space_guard(&mut state, LogWriteEvent::Write { len: 65435 });
    assert_eq!(action, LogWriteAction::RotateAndAppend);
    assert_eq!(state.bytes_since_last_disk_check, 65535);
    let action = write_log_with_rotation_and_space_guard(&mut state, LogWriteEvent::Write { len: 1 });
    assert_eq!(action, LogWriteAction::QueryFreeSpace);
    assert_eq!(state.bytes_since_last_disk_check, 0);
}

#[test]
fn disk_pressure_disables_the_file_and_warns_once() {
    let mut state = new_shared_log_write_state();
    let action = write_log_with_rotation_and_space_guard(&mut state, LogWriteEvent::Write { len: 70000 });
    assert_eq!(action, LogWriteAction::QueryFreeSpace);
    let action = write_log_with_rotation_and_space_guard(&mut state, LogWriteEvent::FreeSpace(Some(MIB - 1)));
    assert_eq!(action, LogWriteAction::CleanupThenQuery);
    assert!(!state.logging_disabled);
    let action =
        write_log_with_rotation_and_space_guard(&mut state, LogWriteEvent::FreeSpaceAfterCleanup(Some(MIB - 1)));
    assert_eq!(action, LogWriteAction::Disable { warn: true });
    assert!(state.logging_disabled);
    assert!(state.warning_emitted);
    let action = write_log_with_rotation_and_space_guard(&mut state, LogWriteEvent::Write { len: 70000 });
    assert_eq!(action, LogWriteAction::Discard);
    assert_eq!(state.bytes_since_last_disk_check, 0);
    let action =
        write_log_with_rotation_and_space_guard(&mut state, LogWriteEvent::FreeSpaceAfterCleanup(Some(0)));
    assert_eq!(action, LogWriteAction::Disable { warn: false });
}

#[test]
fn cleanup_that_frees_space_lets_the_write_go_on() {
    let mut state = new_shared_log_write_state();
    write_log_with_rotation_and_space_guard(&mut state, LogWriteEvent::Write { len: 65536 });
    let action = write_log_with_rotation_and_space_guard(&mut state, LogWriteEvent::FreeSpace(Some(10)));
    assert_eq!(action, LogWriteAction::CleanupThenQuery);
    let action =
        write_log_with_rotation_and_space_guard(&mut state, LogWriteEvent::FreeSpaceAfterCleanup(Some(MIB)));
    assert_eq!(action, LogWriteAction::RotateAndAppend);
    assert!(!state.logging_disabled && !state.warning_emitted);
    let action =
        write_log_with_rotation_and_space_guard(&mut state, LogWriteEvent::FreeSpaceAfterCleanup(None));
    assert_eq!(action, LogWriteAction::RotateAndAppend);
}

#[test]
fn enough_or_unknown_space_lets_the_write_go_on() {
    let mut state = new_shared_log_write_state();
    assert_eq!(
        write_log_with_rotation_and_space_guard(&mut state, LogWriteEvent::FreeSpace(Some(MIB))),
        LogWriteAction::RotateAndAppend
    );
    assert_eq!(
        write_log_with_rotation_and_space_guard(&mut state, LogWriteEvent::FreeSpace(None)),
        LogWriteAction::RotateAndAppend
    );
}

#[test]
fn byte_count_saturates() {
    let mut state = LogWriteState {
        logging_disabled: false,
        bytes_since_last_disk_check: u64::MAX - 1,
        warning_emitted: false,
    };
    let action = write_log_with_rotation_and_space_guard(&mut state, LogWriteEvent::Write { len: 10 });
    assert_eq!(action, LogWriteAction::QueryFreeSpace);
    assert_eq!(state.bytes_since_last_disk_check, 0);
}

#[test]
fn rotation_limit_follows_the_free_space() {
    assert_eq!(effective_log_max_bytes(None), MIB);
    assert_eq!(effective_log_max_bytes(Some(10 * MIB)), MIB);
    assert_eq!(effective_log_max_bytes(Some(1000)), 800);
    assert_eq!(effective_log_max_bytes(Some(1)), MIB);
    assert_eq!(effective_log_max_bytes(Some(0)), MIB);
    assert_eq!(effective_log_max_bytes(Some(2)), 1);
    assert_eq!(effective_log_max_bytes(Some(u64::MAX)), MIB);
    assert_eq!(effective_log_max_bytes(Some(1310720)), MIB);
    assert_eq!(effective_log_max_bytes(Some(1310719)), MIB - 1);
}

#[test]
fn rotation_shifts_the_files_from_the_oldest() {
    let moves = rotate_log_file("/d/app.log", Some(MIB), None);
    let want: Vec<(String, String)> = vec![
        ("/d/app.log.4", "/d/app.log.5"),
        ("/d/app.log.3", "/d/app.log.4"),
        ("/d/app.log.2", "/d/app.log.3"),
        ("/d/app.log.1", "/d/app.log.2"),
        ("/d/app.log", "/d/app.log.1"),
    ]
    .into_iter()
    .map(|(a, b)| (a.to_string(), b.to_string()))
    .collect();
    assert_eq!(moves, want);
    assert!(rotate_log_file("/d/app.log", Some(MIB - 1), None).is_empty());
    assert!(rotate_log_file("/d/app.log", None, Some(5)).is_empty());
    assert_eq!(rotate_log_file("/d/app.log", Some(800), Some(1000)).len(), 5);
    assert!(rotate_log_file("/d/app.log", Some(799), Some(1000)).is_empty());
}

#[test]
fn rotated_names() {
    assert_eq!(rotated_log_name("m.log", 0), "m.log");
    assert_eq!(rotated_log_name("m.log", 1), "m.log.1");
    assert_eq!(rotated_log_name("m.log", 12), "m.log.12");
    assert_eq!(
        cleanup_rotated_logs("m.log"),
        vec!["m.log.1", "m.log.2", "m.log.3", "m.log.4", "m.log.5"]
    );
}

#[test]
fn tail_keeps_the_last_lines() {
    let lines: Vec<String> = (0..5).map(|i| format!("l{i}")).collect();
    assert_eq!(read_log_tail(&lines, 2), vec!["l3", "l4"]);
    assert_eq!(read_log_tail(&lines, 5), lines);
    assert_eq!(read_log_tail(&lines, 200), lines);
    assert!(read_log_tail(&lines, 0).is_empty());
    assert!(read_log_tail(&Vec::new(), 3).is_empty());
}
