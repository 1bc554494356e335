use shm_bridge::find_shm_dir;
use shm_bridge::path::backing_path;
use shm_bridge::request::{validate, Command, ConfigError};
use shm_bridge::session::{Action, BridgeError, Event, Phase, Removal, Session};

fn strings(v: &[&str]) -> Vec<String> {
    v.iter().map(|s| s.to_string()).collect()
}

fn bridge(names: &[&str], sizes: &[usize]) -> Session {
    match validate(strings(names), sizes.to_vec(), false) {
        Ok(command) => Session::new(find_shm_dir(), command),
        Err(e) => panic!("refused: {:?}", e),
    }
}

fn cleanup(names: &[&str]) -> Session {
    match validate(strings(names), Vec::new(), true) {
        Ok(command) => Session::new(find_shm_dir(), command),
        Err(e) => panic!("refused: {:?}", e),
    }
}

#[test]
fn shm_dir_is_dev_shm() {
    assert_eq!(find_shm_dir(), "/dev/shm/");
}

#[test]
fn backing_path_joins_with_one_separator() {
    assert_eq!(backing_path("/dev/shm/", "telemetry"), "/dev/shm/telemetry");
    assert_eq!(backing_path("/dev/shm", "telemetry"), "/dev/shm/telemetry");
    assert_eq!(backing_path("Z:\\dev\\shm\\", "a"), "Z:\\dev\\shm\\a");
    assert_eq!(backing_path("", "a"), "a");
}

#[test]
fn single_mapping_lifecycle() {
    let mut s = bridge(&["telemetry"], &[4096]);
    assert_eq!(s.pending(), Action::OpenBacking { index: 0 });
    assert_eq!(s.path(0), "/dev/shm/telemetry");
    assert_eq!(s.step(Event::Opened), Action::CreateMapping { index: 0 });
    assert_eq!(s.name(0), "telemetry");
    assert_eq!(s.size(0), 4096);
    assert_eq!(s.step(Event::MappingCreated), Action::Suspend);
    assert_eq!(s.phase(), Phase::Running);
    assert_eq!(s.held(), 1);
    assert_eq!(s.step(Event::Interrupted), Action::Release { count: 1 });
    assert_eq!(s.step(Event::Released), Action::Probe { index: 0 });
    assert_eq!(s.held(), 0);
    assert_eq!(s.step(Event::Present), Action::Remove { index: 0 });
    assert_eq!(s.step(Event::Removed), Action::Finish);
    assert_eq!(s.phase(), Phase::Exited);
    assert!(s.error().is_none());
    assert_eq!(s.report(), vec![Removal::Removed]);
}

#[test]
fn count_mismatch_is_refused() {
    let r = validate(strings(&["a", "b"]), vec![1024], false);
    assert!(matches!(r, Err(ConfigError::CountMismatch { maps: 2, sizes: 1 })));
}

#[test]
fn cleanup_only_reports_absent_file() {
    let mut s = cleanup(&["telemetry"]);
    assert_eq!(s.pending(), Action::Probe { index: 0 });
    assert_eq!(s.path(0), "/dev/shm/telemetry");
    assert_eq!(s.step(Event::Absent), Action::Finish);
    assert!(s.error().is_none());
    assert_eq!(s.report(), vec![Removal::AlreadyAbsent]);
}

#[test]
fn second_mapping_failure_releases_first() {
    let mut s = bridge(&["a", "b"], &[1024, 1024]);
    assert_eq!(s.pending(), Action::OpenBacking { index: 0 });
    assert_eq!(s.step(Event::Opened), Action::CreateMapping { index: 0 });
    assert_eq!(s.step(Event::MappingCreated), Action::OpenBacking { index: 1 });
    assert_eq!(s.step(Event::Opened), Action::CreateMapping { index: 1 });
    assert_eq!(s.step(Event::MappingFailed), Action::Release { count: 1 });
    assert_eq!(s.step(Event::Released), Action::Finish);
    assert_eq!(s.held(), 0);
    assert!(s.report().is_empty());
    match s.error() {
        Some(BridgeError::MappingCreation { name }) => assert_eq!(name, "b"),
        other => panic!("unexpected: {:?}", other),
    }
    assert_eq!(s.step(Event::Interrupted), Action::Idle);
    assert_eq!(s.step(Event::Present), Action::Idle);
}

#[test]
fn same_request_gives_same_mapping_identity() {
    let mut first = bridge(&["telemetry"], &[4096]);
    let mut second = bridge(&["telemetry"], &[4096]);
    assert_eq!(first.step(Event::Opened), Action::CreateMapping { index: 0 });
    assert_eq!(second.step(Event::Opened), Action::CreateMapping { index: 0 });
    assert_eq!(first.name(0), second.name(0));
    assert_eq!(first.size(0), second.size(0));
    assert_eq!(first.name(0), "telemetry");
    assert_eq!(second.size(0), 4096);
}

#[test]
fn full_run_removes_every_backing_file() {
    let mut s = bridge(&["a", "b"], &[16, 32]);
    let mut disk: Vec<String> = Vec::new();
    let mut action = s.pending();
    loop {
        let event = match action {
            Action::OpenBacking { index } => {
                disk.push(s.path(index));
                Event::Opened
            }
            Action::CreateMapping { .. } => Event::MappingCreated,
            Action::Release { .. } => Event::Released,
            Action::Suspend => Event::Interrupted,
            Action::Probe { index } => {
                if disk.contains(&s.path(index)) {
                    Event::Present
                } else {
                    Event::Absent
                }
            }
            Action::Remove { index } => {
                let p = s.path(index);
                disk.retain(|f| *f != p);
                Event::Removed
            }
            Action::Finish | Action::Idle => break,
        };
        action = s.step(event);
    }
    assert!(disk.is_empty());
    assert!(s.error().is_none());
    assert_eq!(s.report(), vec![Removal::Removed, Removal::Removed]);
}

#[test]
fn cleanup_twice_second_finds_all_absent() {
    let mut first = cleanup(&["a", "b"]);
    assert_eq!(first.step(Event::Present), Action::Remove { index: 0 });
    assert_eq!(first.step(Event::Removed), Action::Probe { index: 1 });
    assert_eq!(first.step(Event::Absent), Action::Finish);
    assert_eq!(first.report(), vec![Removal::Removed, Removal::AlreadyAbsent]);
    let mut second = cleanup(&["a", "b"]);
    assert_eq!(second.step(Event::Absent), Action::Probe { index: 1 });
    assert_eq!(second.step(Event::Absent), Action::Finish);
    assert!(second.error().is_none());
    assert_eq!(second.report(), vec![Removal::AlreadyAbsent, Removal::AlreadyAbsent]);
}

#[test]
fn open_failure_releases_and_names_path() {
    let mut s = bridge(&["a", "b", "c"], &[1, 2, 3]);
    assert_eq!(s.step(Event::Opened), Action::CreateMapping { index: 0 });
    assert_eq!(s.step(Event::MappingCreated), Action::OpenBacking { index: 1 });
    assert_eq!(s.step(Event::OpenFailed), Action::Release { count: 1 });
    assert_eq!(s.step(Event::Released), Action::Finish);
    match s.error() {
        Some(BridgeError::IoOpen { name, path }) => {
            assert_eq!(name, "b");
            assert_eq!(path, "/dev/shm/b");
        }
        other => panic!("unexpected: {:?}", other),
    }
}

#[test]
fn failed_removal_stops_cleanup() {
    let mut s = cleanup(&["a", "b"]);
    assert_eq!(s.step(Event::Present), Action::Remove { index: 0 });
    assert_eq!(s.step(Event::RemoveFailed), Action::Finish);
    assert!(s.report().is_empty());
    match s.error() {
        Some(BridgeError::CleanupIo { name, path }) => {
            assert_eq!(name, "a");
            assert_eq!(path, "/dev/shm/a");
        }
        other => panic!("unexpected: {:?}", other),
    }
}

#[test]
fn unexpected_event_repeats_pending_action() {
    let mut s = bridge(&["a"], &[8]);
    assert_eq!(s.step(Event::Removed), Action::OpenBacking { index: 0 });
    assert_eq!(s.phase(), Phase::Opening);
}

#[test]
fn no_maps_is_refused() {
    assert!(matches!(validate(Vec::new(), Vec::new(), false), Err(ConfigError::NoMaps)));
    assert!(matches!(validate(Vec::new(), Vec::new(), true), Err(ConfigError::NoMaps)));
}

#[test]
fn zero_size_is_refused() {
    match validate(strings(&["a", "b"]), vec![8, 0], false) {
        Err(ConfigError::ZeroSize { name }) => assert_eq!(name, "b"),
        other => panic!("unexpected: {:?}", other.is_ok()),
    }
}

#[test]
fn duplicate_name_is_refused() {
    match validate(strings(&["a", "b", "a"]), vec![8, 8, 8], false) {
        Err(ConfigError::DuplicateName { name }) => assert_eq!(name, "a"),
        other => panic!("unexpected: {:?}", other.is_ok()),
    }
}

#[test]
fn cleanup_mode_ignores_sizes() {
    match validate(strings(&["a", "a"]), vec![1], true) {
        Ok(Command::CleanUp { names }) => assert_eq!(names, strings(&["a", "a"])),
        _ => panic!("expected a cleanup command"),
    }
}

#[test]
fn bridge_command_keeps_pairs() {
    match validate(strings(&["x", "y"]), vec![10, 20], false) {
        Ok(Command::Bridge { names, sizes }) => {
            assert_eq!(names, strings(&["x", "y"]));
            assert_eq!(sizes, vec![10, 20]);
        }
        _ => panic!("expected a bridge command"),
    }
}
