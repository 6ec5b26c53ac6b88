use atlas_launcher::supervisor::{Supervisor, SupervisorAction, LAUNCH_RETRIES};

fn silent_launches(version: &str) -> u64 {
    let (mut s, mut action) = Supervisor::start(&version.to_string());
    let mut launches = 0;
    while action == SupervisorAction::Spawn {
        launches += 1;
        action = s.on_exit();
    }
    assert_eq!(action, SupervisorAction::Finish);
    launches
}

#[test]
fn silent_marked_version_is_retried_twenty_times() {
    assert_eq!(LAUNCH_RETRIES, 20);
    assert_eq!(silent_launches("_1.4.7"), 21);
}

#[test]
fn silent_unmarked_version_is_not_retried() {
    assert_eq!(silent_launches("1.4.7"), 1);
}

#[test]
fn first_line_notifies_once_and_ends_retries() {
    let (mut s, action) = Supervisor::start(&"_1.4.7".to_string());
    assert_eq!(action, SupervisorAction::Spawn);
    assert_eq!(s.on_line(), SupervisorAction::NotifyLaunched);
    assert_eq!(s.on_line(), SupervisorAction::KeepReading);
    assert_eq!(s.on_exit(), SupervisorAction::Finish);
}
