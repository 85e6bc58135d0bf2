use backend_launcher::command::{launch_command, Launcher};
use backend_launcher::paths::{candidate_dirs, entry_point_path, join_path};
use backend_launcher::slot::HandleSlot;
use backend_launcher::supervisor::{
    Supervisor, SupervisorAction, SupervisorEvent, SupervisorState,
};

#[test]
fn join_path_inserts_separator() {
    assert_eq!(join_path("/opt/app", "backend"), "/opt/app/backend");
    assert_eq!(join_path("", "main.py"), "/main.py");
}

#[test]
fn entry_point_is_main_py() {
    assert_eq!(entry_point_path("../backend"), "../backend/main.py");
    assert_eq!(entry_point_path(""), "/main.py");
}

#[test]
fn candidate_dirs_with_exe_dir() {
    let dirs = candidate_dirs(&Some(String::from("/opt/app")));
    assert_eq!(dirs.len(), 3);
    assert_eq!(dirs[0], "../backend");
    assert_eq!(dirs[1], "/opt/app/../Resources/backend");
    assert_eq!(dirs[2], "/opt/app/backend");
}

#[test]
fn candidate_dirs_without_exe_dir() {
    let dirs = candidate_dirs(&None);
    assert_eq!(dirs.len(), 3);
    assert_eq!(dirs[0], "../backend");
    assert_eq!(dirs[1], "");
    assert_eq!(dirs[2], "");
}

#[test]
fn primary_command_is_package_runner() {
    let c = launch_command(Launcher::Primary);
    assert_eq!(c.program, "uv");
    assert_eq!(
        c.args,
        vec!["run", "uvicorn", "main:app", "--host", "127.0.0.1", "--port", "8000"]
    );
}

#[test]
fn secondary_command_is_direct_interpreter() {
    let c = launch_command(Launcher::Secondary);
    assert_eq!(c.program, "python");
    assert_eq!(
        c.args,
        vec!["-m", "uvicorn", "main:app", "--host", "127.0.0.1", "--port", "8000"]
    );
}

fn three_empty_candidates() -> Vec<String> {
    vec![String::from("a"), String::from("b"), String::from("c")]
}

#[test]
fn no_entry_point_anywhere_yields_nothing_and_one_diagnostic() {
    let mut sup = Supervisor::new(three_empty_candidates());
    for expected in 0..3usize {
        assert_eq!(
            sup.pending(),
            SupervisorAction::CheckEntryPoint { idx: expected }
        );
        sup.step(SupervisorEvent::EntryPoint { present: false });
    }
    assert_eq!(
        sup.pending(),
        SupervisorAction::Done { handle: None, diagnose: true }
    );
}

#[test]
fn no_candidates_at_all_yields_nothing() {
    let sup = Supervisor::new(Vec::new());
    assert_eq!(
        sup.pending(),
        SupervisorAction::Done { handle: None, diagnose: true }
    );
}

#[test]
fn first_spawn_targets_first_candidate_with_entry_point() {
    let mut sup = Supervisor::new(three_empty_candidates());
    sup.step(SupervisorEvent::EntryPoint { present: false });
    sup.step(SupervisorEvent::EntryPoint { present: true });
    assert_eq!(
        sup.pending(),
        SupervisorAction::Spawn { idx: 1, launcher: Launcher::Primary }
    );
}

#[test]
fn secondary_handle_is_returned_when_primary_fails() {
    let mut sup = Supervisor::new(three_empty_candidates());
    sup.step(SupervisorEvent::EntryPoint { present: true });
    assert_eq!(
        sup.pending(),
        SupervisorAction::Spawn { idx: 0, launcher: Launcher::Primary }
    );
    sup.step(SupervisorEvent::SpawnResult { handle: None });
    assert_eq!(
        sup.pending(),
        SupervisorAction::Spawn { idx: 0, launcher: Launcher::Secondary }
    );
    sup.step(SupervisorEvent::SpawnResult { handle: Some(7) });
    assert_eq!(
        sup.pending(),
        SupervisorAction::Done { handle: Some(7), diagnose: false }
    );
}

#[test]
fn both_commands_failing_moves_to_next_candidate() {
    let mut sup = Supervisor::new(three_empty_candidates());
    sup.step(SupervisorEvent::EntryPoint { present: true });
    sup.step(SupervisorEvent::SpawnResult { handle: None });
    sup.step(SupervisorEvent::SpawnResult { handle: None });
    assert_eq!(sup.pending(), SupervisorAction::CheckEntryPoint { idx: 1 });
}

#[test]
fn both_commands_failing_everywhere_yields_nothing() {
    let mut sup = Supervisor::new(three_empty_candidates());
    for _ in 0..3 {
        sup.step(SupervisorEvent::EntryPoint { present: true });
        sup.step(SupervisorEvent::SpawnResult { handle: None });
        sup.step(SupervisorEvent::SpawnResult { handle: None });
    }
    assert_eq!(
        sup.pending(),
        SupervisorAction::Done { handle: None, diagnose: true }
    );
}

#[test]
fn second_hook_firing_is_a_noop() {
    let mut slot = HandleSlot::new(Some(9));
    assert_eq!(slot.take_for_kill(), Some(9));
    assert_eq!(slot.current(), None);
    assert_eq!(slot.take_for_kill(), None);
    assert_eq!(slot.current(), None);
}

#[test]
fn repeated_firings_issue_exactly_one_kill() {
    let mut slot = HandleSlot::new(Some(3));
    let mut kills: usize = 0;
    for _ in 0..5 {
        if slot.take_for_kill().is_some() {
            kills += 1;
        }
    }
    assert_eq!(kills, 1);
}

#[test]
fn empty_slot_never_issues_a_kill() {
    let mut slot = HandleSlot::new(None);
    for _ in 0..3 {
        assert_eq!(slot.take_for_kill(), None);
    }
}

#[test]
fn end_to_end_flat_bundled_layout() {
    // The entry-point file exists only in the flat bundled-layout candidate,
    // and the primary command is available there.
    let dirs = candidate_dirs(&Some(String::from("/opt/app")));
    let flat = dirs[2].clone();
    assert_eq!(flat, "/opt/app/backend");
    let mut sup = Supervisor::new(dirs);

    sup.step(SupervisorEvent::EntryPoint { present: false });
    sup.step(SupervisorEvent::EntryPoint { present: false });
    assert_eq!(sup.pending(), SupervisorAction::CheckEntryPoint { idx: 2 });
    sup.step(SupervisorEvent::EntryPoint { present: true });
    assert_eq!(
        sup.pending(),
        SupervisorAction::Spawn { idx: 2, launcher: Launcher::Primary }
    );
    sup.step(SupervisorEvent::SpawnResult { handle: Some(42) });
    assert_eq!(
        sup.pending(),
        SupervisorAction::Done { handle: Some(42), diagnose: false }
    );
    assert_eq!(sup.state, SupervisorState::Finished { handle: Some(42) });

    // Window destruction kills that process and empties the stored slot.
    let mut slot = HandleSlot::new(Some(42));
    assert_eq!(slot.take_for_kill(), Some(42));
    assert_eq!(slot.current(), None);
}
