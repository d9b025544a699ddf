use verifiers::app::{
    add_to_prompt_history, App, RunnerMessage, Screen, ScrollFocus, SetupFocus, Verifier,
    VerifierStatus, MAX_PROMPT_HISTORY,
};
use verifiers::file_manager::FileManager;

#[test]
fn new_app_is_blank() {
    let app = App::new();
    assert_eq!(app.screen, Screen::Setup);
    assert_eq!(app.setup_focus, SetupFocus::Prompt);
    assert_eq!(app.scroll_focus, ScrollFocus::Log);
    assert!(app.prompt_input.is_empty());
    assert!(app.verifiers.is_empty());
    assert!(app.logs.is_empty());
    assert_eq!(app.iteration, 0);
    assert!(app.file_manager.is_none());
    assert!(!app.should_quit);
}

#[test]
fn add_verifier_trims_inputs() {
    let mut app = App::new();
    app.verifier_name_input = "  syntax \t".to_string();
    app.verifier_prompt_input = " is it ok? ".to_string();
    app.add_verifier();
    assert_eq!(app.verifiers.len(), 1);
    assert_eq!(app.verifiers[0].name, "syntax");
    assert_eq!(app.verifiers[0].prompt, "is it ok?");
    assert!(app.verifiers[0].enabled);
    assert!(app.verifier_name_input.is_empty());
    assert!(app.verifier_prompt_input.is_empty());
    assert_eq!(app.setup_focus, SetupFocus::VerifierName);
}

#[test]
fn add_verifier_ignores_blank_fields() {
    let mut app = App::new();
    app.verifier_name_input = "   ".to_string();
    app.verifier_prompt_input = "criteria".to_string();
    app.add_verifier();
    assert!(app.verifiers.is_empty());
    assert_eq!(app.verifier_name_input, "   ");
}

#[test]
fn remove_and_toggle_selected() {
    let mut app = App::new();
    for (n, p) in [("a", "ca"), ("b", "cb"), ("c", "cc")] {
        app.verifier_name_input = n.to_string();
        app.verifier_prompt_input = p.to_string();
        app.add_verifier();
    }
    app.selected_verifier = 2;
    app.remove_selected_verifier();
    assert_eq!(app.verifiers.len(), 2);
    assert_eq!(app.selected_verifier, 1);
    app.toggle_selected_verifier();
    assert!(!app.verifiers[1].enabled);
    app.toggle_selected_verifier();
    assert!(app.verifiers[1].enabled);
    app.remove_selected_verifier();
    app.remove_selected_verifier();
    assert!(app.verifiers.is_empty());
    app.remove_selected_verifier();
    assert!(app.verifiers.is_empty());
}

#[test]
fn can_start_needs_prompt_and_enabled_verifier() {
    let mut app = App::new();
    assert!(!app.can_start());
    app.prompt_input = "  do it  ".to_string();
    assert!(!app.can_start());
    app.verifier_name_input = "a".to_string();
    app.verifier_prompt_input = "c".to_string();
    app.add_verifier();
    assert!(app.can_start());
    app.selected_verifier = 0;
    app.toggle_selected_verifier();
    assert!(!app.can_start());
    app.prompt_input = " \n ".to_string();
    assert!(!app.can_start());
}

#[test]
fn start_running_builds_pending_statuses_for_enabled() {
    let mut app = App::new();
    for (n, p) in [("a", "ca"), ("b", "cb"), ("c", "cc")] {
        app.verifier_name_input = n.to_string();
        app.verifier_prompt_input = p.to_string();
        app.add_verifier();
    }
    app.selected_verifier = 1;
    app.toggle_selected_verifier();
    app.start_running(FileManager { path: "/tmp/x.txt".to_string() });
    assert_eq!(app.screen, Screen::Running);
    assert_eq!(app.file_manager.as_ref().unwrap().path, "/tmp/x.txt");
    let statuses: Vec<(String, VerifierStatus)> = app.verifier_statuses.clone();
    assert_eq!(
        statuses,
        vec![
            ("a".to_string(), VerifierStatus::Pending),
            ("c".to_string(), VerifierStatus::Pending)
        ]
    );
}

#[test]
fn runner_messages_update_state() {
    let mut app = App::new();
    app.verifier_name_input = "a".to_string();
    app.verifier_prompt_input = "c".to_string();
    app.add_verifier();
    app.start_running(FileManager { path: "/tmp/x.txt".to_string() });

    app.handle_runner_message(RunnerMessage::IterationStart(3), None);
    assert_eq!(app.iteration, 3);
    assert_eq!(app.verifier_statuses[0].1, VerifierStatus::Pending);

    app.handle_runner_message(
        RunnerMessage::VerifierStatusUpdate { index: 0, status: VerifierStatus::Passed },
        None,
    );
    assert_eq!(app.verifier_statuses[0].1, VerifierStatus::Passed);
    // out-of-range updates change nothing
    app.handle_runner_message(
        RunnerMessage::VerifierStatusUpdate { index: 5, status: VerifierStatus::Failed },
        None,
    );
    assert_eq!(app.verifier_statuses.len(), 1);

    app.handle_runner_message(RunnerMessage::IterationStart(4), None);
    assert_eq!(app.verifier_statuses[0].1, VerifierStatus::Pending);

    app.handle_runner_message(RunnerMessage::Log("hello".to_string()), None);
    assert_eq!(app.logs.last().unwrap(), "hello");
    assert_eq!(app.log_scroll, 0);

    app.handle_runner_message(
        RunnerMessage::FileUpdated,
        Some("[x] a\n\nP\n".to_string()),
    );
    assert_eq!(app.file_contents, "[x] a\n\nP\n");
    app.handle_runner_message(RunnerMessage::FileUpdated, None);
    assert_eq!(app.file_contents, "[x] a\n\nP\n");

    app.handle_runner_message(RunnerMessage::Error("oops".to_string()), None);
    assert_eq!(app.logs.last().unwrap(), "ERROR: oops");

    app.handle_runner_message(RunnerMessage::Done, None);
    assert_eq!(app.screen, Screen::Done);
    assert_eq!(app.logs.last().unwrap(), "All verifiers passed!");
}

#[test]
fn log_scroll_follows_the_tail() {
    let mut app = App::new();
    for k in 0..12 {
        app.handle_runner_message(RunnerMessage::Log(format!("line {}", k)), None);
    }
    // 12 lines: keep the last 10 visible
    assert_eq!(app.log_scroll, 2);
}

#[test]
fn edit_and_rerun_keeps_prompt() {
    let mut app = App::new();
    app.prompt_input = "task".to_string();
    app.verifier_name_input = "a".to_string();
    app.verifier_prompt_input = "c".to_string();
    app.add_verifier();
    app.start_running(FileManager { path: "/tmp/x.txt".to_string() });
    app.handle_runner_message(RunnerMessage::Log("x".to_string()), None);
    app.edit_and_rerun();
    assert_eq!(app.screen, Screen::Setup);
    assert_eq!(app.prompt_input, "task");
    assert_eq!(app.verifiers.len(), 1);
    assert!(app.logs.is_empty());
    assert!(app.file_manager.is_none());
}

#[test]
fn reset_for_new_run_clears_prompt() {
    let mut app = App::new();
    app.prompt_input = "task".to_string();
    app.reset_for_new_run();
    assert!(app.prompt_input.is_empty());
    assert_eq!(app.screen, Screen::Setup);
}

#[test]
fn prompt_history_dedups_and_caps() {
    let mut h: Vec<String> = Vec::new();
    add_to_prompt_history(&mut h, "  one  ");
    add_to_prompt_history(&mut h, "two");
    add_to_prompt_history(&mut h, "one");
    assert_eq!(h, vec!["two".to_string(), "one".to_string()]);
    add_to_prompt_history(&mut h, "   ");
    assert_eq!(h.len(), 2);
    for k in 0..60 {
        add_to_prompt_history(&mut h, &format!("p{}", k));
    }
    assert_eq!(h.len(), MAX_PROMPT_HISTORY);
    assert_eq!(h[0], "p10");
    assert_eq!(h[MAX_PROMPT_HISTORY - 1], "p59");
}
