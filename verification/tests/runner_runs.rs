use verifiers::app::{RunnerMessage, Verifier, VerifierStatus};
use verifiers::file_manager::FileManager;
use verifiers::runner::{u32_to_string, Action, Event, Runner, MAX_ITERATIONS};

fn mk_verifier(name: &str, prompt: &str) -> Verifier {
    Verifier { name: name.to_string(), prompt: prompt.to_string(), enabled: true }
}

/// The event sequence with Log messages suppressed, as compact tags.
fn tags(msgs: &[RunnerMessage]) -> Vec<String> {
    msgs.iter()
        .filter_map(|m| match m {
            RunnerMessage::Log(_) => None,
            RunnerMessage::VerifierStatusUpdate { index, status } => {
                let s = match status {
                    VerifierStatus::Pending => "Pending",
                    VerifierStatus::Running => "Running",
                    VerifierStatus::Passed => "Passed",
                    VerifierStatus::Failed => "Failed",
                };
                Some(format!("VSU({},{})", index, s))
            }
            RunnerMessage::IterationStart(k) => Some(format!("Iter({})", k)),
            RunnerMessage::FileUpdated => Some("File".to_string()),
            RunnerMessage::Done => Some("Done".to_string()),
            RunnerMessage::Error(e) => Some(format!("Error({})", e)),
        })
        .collect()
}

#[test]
fn decimal_rendering() {
    assert_eq!(u32_to_string(0), "0");
    assert_eq!(u32_to_string(7), "7");
    assert_eq!(u32_to_string(10), "10");
    assert_eq!(u32_to_string(1234567890), "1234567890");
}

#[test]
fn worker_prompt_text() {
    let r = Runner::new("/tmp/f.txt".to_string(), "P".to_string(), vec![]);
    let (_, action) = r.start();
    let prompt = match action {
        Action::RunCli(p) => p,
        _ => panic!("expected a CLI action"),
    };
    assert_eq!(
        prompt,
        "You are a worker agent. Read the file at /tmp/f.txt and follow the instructions in it. \
         Do the work described by the prompt in the file. When you are done, append a section to \
         the file in this format:\n\n=== worker ===\n<describe what you did>\n\nImportant: Do NOT \
         modify the checkbox lines at the top of the file. Only append your work section."
    );
}

#[test]
fn verifier_prompt_text() {
    let mut r = Runner::new(
        "/tmp/f.txt".to_string(),
        "P".to_string(),
        vec![mk_verifier("syntax", "ok?")],
    );
    let _ = r.start();
    let (_, action) = r.step(Event::CliDone(Ok(String::new())));
    let prompt = match action {
        Action::RunCli(p) => p,
        _ => panic!("expected a CLI action"),
    };
    assert_eq!(
        prompt,
        "You are a verifier agent named 'syntax'. Read the file at /tmp/f.txt.\n\n\
         Your verification criteria: ok?\n\n\
         Instructions:\n\
         1. Read the file and evaluate the worker's output against your criteria.\n\
         2. If the work PASSES your verification:\n   \
         - Edit the file to change the line '[] syntax' to '[x] syntax'\n\
         3. If the work FAILS your verification:\n   \
         - Do NOT check the checkbox (leave it as '[] syntax')\n   \
         - Append a section to the file:\n     \
         === syntax ===\n     \
         <explain why it failed and what needs to be fixed>\n\n\
         Only modify YOUR checkbox line. Do not touch other verifiers' checkboxes."
    );
}

#[test]
fn single_verifier_passes_first_iteration() {
    let mut file = FileManager::initial_contents(&vec!["syntax".to_string()], "P");
    let mut r = Runner::new(
        "/tmp/f.txt".to_string(),
        "P".to_string(),
        vec![mk_verifier("syntax", "ok?")],
    );
    let mut all: Vec<RunnerMessage> = Vec::new();
    let (msgs, action) = r.start();
    all.extend(msgs);
    assert!(matches!(action, Action::RunCli(_)));
    // worker succeeds
    let (msgs, action) = r.step(Event::CliDone(Ok(String::new())));
    all.extend(msgs);
    assert!(matches!(action, Action::RunCli(_)));
    // the verifier checks its box and succeeds
    file = file.replace("[] syntax", "[x] syntax");
    let (msgs, action) = r.step(Event::CliDone(Ok(String::new())));
    all.extend(msgs);
    assert!(matches!(action, Action::ReadFile));
    let (msgs, action) = r.step(Event::ReadDone(Ok(file.clone())));
    all.extend(msgs);
    assert!(matches!(action, Action::Stop));
    assert_eq!(
        tags(&all),
        vec![
            "Iter(1)",
            "File",
            "VSU(0,Running)",
            "File",
            "VSU(0,Passed)",
            "File",
            "Done"
        ]
    );
}

#[test]
fn one_fails_then_passes_on_retry() {
    let mut r = Runner::new(
        "/tmp/f.txt".to_string(),
        "P".to_string(),
        vec![mk_verifier("a", "ca"), mk_verifier("b", "cb")],
    );
    let mut all: Vec<RunnerMessage> = Vec::new();
    let (msgs, _) = r.start();
    all.extend(msgs);
    // iteration 1: worker ok; a checked, b unchecked
    let (msgs, _) = r.step(Event::CliDone(Ok(String::new())));
    all.extend(msgs);
    let (msgs, _) = r.step(Event::CliDone(Ok(String::new())));
    all.extend(msgs);
    let it1 = "[x] a\n[] b\n\nP\n".to_string();
    let (msgs, _) = r.step(Event::ReadDone(Ok(it1.clone())));
    all.extend(msgs);
    let (msgs, _) = r.step(Event::CliDone(Ok(String::new())));
    all.extend(msgs);
    let (msgs, action) = r.step(Event::ReadDone(Ok(it1.clone())));
    all.extend(msgs);
    // not all passed: the loop wants to uncheck
    assert!(matches!(action, Action::ReadFile));
    let (msgs, action) = r.step(Event::ReadDone(Ok(it1.clone())));
    all.extend(msgs);
    let rewritten = match action {
        Action::WriteFile(c) => c,
        _ => panic!("expected a write"),
    };
    assert_eq!(rewritten, "[] a\n[] b\n\nP\n");
    let (msgs, _) = r.step(Event::WriteDone(Ok(())));
    all.extend(msgs);
    // iteration 2: worker ok; both checked
    let it2 = "[x] a\n[x] b\n\nP\n".to_string();
    let (msgs, _) = r.step(Event::CliDone(Ok(String::new())));
    all.extend(msgs);
    let (msgs, _) = r.step(Event::CliDone(Ok(String::new())));
    all.extend(msgs);
    let (msgs, _) = r.step(Event::ReadDone(Ok(it2.clone())));
    all.extend(msgs);
    let (msgs, _) = r.step(Event::CliDone(Ok(String::new())));
    all.extend(msgs);
    let (msgs, action) = r.step(Event::ReadDone(Ok(it2.clone())));
    all.extend(msgs);
    assert!(matches!(action, Action::Stop));
    assert_eq!(
        tags(&all),
        vec![
            "Iter(1)",
            "File",
            "VSU(0,Running)",
            "File",
            "VSU(0,Passed)",
            "VSU(1,Running)",
            "File",
            "VSU(1,Failed)",
            "File",
            "Iter(2)",
            "File",
            "VSU(0,Running)",
            "File",
            "VSU(0,Passed)",
            "VSU(1,Running)",
            "File",
            "VSU(1,Passed)",
            "File",
            "Done"
        ]
    );
}

#[test]
fn worker_error_is_fatal() {
    let mut r = Runner::new(
        "/tmp/f.txt".to_string(),
        "P".to_string(),
        vec![mk_verifier("a", "c")],
    );
    let mut all: Vec<RunnerMessage> = Vec::new();
    let (msgs, _) = r.start();
    all.extend(msgs);
    let (msgs, action) = r.step(Event::CliDone(Err("boom".to_string())));
    all.extend(msgs);
    assert!(matches!(action, Action::Stop));
    let t = tags(&all);
    assert_eq!(t, vec!["Iter(1)", "Error(Worker failed: boom)"]);
    // no Done, exactly one IterationStart, and no verifier status at all
    assert!(t.iter().all(|s| s != "Done"));
    assert!(!t.iter().any(|s| s.starts_with("VSU")));
}

#[test]
fn verifier_invocation_error_does_not_abort_iteration() {
    let mut r = Runner::new(
        "/tmp/f.txt".to_string(),
        "P".to_string(),
        vec![mk_verifier("a", "ca"), mk_verifier("b", "cb")],
    );
    let mut all: Vec<RunnerMessage> = Vec::new();
    let (msgs, _) = r.start();
    all.extend(msgs);
    let (msgs, _) = r.step(Event::CliDone(Ok(String::new())));
    all.extend(msgs);
    // verifier a fails to run; b passes
    let (msgs, action) = r.step(Event::CliDone(Err("no such file".to_string())));
    all.extend(msgs);
    assert!(matches!(action, Action::RunCli(_)));
    let with_b = "[] a\n[x] b\n\nP\n".to_string();
    let (msgs, _) = r.step(Event::CliDone(Ok(String::new())));
    all.extend(msgs);
    let (msgs, action) = r.step(Event::ReadDone(Ok(with_b)));
    all.extend(msgs);
    // a failed, so the loop retries
    assert!(matches!(action, Action::ReadFile));
    assert_eq!(
        tags(&all),
        vec![
            "Iter(1)",
            "File",
            "VSU(0,Running)",
            "Error(Verifier 'a' failed to run: no such file)",
            "VSU(0,Failed)",
            "VSU(1,Running)",
            "File",
            "VSU(1,Passed)"
        ]
    );
}

#[test]
fn iteration_cap_is_reported() {
    let file = FileManager::initial_contents(&vec!["a".to_string()], "P");
    let mut r = Runner::new(
        "/tmp/f.txt".to_string(),
        "P".to_string(),
        vec![mk_verifier("a", "c")],
    );
    let mut all: Vec<RunnerMessage> = Vec::new();
    let (msgs, mut action) = r.start();
    all.extend(msgs);
    let mut steps = 0;
    loop {
        let ev = match action {
            Action::RunCli(_) => Event::CliDone(Ok(String::new())),
            Action::ReadFile => Event::ReadDone(Ok(file.clone())),
            Action::WriteFile(_) => Event::WriteDone(Ok(())),
            Action::Stop => break,
        };
        let (msgs, next) = r.step(ev);
        all.extend(msgs);
        action = next;
        steps += 1;
        assert!(steps < 1000, "the runner must stop at the cap");
    }
    let iter_starts = all
        .iter()
        .filter(|m| matches!(m, RunnerMessage::IterationStart(_)))
        .count();
    assert_eq!(iter_starts, MAX_ITERATIONS as usize);
    match all.last() {
        Some(RunnerMessage::Error(e)) => {
            assert_eq!(e, "Reached maximum iterations (10). Stopping.")
        }
        other => panic!("expected the cap error, got {:?}", other),
    }
    let dones = all.iter().filter(|m| matches!(m, RunnerMessage::Done)).count();
    assert_eq!(dones, 0);
}

#[test]
fn parse_error_marks_verifier_failed() {
    let mut r = Runner::new(
        "/tmp/f.txt".to_string(),
        "P".to_string(),
        vec![mk_verifier("a", "c")],
    );
    let (_, _) = r.start();
    let (_, _) = r.step(Event::CliDone(Ok(String::new())));
    let (_, _) = r.step(Event::CliDone(Ok(String::new())));
    let (msgs, action) = r.step(Event::ReadDone(Err("io oops".to_string())));
    assert!(matches!(action, Action::ReadFile));
    let t = tags(&msgs);
    assert_eq!(
        t,
        vec!["Error(Failed to parse checkboxes: io oops)", "VSU(0,Failed)"]
    );
}

#[test]
fn uncheck_write_error_is_fatal() {
    let file = FileManager::initial_contents(&vec!["a".to_string()], "P");
    let mut r = Runner::new(
        "/tmp/f.txt".to_string(),
        "P".to_string(),
        vec![mk_verifier("a", "c")],
    );
    let (_, _) = r.start();
    let (_, _) = r.step(Event::CliDone(Ok(String::new())));
    let (_, _) = r.step(Event::CliDone(Ok(String::new())));
    let (_, action) = r.step(Event::ReadDone(Ok(file.clone())));
    assert!(matches!(action, Action::ReadFile));
    let (_, action) = r.step(Event::ReadDone(Ok(file.clone())));
    assert!(matches!(action, Action::WriteFile(_)));
    let (msgs, action) = r.step(Event::WriteDone(Err("disk full".to_string())));
    assert!(matches!(action, Action::Stop));
    assert_eq!(tags(&msgs), vec!["Error(Failed to uncheck boxes: disk full)"]);
}

#[test]
fn no_verifiers_means_immediate_success() {
    let mut r = Runner::new("/tmp/f.txt".to_string(), "P".to_string(), vec![]);
    let mut all: Vec<RunnerMessage> = Vec::new();
    let (msgs, _) = r.start();
    all.extend(msgs);
    let (msgs, action) = r.step(Event::CliDone(Ok(String::new())));
    all.extend(msgs);
    assert!(matches!(action, Action::Stop));
    assert_eq!(tags(&all), vec!["Iter(1)", "File", "File", "Done"]);
}
