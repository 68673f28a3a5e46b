use preset::runner::{start_run, Action, Event, Notice, PresetRun, RunConfig, RunPhase};
use preset::store::{PresetStore, StoreError};

struct Trace {
    executed: Vec<String>,
    prompts: Vec<String>,
    notices: Vec<Notice>,
    exit: i32,
}

/// Drives a run: each executed command succeeds unless its line is "false";
/// each prompt is answered with the next of `answers`.
fn drive(commands: &[&str], config: RunConfig, answers: &[&str]) -> (Trace, PresetRun) {
    let mut run = PresetRun::new(commands.iter().map(|c| c.to_string()).collect(), config);
    let mut trace = Trace { executed: vec![], prompts: vec![], notices: vec![], exit: -1 };
    let mut answers = answers.iter();
    let mut event = Event::Proceed;
    for _ in 0..1000 {
        let step = run.step(event);
        trace.notices.extend(step.notices);
        event = match step.action {
            Action::Prompt(original) => {
                trace.prompts.push(original);
                Event::Value(answers.next().expect("an answer").to_string())
            }
            Action::Execute(cmd) => {
                let ok = cmd != "false";
                trace.executed.push(cmd);
                Event::Exited(ok)
            }
            Action::Continue => Event::Proceed,
            Action::Finish(code) => {
                trace.exit = code;
                return (trace, run);
            }
            Action::Ignored => panic!("event ignored"),
        };
    }
    panic!("run did not finish");
}

fn default_config() -> RunConfig {
    RunConfig { skip_errors: false, no_message: false, dry_run: false }
}

#[test]
fn run_two_successes() {
    let (t, run) = drive(&["echo a", "echo b"], default_config(), &[]);
    assert_eq!(t.executed, vec!["echo a", "echo b"]);
    assert_eq!(t.exit, 0);
    let o = run.outcome();
    assert_eq!((o.succeeded, o.failed, o.total), (2, 0, 2));
    let summaries: Vec<&Notice> =
        t.notices.iter().filter(|n| matches!(n, Notice::Completed { .. })).collect();
    assert_eq!(summaries.len(), 1);
    assert!(matches!(summaries[0], Notice::Completed { succeeded: 2, failed: 0 }));
    assert!(matches!(&t.notices[0], Notice::Executing(c) if c == "echo a"));
}

#[test]
fn run_stops_at_first_failure() {
    let (t, run) = drive(&["false", "echo b"], default_config(), &[]);
    assert_eq!(t.executed, vec!["false"]);
    assert_eq!(t.exit, 1);
    assert_eq!(run.phase(), RunPhase::Done(1));
    assert!(matches!(t.notices[1], Notice::Stopping));
    assert!(matches!(t.notices[2], Notice::PartialSummary { succeeded: 0, failed: 1 }));
    assert_eq!(t.notices.len(), 3);
}

#[test]
fn run_with_skip_errors_goes_on() {
    let config = RunConfig { skip_errors: true, ..default_config() };
    let (t, run) = drive(&["false", "echo b"], config, &[]);
    assert_eq!(t.executed, vec!["false", "echo b"]);
    assert_eq!(t.exit, 0);
    assert!(matches!(t.notices[1], Notice::Skipping));
    assert!(matches!(t.notices.last().unwrap(), Notice::Completed { succeeded: 1, failed: 1 }));
    let o = run.outcome();
    assert_eq!((o.succeeded, o.failed), (1, 1));
}

#[test]
fn run_fills_placeholder_from_input() {
    let (t, _) = drive(&["echo hi {}"], default_config(), &["there\n"]);
    assert_eq!(t.prompts, vec!["echo hi {}"]);
    assert_eq!(t.executed, vec!["echo hi there"]);
}

#[test]
fn run_prompts_once_per_placeholder() {
    let (t, _) = drive(&["cp {} {}"], default_config(), &["a", " b "]);
    assert_eq!(t.prompts, vec!["cp {} {}", "cp {} {}"]);
    assert_eq!(t.executed, vec!["cp a b"]);
}

#[test]
fn dry_run_spawns_nothing_and_counts_nothing() {
    let config = RunConfig { dry_run: true, ..default_config() };
    let (t, run) = drive(&["false", "echo {}"], config, &["x"]);
    assert!(t.executed.is_empty());
    assert_eq!(t.exit, 0);
    let o = run.outcome();
    assert_eq!((o.succeeded, o.failed), (0, 0));
    assert_eq!(t.notices.len(), 2);
    assert!(matches!(&t.notices[0], Notice::WouldExecute(c) if c == "false"));
    assert!(matches!(&t.notices[1], Notice::WouldExecute(c) if c == "echo x"));
}

#[test]
fn no_message_shows_nothing() {
    let config = RunConfig { no_message: true, skip_errors: true, dry_run: false };
    let (t, _) = drive(&["false", "echo b"], config, &[]);
    assert!(t.notices.is_empty());
    assert_eq!(t.executed.len(), 2);
    let strict = RunConfig { no_message: true, ..default_config() };
    let (t, _) = drive(&["false", "echo b"], strict, &[]);
    assert_eq!(t.exit, 1);
    assert_eq!(t.executed, vec!["false"]);
}

#[test]
fn empty_list_is_a_silent_no_op() {
    let (t, _) = drive(&[], default_config(), &[]);
    assert!(t.notices.is_empty());
    assert!(t.executed.is_empty());
    assert_eq!(t.exit, 0);
}

#[test]
fn unexpected_event_is_ignored() {
    let mut run = PresetRun::new(vec!["ls".to_string()], default_config());
    assert!(matches!(run.step(Event::Exited(true)).action, Action::Ignored));
    assert!(matches!(run.step(Event::Proceed).action, Action::Execute(_)));
    assert!(matches!(run.step(Event::Proceed).action, Action::Ignored));
    assert!(matches!(run.step(Event::Exited(true)).action, Action::Continue));
    assert!(matches!(run.step(Event::Proceed).action, Action::Finish(0)));
    assert!(matches!(run.step(Event::Proceed).action, Action::Finish(0)));
}

#[test]
fn start_run_needs_existing_preset() {
    let mut store = PresetStore::new();
    store.create("p").unwrap();
    store.append("p", "echo a").unwrap();
    assert!(matches!(start_run(&store, "q", default_config()), Err(StoreError::PresetNotFound)));
    let run = start_run(&store, "p", default_config()).unwrap();
    assert_eq!(run.outcome().total, 1);
}
