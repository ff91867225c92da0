use repo_archiver::catalog::Repo;
use repo_archiver::keys::Key;
use repo_archiver::session::{App, ArchiveEvent, BatchItem, Choice, Command, Mode, RepoStatus, RowMark};
use repo_archiver::worker::{Job, JobOutcome, Worker};

fn repos(n: usize) -> Vec<Repo> {
    (0..n)
        .map(|i| Repo {
            name: format!("repo{i}"),
            created_at: "2015-01-01T00:00:00Z".to_string(),
            pushed_at: "2016-01-01T00:00:00Z".to_string(),
            description: Some(format!("number {i}")),
        })
        .collect()
}

fn start(app: &mut App) -> Vec<BatchItem> {
    assert_eq!(app.handle_key(Key::Enter), Command::Continue);
    assert_eq!(app.mode, Mode::Confirming);
    match app.handle_key(Key::Enter) {
        Command::Start(b) => b,
        other => panic!("expected a start, got {other:?}"),
    }
}

fn run(app: &mut App, worker: &mut Worker, outcome: impl Fn(usize, &Job) -> JobOutcome) -> Vec<Job> {
    let mut jobs = Vec::new();
    while let Some(job) = worker.next_job() {
        app.apply_event(worker.start_event());
        let o = outcome(worker.done, &job);
        jobs.push(job);
        let ev = worker.finish(o);
        app.apply_event(ev);
    }
    jobs
}

#[test]
fn new_session_state() {
    let app = App::new(repos(3), false);
    assert_eq!(app.cursor, Some(0));
    assert_eq!(app.mode, Mode::Browsing);
    assert_eq!(app.choice, Choice::Proceed);
    assert!(app.statuses.iter().all(|s| *s == RepoStatus::Idle));
    assert_eq!(app.selected_count(), 0);
    let empty = App::new(Vec::new(), true);
    assert_eq!(empty.cursor, None);
}

#[test]
fn cursor_wraps() {
    let mut app = App::new(repos(3), false);
    app.previous();
    assert_eq!(app.cursor, Some(2));
    app.next();
    assert_eq!(app.cursor, Some(0));
    app.handle_key(Key::Char('j'));
    assert_eq!(app.cursor, Some(1));
    app.handle_key(Key::Up);
    assert_eq!(app.cursor, Some(0));
    let mut empty = App::new(Vec::new(), false);
    empty.next();
    empty.previous();
    empty.toggle_selection();
    assert_eq!(empty.cursor, None);
}

#[test]
fn confirmation_needs_a_selection() {
    let mut app = App::new(repos(2), false);
    assert_eq!(app.handle_key(Key::Enter), Command::Continue);
    assert_eq!(app.mode, Mode::Browsing);
    app.handle_key(Key::Char(' '));
    app.handle_key(Key::Char(' '));
    assert_eq!(app.selected_count(), 0);
    app.handle_key(Key::Enter);
    assert_eq!(app.mode, Mode::Browsing);
    app.handle_key(Key::Tab);
    assert_eq!(app.selected_count(), 1);
    app.handle_key(Key::Enter);
    assert_eq!(app.mode, Mode::Confirming);
}

#[test]
fn confirmation_choices() {
    let mut app = App::new(repos(2), false);
    app.handle_key(Key::Char(' '));
    app.handle_key(Key::Enter);
    app.handle_key(Key::Char('h'));
    assert_eq!(app.choice, Choice::Cancel);
    app.handle_key(Key::Tab);
    assert_eq!(app.choice, Choice::Proceed);
    app.handle_key(Key::Left);
    assert_eq!(app.handle_key(Key::Enter), Command::Continue);
    assert_eq!(app.mode, Mode::Browsing);
    app.handle_key(Key::Enter);
    assert_eq!(app.handle_key(Key::Char('n')), Command::Continue);
    assert_eq!(app.mode, Mode::Browsing);
    app.handle_key(Key::Enter);
    app.handle_key(Key::Esc);
    assert_eq!(app.mode, Mode::Browsing);
    assert!(app.statuses.iter().all(|s| *s == RepoStatus::Idle));
}

#[test]
fn proceeding_marks_selection_pending() {
    let mut app = App::new(repos(4), false);
    app.handle_key(Key::Char(' '));
    app.next();
    app.next();
    app.handle_key(Key::Char(' '));
    app.handle_key(Key::Enter);
    let cmd = app.handle_key(Key::Char('y'));
    let expected = vec![
        BatchItem { index: 0, name: "repo0".to_string() },
        BatchItem { index: 2, name: "repo2".to_string() },
    ];
    assert_eq!(cmd, Command::Start(expected));
    assert_eq!(app.mode, Mode::Executing);
    assert_eq!(app.statuses[0], RepoStatus::Pending);
    assert_eq!(app.statuses[1], RepoStatus::Idle);
    assert_eq!(app.statuses[2], RepoStatus::Pending);
    assert_eq!(app.statuses[3], RepoStatus::Idle);
    assert_eq!(app.batch().len(), 2);
}

#[test]
fn executing_keys() {
    let mut app = App::new(repos(2), false);
    app.handle_key(Key::Char(' '));
    start(&mut app);
    assert_eq!(app.handle_key(Key::Char(' ')), Command::Continue);
    assert_eq!(app.selected_count(), 1);
    app.handle_key(Key::Down);
    assert_eq!(app.cursor, Some(1));
    assert_eq!(app.handle_key(Key::Esc), Command::Continue);
    assert_eq!(app.handle_key(Key::Char('q')), Command::Quit);
}

#[test]
fn finished_once_all_terminal() {
    let mut app = App::new(repos(3), false);
    app.handle_key(Key::Char(' '));
    app.next();
    app.handle_key(Key::Char(' '));
    start(&mut app);
    app.apply_event(ArchiveEvent::Started(0));
    assert_eq!(app.statuses[0], RepoStatus::InProgress);
    app.apply_event(ArchiveEvent::Completed(0));
    assert_eq!(app.mode, Mode::Executing);
    assert!(!app.is_all_done());
    app.apply_event(ArchiveEvent::Started(1));
    app.apply_event(ArchiveEvent::Failed(1, "boom".to_string()));
    assert!(app.is_all_done());
    assert_eq!(app.mode, Mode::Finished);
    assert_eq!(app.finished_count(), 2);
    assert_eq!(app.handle_key(Key::Char('x')), Command::Continue);
    assert_eq!(app.handle_key(Key::Enter), Command::Quit);
}

#[test]
fn events_outside_the_catalog_are_ignored() {
    let mut app = App::new(repos(1), false);
    app.handle_key(Key::Char(' '));
    start(&mut app);
    app.apply_event(ArchiveEvent::Completed(7));
    assert_eq!(app.statuses[0], RepoStatus::Pending);
    assert_eq!(app.mode, Mode::Executing);
}

#[test]
fn spinner_advances_after_interval() {
    let mut app = App::new(repos(1), false);
    assert_eq!(app.spinner(), "⠋");
    assert!(!app.tick_spinner(79));
    assert_eq!(app.spinner_tick, 0);
    assert!(app.tick_spinner(80));
    assert_eq!(app.spinner(), "⠙");
    for _ in 0..9 {
        app.tick_spinner(100);
    }
    assert_eq!(app.spinner_tick, 0);
    assert_eq!(app.spinner(), "⠋");
}

#[test]
fn dry_run_scenario() {
    let mut app = App::new(repos(2), true);
    app.handle_key(Key::Char(' '));
    app.next();
    app.handle_key(Key::Char(' '));
    let batch = start(&mut app);
    let mut worker = Worker::new(batch, app.dry_run);
    let jobs = run(&mut app, &mut worker, |_, _| JobOutcome::Failure("must not be used".to_string()));
    assert_eq!(jobs, vec![Job::Simulate(0), Job::Simulate(1)]);
    assert_eq!(app.statuses[0], RepoStatus::Succeeded);
    assert_eq!(app.statuses[1], RepoStatus::Succeeded);
    assert_eq!(app.mode, Mode::Finished);
}

#[test]
fn live_failure_scenario() {
    let mut app = App::new(repos(3), false);
    for _ in 0..3 {
        app.handle_key(Key::Char(' '));
        app.handle_key(Key::Down);
    }
    let batch = start(&mut app);
    let mut worker = Worker::new(batch, app.dry_run);
    let jobs = run(&mut app, &mut worker, |done, _| {
        if done == 1 {
            JobOutcome::Failure("rate limited".to_string())
        } else {
            JobOutcome::Success
        }
    });
    assert_eq!(
        jobs,
        vec![
            Job::Archive(0, "repo0".to_string()),
            Job::Archive(1, "repo1".to_string()),
            Job::Archive(2, "repo2".to_string()),
        ]
    );
    assert_eq!(app.statuses[0], RepoStatus::Succeeded);
    assert_eq!(app.statuses[1], RepoStatus::Failed("rate limited".to_string()));
    assert_eq!(app.statuses[2], RepoStatus::Succeeded);
    assert_eq!(app.mode, Mode::Finished);
}

#[test]
fn worker_reports_in_order() {
    let batch = vec![
        BatchItem { index: 4, name: "a".to_string() },
        BatchItem { index: 1, name: "b".to_string() },
    ];
    let mut w = Worker::new(batch, false);
    assert_eq!(w.start_event(), ArchiveEvent::Started(4));
    assert_eq!(w.finish(JobOutcome::Failure("x".to_string())), ArchiveEvent::Failed(4, "x".to_string()));
    assert_eq!(w.start_event(), ArchiveEvent::Started(1));
    assert_eq!(w.finish(JobOutcome::Success), ArchiveEvent::Completed(1));
    assert_eq!(w.next_job(), None);
}

#[test]
fn statuses_never_move_backwards() {
    let mut app = App::new(repos(2), false);
    app.handle_key(Key::Char(' '));
    start(&mut app);
    app.apply_event(ArchiveEvent::Started(0));
    app.apply_event(ArchiveEvent::Failed(0, "denied".to_string()));
    assert_eq!(app.mode, Mode::Finished);
    app.apply_event(ArchiveEvent::Started(0));
    app.apply_event(ArchiveEvent::Completed(0));
    assert_eq!(app.statuses[0], RepoStatus::Failed("denied".to_string()));
}

#[test]
fn events_before_execution_are_ignored() {
    let mut app = App::new(repos(2), false);
    app.handle_key(Key::Char(' '));
    app.apply_event(ArchiveEvent::Started(0));
    assert_eq!(app.statuses[0], RepoStatus::Idle);
    assert_eq!(app.mode, Mode::Browsing);
}

#[test]
fn reopened_dialog_highlights_proceed() {
    let mut app = App::new(repos(2), false);
    app.handle_key(Key::Char(' '));
    app.handle_key(Key::Enter);
    assert_eq!(app.choice, Choice::Proceed);
    app.handle_key(Key::Left);
    assert_eq!(app.choice, Choice::Cancel);
    app.handle_key(Key::Esc);
    assert_eq!(app.mode, Mode::Browsing);
    app.handle_key(Key::Enter);
    assert_eq!(app.mode, Mode::Confirming);
    assert_eq!(app.choice, Choice::Proceed);
}

#[test]
fn row_marks_follow_status_and_selection() {
    let mut app = App::new(repos(3), false);
    app.handle_key(Key::Char(' '));
    assert_eq!(app.row_mark(0), RowMark::Chosen);
    assert_eq!(app.row_mark(1), RowMark::Blank);
    app.next();
    app.handle_key(Key::Char(' '));
    start(&mut app);
    assert_eq!(app.row_mark(0), RowMark::Waiting);
    assert_eq!(app.row_mark(2), RowMark::Blank);
    app.apply_event(ArchiveEvent::Started(0));
    assert_eq!(app.row_mark(0), RowMark::Working);
    app.apply_event(ArchiveEvent::Completed(0));
    app.apply_event(ArchiveEvent::Failed(1, "no".to_string()));
    assert_eq!(app.row_mark(0), RowMark::Done);
    assert_eq!(app.row_mark(1), RowMark::Failed);
}
