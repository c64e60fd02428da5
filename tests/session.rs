use edit_rename::{Action, CliError, Event, RenameError, Renamer};

fn paths(items: &[&str]) -> Vec<String> {
    items.iter().map(|s| s.to_string()).collect()
}

fn io_error() -> std::io::Error {
    std::io::Error::new(std::io::ErrorKind::PermissionDenied, "denied")
}

/// Drives a renamer to its end. `answer` says yes or no to each confirmation
/// (`None`: the prompt fails); `rename_ok` says whether each rename works.
/// Returns what was reported, what was renamed, and the run's result.
struct Trace {
    reported: Vec<(String, String)>,
    asked: Vec<(String, String)>,
    renamed: Vec<(String, String)>,
    nothing: bool,
    result: Result<(), RenameError>,
}

fn drive(
    mut r: Renamer,
    answer: &dyn Fn(&str) -> Option<bool>,
    rename_ok: &dyn Fn(&str) -> bool,
) -> Trace {
    let mut t = Trace {
        reported: vec![],
        asked: vec![],
        renamed: vec![],
        nothing: false,
        result: Ok(()),
    };
    for _ in 0..1000 {
        let ev = match r.next_action() {
            Action::NothingToChange => {
                t.nothing = true;
                return t;
            }
            Action::Finished => return t,
            Action::ReportDryRun(s, d) => {
                t.reported.push((s, d));
                Event::Reported
            }
            Action::AskConfirmation(s, d) => {
                let a = answer(&s);
                t.asked.push((s, d));
                match a {
                    Some(yes) => Event::Answered(yes),
                    None => Event::PromptFailed(CliError::ReadLine(io_error())),
                }
            }
            Action::Rename(s, d) => {
                let ok = rename_ok(&s);
                if ok {
                    t.renamed.push((s, d));
                    Event::Renamed
                } else {
                    Event::RenameFailed(io_error())
                }
            }
        };
        if let Err(e) = r.advance(ev) {
            t.result = Err(e);
            assert!(matches!(r.next_action(), Action::Finished));
            return t;
        }
    }
    panic!("run did not finish");
}

fn pair(a: &str, b: &str) -> (String, String) {
    (a.to_string(), b.to_string())
}

#[test]
fn applying_renames_only_changed_entry() {
    let r = Renamer::new(
        &paths(&["a.txt", "b.txt", "c.txt"]),
        &paths(&["a.txt", "bb.txt", "c.txt"]),
        false,
        false,
    )
    .unwrap();
    let t = drive(r, &|_| Some(true), &|_| true);
    assert_eq!(t.renamed, vec![pair("b.txt", "bb.txt")]);
    assert!(t.result.is_ok());
    assert!(!t.nothing);
}

#[test]
fn mismatch_is_refused_before_any_action() {
    let r = Renamer::new(&paths(&["x", "y"]), &paths(&["x", "y", "z"]), false, false);
    assert!(matches!(r, Err(RenameError::MismatchEntries(2, 3))));
}

#[test]
fn unchanged_lists_report_nothing_to_change() {
    let r = Renamer::new(&paths(&["1", "2"]), &paths(&["1", "2"]), false, false).unwrap();
    let t = drive(r, &|_| Some(true), &|_| true);
    assert!(t.nothing);
    assert!(t.renamed.is_empty());
    assert!(t.reported.is_empty());
    assert!(t.result.is_ok());
}

#[test]
fn dry_run_reports_every_pair_and_renames_nothing() {
    let r = Renamer::new(&paths(&["a", "b", "c"]), &paths(&["A", "b", "C"]), true, true).unwrap();
    let t = drive(r, &|_| None, &|_| false);
    assert_eq!(t.reported, vec![pair("a", "A"), pair("c", "C")]);
    assert!(t.asked.is_empty());
    assert!(t.renamed.is_empty());
    assert!(t.result.is_ok());
}

#[test]
fn declining_every_rename_renames_nothing() {
    let r = Renamer::new(&paths(&["a", "b", "c"]), &paths(&["A", "B", "C"]), false, true).unwrap();
    let t = drive(r, &|_| Some(false), &|_| true);
    assert_eq!(t.asked, vec![pair("a", "A"), pair("b", "B"), pair("c", "C")]);
    assert!(t.renamed.is_empty());
    assert!(t.result.is_ok());
}

#[test]
fn confirmation_renames_only_accepted_pairs() {
    let r = Renamer::new(&paths(&["a", "b", "c"]), &paths(&["A", "B", "C"]), false, true).unwrap();
    let t = drive(r, &|s| Some(s != "b"), &|_| true);
    assert_eq!(t.asked.len(), 3);
    assert_eq!(t.renamed, vec![pair("a", "A"), pair("c", "C")]);
    assert!(t.result.is_ok());
}

#[test]
fn failed_prompt_ends_the_run() {
    let r = Renamer::new(&paths(&["a", "b"]), &paths(&["A", "B"]), false, true).unwrap();
    let t = drive(r, &|s| if s == "a" { Some(true) } else { None }, &|_| true);
    assert_eq!(t.renamed, vec![pair("a", "A")]);
    assert!(matches!(t.result, Err(RenameError::Cli(CliError::ReadLine(_)))));
}

#[test]
fn apply_all_stops_at_first_failed_rename() {
    let r = Renamer::new(
        &paths(&["a", "b", "c", "d"]),
        &paths(&["A", "B", "C", "D"]),
        false,
        false,
    )
    .unwrap();
    let t = drive(r, &|_| None, &|s| s != "b");
    assert_eq!(t.renamed, vec![pair("a", "A")]);
    match t.result {
        Err(RenameError::RenameFailure(s, d, e)) => {
            assert_eq!(s, "b");
            assert_eq!(d, "B");
            assert_eq!(e.kind(), std::io::ErrorKind::PermissionDenied);
        }
        other => panic!("unexpected result {:?}", other),
    }
}

#[test]
fn apply_all_renames_every_pair_in_order() {
    let r = Renamer::new(&paths(&["a", "b", "c"]), &paths(&["c2", "b", "a2"]), false, false).unwrap();
    let t = drive(r, &|_| None, &|_| true);
    assert_eq!(t.renamed, vec![pair("a", "c2"), pair("c", "a2")]);
    assert!(t.asked.is_empty());
    assert!(t.result.is_ok());
}

#[test]
fn unrelated_event_changes_nothing() {
    let mut r = Renamer::new(&paths(&["a"]), &paths(&["b"]), false, true).unwrap();
    assert!(matches!(r.advance(Event::Renamed), Ok(())));
    assert!(matches!(r.advance(Event::RenameFailed(io_error())), Ok(())));
    match r.next_action() {
        Action::AskConfirmation(s, d) => {
            assert_eq!(s, "a");
            assert_eq!(d, "b");
        }
        other => panic!("unexpected action {:?}", other),
    }
}

#[test]
fn finished_run_ignores_events() {
    let mut r = Renamer::new(&paths(&["a"]), &paths(&["b"]), false, false).unwrap();
    assert!(matches!(r.next_action(), Action::Rename(_, _)));
    assert!(r.advance(Event::Renamed).is_ok());
    assert!(matches!(r.next_action(), Action::Finished));
    assert!(r.advance(Event::RenameFailed(io_error())).is_ok());
    assert!(matches!(r.next_action(), Action::Finished));
}
