use derpisync::error::GeneralError;
use derpisync::fetch::{
    backoff, find_image_tags, remaining_delay, Image, Lookup, LookupAction, LookupError, LookupEvent,
    RateLimiter, TagSearch,
    DEFAULT_BACKOFF_NANOS, NOT_IMPLEMENTED_BACKOFF_NANOS, REQUEST_SPACING_NANOS,
};
use derpisync::ident::{id_from_file_name, id_from_filepath};
use derpisync::index::Index;
use derpisync::session::{Report, Session, SessionAction, SessionEvent};
use derpisync::tmsu::{next_probe, probe_args, probe_verdict, tag_args, tag_verdict, Probe, TmsuError};

fn strings(v: &[&str]) -> Vec<String> {
    v.iter().map(|s| s.to_string()).collect()
}

fn index_of(paths: &[&str]) -> Index {
    let mut ix = Index::new();
    for p in paths {
        ix.insert(p.to_string());
    }
    ix
}

#[test]
fn identifier_before_double_underscore() {
    assert_eq!(id_from_file_name("1234__extra.png"), Some(1234));
    assert_eq!(id_from_filepath("1234__extra.png"), Some(1234));
}

#[test]
fn identifier_before_dot() {
    assert_eq!(id_from_file_name("5678.jpg"), Some(5678));
    assert_eq!(id_from_filepath("/home/me/pics/5678.jpg"), Some(5678));
}

#[test]
fn non_numeric_name_has_no_identifier() {
    assert_eq!(id_from_file_name("abc.png"), None);
    assert_eq!(id_from_filepath("dir/abc.png"), None);
}

#[test]
fn identifier_edge_cases() {
    assert_eq!(id_from_file_name(".png"), None);
    assert_eq!(id_from_file_name("99999999999999999999.png"), None);
    assert_eq!(id_from_file_name("18446744073709551615.png"), Some(u64::MAX));
    assert_eq!(id_from_file_name("12.34__a.png"), None);
    assert_eq!(id_from_file_name("42"), Some(42));
    assert_eq!(id_from_file_name("7__8__9.png"), Some(7));
    assert_eq!(id_from_filepath("dir/1234__x.png/"), Some(1234));
    assert_eq!(id_from_filepath(""), None);
    assert_eq!(id_from_filepath("/"), None);
    assert_eq!(id_from_filepath("pics/.."), None);
}

#[test]
fn index_insert_and_contains() {
    let mut ix = Index::new();
    assert!(!ix.contains("a"));
    ix.insert("b".to_string());
    ix.insert("a".to_string());
    ix.insert("b".to_string());
    assert!(ix.contains("a"));
    assert!(ix.contains("b"));
    assert!(!ix.contains("c"));
    assert_eq!(ix.len(), 2);
}

#[test]
fn index_text_is_sorted_one_per_line() {
    let ix = index_of(&["pics/b.png", "pics/a.png", "Z.png"]);
    assert_eq!(ix.to_text(), "Z.png\npics/a.png\npics/b.png\n");
    assert_eq!(Index::new().to_text(), "");
}

#[test]
fn index_round_trip() {
    let ix = index_of(&["x/2.png", "x/1.png", "", "ü/3.png"]);
    let back = Index::from_text(&ix.to_text());
    assert_eq!(back.to_text(), ix.to_text());
    assert_eq!(back.len(), 4);
    assert!(back.contains("ü/3.png"));
    assert!(back.contains(""));
}

#[test]
fn index_reads_crlf_and_unterminated_lines() {
    let ix = Index::from_text("b\r\na\nc");
    assert_eq!(ix.to_text(), "a\nb\nc\n");
    let empty = Index::from_text("");
    assert_eq!(empty.len(), 0);
}

#[test]
fn delay_until_next_request() {
    assert_eq!(remaining_delay(0, 0), REQUEST_SPACING_NANOS);
    assert_eq!(remaining_delay(1_000, 1_000 + 111_111_111), 1_000_000_000);
    assert_eq!(remaining_delay(0, REQUEST_SPACING_NANOS), 0);
    assert_eq!(remaining_delay(0, 5_000_000_000), 0);
    assert_eq!(remaining_delay(10, 5), REQUEST_SPACING_NANOS);
}

#[test]
fn backoff_by_status_class() {
    assert_eq!(backoff(200), None);
    assert_eq!(backoff(204), None);
    assert_eq!(backoff(501), Some(6_000_000_000));
    assert_eq!(backoff(500), Some(1_000_000_000));
    assert_eq!(backoff(404), Some(1_000_000_000));
    assert_eq!(backoff(301), Some(1_000_000_000));
}

/// Drives a lookup against scripted answers, with a clock that only moves
/// when the lookup asks to sleep. Returns the outcome, the sleeps, and the
/// ids and clock readings of the requests.
fn run_lookup(
    id: u64,
    limiter: &mut RateLimiter,
    clock: &mut u64,
    mut answers: Vec<Result<(u16, Option<Image>), ()>>,
) -> (Result<Option<Vec<String>>, LookupError>, Vec<u64>, Vec<(u64, u64)>) {
    answers.reverse();
    let mut lookup = Lookup::new(id);
    let mut sleeps = Vec::new();
    let mut gets = Vec::new();
    let mut pending_body: Option<Image> = None;
    let mut act = lookup.step(limiter, LookupEvent::Clock(*clock));
    loop {
        act = match act {
            LookupAction::Pace => lookup.step(limiter, LookupEvent::Clock(*clock)),
            LookupAction::Sleep(d) => {
                sleeps.push(d);
                *clock += d;
                lookup.step(limiter, LookupEvent::Clock(*clock))
            }
            LookupAction::Get(i) => {
                gets.push((i, *clock));
                match answers.pop().expect("no scripted answer left") {
                    Ok((status, body)) => {
                        pending_body = body;
                        lookup.step(limiter, LookupEvent::Status(status))
                    }
                    Err(()) => {
                        let e = serde_json::from_str::<u64>("x").unwrap_err();
                        lookup.step(limiter, LookupEvent::Failed(GeneralError::Serde(e)))
                    }
                }
            }
            LookupAction::ReadBody => {
                let body = pending_body.take().expect("body");
                lookup.step(limiter, LookupEvent::Body(Ok(body)))
            }
            LookupAction::Done(outcome) => return (outcome, sleeps, gets),
        }
    }
}

fn image(dup: Option<u64>, tags: Option<&[&str]>) -> Option<Image> {
    Some(Image { duplicate_of: dup, tags: tags.map(strings) })
}

#[test]
fn retry_until_success() {
    let mut limiter = RateLimiter::new(0);
    let mut clock = 0;
    let answers = vec![
        Ok((500, None)),
        Ok((501, None)),
        Ok((503, None)),
        Ok((200, image(None, Some(&["safe"])))),
    ];
    let (outcome, sleeps, gets) = run_lookup(7, &mut limiter, &mut clock, answers);
    assert_eq!(outcome.unwrap(), Some(strings(&["safe"])));
    assert_eq!(gets.len(), 4);
    assert!(gets.iter().all(|g| g.0 == 7));
    let backoffs: Vec<u64> = sleeps
        .iter()
        .copied()
        .filter(|d| *d == DEFAULT_BACKOFF_NANOS || *d == NOT_IMPLEMENTED_BACKOFF_NANOS)
        .collect();
    assert_eq!(
        backoffs,
        vec![DEFAULT_BACKOFF_NANOS, NOT_IMPLEMENTED_BACKOFF_NANOS, DEFAULT_BACKOFF_NANOS]
    );
    for w in gets.windows(2) {
        assert!(w[1].1 - w[0].1 >= REQUEST_SPACING_NANOS);
    }
}

#[test]
fn duplicate_resolves_to_origin_tags() {
    let mut limiter = RateLimiter::new(0);
    let mut clock = 0;
    let answers = vec![
        Ok((200, image(Some(2), None))),
        Ok((200, image(None, Some(&["safe", "cute"])))),
    ];
    let (outcome, _, gets) = run_lookup(1, &mut limiter, &mut clock, answers);
    assert_eq!(outcome.unwrap(), Some(strings(&["safe", "cute"])));
    assert_eq!(gets.iter().map(|g| g.0).collect::<Vec<_>>(), vec![1, 2]);
    assert!(gets[1].1 - gets[0].1 >= REQUEST_SPACING_NANOS);
}

#[test]
fn duplicate_without_tags_is_unavailable() {
    let mut limiter = RateLimiter::new(0);
    let mut clock = 0;
    let answers = vec![Ok((200, image(Some(2), None))), Ok((200, image(None, None)))];
    let (outcome, _, _) = run_lookup(1, &mut limiter, &mut clock, answers);
    assert_eq!(outcome.unwrap(), None);
}

#[test]
fn tags_take_precedence_over_reference() {
    let mut limiter = RateLimiter::new(0);
    let mut clock = 0;
    let answers = vec![Ok((200, image(Some(9), Some(&["a", "a"]))))];
    let (outcome, _, gets) = run_lookup(1, &mut limiter, &mut clock, answers);
    assert_eq!(outcome.unwrap(), Some(strings(&["a", "a"])));
    assert_eq!(gets.len(), 1);
}

#[test]
fn transport_failure_ends_lookup() {
    let mut limiter = RateLimiter::new(0);
    let mut clock = 0;
    let (outcome, _, gets) = run_lookup(1, &mut limiter, &mut clock, vec![Err(())]);
    assert!(matches!(outcome, Err(LookupError::Fetch(GeneralError::Serde(_)))));
    assert_eq!(gets.len(), 1);
}

#[test]
fn consecutive_fetches_are_spaced() {
    let mut limiter = RateLimiter::new(0);
    let mut clock = 0;
    let mut all_gets = Vec::new();
    for id in 1..=5 {
        let answers = vec![Ok((200, image(None, Some(&["t"]))))];
        let (_, _, gets) = run_lookup(id, &mut limiter, &mut clock, answers);
        all_gets.extend(gets);
    }
    let n = all_gets.len() as u64;
    assert_eq!(n, 5);
    assert!(all_gets[4].1 - all_gets[0].1 >= (n - 1) * REQUEST_SPACING_NANOS);
    assert_eq!(limiter.last_issue, all_gets[4].1);
}

#[test]
fn malformed_body_ends_lookup() {
    let mut limiter = RateLimiter::new(0);
    let mut lookup = Lookup::new(3);
    let act = lookup.step(&mut limiter, LookupEvent::Clock(REQUEST_SPACING_NANOS));
    assert!(matches!(act, LookupAction::Get(3)));
    let act = lookup.step(&mut limiter, LookupEvent::Status(200));
    assert!(matches!(act, LookupAction::ReadBody));
    let e = serde_json::from_str::<u64>("{").unwrap_err();
    let act = lookup.step(&mut limiter, LookupEvent::Body(Err(GeneralError::Serde(e))));
    assert!(matches!(act, LookupAction::Done(Err(LookupError::Fetch(GeneralError::Serde(_))))));
    assert!(!lookup.accepts(&LookupEvent::Clock(0)));
}

#[test]
fn indexed_path_gets_no_work() {
    let session = Session::new(index_of(&["pics/1.png"]));
    let (session, act) = session.step(SessionEvent::Poll(false));
    assert!(matches!(act, SessionAction::ReadLine));
    let (session, act) = session.step(SessionEvent::Line("pics/1.png\n".to_string()));
    match act {
        SessionAction::Poll(Some(Report::AlreadyDone(p))) => assert_eq!(p, "pics/1.png"),
        _ => panic!("an indexed path must not be fetched or tagged"),
    }
    assert_eq!(session.into_index().len(), 1);
}

#[test]
fn cancellation_stops_reading() {
    let session = Session::new(Index::new());
    let (session, act) = session.step(SessionEvent::Poll(false));
    assert!(matches!(act, SessionAction::ReadLine));
    let (session, act) = session.step(SessionEvent::Line("12.png".to_string()));
    assert!(matches!(act, SessionAction::Resolve(12)));
    let (session, act) =
        session.step(SessionEvent::Resolved(Ok(Some(strings(&["safe"])))));
    match act {
        SessionAction::Tag(p, t) => {
            assert_eq!(p, "12.png");
            assert_eq!(t, strings(&["safe"]));
        }
        _ => panic!("expected tagging"),
    }
    let (session, act) = session.step(SessionEvent::Tagged(Ok(())));
    assert!(matches!(act, SessionAction::Poll(Some(Report::Tagged(_)))));
    let (session, act) = session.step(SessionEvent::Poll(true));
    assert!(matches!(act, SessionAction::Save));
    assert!(!session.accepts(&SessionEvent::Line("13.png".to_string())));
    let ix = session.into_index();
    assert!(ix.contains("12.png"));
}

#[test]
fn session_bookkeeping() {
    let session = Session::new(Index::new());
    let (session, _) = session.step(SessionEvent::Poll(false));
    let (session, act) = session.step(SessionEvent::Line("notes.txt".to_string()));
    assert!(matches!(act, SessionAction::Poll(Some(Report::NotAnImage(_)))));
    let (session, _) = session.step(SessionEvent::Poll(false));
    let (session, _) = session.step(SessionEvent::Line("5.png".to_string()));
    let (session, act) = session.step(SessionEvent::Resolved(Ok(None)));
    assert!(matches!(act, SessionAction::Poll(Some(Report::Unavailable(_)))));
    let (session, _) = session.step(SessionEvent::Poll(false));
    let (session, _) = session.step(SessionEvent::Line("6.png".to_string()));
    let e = serde_json::from_str::<u64>("?").unwrap_err();
    let (session, act) = session.step(SessionEvent::Resolved(Err(LookupError::Fetch(GeneralError::Serde(e)))));
    assert!(matches!(act, SessionAction::Poll(Some(Report::FetchFailed(_, _)))));
    let (session, _) = session.step(SessionEvent::Poll(false));
    let (session, _) = session.step(SessionEvent::Line("7.png".to_string()));
    let (session, _) = session.step(SessionEvent::Resolved(Ok(Some(strings(&["x"])))));
    let (session, act) = session.step(SessionEvent::Tagged(Err(TmsuError::TaggingErr)));
    assert!(matches!(
        act,
        SessionAction::Poll(Some(Report::TagFailed(_, TmsuError::TaggingErr)))
    ));
    let (session, _) = session.step(SessionEvent::Poll(false));
    let (session, act) = session.step(SessionEvent::EndOfInput);
    assert!(matches!(act, SessionAction::Save));
    let ix = session.into_index();
    assert_eq!(ix.to_text(), "5.png\n");
}

#[test]
fn tool_arguments() {
    assert_eq!(probe_args(Probe::Version), strings(&["--version"]));
    assert_eq!(probe_args(Probe::Database), strings(&["info"]));
    assert_eq!(
        tag_args("a.png", &strings(&["safe", "cute"])),
        strings(&["tag", "a.png", "safe", "cute"])
    );
    assert_eq!(tag_args("a.png", &Vec::new()), strings(&["tag", "a.png"]));
}

#[test]
fn tool_verdicts() {
    assert_eq!(probe_verdict(Probe::Version, None), Err(TmsuError::ChildErr));
    assert_eq!(probe_verdict(Probe::Version, Some(false)), Err(TmsuError::NoExec));
    assert_eq!(probe_verdict(Probe::Database, Some(false)), Err(TmsuError::NoDB));
    assert_eq!(probe_verdict(Probe::Database, Some(true)), Ok(()));
    assert_eq!(tag_verdict(Some(false)), Err(TmsuError::TaggingErr));
    assert_eq!(tag_verdict(None), Err(TmsuError::ChildErr));
    assert_eq!(tag_verdict(Some(true)), Ok(()));
    assert_eq!(next_probe(None), Some(Probe::Version));
    assert_eq!(next_probe(Some(Probe::Version)), Some(Probe::Database));
    assert_eq!(next_probe(Some(Probe::Database)), None);
}

#[test]
fn tool_messages() {
    assert_eq!(TmsuError::NoExec.message(), "ERROR: Tmsu executable not found");
    assert_eq!(TmsuError::NoDB.message(), "ERROR: Tmsu database not found");
    assert_eq!(TmsuError::ChildErr.message(), "ERROR: Tmsu exited unexpectedly");
    assert_eq!(TmsuError::TaggingErr.message(), "ERROR: Tagging process was unsuccessful");
}

#[test]
fn record_decision_for_duplicates() {
    let found = find_image_tags(Image { duplicate_of: None, tags: Some(strings(&["safe", "cute"])) });
    assert!(matches!(found, TagSearch::Found(t) if t == strings(&["safe", "cute"])));
    let follow = find_image_tags(Image { duplicate_of: Some(42), tags: None });
    assert!(matches!(follow, TagSearch::Follow(42)));
    let both = find_image_tags(Image { duplicate_of: Some(42), tags: Some(Vec::new()) });
    assert!(matches!(both, TagSearch::Found(t) if t.is_empty()));
    let none = find_image_tags(Image { duplicate_of: None, tags: None });
    assert!(matches!(none, TagSearch::Unavailable));
}

#[test]
fn duplicate_cycle_is_reported() {
    let mut limiter = RateLimiter::new(0);
    let mut clock = 0;
    let answers = vec![
        Ok((200, image(Some(2), None))),
        Ok((200, image(Some(3), None))),
        Ok((200, image(Some(1), None))),
    ];
    let (outcome, _, gets) = run_lookup(1, &mut limiter, &mut clock, answers);
    assert!(matches!(outcome, Err(LookupError::Cycle(1))));
    assert_eq!(gets.iter().map(|g| g.0).collect::<Vec<_>>(), vec![1, 2, 3]);
}

#[test]
fn self_reference_is_a_cycle() {
    let mut limiter = RateLimiter::new(0);
    let mut clock = 0;
    let answers = vec![Ok((200, image(Some(4), None)))];
    let (outcome, _, gets) = run_lookup(4, &mut limiter, &mut clock, answers);
    assert!(matches!(outcome, Err(LookupError::Cycle(4))));
    assert_eq!(gets.len(), 1);
}
