//! Keys, commands, options, and work in turns.
use russ::actions::{
    get_action, run_reader, update, Action, AppCall, AppState, Event, KeyCode, KeyEvent,
    KeyEventKind, KeyModifiers, Turn, Wake,
};
use russ::feed::{
    EntryId, EntryMetadata, FeedAndEntries, FeedId, FeedKind, FeedResponse, IncomingEntry,
    IncomingFeed,
};
use russ::fetch::FetchError;
use russ::io::{
    after_listing, after_subscribing, chunkify_for_threads, chunks_for_cpus, gather, io_loop,
    refresh_feeds, AfterSubscribing, Gathered, Refreshing, Step, Work,
};
use russ::modes::{Mode, Selected};
use russ::options::{
    get_database_path, parse_seconds, Command, SecondsError, ValidatedOptions,
};
use russ::queries::RowError;
use russ::refresh::{
    pick_new_entries, refresh_feed, subscribe_to_feed, AwaitingFeed, AwaitingLinks, RefreshCause,
    RefreshContext, StoringFeed, SubscribeCause,
};
use russ::schema::{initialize_db, migrate};
use russ::sql::{Cell, Operation, Param, Statement};
use russ::time::{Seconds, Timestamp};
use russ::transaction::{in_transaction, Failure, Part, Progress, Reply, Request};
use std::num::IntErrorKind;

fn state(mode: Mode, selected: Selected) -> AppState {
    AppState {
        mode,
        selected,
        error_flash_is_empty: true,
        has_entries: true,
        has_current_entry: true,
        feed_subscription_input_is_empty: false,
    }
}

fn key(code: KeyCode, modifiers: KeyModifiers) -> Event<KeyEvent> {
    Event::Input(KeyEvent { code, modifiers, kind: KeyEventKind::Press })
}

fn plain(c: char) -> Event<KeyEvent> {
    key(KeyCode::Char(c), KeyModifiers::Plain)
}

fn control(c: char) -> Event<KeyEvent> {
    key(KeyCode::Char(c), KeyModifiers::Control)
}

#[test]
fn keys_give_commands_in_normal_mode() {
    let app = state(Mode::Normal, Selected::Feeds);
    for (c, action) in [
        ('q', Action::Quit),
        ('r', Action::RefreshFeed),
        ('x', Action::RefreshAll),
        ('h', Action::MoveLeft),
        ('j', Action::MoveDown),
        ('k', Action::MoveUp),
        ('l', Action::MoveRight),
        ('?', Action::ToggleHelp),
        ('a', Action::ToggleReadMode),
        ('e', Action::EnterEditingMode),
        ('i', Action::EnterEditingMode),
        ('c', Action::CopyLinkToClipboard),
        ('o', Action::OpenLinkInBrowser),
        ('s', Action::ScrapeArticle),
    ] {
        assert_eq!(get_action(&app, plain(c)), Some(action));
    }
    for c in ['u', 'd', 'z', 'Q'] {
        assert_eq!(get_action(&app, plain(c)), None);
    }
    for (code, action) in [
        (KeyCode::Esc, Some(Action::Quit)),
        (KeyCode::Left, Some(Action::MoveLeft)),
        (KeyCode::Right, Some(Action::MoveRight)),
        (KeyCode::Down, Some(Action::MoveDown)),
        (KeyCode::Up, Some(Action::MoveUp)),
        (KeyCode::PageUp, Some(Action::PageUp)),
        (KeyCode::PageDown, Some(Action::PageDown)),
        (KeyCode::Enter, None),
        (KeyCode::Backspace, None),
        (KeyCode::Delete, None),
        (KeyCode::Other, None),
    ] {
        assert_eq!(get_action(&app, key(code, KeyModifiers::Other)), action);
    }
}

#[test]
fn control_changes_what_some_keys_mean() {
    let app = state(Mode::Normal, Selected::Entries);
    assert_eq!(get_action(&app, control('c')), Some(Action::Quit));
    assert_eq!(get_action(&app, control('u')), Some(Action::PageUp));
    assert_eq!(get_action(&app, control('d')), Some(Action::PageDown));
    assert_eq!(get_action(&app, control('r')), None);
    assert_eq!(get_action(&app, control('x')), None);
    assert_eq!(get_action(&app, plain('r')), Some(Action::ToggleReadStatus));
}

#[test]
fn enter_shows_an_entry_where_there_is_one() {
    let enter = key(KeyCode::Enter, KeyModifiers::Plain);
    let show = Some(Action::SelectAndShowCurrentEntry);
    let entry = EntryMetadata {
        id: EntryId(1),
        feed_id: FeedId(1),
        title: None,
        author: None,
        pub_date: None,
        link: None,
        read_at: None,
        inserted_at: Timestamp { secs: 0, nanos: 0 },
        updated_at: Timestamp { secs: 0, nanos: 0 },
    };
    assert_eq!(get_action(&state(Mode::Normal, Selected::Entries), enter), show);
    assert_eq!(get_action(&state(Mode::Normal, Selected::Entry(entry)), enter), show);
    assert_eq!(get_action(&state(Mode::Normal, Selected::Nothing), enter), None);
    let app = AppState { has_entries: false, ..state(Mode::Normal, Selected::Entries) };
    assert_eq!(get_action(&app, enter), None);
    let app = AppState { has_current_entry: false, ..state(Mode::Normal, Selected::Entries) };
    assert_eq!(get_action(&app, enter), None);
}

#[test]
fn keys_edit_text_in_editing_mode() {
    let app = state(Mode::Editing, Selected::Feeds);
    for c in ['q', 'c', '\u{e9}'] {
        assert_eq!(get_action(&app, control(c)), Some(Action::PushInputChar(c)));
    }
    for (code, action) in [
        (KeyCode::Enter, Some(Action::SubscribeToFeed)),
        (KeyCode::Backspace, Some(Action::DeleteInputChar)),
        (KeyCode::Delete, Some(Action::DeleteFeed)),
        (KeyCode::Esc, Some(Action::EnterNormalMode)),
        (KeyCode::Left, None),
    ] {
        assert_eq!(get_action(&app, key(code, KeyModifiers::Plain)), action);
    }
    let app = AppState { feed_subscription_input_is_empty: true, ..app };
    assert_eq!(get_action(&app, key(KeyCode::Enter, KeyModifiers::Plain)), None);
}

#[test]
fn an_error_is_cleared_before_the_reader_quits() {
    let app = AppState { error_flash_is_empty: false, ..state(Mode::Normal, Selected::Feeds) };
    for leave in [plain('q'), control('c'), key(KeyCode::Esc, KeyModifiers::Plain)] {
        assert_eq!(get_action(&app, leave), Some(Action::ClearErrorFlash));
        let app = AppState { error_flash_is_empty: true, ..app.clone() };
        assert_eq!(get_action(&app, leave), Some(Action::Quit));
    }
}

#[test]
fn only_the_press_of_a_key_counts() {
    for mode in [Mode::Normal, Mode::Editing] {
        let released = Event::Input(KeyEvent {
            code: KeyCode::Char('q'),
            modifiers: KeyModifiers::Plain,
            kind: KeyEventKind::Other,
        });
        assert_eq!(get_action(&state(mode, Selected::Feeds), released), None);
        assert_eq!(get_action(&state(mode, Selected::Feeds), Event::Tick), Some(Action::Tick));
    }
}

#[test]
fn actions_change_the_state() {
    for (action, call) in [
        (Action::Tick, None),
        (Action::Quit, Some(AppCall::SetShouldQuit(true))),
        (Action::RefreshAll, Some(AppCall::RefreshFeeds)),
        (Action::RefreshFeed, Some(AppCall::RefreshFeed)),
        (Action::MoveLeft, Some(AppCall::OnLeft)),
        (Action::MoveDown, Some(AppCall::OnDown)),
        (Action::MoveUp, Some(AppCall::OnUp)),
        (Action::MoveRight, Some(AppCall::OnRight)),
        (Action::PageUp, Some(AppCall::PageUp)),
        (Action::PageDown, Some(AppCall::PageDown)),
        (Action::ToggleHelp, Some(AppCall::ToggleHelp)),
        (Action::ToggleReadMode, Some(AppCall::ToggleReadMode)),
        (Action::ToggleReadStatus, Some(AppCall::ToggleRead)),
        (Action::EnterEditingMode, Some(AppCall::SetMode(Mode::Editing))),
        (Action::EnterNormalMode, Some(AppCall::SetMode(Mode::Normal))),
        (Action::CopyLinkToClipboard, Some(AppCall::PutCurrentLinkInClipboard)),
        (Action::OpenLinkInBrowser, Some(AppCall::OpenLinkInBrowser)),
        (Action::ScrapeArticle, Some(AppCall::ScrapeArticle)),
        (Action::SubscribeToFeed, Some(AppCall::SubscribeToFeed)),
        (Action::PushInputChar('x'), Some(AppCall::PushFeedSubscriptionInput('x'))),
        (Action::DeleteInputChar, Some(AppCall::PopFeedSubscriptionInput)),
        (Action::DeleteFeed, Some(AppCall::DeleteFeed)),
        (Action::ClearErrorFlash, Some(AppCall::ClearErrorFlash)),
        (Action::SelectAndShowCurrentEntry, Some(AppCall::SelectAndShowCurrentEntry)),
    ] {
        assert_eq!(update(action), call);
    }
}

#[test]
fn the_reader_takes_turns() {
    let app = state(Mode::Normal, Selected::Feeds);
    let turn = |wake: Wake<u8, &'static str>| run_reader(&app, wake);
    assert!(matches!(turn(Wake::Tick), Turn::Send(Event::Tick)));
    assert!(matches!(turn(Wake::Event(Event::Tick)), Turn::Update(None)));
    assert!(matches!(
        turn(Wake::Event(plain('q'))),
        Turn::Update(Some(AppCall::SetShouldQuit(true)))
    ));
    assert!(matches!(turn(Wake::Event(plain('z'))), Turn::Update(None)));
    assert!(matches!(turn(Wake::Io(7)), Turn::Io(7)));
    assert!(matches!(turn(Wake::Polled(Ok(true))), Turn::ReadInput));
    assert!(matches!(turn(Wake::Polled(Ok(false))), Turn::Wait));
    assert!(matches!(turn(Wake::Polled(Err("gone"))), Turn::Fail("gone")));
    assert!(matches!(turn(Wake::Read(None)), Turn::Wait));
    assert!(matches!(turn(Wake::Updated(true)), Turn::Leave));
    assert!(matches!(turn(Wake::Updated(false)), Turn::Wait));
    let pressed = KeyEvent {
        code: KeyCode::Up,
        modifiers: KeyModifiers::Plain,
        kind: KeyEventKind::Press,
    };
    match turn(Wake::Read(Some(pressed))) {
        Turn::Send(Event::Input(k)) => assert_eq!(k, pressed),
        _ => panic!("the key was lost"),
    }
}

#[test]
fn seconds_are_read_as_numbers_are() {
    for s in [
        "0",
        "4",
        "007",
        "+7",
        "18446744073709551615",
        "18446744073709551616",
        "99999999999999999999",
        "99999999999999999999x",
        "1x99999999999999999999",
        "",
        "+",
        "-",
        "-5",
        "-0",
        "++1",
        "+-1",
        " 1",
        "1 ",
        "1.5",
        "\u{661}",
        "x",
    ] {
        let expected = match s.parse::<u64>() {
            Ok(n) => Ok(Seconds(n)),
            Err(e) => Err(match e.kind() {
                IntErrorKind::Empty => SecondsError::Empty,
                IntErrorKind::InvalidDigit => SecondsError::InvalidDigit,
                IntErrorKind::PosOverflow => SecondsError::Overflow,
                _ => panic!("an error of another kind"),
            }),
        };
        assert_eq!(parse_seconds(s), expected);
        if let (Err(ours), Err(theirs)) = (parse_seconds(s), s.parse::<u64>()) {
            assert_eq!(ours.message(), theirs.to_string());
        }
    }
    assert_eq!(parse_seconds("15"), Ok(Seconds(15)));
    assert_eq!(parse_seconds(""), Err(SecondsError::Empty));
    assert_eq!(parse_seconds("+"), Err(SecondsError::InvalidDigit));
    assert_eq!(parse_seconds("18446744073709551616"), Err(SecondsError::Overflow));
}

#[test]
fn a_named_database_is_used_without_looking_for_another() {
    let nowhere = || -> Result<String, &'static str> { panic!("looked for a database") };
    assert_eq!(get_database_path(&Some("x.db".to_string()), nowhere), Ok("x.db".to_string()));
    assert_eq!(get_database_path::<String, _, _>(&None, || Err("none")), Err("none"));
    assert_eq!(
        get_database_path::<String, &str, _>(&None, || Ok("y.db".to_string())),
        Ok("y.db".to_string())
    );
}

#[test]
fn commands_are_settled() {
    let read = Command::Read {
        database_path: None,
        tick_rate: 250,
        flash_display_duration_seconds: Seconds(4),
        network_timeout: Seconds(5),
    };
    match read.validate::<&str, _>(|| Ok("found")) {
        Ok(ValidatedOptions::Read(o)) => {
            assert_eq!(o.database_path, "found");
            assert_eq!(o.tick_rate, 250);
            assert_eq!(o.flash_display_duration_seconds, Seconds(4));
            assert_eq!(o.network_timeout, Seconds(5));
        }
        _ => panic!("the options were not settled"),
    }
    assert!(matches!(read.validate(|| Err("none")), Err("none")));
    let import =
        Command::Import { database_path: Some("db"), opml_path: "o", network_timeout: Seconds(9) };
    match import.validate(|| Err("none")) {
        Ok(ValidatedOptions::Import(o)) => {
            assert_eq!((o.database_path, o.opml_path), ("db", "o"));
            assert_eq!(o.network_timeout, Seconds(9));
        }
        _ => panic!("the options were not settled"),
    }
}

fn sizes(items: usize, threads: usize) -> Vec<usize> {
    let items: Vec<usize> = (0..items).collect();
    let chunks = chunkify_for_threads(&items, threads);
    assert_eq!(chunks.concat(), items);
    chunks.iter().map(|c| c.len()).collect()
}

#[test]
fn items_are_split_into_chunks() {
    assert_eq!(sizes(25, 16), vec![1; 25]);
    let mut hundred = vec![6; 16];
    hundred.push(4);
    assert_eq!(sizes(100, 16), hundred);
    assert_eq!(sizes(10, 16), vec![1; 10]);
    assert_eq!(sizes(0, 4), Vec::<usize>::new());
    assert_eq!(sizes(8, 1), vec![8]);
    assert_eq!(sizes(8, 4), vec![2; 4]);
}

#[test]
fn feeds_are_split_for_the_processors() {
    let ids: Vec<FeedId> = (0..9).map(FeedId).collect();
    let lens = |cpus| -> Vec<usize> {
        chunks_for_cpus(&ids, cpus).iter().map(|c| c.len()).collect()
    };
    assert_eq!(lens(1), vec![4, 4, 1]);
    assert_eq!(lens(2), vec![2, 2, 2, 2, 1]);
    assert_eq!(lens(usize::MAX), vec![1; 9]);
    let expected = chunks_for_cpus(&ids, num_cpus::get());
    assert_eq!(refresh_feeds(&ids), expected);
    assert_eq!(refresh_feeds(&ids).concat(), ids);
    assert!(refresh_feeds(&[]).is_empty());
}

fn show<E: std::fmt::Debug>(steps: &[Step<E>]) -> Vec<String> {
    steps.iter().map(|s| format!("{s:?}")).collect()
}

#[test]
fn work_is_announced() {
    let (steps, work) = io_loop::<&str>(russ::io::Action::RefreshFeed(FeedId(3)));
    assert_eq!(show(&steps), ["SetFlash(\"Refreshing feed...\")", "ForceRedraw"]);
    assert!(matches!(work, Work::Refresh(r) if r.feed_ids == vec![FeedId(3)] && !r.all));
    let ids = vec![FeedId(1), FeedId(2)];
    let (steps, work) = io_loop::<&str>(russ::io::Action::RefreshFeeds(ids.clone()));
    assert_eq!(show(&steps), ["SetFlash(\"Refreshing all feeds...\")", "ForceRedraw"]);
    assert!(matches!(work, Work::Refresh(r) if r.feed_ids == ids && r.all));
    let (steps, work) = io_loop::<&str>(russ::io::Action::SubscribeToFeed("u".to_string()));
    assert_eq!(show(&steps), ["SetFlash(\"Subscribing to feed...\")", "ForceRedraw"]);
    assert!(matches!(work, Work::Subscribe(url) if url == "u"));
    let (steps, work) = io_loop::<&str>(russ::io::Action::ClearFlash);
    assert_eq!(show(&steps), ["ClearFlash"]);
    assert!(matches!(work, Work::Nothing));
}

#[test]
fn outcomes_are_gathered_up_to_the_first_failure() {
    let g = gather(vec![Ok(vec![Ok(()), Err("a")]), Ok(vec![]), Ok(vec![Ok(())])]);
    assert_eq!(g.outcomes, vec![Ok(()), Err("a"), Ok(())]);
    assert_eq!(g.failure, None);
    let g = gather(vec![Ok(vec![Err("a")]), Err("pool"), Ok(vec![Ok(())]), Err("late")]);
    assert_eq!(g.outcomes, vec![Err("a")]);
    assert_eq!(g.failure, Some("pool"));
}

#[test]
fn outcomes_stand_where_their_feeds_do() {
    let ids = [4, 4, 1, 4, 2].map(FeedId);
    let outcomes = [Ok(()), Err("a"), Ok(()), Err("b"), Ok(())];
    let mut place = 0;
    let mut chunks = vec![];
    for chunk in chunks_for_cpus(&ids, 1) {
        chunks.push(Ok(outcomes[place..place + chunk.len()].to_vec()));
        place += chunk.len();
    }
    assert_eq!(chunks.len(), 3);
    let g = gather(chunks);
    assert_eq!(g.outcomes, outcomes);
    assert_eq!(g.failure, None);
}

#[test]
fn what_was_refreshed_is_counted_and_errors_are_shown() {
    let refreshing = |all| Refreshing { feed_ids: vec![FeedId(1), FeedId(2), FeedId(3)], all };
    let gathered = |failure| Gathered { outcomes: vec![Ok(()), Err("e1"), Ok(())], failure };
    let (steps, end) = refreshing(true).finish(gathered(None));
    assert_eq!(
        show(&steps),
        [
            "PushErrorFlash(\"e1\")",
            "UpdateCurrentFeedAndEntries",
            "SetFlashWithElapsed(\"Refreshed 2/3 feeds in \")",
            "ForceRedraw",
            "ClearFlashLater"
        ]
    );
    assert_eq!(end, Ok(()));
    let (steps, _) = refreshing(false).finish(gathered(None));
    assert_eq!(show(&steps)[2], "SetFlashWithElapsed(\"Refreshed feed in \")");
    let (steps, end) = refreshing(true).finish(gathered(Some("pool")));
    assert_eq!(show(&steps), ["PushErrorFlash(\"e1\")"]);
    assert_eq!(end, Err("pool"));
}

#[test]
fn a_subscription_ends_in_normal_mode_or_with_an_error() {
    assert!(matches!(after_subscribing::<&str>(Ok(FeedId(1))), AfterSubscribing::ListFeeds));
    match after_subscribing(Err("no")) {
        AfterSubscribing::Done(steps) => assert_eq!(show(&steps), ["PushErrorFlash(\"no\")"]),
        AfterSubscribing::ListFeeds => panic!("the error was lost"),
    }
    assert_eq!(
        show(&after_listing::<&str>(Ok(vec![]))),
        [
            "ResetFeedSubscriptionInput",
            "SetFeeds([])",
            "SelectFeeds",
            "UpdateCurrentFeedAndEntries",
            "SetFlashWithElapsed(\"Subscribed in \")",
            "SetMode(Normal)",
            "ForceRedraw",
            "ClearFlashLater"
        ]
    );
    assert_eq!(show(&after_listing(Err("no"))), ["PushErrorFlash(\"no\")"]);
}

fn entry(link: Option<&str>, title: &str) -> IncomingEntry {
    IncomingEntry {
        title: Some(title.to_string()),
        author: None,
        pub_date: None,
        description: None,
        content: None,
        link: link.map(|l| l.to_string()),
    }
}

#[test]
fn links_tell_entries_apart() {
    let remote = vec![
        entry(Some("a"), "1"),
        entry(None, "2"),
        entry(Some("b"), "3"),
        entry(Some("b"), "4"),
        entry(Some("A"), "5"),
    ];
    let titles = |links: &[Option<&str>]| -> String {
        let links = links.iter().map(|l| l.map(|l| l.to_string())).collect();
        pick_new_entries(&remote, &links).into_iter().filter_map(|e| e.title).collect()
    };
    assert_eq!(titles(&[]), "135");
    assert_eq!(titles(&[Some("a"), None, Some("a")]), "35");
    assert_eq!(titles(&[Some("b"), Some("a"), Some("A")]), "");
    assert_eq!(titles(&[Some("b")]), "15");
}

fn row(text: Option<&str>) -> Vec<Cell> {
    vec![Cell::Text(text.map(|t| t.to_string()))]
}

#[test]
fn a_refresh_says_which_step_failed() {
    let (step, _) = refresh_feed(FeedId(-3));
    let e = step.url(Err("locked")).unwrap_err();
    assert!(matches!(e.cause, RefreshCause::Database("locked")));
    assert_eq!(
        e.context.unwrap().message(),
        "Unable to get url for feed id -3 from the database"
    );
    let (step, _) = refresh_feed(FeedId(3));
    let e = step.url::<&str>(Ok(row(None))).unwrap_err();
    assert!(matches!(e.cause, RefreshCause::Row(RowError::Shape)));
    assert!(matches!(e.context, Some(RefreshContext::FeedUrl(FeedId(3)))));

    let (step, _) = refresh_feed(FeedId(3));
    let (step, _) = step.url::<&str>(Ok(row(Some("u")))).unwrap();
    let e = step.etag(Err("locked")).unwrap_err();
    assert_eq!(
        e.context.unwrap().message(),
        "Unable to get latest_etag for feed_id 3 from the database"
    );

    let step = AwaitingFeed { feed_id: FeedId(3), url: "u".to_string() };
    let e = step.feed(Err(FetchError::Transport("down"))).unwrap_err();
    assert!(matches!(e.cause, RefreshCause::Fetch(FetchError::Transport("down"))));
    assert_eq!(e.context.unwrap().message(), "Failed to fetch feed u");

    let awaiting = || AwaitingLinks { feed_id: FeedId(3), entries: vec![], etag: None };
    let e = awaiting().links(Err("locked")).unwrap_err();
    assert!(e.context.is_none());
    let e = awaiting().links::<&str>(Ok(vec![vec![]])).unwrap_err();
    assert!(matches!(e.cause, RefreshCause::Row(RowError::Shape)));
}

#[test]
fn a_refresh_stores_entries_time_and_etag() {
    let awaiting = AwaitingLinks {
        feed_id: FeedId(3),
        entries: vec![entry(Some("a"), "1"), entry(Some("b"), "2")],
        etag: Some("t".to_string()),
    };
    let operations = awaiting.links::<&str>(Ok(vec![row(Some("a")), row(None)])).unwrap();
    assert_eq!(operations.len(), 5);
    assert!(matches!(operations[0], Operation::ReadClock));
    match &operations[1] {
        Operation::Execute(s) => {
            assert!(matches!(&s.params[1], Param::Text(t) if t == "2"));
            assert!(matches!(s.params[7], Param::Clock));
        }
        _ => panic!("no entry is stored"),
    }
    assert!(matches!(operations[2], Operation::ReadClock));
    match &operations[4] {
        Operation::Execute(s) => {
            assert_eq!(s.sql, "UPDATE feeds SET latest_etag = ?2 WHERE id = ?1");
            assert!(matches!(&s.params[1], Param::Text(t) if t == "t"));
        }
        _ => panic!("the etag is not stored"),
    }
}

#[test]
fn a_subscription_fails_in_several_ways() {
    let (subscribing, _, request) = subscribe_to_feed("u");
    assert!(request.headers.is_empty());
    let e = subscribing.feed::<&str>(Ok(FeedResponse::CacheHit)).unwrap_err();
    assert!(matches!(e.cause, SubscribeCause::UnexpectedCacheHit));
    let (subscribing, _, _) = subscribe_to_feed("u");
    let e = subscribing.feed(Err(FetchError::Transport("down"))).unwrap_err();
    assert!(matches!(e.cause, SubscribeCause::Fetch(FetchError::Transport("down"))));
    let storing = || StoringFeed { feed_link: Some("u".to_string()), entries: 2 };
    let e = storing().stored::<&str>(Ok(None)).unwrap_err();
    assert!(matches!(e.cause, SubscribeCause::NoIdentifier));
    let e = storing().stored(Err(Failure { part: Part::Commit, error: "full" })).unwrap_err();
    assert!(e.context.is_none());
    assert!(matches!(e.cause, SubscribeCause::Database("full")));
    assert_eq!(storing().stored::<&str>(Ok(Some(4))).unwrap(), FeedId(4));
}

#[test]
fn a_subscription_stores_every_entry() {
    let feed = IncomingFeed {
        title: None,
        feed_link: Some("u".to_string()),
        link: None,
        feed_kind: FeedKind::Rss,
        latest_etag: None,
    };
    let entries = vec![entry(None, "1"), entry(Some("a"), "2"), entry(Some("a"), "3")];
    let (subscribing, _, _) = subscribe_to_feed("u");
    let response = FeedResponse::CacheMiss(FeedAndEntries { feed, entries });
    let (storing, operations) = subscribing.feed::<&str>(Ok(response)).unwrap();
    assert_eq!((storing.entries, operations.len()), (3, 5));
    assert!(matches!(operations[0], Operation::Insert(_)));
    assert!(matches!(&operations[4], Operation::Execute(s) if matches!(s.params[0], Param::NewId)));
}

fn statement(params: Vec<Param>) -> Statement {
    Statement { sql: "s".to_string(), params }
}

/// Runs a transaction on some replies: what it asked for, and what it came to.
fn run(
    operations: Vec<Operation>,
    replies: Vec<Reply<&'static str>>,
) -> (Vec<String>, Option<Result<Option<i64>, Failure<&'static str>>>) {
    let (mut transaction, request) = in_transaction(operations);
    let mut asked = vec![format!("{request:?}")];
    for reply in replies {
        match transaction.resume(reply) {
            Progress::Continue(t, request) => {
                transaction = t;
                asked.push(format!("{request:?}"));
            }
            Progress::Finished(r) => return (asked, Some(r)),
        }
    }
    (asked, None)
}

#[test]
fn the_clock_and_the_new_identifier_are_put_in() {
    let operations = vec![
        Operation::Execute(statement(vec![Param::Clock, Param::NewId])),
        Operation::Insert(statement(vec![Param::Null])),
        Operation::ReadClock,
        Operation::Execute(statement(vec![Param::NewId, Param::Clock])),
    ];
    let time = Timestamp { secs: 5, nanos: 6 };
    let (asked, end) = run(
        operations,
        vec![Reply::Done, Reply::Done, Reply::Id(8), Reply::Time(time), Reply::Done, Reply::Done],
    );
    let execute = |params| format!("{:?}", Request::Execute(statement(params)));
    assert_eq!(asked.len(), 6);
    assert_eq!(asked[0], "Begin");
    assert_eq!(asked[1], execute(vec![Param::Null, Param::Null]));
    assert_eq!(asked[3], "ReadClock");
    assert_eq!(asked[4], execute(vec![Param::Integer(8), Param::Time(time)]));
    assert_eq!(asked[5], "Commit");
    assert!(matches!(end, Some(Ok(Some(8)))));
}

#[test]
fn a_failure_is_rolled_back_whatever_comes_of_that() {
    let work = || vec![Operation::ReadClock, Operation::SetSchemaVersion(9)];
    let (asked, end) = run(work(), vec![Reply::Failed("busy"), Reply::Done]);
    assert_eq!(asked, ["Begin"]);
    assert!(matches!(end, Some(Err(Failure { part: Part::Begin, error: "busy" }))));
    let (asked, end) =
        run(work(), vec![Reply::Done, Reply::Done, Reply::Failed("full"), Reply::Failed("worse")]);
    assert_eq!(asked, ["Begin", "ReadClock", "SetSchemaVersion(9)", "Rollback"]);
    assert!(matches!(end, Some(Err(Failure { part: Part::Operation(1), error: "full" }))));
    let (asked, end) =
        run(vec![], vec![Reply::Done, Reply::Failed("full"), Reply::Done, Reply::Done]);
    assert_eq!(asked, ["Begin", "Commit", "Rollback"]);
    assert!(matches!(end, Some(Err(Failure { part: Part::Commit, error: "full" }))));
}

#[test]
fn a_failing_migration_is_rolled_back_at_once() {
    let replies =
        vec![Reply::Done, Reply::Version(1), Reply::Done, Reply::Failed("no table"), Reply::Done];
    let (asked, end) = run(initialize_db(), replies);
    assert_eq!(asked.len(), 5);
    assert_eq!(asked[2], "SetSchemaVersion(2)");
    assert_eq!(asked[4], "Rollback");
    assert!(matches!(end, Some(Err(Failure { part: Part::Operation(2), error: "no table" }))));
    let (asked, end) = run(initialize_db(), vec![Reply::Done, Reply::Failed("no pragma")]);
    assert_eq!(asked, ["Begin", "ReadSchemaVersion", "Rollback"]);
    assert!(end.is_none());
}

#[test]
fn a_database_is_made_ready_from_the_version_it_has() {
    let replies = |version: u64, more: usize| {
        let mut replies = vec![Reply::Done, Reply::Version(version)];
        replies.extend((0..more).map(|_| Reply::Done));
        replies
    };
    for (version, steps) in [(0, 8), (1, 4), (2, 2), (3, 0), (9, 0)] {
        assert_eq!(migrate(version).len(), steps);
        let (asked, end) = run(initialize_db(), replies(version, steps + 1));
        assert_eq!(asked.len(), steps + 3);
        assert_eq!(asked[1], "ReadSchemaVersion");
        assert_eq!(asked[steps + 2], "Commit");
        assert!(matches!(end, Some(Ok(None))));
    }
    assert!(matches!(migrate(0)[0], Operation::SetSchemaVersion(1)));
    assert!(matches!(migrate(1)[0], Operation::SetSchemaVersion(2)));
    assert!(matches!(migrate(2)[0], Operation::SetSchemaVersion(3)));
}
