//! What keys mean, what the reader does about them, and what it is started with.
use super::documents::number;
use crate::actions::{
    get_action, run_reader, update, Action, AppCall, AppState, Event, KeyCode, KeyEvent, Turn, Wake,
};
use crate::modes::Mode;
use crate::options::{
    digits_in, digits_value, first_error, get_database_path, is_digit, parse_seconds, Command,
    SecondsError, ValidatedOptions,
};
use crate::time::Seconds;
use vstd::prelude::*;

verus! {

/// Whether an event is the press of a key in a mode, with whatever modifiers.
pub open spec fn pressed(
    app: AppState,
    event: Event<KeyEvent>,
    mode: Mode,
    code: KeyCode,
) -> bool {
    app.mode == mode && (event matches Event::Input(key) && key.kind is Press && key.code == code)
}

/// Whether an event is the press of a letter in normal mode, with whatever modifiers.
pub open spec fn letter(app: AppState, event: Event<KeyEvent>, c: char) -> bool {
    pressed(app, event, Mode::Normal, KeyCode::Char(c))
}

/// Whether an event is the press of another key in normal mode, with whatever modifiers.
pub open spec fn command(app: AppState, event: Event<KeyEvent>, code: KeyCode) -> bool {
    pressed(app, event, Mode::Normal, code)
}

/// Whether no modifier is held.
pub open spec fn is_plain(event: Event<KeyEvent>) -> bool {
    event matches Event::Input(key) && key.modifiers is Plain
}

/// Whether control is held, and nothing else.
pub open spec fn is_control(event: Event<KeyEvent>) -> bool {
    event matches Event::Input(key) && key.modifiers is Control
}

/// Whether a key that asks to leave is pressed in normal mode: `q`, escape, or control with `c`.
pub open spec fn leaving(app: AppState, event: Event<KeyEvent>) -> bool {
    letter(app, event, 'q') || command(app, event, KeyCode::Esc) || letter(app, event, 'c')
        && is_control(event)
}

/// The reader is asked to quit exactly by the keys that ask to leave, while no error is shown;
/// while one is shown, the same keys clear it.
pub proof fn law_leaving_quits_or_clears(
    app: AppState,
    event: Event<KeyEvent>,
    r: Option<Action>,
)
    requires
        call_ensures(get_action, (&app, event), r),
    ensures
        r == Some(Action::Quit) <==> leaving(app, event) && app.error_flash_is_empty,
        r == Some(Action::ClearErrorFlash) <==> leaving(app, event) && !app.error_flash_is_empty,
{
}

/// `r` refreshes the feed exactly where the feeds are selected, and toggles the read status of the
/// entry wherever they are not; `x` refreshes all feeds. Neither does with a modifier.
pub proof fn law_refreshing_is_for_feeds(
    app: AppState,
    event: Event<KeyEvent>,
    r: Option<Action>,
)
    requires
        call_ensures(get_action, (&app, event), r),
    ensures
        r == Some(Action::RefreshFeed) <==> letter(app, event, 'r') && is_plain(event)
            && app.selected is Feeds,
        r == Some(Action::ToggleReadStatus) <==> letter(app, event, 'r') && is_plain(event) && !(
        app.selected is Feeds),
        r == Some(Action::RefreshAll) <==> letter(app, event, 'x') && is_plain(event),
{
}

/// The arrows and `h`, `j`, `k`, `l` move, each in its direction, with whatever modifiers; the
/// page keys, and control with `u` and `d`, move by a page.
pub proof fn law_moving_has_its_keys(app: AppState, event: Event<KeyEvent>, r: Option<Action>)
    requires
        call_ensures(get_action, (&app, event), r),
    ensures
        r == Some(Action::MoveLeft) <==> command(app, event, KeyCode::Left) || letter(
            app,
            event,
            'h',
        ),
        r == Some(Action::MoveDown) <==> command(app, event, KeyCode::Down) || letter(
            app,
            event,
            'j',
        ),
        r == Some(Action::MoveUp) <==> command(app, event, KeyCode::Up) || letter(app, event, 'k'),
        r == Some(Action::MoveRight) <==> command(app, event, KeyCode::Right) || letter(
            app,
            event,
            'l',
        ),
        r == Some(Action::PageUp) <==> command(app, event, KeyCode::PageUp) || letter(
            app,
            event,
            'u',
        ) && is_control(event),
        r == Some(Action::PageDown) <==> command(app, event, KeyCode::PageDown) || letter(
            app,
            event,
            'd',
        ) && is_control(event),
{
}

/// Enter shows an entry exactly where the entries, or one of them, are selected and there is a
/// current one.
pub proof fn law_showing_needs_an_entry(app: AppState, event: Event<KeyEvent>, r: Option<Action>)
    requires
        call_ensures(get_action, (&app, event), r),
    ensures
        r == Some(Action::SelectAndShowCurrentEntry) <==> command(app, event, KeyCode::Enter) && (
        app.selected is Entries || app.selected is Entry) && app.has_entries
            && app.has_current_entry,
{
}

/// The other commands have a letter each, with whatever modifiers; only `c` is another command
/// with control.
pub proof fn law_commands_have_their_letters(
    app: AppState,
    event: Event<KeyEvent>,
    r: Option<Action>,
)
    requires
        call_ensures(get_action, (&app, event), r),
    ensures
        r == Some(Action::ToggleHelp) <==> letter(app, event, '?'),
        r == Some(Action::ToggleReadMode) <==> letter(app, event, 'a'),
        r == Some(Action::EnterEditingMode) <==> letter(app, event, 'e') || letter(
            app,
            event,
            'i',
        ),
        r == Some(Action::CopyLinkToClipboard) <==> letter(app, event, 'c') && !is_control(event),
        r == Some(Action::OpenLinkInBrowser) <==> letter(app, event, 'o'),
        r == Some(Action::ScrapeArticle) <==> letter(app, event, 's'),
{
}

/// In editing mode characters go into the text, backspace takes one out, enter subscribes where
/// there is a text, delete removes the feed, and escape goes back to normal mode; nothing else
/// does any of this.
pub proof fn law_editing_has_its_keys(
    app: AppState,
    event: Event<KeyEvent>,
    r: Option<Action>,
    c: char,
)
    requires
        call_ensures(get_action, (&app, event), r),
    ensures
        r == Some(Action::PushInputChar(c)) <==> pressed(
            app,
            event,
            Mode::Editing,
            KeyCode::Char(c),
        ),
        r == Some(Action::DeleteInputChar) <==> pressed(
            app,
            event,
            Mode::Editing,
            KeyCode::Backspace,
        ),
        r == Some(Action::SubscribeToFeed) <==> pressed(app, event, Mode::Editing, KeyCode::Enter)
            && !app.feed_subscription_input_is_empty,
        r == Some(Action::DeleteFeed) <==> pressed(app, event, Mode::Editing, KeyCode::Delete),
        r == Some(Action::EnterNormalMode) <==> pressed(app, event, Mode::Editing, KeyCode::Esc),
{
}

/// A tick is a tick, in either mode, and nothing else is one.
pub proof fn law_ticks_are_ticks(app: AppState, event: Event<KeyEvent>, r: Option<Action>)
    requires
        call_ensures(get_action, (&app, event), r),
    ensures
        r == Some(Action::Tick) <==> event is Tick,
{
}

/// Each change of the state is made by the action that is meant for it, and by no other; a tick
/// makes none.
pub proof fn law_each_action_makes_its_change(action: Action, r: Option<AppCall>, c: char)
    requires
        call_ensures(update, (action,), r),
    ensures
        r is None <==> action is Tick,
        r == Some(AppCall::SetShouldQuit(true)) <==> action is Quit,
        r != Some(AppCall::SetShouldQuit(false)),
        r == Some(AppCall::RefreshFeeds) <==> action is RefreshAll,
        r == Some(AppCall::RefreshFeed) <==> action is RefreshFeed,
        r == Some(AppCall::OnLeft) <==> action is MoveLeft,
        r == Some(AppCall::OnDown) <==> action is MoveDown,
        r == Some(AppCall::OnUp) <==> action is MoveUp,
        r == Some(AppCall::OnRight) <==> action is MoveRight,
        r == Some(AppCall::PageUp) <==> action is PageUp,
        r == Some(AppCall::PageDown) <==> action is PageDown,
        r == Some(AppCall::ToggleHelp) <==> action is ToggleHelp,
        r == Some(AppCall::ToggleReadMode) <==> action is ToggleReadMode,
        r == Some(AppCall::ToggleRead) <==> action is ToggleReadStatus,
        r == Some(AppCall::SetMode(Mode::Editing)) <==> action is EnterEditingMode,
        r == Some(AppCall::SetMode(Mode::Normal)) <==> action is EnterNormalMode,
        r == Some(AppCall::PutCurrentLinkInClipboard) <==> action is CopyLinkToClipboard,
        r == Some(AppCall::OpenLinkInBrowser) <==> action is OpenLinkInBrowser,
        r == Some(AppCall::ScrapeArticle) <==> action is ScrapeArticle,
        r == Some(AppCall::SubscribeToFeed) <==> action is SubscribeToFeed,
        r == Some(AppCall::PushFeedSubscriptionInput(c)) <==> action == Action::PushInputChar(c),
        r == Some(AppCall::PopFeedSubscriptionInput) <==> action is DeleteInputChar,
        r == Some(AppCall::DeleteFeed) <==> action is DeleteFeed,
        r == Some(AppCall::ClearErrorFlash) <==> action is ClearErrorFlash,
        r == Some(AppCall::SelectAndShowCurrentEntry) <==> action is SelectAndShowCurrentEntry,
{
}

/// A turn of the reader is what woke it: a tick and a key that was read are sent on, work is done,
/// input is read where there is some, an error ends the reader, and so does quitting once an event
/// was dealt with.
pub proof fn law_turns_follow_from_waking<A, E>(app: AppState, wake: Wake<A, E>, r: Turn<A, E>)
    requires
        call_ensures(run_reader::<A, E>, (&app, wake), r),
    ensures
        wake is Tick ==> r == Turn::<A, E>::Send(Event::Tick),
        wake matches Wake::Io(work) ==> r == Turn::<A, E>::Io(work),
        wake matches Wake::Polled(Ok(ready)) ==> r == if ready {
            Turn::<A, E>::ReadInput
        } else {
            Turn::<A, E>::Wait
        },
        wake matches Wake::Polled(Err(e)) ==> r == Turn::<A, E>::Fail(e),
        wake matches Wake::Read(Some(key)) ==> r == Turn::<A, E>::Send(Event::Input(key)),
        wake matches Wake::Read(None) ==> r is Wait,
        wake matches Wake::Updated(should_quit) ==> r == if should_quit {
            Turn::<A, E>::Leave
        } else {
            Turn::<A, E>::Wait
        },
        wake is Event <==> r is Update,
        r is Leave <==> wake == Wake::<A, E>::Updated(true),
{
}

/// An event makes the change of the action that it calls for, and none where it calls for none.
pub proof fn law_an_event_makes_its_change<A, E>(
    app: AppState,
    event: Event<KeyEvent>,
    turn: Turn<A, E>,
    action: Option<Action>,
    call: Option<AppCall>,
)
    requires
        call_ensures(run_reader::<A, E>, (&app, Wake::Event(event)), turn),
        call_ensures(get_action, (&app, event), action),
        action is Some ==> call_ensures(update, (action->0,), call),
        action is None ==> call is None,
    ensures
        turn == Turn::<A, E>::Update(call),
{
}

/// The file to store feeds in is the one that the user named; only where none was named it is the
/// one that was looked for.
pub proof fn law_a_named_database_is_used<P: Clone, E, F: FnOnce() -> Result<P, E>>(
    named: Option<P>,
    locate: F,
    r: Result<P, E>,
)
    requires
        call_ensures(get_database_path::<P, E, F>, (&named, locate), r),
    ensures
        named matches Some(path) ==> r matches Ok(p) && cloned(path, p),
        named is None ==> locate.ensures((), r),
{
}

/// The names under which the program keeps its feeds.
pub proof fn law_feeds_are_kept_under_these_names()
    ensures
        crate::options::DATABASE_FILE@ == "feeds.db"@,
        crate::options::APPLICATION@ == "russ"@,
{
}

/// Settling options keeps every one of them, and settles the file to store feeds in; it fails only
/// where no file was named and none was found, and of that error.
pub proof fn law_options_are_kept<P: Clone, E, F: FnOnce() -> Result<P, E>>(
    command: Command<P>,
    locate: F,
    r: Result<ValidatedOptions<P>, E>,
)
    requires
        call_ensures(Command::<P>::validate::<E, F>, (&command, locate), r),
    ensures
        match command {
            Command::Read {
                database_path,
                tick_rate,
                flash_display_duration_seconds,
                network_timeout,
            } => match r {
                Ok(ValidatedOptions::Read(o)) => {
                    &&& o.tick_rate == tick_rate
                    &&& o.flash_display_duration_seconds == flash_display_duration_seconds
                    &&& o.network_timeout == network_timeout
                    &&& database_path matches Some(path) ==> cloned(path, o.database_path)
                    &&& database_path is None ==> locate.ensures((), Ok(o.database_path))
                },
                Ok(ValidatedOptions::Import(_)) => false,
                Err(e) => database_path is None && locate.ensures((), Err(e)),
            },
            Command::Import { database_path, opml_path, network_timeout } => match r {
                Ok(ValidatedOptions::Import(o)) => {
                    &&& cloned(opml_path, o.opml_path)
                    &&& o.network_timeout == network_timeout
                    &&& database_path matches Some(path) ==> cloned(path, o.database_path)
                    &&& database_path is None ==> locate.ensures((), Ok(o.database_path))
                },
                Ok(ValidatedOptions::Read(_)) => false,
                Err(e) => database_path is None && locate.ensures((), Err(e)),
            },
        },
{
}

/// Whether a text is made of decimal digits.
pub open spec fn digits_only(s: Seq<char>) -> bool {
    forall|i: int| 0 <= i < s.len() ==> '0' <= #[trigger] s[i] <= '9'
}

/// What is behind a plus sign, if there is one.
pub open spec fn behind_plus(s: Seq<char>) -> Seq<char> {
    if s.len() > 0 && s[0] == '+' {
        s.subrange(1, s.len() as int)
    } else {
        s
    }
}

/// Whether reading digits from the left goes wrong at a place, where it had not before, of a
/// character that is none.
pub open spec fn is_no_digit_at(s: Seq<char>, k: int) -> bool {
    &&& 0 <= k < s.len()
    &&& digits_only(s.take(k))
    &&& number(s.take(k)) <= u64::MAX
    &&& !('0' <= s[k] <= '9')
}

/// Whether reading digits from the left goes wrong at a place of a number that is too large.
pub open spec fn is_too_large_at(s: Seq<char>, k: int) -> bool {
    &&& 0 <= k < s.len()
    &&& digits_only(s.take(k + 1))
    &&& number(s.take(k)) <= u64::MAX < number(s.take(k + 1))
}

proof fn lemma_number(s: Seq<char>)
    requires
        digits_only(s),
    ensures
        number(s) == digits_value(s),
        number(s) >= 0,
    decreases s.len(),
{
    if s.len() > 0 {
        let shorter = s.drop_last();
        assert forall|i: int| 0 <= i < shorter.len() implies '0' <= #[trigger] shorter[i] <= '9' by {
            assert('0' <= s[i] <= '9');
        }
        lemma_number(shorter);
        assert('0' <= s[s.len() - 1] <= '9');
    }
}

proof fn lemma_first_error(s: Seq<char>)
    ensures
        match first_error(s) {
            None => digits_only(s) && number(s) <= u64::MAX,
            Some(SecondsError::InvalidDigit) => exists|k: int| #[trigger] is_no_digit_at(s, k),
            Some(SecondsError::Overflow) => exists|k: int| #[trigger] is_too_large_at(s, k),
            Some(SecondsError::Empty) => false,
        },
    decreases s.len(),
{
    if s.len() > 0 {
        let shorter = s.drop_last();
        let n = shorter.len() as int;
        lemma_first_error(shorter);
        assert(s.take(n) =~= shorter);
        assert(s.take(n + 1) =~= s);
        match first_error(shorter) {
            Some(SecondsError::InvalidDigit) => {
                let k = choose|k: int| #[trigger] is_no_digit_at(shorter, k);
                assert(s.take(k) =~= shorter.take(k));
                assert(is_no_digit_at(s, k));
            },
            Some(SecondsError::Overflow) => {
                let k = choose|k: int| #[trigger] is_too_large_at(shorter, k);
                assert(s.take(k) =~= shorter.take(k));
                assert(s.take(k + 1) =~= shorter.take(k + 1));
                assert(is_too_large_at(s, k));
            },
            Some(SecondsError::Empty) => {},
            None => {
                if !is_digit(s.last()) {
                    assert(is_no_digit_at(s, n));
                } else {
                    assert forall|i: int| 0 <= i < s.len() implies '0' <= #[trigger] s[i] <= '9' by {
                        if i < n {
                            assert('0' <= shorter[i] <= '9');
                        }
                    }
                    lemma_number(s);
                    if digits_value(s) > u64::MAX {
                        assert(is_too_large_at(s, n));
                    }
                }
            },
        }
    } else {
        assert(number(s) == 0);
    }
}

/// A number of seconds is read where a text has digits, at least one, and nothing else behind at
/// most one plus sign, and the number that they stand for fits; it is that number. An empty text
/// is told as such; otherwise the first thing from the left that is wrong is told.
pub proof fn law_seconds_are_read(s: &str, r: Result<Seconds, SecondsError>)
    requires
        call_ensures(parse_seconds, (s,), r),
    ensures
        match r {
            Ok(seconds) => behind_plus(s@).len() > 0 && digits_only(behind_plus(s@)) && number(
                behind_plus(s@),
            ) == seconds.0,
            Err(SecondsError::Empty) => s@.len() == 0,
            Err(SecondsError::InvalidDigit) => s@.len() > 0 && (behind_plus(s@).len() == 0
                || exists|k: int| #[trigger] is_no_digit_at(behind_plus(s@), k)),
            Err(SecondsError::Overflow) => exists|k: int| #[trigger]
                is_too_large_at(behind_plus(s@), k),
        },
{
    let digits = digits_in(s@);
    assert(digits =~= behind_plus(s@));
    lemma_first_error(digits);
    if digits_only(digits) {
        lemma_number(digits);
    }
}

/// The errors are told apart, in these words.
pub proof fn law_errors_of_seconds_are_told(e: SecondsError, s: String)
    requires
        call_ensures(SecondsError::message, (&e,), s),
    ensures
        e is Empty ==> s@ == "cannot parse integer from empty string"@,
        e is InvalidDigit ==> s@ == "invalid digit found in string"@,
        e is Overflow ==> s@ == "number too large to fit in target type"@,
{
}

} // verus!
