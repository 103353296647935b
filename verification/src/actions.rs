//! What a key press means, and what the reader does about it.
use crate::modes::{Mode, Selected};
use vstd::prelude::*;

verus! {

/// What the reader waits for.
#[derive(Clone, Copy, Debug)]
pub enum Event<I> {
    /// Input from the user.
    Input(I),
    /// Some time has passed.
    Tick,
}

/// A key.
#[derive(Clone, Copy, Debug, PartialEq, Eq, Structural)]
pub enum KeyCode {
    Char(char),
    Left,
    Right,
    Up,
    Down,
    PageUp,
    PageDown,
    Enter,
    Esc,
    Backspace,
    Delete,
    /// A key that the reader has no use for.
    Other,
}

/// The modifiers that are held with a key.
#[derive(Clone, Copy, Debug, PartialEq, Eq, Structural)]
pub enum KeyModifiers {
    /// None.
    Plain,
    /// Control, and nothing else.
    Control,
    /// Any others.
    Other,
}

/// What happens to a key.
#[derive(Clone, Copy, Debug, PartialEq, Eq, Structural)]
pub enum KeyEventKind {
    Press,
    /// It is held, or let go.
    Other,
}

/// Something that happens to a key.
#[derive(Clone, Copy, Debug, PartialEq, Eq, Structural)]
pub struct KeyEvent {
    pub code: KeyCode,
    pub modifiers: KeyModifiers,
    pub kind: KeyEventKind,
}

/// What the meaning of a key depends on.
#[derive(Clone, Debug)]
pub struct AppState {
    pub mode: Mode,
    pub selected: Selected,
    pub error_flash_is_empty: bool,
    pub has_entries: bool,
    pub has_current_entry: bool,
    pub feed_subscription_input_is_empty: bool,
}

/// What the reader is to do.
#[derive(Clone, Copy, Debug, PartialEq, Eq, Structural)]
pub enum Action {
    Quit,
    MoveLeft,
    MoveDown,
    MoveUp,
    MoveRight,
    PageUp,
    PageDown,
    RefreshAll,
    RefreshFeed,
    ToggleHelp,
    ToggleReadMode,
    EnterEditingMode,
    OpenLinkInBrowser,
    CopyLinkToClipboard,
    ScrapeArticle,
    Tick,
    SubscribeToFeed,
    PushInputChar(char),
    DeleteInputChar,
    DeleteFeed,
    EnterNormalMode,
    ClearErrorFlash,
    SelectAndShowCurrentEntry,
    ToggleReadStatus,
}

/// Whether an entry, or the list of entries, is selected.
pub open spec fn entries_are_selected(selected: Selected) -> bool {
    selected is Entries || selected is Entry
}

/// The command that a letter gives by itself, whatever modifiers are held with it.
pub open spec fn letter_command(c: char) -> Option<Action> {
    if c == 'h' {
        Some(Action::MoveLeft)
    } else if c == 'l' {
        Some(Action::MoveRight)
    } else if c == 'j' {
        Some(Action::MoveDown)
    } else if c == 'k' {
        Some(Action::MoveUp)
    } else if c == '?' {
        Some(Action::ToggleHelp)
    } else if c == 'a' {
        Some(Action::ToggleReadMode)
    } else if c == 'e' || c == 'i' {
        Some(Action::EnterEditingMode)
    } else if c == 'c' {
        Some(Action::CopyLinkToClipboard)
    } else if c == 'o' {
        Some(Action::OpenLinkInBrowser)
    } else if c == 's' {
        Some(Action::ScrapeArticle)
    } else {
        None
    }
}

/// Whether a key asks to leave.
pub open spec fn asks_to_leave(code: KeyCode, modifiers: KeyModifiers) -> bool {
    ||| code == KeyCode::Esc
    ||| code == KeyCode::Char('q')
    ||| code == KeyCode::Char('c') && modifiers == KeyModifiers::Control
}

/// The command that a key gives in normal mode.
pub open spec fn command_for(app: AppState, code: KeyCode, modifiers: KeyModifiers) -> Option<
    Action,
> {
    if asks_to_leave(code, modifiers) {
        Some(
            if app.error_flash_is_empty {
                Action::Quit
            } else {
                Action::ClearErrorFlash
            },
        )
    } else {
        match code {
            KeyCode::Left => Some(Action::MoveLeft),
            KeyCode::Right => Some(Action::MoveRight),
            KeyCode::Down => Some(Action::MoveDown),
            KeyCode::Up => Some(Action::MoveUp),
            KeyCode::PageUp => Some(Action::PageUp),
            KeyCode::PageDown => Some(Action::PageDown),
            KeyCode::Enter => if entries_are_selected(app.selected) && app.has_entries
                && app.has_current_entry {
                Some(Action::SelectAndShowCurrentEntry)
            } else {
                None
            },
            KeyCode::Char(c) => if c == 'r' && modifiers == KeyModifiers::Plain {
                Some(
                    if app.selected is Feeds {
                        Action::RefreshFeed
                    } else {
                        Action::ToggleReadStatus
                    },
                )
            } else if c == 'x' && modifiers == KeyModifiers::Plain {
                Some(Action::RefreshAll)
            } else if c == 'u' && modifiers == KeyModifiers::Control {
                Some(Action::PageUp)
            } else if c == 'd' && modifiers == KeyModifiers::Control {
                Some(Action::PageDown)
            } else {
                letter_command(c)
            },
            _ => None,
        }
    }
}

/// What a key does to the text in editing mode.
pub open spec fn edit_for(app: AppState, code: KeyCode) -> Option<Action> {
    match code {
        KeyCode::Enter => if app.feed_subscription_input_is_empty {
            None
        } else {
            Some(Action::SubscribeToFeed)
        },
        KeyCode::Char(c) => Some(Action::PushInputChar(c)),
        KeyCode::Backspace => Some(Action::DeleteInputChar),
        KeyCode::Delete => Some(Action::DeleteFeed),
        KeyCode::Esc => Some(Action::EnterNormalMode),
        _ => None,
    }
}

/// What an event calls for. Of a key, only the press counts.
pub open spec fn action_for(app: AppState, event: Event<KeyEvent>) -> Option<Action> {
    match event {
        Event::Tick => Some(Action::Tick),
        Event::Input(key) => if key.kind != KeyEventKind::Press {
            None
        } else {
            match app.mode {
                Mode::Normal => command_for(app, key.code, key.modifiers),
                Mode::Editing => edit_for(app, key.code),
            }
        },
    }
}

/// What an event calls for.
pub fn get_action(app: &AppState, event: Event<KeyEvent>) -> (r: Option<Action>)
    ensures
        r == action_for(*app, event),
{
    match app.mode {
        Mode::Normal => match event {
            Event::Input(key_event) if key_event.kind == KeyEventKind::Press => {
                match (key_event.code, key_event.modifiers) {
                    (KeyCode::Char('q'), _)
                    | (KeyCode::Char('c'), KeyModifiers::Control)
                    | (KeyCode::Esc, _) => {
                        if !app.error_flash_is_empty {
                            Some(Action::ClearErrorFlash)
                        } else {
                            Some(Action::Quit)
                        }
                    },
                    (KeyCode::Char('r'), KeyModifiers::Plain) => match &app.selected {
                        Selected::Feeds => Some(Action::RefreshFeed),
                        _ => Some(Action::ToggleReadStatus),
                    },
                    (KeyCode::Char('x'), KeyModifiers::Plain) => Some(Action::RefreshAll),
                    (KeyCode::Left, _) | (KeyCode::Char('h'), _) => Some(Action::MoveLeft),
                    (KeyCode::Right, _) | (KeyCode::Char('l'), _) => Some(Action::MoveRight),
                    (KeyCode::Down, _) | (KeyCode::Char('j'), _) => Some(Action::MoveDown),
                    (KeyCode::Up, _) | (KeyCode::Char('k'), _) => Some(Action::MoveUp),
                    (KeyCode::PageUp, _) | (KeyCode::Char('u'), KeyModifiers::Control) => Some(
                        Action::PageUp,
                    ),
                    (KeyCode::PageDown, _) | (KeyCode::Char('d'), KeyModifiers::Control) => Some(
                        Action::PageDown,
                    ),
                    (KeyCode::Enter, _) => match &app.selected {
                        Selected::Entries | Selected::Entry(_) => {
                            if app.has_entries && app.has_current_entry {
                                Some(Action::SelectAndShowCurrentEntry)
                            } else {
                                None
                            }
                        },
                        _ => None,
                    },
                    (KeyCode::Char('?'), _) => Some(Action::ToggleHelp),
                    (KeyCode::Char('a'), _) => Some(Action::ToggleReadMode),
                    (KeyCode::Char('e'), _) | (KeyCode::Char('i'), _) => Some(
                        Action::EnterEditingMode,
                    ),
                    (KeyCode::Char('c'), _) => Some(Action::CopyLinkToClipboard),
                    (KeyCode::Char('o'), _) => Some(Action::OpenLinkInBrowser),
                    (KeyCode::Char('s'), _) => Some(Action::ScrapeArticle),
                    _ => None,
                }
            },
            Event::Input(_) => None,
            Event::Tick => Some(Action::Tick),
        },
        Mode::Editing => match event {
            Event::Input(key_event) if key_event.kind == KeyEventKind::Press => {
                match key_event.code {
                    KeyCode::Enter => {
                        if !app.feed_subscription_input_is_empty {
                            Some(Action::SubscribeToFeed)
                        } else {
                            None
                        }
                    },
                    KeyCode::Char(c) => Some(Action::PushInputChar(c)),
                    KeyCode::Backspace => Some(Action::DeleteInputChar),
                    KeyCode::Delete => Some(Action::DeleteFeed),
                    KeyCode::Esc => Some(Action::EnterNormalMode),
                    _ => None,
                }
            },
            Event::Input(_) => None,
            Event::Tick => Some(Action::Tick),
        },
    }
}

/// A change of the state of the reader.
#[derive(Clone, Copy, Debug, PartialEq, Eq, Structural)]
pub enum AppCall {
    SetShouldQuit(bool),
    RefreshFeeds,
    RefreshFeed,
    OnLeft,
    OnDown,
    OnUp,
    OnRight,
    PageUp,
    PageDown,
    ToggleHelp,
    ToggleReadMode,
    ToggleRead,
    SetMode(Mode),
    PutCurrentLinkInClipboard,
    OpenLinkInBrowser,
    ScrapeArticle,
    SubscribeToFeed,
    PushFeedSubscriptionInput(char),
    PopFeedSubscriptionInput,
    DeleteFeed,
    ClearErrorFlash,
    SelectAndShowCurrentEntry,
}

/// The change of state that an action makes. A tick makes none: it only has the reader drawn
/// again.
pub open spec fn call_for(action: Action) -> Option<AppCall> {
    match action {
        Action::Tick => None,
        Action::Quit => Some(AppCall::SetShouldQuit(true)),
        Action::RefreshAll => Some(AppCall::RefreshFeeds),
        Action::RefreshFeed => Some(AppCall::RefreshFeed),
        Action::MoveLeft => Some(AppCall::OnLeft),
        Action::MoveDown => Some(AppCall::OnDown),
        Action::MoveUp => Some(AppCall::OnUp),
        Action::MoveRight => Some(AppCall::OnRight),
        Action::PageUp => Some(AppCall::PageUp),
        Action::PageDown => Some(AppCall::PageDown),
        Action::ToggleHelp => Some(AppCall::ToggleHelp),
        Action::ToggleReadMode => Some(AppCall::ToggleReadMode),
        Action::ToggleReadStatus => Some(AppCall::ToggleRead),
        Action::EnterEditingMode => Some(AppCall::SetMode(Mode::Editing)),
        Action::CopyLinkToClipboard => Some(AppCall::PutCurrentLinkInClipboard),
        Action::OpenLinkInBrowser => Some(AppCall::OpenLinkInBrowser),
        Action::ScrapeArticle => Some(AppCall::ScrapeArticle),
        Action::SubscribeToFeed => Some(AppCall::SubscribeToFeed),
        Action::PushInputChar(c) => Some(AppCall::PushFeedSubscriptionInput(c)),
        Action::DeleteInputChar => Some(AppCall::PopFeedSubscriptionInput),
        Action::DeleteFeed => Some(AppCall::DeleteFeed),
        Action::EnterNormalMode => Some(AppCall::SetMode(Mode::Normal)),
        Action::ClearErrorFlash => Some(AppCall::ClearErrorFlash),
        Action::SelectAndShowCurrentEntry => Some(AppCall::SelectAndShowCurrentEntry),
    }
}

/// The change of state that an action makes.
pub fn update(action: Action) -> (r: Option<AppCall>)
    ensures
        r == call_for(action),
{
    match action {
        Action::Tick => None,
        Action::Quit => Some(AppCall::SetShouldQuit(true)),
        Action::RefreshAll => Some(AppCall::RefreshFeeds),
        Action::RefreshFeed => Some(AppCall::RefreshFeed),
        Action::MoveLeft => Some(AppCall::OnLeft),
        Action::MoveDown => Some(AppCall::OnDown),
        Action::MoveUp => Some(AppCall::OnUp),
        Action::MoveRight => Some(AppCall::OnRight),
        Action::PageUp => Some(AppCall::PageUp),
        Action::PageDown => Some(AppCall::PageDown),
        Action::ToggleHelp => Some(AppCall::ToggleHelp),
        Action::ToggleReadMode => Some(AppCall::ToggleReadMode),
        Action::ToggleReadStatus => Some(AppCall::ToggleRead),
        Action::EnterEditingMode => Some(AppCall::SetMode(Mode::Editing)),
        Action::CopyLinkToClipboard => Some(AppCall::PutCurrentLinkInClipboard),
        Action::OpenLinkInBrowser => Some(AppCall::OpenLinkInBrowser),
        Action::ScrapeArticle => Some(AppCall::ScrapeArticle),
        Action::SubscribeToFeed => Some(AppCall::SubscribeToFeed),
        Action::PushInputChar(c) => Some(AppCall::PushFeedSubscriptionInput(c)),
        Action::DeleteInputChar => Some(AppCall::PopFeedSubscriptionInput),
        Action::DeleteFeed => Some(AppCall::DeleteFeed),
        Action::EnterNormalMode => Some(AppCall::SetMode(Mode::Normal)),
        Action::ClearErrorFlash => Some(AppCall::ClearErrorFlash),
        Action::SelectAndShowCurrentEntry => Some(AppCall::SelectAndShowCurrentEntry),
    }
}

/// What woke the reader. `A` is work for the network or the database, `E` is an error of the
/// terminal.
#[derive(Debug)]
pub enum Wake<A, E> {
    /// The time for a tick has come.
    Tick,
    /// An event is due.
    Event(Event<KeyEvent>),
    /// Work is due.
    Io(A),
    /// The terminal was asked whether there is input.
    Polled(Result<bool, E>),
    /// Input was read from the terminal: a key, or something else.
    Read(Option<KeyEvent>),
    /// An event was dealt with. Says whether the reader should quit now.
    Updated(bool),
}

/// What the reader does in a turn. It draws itself before each.
#[derive(Debug)]
pub enum Turn<A, E> {
    /// An event is sent, to be due later.
    Send(Event<KeyEvent>),
    /// The state is changed, if there is a change to make; `Wake::Updated` comes next.
    Update(Option<AppCall>),
    /// Work is done.
    Io(A),
    /// Input is read from the terminal.
    ReadInput,
    /// Nothing.
    Wait,
    /// The terminal is given back, and the reader ends.
    Leave,
    /// The reader ends with an error.
    Fail(E),
}

/// What the reader does once it was woken.
pub open spec fn turn_for<A, E>(app: AppState, wake: Wake<A, E>) -> Turn<A, E> {
    match wake {
        Wake::Tick => Turn::Send(Event::Tick),
        Wake::Event(event) => Turn::Update(
            match action_for(app, event) {
                Some(action) => call_for(action),
                None => None,
            },
        ),
        Wake::Io(work) => Turn::Io(work),
        Wake::Polled(Ok(ready)) => if ready {
            Turn::ReadInput
        } else {
            Turn::Wait
        },
        Wake::Polled(Err(e)) => Turn::Fail(e),
        Wake::Read(Some(key)) => Turn::Send(Event::Input(key)),
        Wake::Read(None) => Turn::Wait,
        Wake::Updated(should_quit) => if should_quit {
            Turn::Leave
        } else {
            Turn::Wait
        },
    }
}

/// What the reader does once it was woken.
pub fn run_reader<A, E>(app: &AppState, wake: Wake<A, E>) -> (r: Turn<A, E>)
    ensures
        r == turn_for(*app, wake),
{
    match wake {
        Wake::Tick => Turn::Send(Event::Tick),
        Wake::Event(event) => match get_action(app, event) {
            Some(action) => Turn::Update(update(action)),
            None => Turn::Update(None),
        },
        Wake::Io(work) => Turn::Io(work),
        Wake::Polled(Ok(true)) => Turn::ReadInput,
        Wake::Polled(Ok(false)) => Turn::Wait,
        Wake::Polled(Err(e)) => Turn::Fail(e),
        Wake::Read(Some(key)) => Turn::Send(Event::Input(key)),
        Wake::Read(None) => Turn::Wait,
        Wake::Updated(true) => Turn::Leave,
        Wake::Updated(false) => Turn::Wait,
    }
}

/// The reader leaves exactly where it should quit once an event was dealt with, and at no other
/// time.
pub proof fn law_leaving_takes_an_event<A, E>(app: AppState, wake: Wake<A, E>)
    ensures
        turn_for(app, wake) is Leave <==> wake == Wake::<A, E>::Updated(true),
{
}

/// An error is never left unseen: while one is shown, no event makes the reader quit.
pub proof fn law_no_quitting_over_an_error(app: AppState, event: Event<KeyEvent>)
    ensures
        action_for(app, event) == Some(Action::Quit) ==> app.error_flash_is_empty && app.mode
            == Mode::Normal,
{
}

/// Leaving takes at most two presses: the key that clears an error quits once it is cleared.
pub proof fn law_clearing_then_quitting(app: AppState, event: Event<KeyEvent>)
    requires
        action_for(app, event) == Some(Action::ClearErrorFlash),
    ensures
        action_for(AppState { error_flash_is_empty: true, ..app }, event) == Some(Action::Quit),
{
}

/// Text is never taken for a command: in editing mode a character that is pressed goes into the
/// text, whatever character it is.
pub proof fn law_text_is_no_command(app: AppState, c: char, modifiers: KeyModifiers)
    requires
        app.mode == Mode::Editing,
    ensures
        action_for(
            app,
            Event::Input(
                KeyEvent { code: KeyCode::Char(c), modifiers, kind: KeyEventKind::Press },
            ),
        ) == Some(Action::PushInputChar(c)),
{
}

/// A feed is removed, and text changed, only in editing mode.
pub proof fn law_normal_mode_removes_nothing(app: AppState, event: Event<KeyEvent>)
    requires
        app.mode == Mode::Normal,
    ensures
        action_for(app, event) != Some(Action::DeleteFeed),
        action_for(app, event) != Some(Action::SubscribeToFeed),
        action_for(app, event) != Some(Action::DeleteInputChar),
        action_for(app, event) matches Some(action) ==> !(action is PushInputChar),
{
}

/// Nothing but the press of a key counts.
pub proof fn law_only_presses_count(app: AppState, key: KeyEvent)
    requires
        key.kind != KeyEventKind::Press,
    ensures
        action_for(app, Event::Input(key)) is None,
{
}

/// A tick is a tick in every state, and changes nothing.
pub proof fn law_a_tick_changes_nothing(app: AppState)
    ensures
        action_for(app, Event::Tick) == Some(Action::Tick),
        call_for(Action::Tick) is None,
{
}

/// The mode is changed by two actions only, to editing in normal mode and to normal in editing
/// mode.
pub proof fn law_modes_alternate(app: AppState, event: Event<KeyEvent>, mode: Mode)
    requires
        action_for(app, event) is Some,
        call_for(action_for(app, event)->0) == Some(AppCall::SetMode(mode)),
    ensures
        mode != app.mode,
{
}

/// No two actions make the same change.
pub proof fn law_actions_differ(a: Action, b: Action)
    requires
        call_for(a) == call_for(b),
    ensures
        a == b,
{
}

} // verus!
