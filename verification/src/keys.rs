//! What the client does on a key, and on what the reader hands over.

use crate::inbox::{handle_json, message_in, notifies, Notice};
use crate::json::Json;
use crate::laws::{arrival_keeps_consistent, key_keeps_consistent};
use crate::listing::clamp_selected;
use crate::model::{App, Focus, State};
use crate::outbox::send_message;
use crate::wire::{Params, Request};
use vstd::prelude::*;

verus! {

/// The id of the first message that is sent.
pub const FIRST_SEND_ID: u64 = 100;

/// The keys that mean something to the client.
#[derive(Debug, Clone, Copy, PartialEq, Eq, Structural)]
pub enum Code {
    Char(char),
    Enter,
    Esc,
    Backspace,
    Tab,
    Up,
    Down,
    Other,
}

/// A key event: `pressed` tells a key going down from one that repeats or is
/// let go, `ctrl` whether the control key is held.
#[derive(Debug, Clone, Copy, PartialEq, Eq, Structural)]
pub struct Key {
    pub code: Code,
    pub ctrl: bool,
    pub pressed: bool,
}

/// What is to be done after a key.
#[derive(Debug)]
pub enum Action {
    /// Wait for the next key.
    Continue,
    /// End the program.
    Quit,
    /// Make the call, then wait for the next key.
    Send(Request),
}

impl State {
    /// The key ends the program: Ctrl-C always does, `q` does in the list.
    pub open spec fn quits(self, key: Key) -> bool {
        key.pressed && ((key.code == Code::Char('c') && key.ctrl) || (self.focus == Focus::List
            && key.code == Code::Char('q')))
    }

    /// The key sends what was written: Enter, where something was.
    pub open spec fn sends(self, key: Key) -> bool {
        key.pressed && self.focus == Focus::Input && key.code == Code::Enter && self.input.len() > 0
    }

    /// A key while the filter is typed.
    pub open spec fn after_search_key(self, code: Code) -> State {
        match code {
            Code::Esc => (State { search: Seq::empty(), focus: Focus::List, ..self }).clamped(),
            Code::Backspace => (State { search: without_last(self.search), ..self }).clamped(),
            Code::Enter => State { focus: Focus::List, ..self },
            Code::Char(ch) => State { search: self.search.push(ch), selected: Some(0nat), ..self },
            _ => self,
        }
    }

    /// A key while a message is written.
    pub open spec fn after_input_key(self, code: Code) -> State {
        match code {
            Code::Esc => State { focus: Focus::List, ..self },
            Code::Tab => State { focus: Focus::List, ..self },
            Code::Enter => if self.input.len() > 0 {
                self.after_sending()
            } else {
                self
            },
            Code::Backspace => State { input: without_last(self.input), ..self },
            Code::Char(ch) => State { input: self.input.push(ch), ..self },
            _ => self,
        }
    }

    /// The highlighted row, the first where there is none.
    pub open spec fn row(self) -> nat {
        match self.selected {
            Some(i) => i,
            None => 0,
        }
    }

    /// The row is highlighted.
    pub open spec fn at_row(self, row: nat) -> State {
        State { selected: Some(row), ..self }
    }

    /// The chat of the highlighted contact is opened, to be written to.
    pub open spec fn opened(self) -> State {
        State {
            open_id: match self.highlighted() {
                Some(contact) => Some(contact.id),
                None => None,
            },
            focus: Focus::Input,
            ..self
        }
    }

    /// A key in the list.
    pub open spec fn after_list_key(self, code: Code) -> State {
        let settled = State { pending_g: false, ..self };
        match code {
            Code::Char('/') => State {
                focus: Focus::Search,
                search: Seq::empty(),
                selected: Some(0nat),
                ..settled
            },
            Code::Char('i') => settled.opened(),
            Code::Enter => settled.opened(),
            Code::Char('j') => settled.at_row(self.row_below()),
            Code::Down => settled.at_row(self.row_below()),
            Code::Char('k') => settled.at_row(self.row_above()),
            Code::Up => settled.at_row(self.row_above()),
            Code::Char('g') => if self.pending_g {
                settled.at_row(0)
            } else {
                State { pending_g: true, ..self }
            },
            Code::Char('G') => settled.at_row(self.last_row()),
            Code::Tab => State { focus: Focus::Input, ..settled },
            _ => settled,
        }
    }

    /// The row below the highlighted one, as far as the list goes.
    pub open spec fn row_below(self) -> nat {
        if self.row() < self.last_row() {
            self.row() + 1
        } else {
            self.last_row()
        }
    }

    /// The row above the highlighted one, as far as the list goes.
    pub open spec fn row_above(self) -> nat {
        if self.row() > 0 {
            (self.row() - 1) as nat
        } else {
            0
        }
    }

    /// The state after a key.
    pub open spec fn after_key(self, key: Key) -> State {
        if !key.pressed || self.quits(key) {
            self
        } else {
            match self.focus {
                Focus::Search => self.after_search_key(key.code),
                Focus::Input => self.after_input_key(key.code),
                Focus::List => self.after_list_key(key.code),
            }
        }
    }

    /// What a key asks for, where `id` is the id of the next call.
    pub open spec fn asks(self, key: Key, id: int, action: Action) -> bool {
        if self.quits(key) {
            action is Quit
        } else if self.sends(key) && self.open_id is Some {
            action matches Action::Send(request) && Some(request@) == self.send_request(id)
        } else {
            action is Continue
        }
    }
}

/// A text without its last character.
pub open spec fn without_last(s: Seq<char>) -> Seq<char> {
    if s.len() == 0 {
        s
    } else {
        s.drop_last()
    }
}

fn search_key(app: &mut App, code: Code)
    ensures
        final(app)@ == old(app)@.after_search_key(code),
{
    match code {
        Code::Esc => {
            app.search = String::new();
            app.focus = Focus::List;
            clamp_selected(app);
        },
        Code::Backspace => {
            app.search.pop();
            clamp_selected(app);
        },
        Code::Enter => {
            app.focus = Focus::List;
        },
        Code::Char(ch) => {
            app.search.push(ch);
            app.selected = Some(0);
        },
        _ => {},
    }
}

fn input_key(app: &mut App, code: Code, next_id: &mut u64) -> (call: Option<Request>)
    requires
        code == Code::Enter && old(app)@.input.len() > 0 ==> *old(next_id) < u64::MAX && (old(
            app,
        ).open_id is Some ==> old(app).msg_seq < usize::MAX),
    ensures
        final(app)@ == old(app)@.after_input_key(code),
        *final(next_id) == *old(next_id) + (if code == Code::Enter && old(app)@.input.len() > 0 {
            1int
        } else {
            0int
        }),
        code == Code::Enter && old(app)@.input.len() > 0 && old(app)@.open_id is Some ==> call
            is Some && Some(call->0@) == old(app)@.send_request(*old(next_id) as int),
        !(code == Code::Enter && old(app)@.input.len() > 0 && old(app)@.open_id is Some) ==> call
            is None,
{
    match code {
        Code::Esc => {
            app.focus = Focus::List;
        },
        Code::Tab => {
            app.focus = Focus::List;
        },
        Code::Enter => {
            if !app.input.as_str().is_empty() {
                let call = send_message(app, *next_id);
                *next_id = *next_id + 1;
                return call;
            }
        },
        Code::Backspace => {
            app.input.pop();
        },
        Code::Char(ch) => {
            app.input.push(ch);
        },
        _ => {},
    }
    None
}

fn row_of(app: &App) -> (row: usize)
    ensures
        row == app@.row(),
{
    match app.selected {
        Some(i) => i,
        None => 0,
    }
}

fn select_below(app: &mut App)
    ensures
        final(app)@ == old(app)@.at_row(old(app)@.row_below()),
{
    let last = app.last_row();
    let row = row_of(app);
    app.selected = Some(
        if row < last {
            row + 1
        } else {
            last
        },
    );
}

fn select_above(app: &mut App)
    ensures
        final(app)@ == old(app)@.at_row(old(app)@.row_above()),
{
    let row = row_of(app);
    app.selected = Some(
        if row > 0 {
            row - 1
        } else {
            0
        },
    );
}

fn open_chat(app: &mut App)
    ensures
        final(app)@ == old(app)@.opened(),
{
    app.open_id = app.highlighted_id();
    app.focus = Focus::Input;
}

fn list_key(app: &mut App, code: Code)
    ensures
        final(app)@ == old(app)@.after_list_key(code),
{
    let pending = app.pending_g;
    app.pending_g = false;
    match code {
        Code::Char('/') => {
            app.focus = Focus::Search;
            app.search = String::new();
            app.selected = Some(0);
        },
        Code::Char('i') | Code::Enter => open_chat(app),
        Code::Char('j') | Code::Down => select_below(app),
        Code::Char('k') | Code::Up => select_above(app),
        Code::Char('g') => {
            if pending {
                app.selected = Some(0);
            } else {
                app.pending_g = true;
            }
        },
        Code::Char('G') => {
            app.selected = Some(app.last_row());
        },
        Code::Tab => {
            app.focus = Focus::Input;
        },
        _ => {},
    }
}

/// Takes in a key. The next call goes out under `next_id`, which a key that
/// sends uses up. A consistent state stays consistent.
pub fn handle_key(app: &mut App, key: Key, next_id: &mut u64) -> (action: Action)
    requires
        old(app)@.sends(key) ==> *old(next_id) < u64::MAX,
        old(app)@.sends(key) && old(app).open_id is Some ==> old(app).msg_seq < usize::MAX,
    ensures
        final(app)@ == old(app)@.after_key(key),
        old(app)@.asks(key, *old(next_id) as int, action),
        *final(next_id) == *old(next_id) + (if old(app)@.sends(key) {
            1int
        } else {
            0int
        }),
        action is Quit <==> key.pressed && ((key.code == Code::Char('c') && key.ctrl) || (old(
            app,
        ).focus == Focus::List && key.code == Code::Char('q'))),
        action is Send <==> key.pressed && old(app).focus == Focus::Input && key.code == Code::Enter
            && old(app).input@.len() > 0 && old(app).open_id is Some,
        action matches Action::Send(request) ==> {
            &&& request.method@ == "send"@
            &&& request.id == *old(next_id)
            &&& match request.params {
                Params::Group { group_id, message } => group_id@ == old(app).open_id->0@ && message@
                    == old(app).input@,
                Params::Direct { recipient, message } => recipient@ == old(app).open_id->0@
                    && message@ == old(app).input@,
                Params::Empty => false,
            }
        },
        old(app)@.consistent() ==> final(app)@.consistent(),
{
    proof {
        if app@.consistent() {
            key_keeps_consistent(app@, key);
        }
    }
    if !key.pressed {
        return Action::Continue;
    }
    if key.code == Code::Char('c') && key.ctrl {
        return Action::Quit;
    }
    match app.focus {
        Focus::Search => {
            search_key(app, key.code);
            Action::Continue
        },
        Focus::Input => match input_key(app, key.code, next_id) {
            Some(request) => Action::Send(request),
            None => Action::Continue,
        },
        Focus::List => {
            if key.code == Code::Char('q') {
                return Action::Quit;
            }
            list_key(app, key.code);
            Action::Continue
        },
    }
}

/// What the reader of `signal-cli`'s output has for the client.
#[derive(Debug)]
pub enum Received {
    /// A value.
    Message(Json),
    /// Nothing at the moment.
    Empty,
    /// Nothing any more: `signal-cli` has gone.
    Disconnected,
}

impl State {
    /// The state after the reader was asked.
    pub open spec fn after_received(self, received: Received) -> State {
        match received {
            Received::Message(v) => self.after(v@),
            Received::Empty => self,
            Received::Disconnected => State { connected: false, ..self },
        }
    }
}

/// Takes in what the reader has, and says whether to ask it again before the
/// screen is drawn, and what to show on the desktop. A consistent state stays
/// consistent.
pub fn handle_received(app: &mut App, received: &Received) -> (next: (bool, Option<Notice>))
    requires
        received matches Received::Message(v) && message_in(v@) is Some ==> old(app).msg_seq
            < usize::MAX,
    ensures
        final(app)@ == old(app)@.after_received(*received),
        next.0 == (received is Message),
        match received {
            Received::Message(v) => notifies(v@, next.1),
            _ => next.1 is None,
        },
        old(app)@.consistent() ==> final(app)@.consistent(),
{
    proof {
        if app@.consistent() {
            arrival_keeps_consistent(app@, *received);
        }
    }
    match received {
        Received::Message(v) => {
            let notice = handle_json(app, v);
            (true, notice)
        },
        Received::Empty => (false, None),
        Received::Disconnected => {
            app.connected = false;
            (false, None)
        },
    }
}

} // verus!
