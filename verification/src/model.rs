//! What the client knows: contacts, messages, and where the user is.

use vstd::hash_map::StringHashMap;
use vstd::prelude::*;

verus! {

/// Which part of the screen takes the keys.
#[derive(Debug, Clone, Copy, PartialEq, Eq, Structural)]
pub enum Focus {
    List,
    Search,
    Input,
}

/// Someone to write to: `id` is a phone number or a group id.
#[derive(Debug)]
pub struct Contact {
    pub id: String,
    pub name: String,
    pub is_group: bool,
}

/// A message that was sent or received.
#[derive(Debug)]
pub struct Msg {
    pub from: String,
    pub text: String,
}

/// The state of the client.
pub struct App {
    pub contacts: Vec<Contact>,
    /// The highlighted row of the contact list.
    pub selected: Option<usize>,
    /// All messages, oldest first, each with the id of its chat.
    pub messages: Vec<(String, Msg)>,
    /// For each chat with a message, the number of the latest one.
    pub last_msg_seq: StringHashMap<usize>,
    /// How many messages there were.
    pub msg_seq: usize,
    /// The message that is being written.
    pub input: String,
    pub focus: Focus,
    /// The filter on the contact list.
    pub search: String,
    /// Whether `signal-cli` still runs.
    pub connected: bool,
    /// The last key in the list was a first `g`.
    pub pending_g: bool,
    /// The chat that is open; it does not follow the highlighted row.
    pub open_id: Option<String>,
    pub status: String,
}

/// A contact, mathematically.
pub struct ContactView {
    pub id: Seq<char>,
    pub name: Seq<char>,
    pub is_group: bool,
}

/// A message with the id of its chat, mathematically.
pub struct MessageView {
    pub chat: Seq<char>,
    pub from: Seq<char>,
    pub text: Seq<char>,
}

/// The state of the client, mathematically.
#[verifier::ext_equal]
pub struct State {
    pub contacts: Seq<ContactView>,
    pub selected: Option<nat>,
    pub messages: Seq<MessageView>,
    pub last_msg_seq: Map<Seq<char>, int>,
    pub msg_seq: int,
    pub input: Seq<char>,
    pub focus: Focus,
    pub search: Seq<char>,
    pub connected: bool,
    pub pending_g: bool,
    pub open_id: Option<Seq<char>>,
    pub status: Seq<char>,
}

impl View for Contact {
    type V = ContactView;

    open spec fn view(&self) -> ContactView {
        ContactView { id: self.id@, name: self.name@, is_group: self.is_group }
    }
}

/// A message of the log, mathematically.
pub open spec fn message_view(entry: (String, Msg)) -> MessageView {
    MessageView { chat: entry.0@, from: entry.1.from@, text: entry.1.text@ }
}

/// An optional text, mathematically.
pub open spec fn text_view(s: Option<String>) -> Option<Seq<char>> {
    match s {
        Some(s) => Some(s@),
        None => None,
    }
}

/// An optional row, mathematically.
pub open spec fn row_view(row: Option<usize>) -> Option<nat> {
    match row {
        Some(i) => Some(i as nat),
        None => None,
    }
}

/// The numbers of the latest messages, mathematically.
pub open spec fn seq_views(last: Map<Seq<char>, usize>) -> Map<Seq<char>, int> {
    last.map_values(|n: usize| n as int)
}

/// The contacts, mathematically.
pub open spec fn contact_views(contacts: Seq<Contact>) -> Seq<ContactView> {
    contacts.map_values(|c: Contact| c@)
}

/// The messages, mathematically.
pub open spec fn message_views(messages: Seq<(String, Msg)>) -> Seq<MessageView> {
    messages.map_values(|entry: (String, Msg)| message_view(entry))
}

impl View for App {
    type V = State;

    open spec fn view(&self) -> State {
        State {
            contacts: contact_views(self.contacts@),
            selected: row_view(self.selected),
            messages: message_views(self.messages@),
            last_msg_seq: seq_views(self.last_msg_seq@),
            msg_seq: self.msg_seq as int,
            input: self.input@,
            focus: self.focus,
            search: self.search@,
            connected: self.connected,
            pending_g: self.pending_g,
            open_id: text_view(self.open_id),
            status: self.status@,
        }
    }
}

/// How recent a chat is, where `last` holds the number of the latest message
/// of each chat: 0 for a chat without one.
pub open spec fn recency_in(last: Map<Seq<char>, int>, id: Seq<char>) -> int {
    if last.contains_key(id) {
        last[id]
    } else {
        0
    }
}

impl State {
    /// The state in which the client starts.
    pub open spec fn initial() -> State {
        State {
            contacts: Seq::empty(),
            selected: Some(0nat),
            messages: Seq::empty(),
            last_msg_seq: Map::empty(),
            msg_seq: 0,
            input: Seq::empty(),
            focus: Focus::List,
            search: Seq::empty(),
            connected: true,
            pending_g: false,
            open_id: None,
            status: "loading contacts..."@,
        }
    }

    /// How recent a chat is: the number of its latest message, 0 where it has
    /// none.
    pub open spec fn recency(self, id: Seq<char>) -> int {
        recency_in(self.last_msg_seq, id)
    }

    /// A message joins the log as the latest of its chat.
    pub open spec fn with_message(self, message: MessageView) -> State {
        State {
            messages: self.messages.push(message),
            last_msg_seq: self.last_msg_seq.insert(message.chat, self.msg_seq + 1),
            msg_seq: self.msg_seq + 1,
            ..self
        }
    }
}

impl App {
    /// The client as it starts: nothing is known yet, and the first row of the
    /// list is highlighted.
    pub fn new() -> (app: App)
        ensures
            app@ == State::initial(),
    {
        let app = App {
            contacts: Vec::new(),
            selected: Some(0),
            messages: Vec::new(),
            last_msg_seq: StringHashMap::new(),
            msg_seq: 0,
            input: String::new(),
            focus: Focus::List,
            search: String::new(),
            connected: true,
            pending_g: false,
            open_id: None,
            status: "loading contacts...".to_string(),
        };
        assert(app@ =~= State::initial());
        app
    }

    /// How recent a chat is.
    pub fn recency(&self, id: &str) -> (seq: usize)
        ensures
            seq == self@.recency(id@),
    {
        match self.last_msg_seq.get(id) {
            Some(seq) => *seq,
            None => 0,
        }
    }

    /// Logs a message.
    pub fn record(&mut self, chat: String, from: String, text: String)
        requires
            old(self).msg_seq < usize::MAX,
        ensures
            final(self)@ == old(self)@.with_message(
                (MessageView { chat: chat@, from: from@, text: text@ }),
            ),
    {
        let ghost before = self@;
        let ghost message = MessageView { chat: chat@, from: from@, text: text@ };
        self.msg_seq = self.msg_seq + 1;
        self.last_msg_seq.insert(chat.clone(), self.msg_seq);
        self.messages.push((chat, Msg { from, text }));
        assert(self@.messages =~= before.messages.push(message));
        assert(self@.last_msg_seq =~= before.last_msg_seq.insert(message.chat, before.msg_seq + 1));
    }
}

} // verus!
