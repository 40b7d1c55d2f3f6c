//! What the screen shows. Colours are `0xRRGGBB`.

use crate::listing::shown;
use crate::model::{message_view, App, Contact, ContactView, Focus, MessageView, Msg, State};
use crate::text::{joined, same_text};
use vstd::prelude::*;

verus! {

pub const BG: u32 = 0x111110;

pub const BG3: u32 = 0x31302c;

pub const DIM: u32 = 0x575651;

pub const FG: u32 = 0xcecbc1;

pub const CYAN: u32 = 0x5f9b95;

pub const GREEN: u32 = 0x87965f;

pub const RED: u32 = 0xa85f59;

pub const BLUE: u32 = 0x6f8faf;

/// The name of the first contact with the id.
pub open spec fn name_of(contacts: Seq<ContactView>, id: Seq<char>) -> Option<Seq<char>>
    decreases contacts.len(),
{
    if contacts.len() == 0 {
        None
    } else if contacts[0].id == id {
        Some(contacts[0].name)
    } else {
        name_of(contacts.skip(1), id)
    }
}

/// How a contact is listed: groups are marked.
pub open spec fn label(contact: ContactView) -> Seq<char> {
    if contact.is_group {
        "# "@ + contact.name
    } else {
        contact.name
    }
}

/// The messages of a chat, oldest first.
pub open spec fn messages_of(messages: Seq<MessageView>, id: Seq<char>) -> Seq<MessageView> {
    messages.filter(|m: MessageView| m.chat == id)
}

impl State {
    /// The chat on show: the open one, or where none is open that of the
    /// highlighted contact.
    pub open spec fn chat_id(self) -> Option<Seq<char>> {
        match self.open_id {
            Some(id) => Some(id),
            None => match self.highlighted() {
                Some(contact) => Some(contact.id),
                None => None,
            },
        }
    }

    /// The name above the chat on show: that of the first contact in the list
    /// with its id, else of the first contact at all.
    pub open spec fn chat_title(self) -> Seq<char> {
        match self.chat_id() {
            Some(id) => match name_of(self.filtered(), id) {
                Some(name) => name,
                None => match name_of(self.contacts, id) {
                    Some(name) => name,
                    None => Seq::empty(),
                },
            },
            None => Seq::empty(),
        }
    }

    /// The messages of the chat on show, oldest first.
    pub open spec fn chat_messages(self) -> Seq<MessageView> {
        match self.chat_id() {
            Some(id) => messages_of(self.messages, id),
            None => Seq::empty(),
        }
    }

    /// The title of the contact list: the filter while it is typed.
    pub open spec fn list_title(self) -> Seq<char> {
        if self.focus == Focus::Search {
            "/ "@ + self.search + "_"@
        } else {
            "Contacts"@
        }
    }
}

/// The colour of a border.
pub open spec fn border_colour(active: bool) -> u32 {
    if active {
        CYAN
    } else {
        BG3
    }
}

/// The colour of a title.
pub open spec fn title_colour(active: bool) -> u32 {
    if active {
        CYAN
    } else {
        DIM
    }
}

/// The colour of the border of a part of the screen, active or not.
pub fn border_style(active: bool) -> (colour: u32)
    ensures
        colour == border_colour(active),
{
    if active {
        CYAN
    } else {
        BG3
    }
}

/// The colour of the title of a part of the screen, active or not.
pub fn title_style(active: bool) -> (colour: u32)
    ensures
        colour == title_colour(active),
{
    if active {
        CYAN
    } else {
        DIM
    }
}

/// The contact list.
#[derive(Debug)]
pub struct Sidebar {
    pub rows: Vec<String>,
    pub title: String,
    pub active: bool,
}

/// The rows of the contact list, its title, and whether it is active: it is
/// unless a message is written.
pub fn sidebar(app: &App) -> (bar: Sidebar)
    ensures
        bar.rows@.len() == app@.filtered().len(),
        forall|i: int|
            0 <= i < bar.rows@.len() ==> (#[trigger] bar.rows@[i])@ == label(app@.filtered()[i]),
        forall|i: int|
            0 <= i < bar.rows@.len() ==> (#[trigger] bar.rows@[i])@ == (if app@.filtered()[i].is_group {
                "# "@ + app@.filtered()[i].name
            } else {
                app@.filtered()[i].name
            }),
        bar.title@ == app@.list_title(),
        app.focus == Focus::Search ==> bar.title@ == "/ "@ + app.search@ + "_"@,
        app.focus != Focus::Search ==> bar.title@ == "Contacts"@,
        bar.active == (app@.focus != Focus::Input),
{
    let contacts = app.filtered();
    let ghost listed = shown(contacts@);
    let mut rows: Vec<String> = Vec::new();
    let mut i: usize = 0;
    while i < contacts.len()
        invariant
            i <= contacts.len(),
            rows.len() == i,
            listed == shown(contacts@),
            forall|k: int| 0 <= k < i ==> (#[trigger] rows@[k])@ == label(listed[k]),
        decreases contacts.len() - i,
    {
        assert(listed[i as int] == contacts@[i as int]@);
        if contacts[i].is_group {
            rows.push(joined("# ", contacts[i].name.as_str()));
        } else {
            rows.push(contacts[i].name.clone());
        }
        i = i + 1;
    }
    let title = match app.focus {
        Focus::Search => joined(joined("/ ", app.search.as_str()).as_str(), "_"),
        _ => "Contacts".to_string(),
    };
    let active = match app.focus {
        Focus::Input => false,
        _ => true,
    };
    Sidebar { rows, title, active }
}

/// A message on show: who wrote it, in a colour, and what.
#[derive(Debug)]
pub struct ChatLine {
    pub author: String,
    pub colour: u32,
    pub text: String,
}

/// How a message is shown: the user's own stand out by their colour.
pub open spec fn shows(line: ChatLine, message: MessageView) -> bool {
    &&& line.author@ == message.from + ": "@
    &&& line.colour == (if message.from == "me"@ {
        BLUE
    } else {
        GREEN
    })
    &&& line.text@ == message.text
}

/// The chat on show.
#[derive(Debug)]
pub struct Conversation {
    pub title: String,
    pub lines: Vec<ChatLine>,
}

fn find_name(contacts: &Vec<&Contact>, id: &String) -> (name: Option<String>)
    ensures
        match name_of(shown(contacts@), id@) {
            Some(view) => name is Some && name->0@ == view,
            None => name is None,
        },
{
    let ghost all = shown(contacts@);
    let mut i: usize = 0;
    assert(all.skip(0) =~= all);
    while i < contacts.len()
        invariant
            i <= contacts.len(),
            all == shown(contacts@),
            name_of(all, id@) == name_of(all.skip(i as int), id@),
        decreases contacts.len() - i,
    {
        assert(all.skip(i as int)[0] == contacts@[i as int]@);
        if contacts[i].id == *id {
            return Some(contacts[i].name.clone());
        }
        assert(all.skip(i as int).skip(1) =~= all.skip(i + 1));
        i = i + 1;
    }
    assert(all.skip(i as int).len() == 0);
    None
}

fn all_contacts(app: &App) -> (contacts: Vec<&Contact>)
    ensures
        shown(contacts@) == app@.contacts,
{
    let mut contacts: Vec<&Contact> = Vec::new();
    let mut i: usize = 0;
    while i < app.contacts.len()
        invariant
            i <= app.contacts.len(),
            contacts.len() == i,
            forall|k: int| 0 <= k < i ==> *(#[trigger] contacts@[k]) == app.contacts@[k],
        decreases app.contacts.len() - i,
    {
        contacts.push(&app.contacts[i]);
        i = i + 1;
    }
    assert(shown(contacts@) =~= app@.contacts);
    contacts
}

fn show_message(message: &Msg, Ghost(chat): Ghost<Seq<char>>) -> (line: ChatLine)
    ensures
        shows(line, MessageView { chat, from: message.from@, text: message.text@ }),
{
    ChatLine {
        author: joined(message.from.as_str(), ": "),
        colour: if same_text(message.from.as_str(), "me") {
            BLUE
        } else {
            GREEN
        },
        text: message.text.clone(),
    }
}

/// The messages of a chat, as they are shown.
fn chat_lines(app: &App, id: &String) -> (lines: Vec<ChatLine>)
    ensures
        lines@.len() == messages_of(app@.messages, id@).len(),
        forall|i: int|
            0 <= i < lines@.len() ==> shows(
                #[trigger] lines@[i],
                messages_of(app@.messages, id@)[i],
            ),
{
    let ghost log = app@.messages;
    let mut lines: Vec<ChatLine> = Vec::new();
    let mut i: usize = 0;
    proof {
        reveal(Seq::filter);
    }
    while i < app.messages.len()
        invariant
            i <= app.messages.len(),
            log == app@.messages,
            lines@.len() == messages_of(log.take(i as int), id@).len(),
            forall|k: int|
                0 <= k < lines@.len() ==> shows(
                    #[trigger] lines@[k],
                    messages_of(log.take(i as int), id@)[k],
                ),
        decreases app.messages.len() - i,
    {
        proof {
            reveal(Seq::filter);
            assert(log.take(i + 1).drop_last() =~= log.take(i as int));
            assert(log.take(i + 1).last() == message_view(app.messages@[i as int]));
        }
        if app.messages[i].0 == *id {
            lines.push(show_message(&app.messages[i].1, Ghost(id@)));
        }
        i = i + 1;
    }
    assert(log.take(log.len() as int) =~= log);
    lines
}

/// The id of the chat on show.
pub fn chat_id(app: &App) -> (id: Option<String>)
    ensures
        match app@.chat_id() {
            Some(view) => id is Some && id->0@ == view,
            None => id is None,
        },
{
    match &app.open_id {
        Some(id) => Some(id.clone()),
        None => app.highlighted_id(),
    }
}

/// The title and the messages of the chat on show.
pub fn conversation(app: &App) -> (chat: Conversation)
    ensures
        chat.title@ == app@.chat_title(),
        chat.lines@.len() == app@.chat_messages().len(),
        forall|i: int|
            0 <= i < chat.lines@.len() ==> shows(
                #[trigger] chat.lines@[i],
                app@.chat_messages()[i],
            ),
        forall|i: int|
            0 <= i < chat.lines@.len() ==> {
                &&& (#[trigger] chat.lines@[i]).text@ == app@.chat_messages()[i].text
                &&& chat.lines@[i].author@ == app@.chat_messages()[i].from + ": "@
            },
{
    match chat_id(app) {
        Some(id) => {
            let title = match find_name(&app.filtered(), &id) {
                Some(name) => name,
                None => match find_name(&all_contacts(app), &id) {
                    Some(name) => name,
                    None => String::new(),
                },
            };
            Conversation { title, lines: chat_lines(app, &id) }
        },
        None => Conversation { title: String::new(), lines: Vec::new() },
    }
}

/// The first row of a conversation that a pane shows, so that the last rows
/// are on show. It and the height of the pane add up to a 16-bit number.
pub open spec fn first_shown(rows: int, height: int) -> int {
    if rows <= height {
        0
    } else if rows <= u16::MAX {
        rows - height
    } else {
        u16::MAX - height
    }
}

/// The first row that a pane of the given height shows of a conversation that
/// takes so many rows. Up to 65535 rows, the last row is on show.
pub fn first_row(rows: usize, height: u16) -> (first: u16)
    ensures
        first == first_shown(rows as int, height as int),
        first + height <= u16::MAX,
        rows <= height ==> first == 0,
        height < rows <= u16::MAX ==> first + height == rows,
        rows > u16::MAX ==> first + height == u16::MAX,
        0 < rows <= u16::MAX && 0 < height ==> first < rows <= first + height,
{
    if rows <= height as usize {
        0
    } else if rows <= u16::MAX as usize {
        (rows - height as usize) as u16
    } else {
        u16::MAX - height
    }
}

/// The widest pane that rows are counted for: `ratatui` adds numbers up to four
/// times the width in 16 bits.
pub const WIDEST: u16 = 16383;

/// Who wrote each line, and what.
pub open spec fn line_texts(lines: Seq<ChatLine>) -> Seq<(Seq<char>, Seq<char>)> {
    lines.map_values(|line: ChatLine| (line.author@, line.text@))
}

/// The rows that `Paragraph::line_count` counts, where each line is made of two
/// spans and lines are wrapped, without their leading whitespace if `trim`.
pub uninterp spec fn wrapped_rows(
    lines: Seq<(Seq<char>, Seq<char>)>,
    trim: bool,
    width: int,
) -> nat;

/// `ratatui::widgets::Paragraph::line_count`: how many rows the lines take. How
/// they are wrapped is named, not described. A pane without columns has no
/// rows; in any other, each line takes at least one.
#[verifier::external_body]
fn count_rows(lines: &Vec<ChatLine>, trim: bool, width: u16) -> (rows: usize)
    requires
        width <= WIDEST,
    ensures
        rows == wrapped_rows(line_texts(lines@), trim, width as int),
        width == 0 ==> rows == 0,
        width > 0 ==> rows >= lines@.len(),
{
    let mut text: Vec<ratatui::text::Line> = Vec::new();
    for line in lines {
        let author = ratatui::text::Span::raw(line.author.as_str());
        let words = ratatui::text::Span::raw(line.text.as_str());
        text.push(ratatui::text::Line::from(vec![author, words]));
    }
    let wrap = ratatui::widgets::Wrap { trim };
    ratatui::widgets::Paragraph::new(text).wrap(wrap).line_count(width)
}

/// The rows that a conversation takes in a pane, its lines wrapped with their
/// leading whitespace. In a pane wider than `WIDEST`, those that it takes in
/// one as wide as that.
pub open spec fn rows_of(chat: Conversation, width: int) -> int {
    let columns = if width <= WIDEST {
        width
    } else {
        WIDEST as int
    };
    wrapped_rows(line_texts(chat.lines@), false, columns) as int
}

/// The first row that a pane shows of a conversation, so that the newest
/// messages are on show: up to 65535 rows, the last row is.
pub fn scroll(chat: &Conversation, width: u16, height: u16) -> (first: u16)
    ensures
        first == first_shown(rows_of(*chat, width as int), height as int),
        first + height <= u16::MAX,
        width == 0 ==> first == 0,
        0 < width && 0 < height && 0 < chat.lines@.len() && rows_of(*chat, width as int) <= u16::MAX
            ==> first < rows_of(*chat, width as int) <= first + height,
{
    let columns: u16 = if width <= WIDEST {
        width
    } else {
        WIDEST
    };
    first_row(count_rows(&chat.lines, false, columns), height)
}

/// How much of the screen a part takes: so much, or no less than so much.
#[derive(Debug, Clone, Copy, PartialEq, Eq, Structural)]
pub enum Extent {
    Length(u16),
    Min(u16),
}

/// The columns of the screen, from the left: the contact list and the chat.
pub fn columns() -> (extents: Vec<Extent>)
    ensures
        extents@ == seq![Extent::Length(28), Extent::Min(1)],
{
    vec![Extent::Length(28), Extent::Min(1)]
}

/// The parts of the right column, from the top: the messages, the input and
/// the status line.
pub fn panes() -> (extents: Vec<Extent>)
    ensures
        extents@ == seq![Extent::Min(1), Extent::Length(3), Extent::Length(1)],
{
    vec![Extent::Min(1), Extent::Length(3), Extent::Length(1)]
}

/// Whether the input is active: it is while a message is written.
pub fn input_active(app: &App) -> (active: bool)
    ensures
        active == (app@.focus == Focus::Input),
{
    match app.focus {
        Focus::Input => true,
        _ => false,
    }
}

/// A piece of the status line.
#[derive(Debug)]
pub struct Span {
    pub text: String,
    pub colour: u32,
}

/// What can be done, by focus.
pub open spec fn hint(focus: Focus) -> Seq<char> {
    match focus {
        Focus::List => "j/k navigate · / search · i/Enter compose · q quit"@,
        Focus::Search => "type to filter · Enter confirm · Esc cancel"@,
        Focus::Input => "Enter send · Esc back"@,
    }
}

/// The piece has the text and the colour.
pub open spec fn is_span(span: Span, text: Seq<char>, colour: u32) -> bool {
    span.text@ == text && span.colour == colour
}

/// The status line: the connection, the status, and what can be done.
pub fn status_line(app: &App) -> (line: Vec<Span>)
    ensures
        line@.len() == 5,
        app@.connected ==> is_span(line@[0], " "@ + "● connected"@ + " "@, GREEN),
        !app@.connected ==> is_span(line@[0], " "@ + "✗ disconnected"@ + " "@, RED),
        is_span(line@[1], "│ "@, BG3),
        is_span(line@[2], app@.status + " "@, DIM),
        is_span(line@[3], "│ "@, BG3),
        is_span(line@[4], hint(app@.focus), DIM),
{
    let mut line: Vec<Span> = Vec::new();
    if app.connected {
        line.push(Span { text: joined(joined(" ", "● connected").as_str(), " "), colour: GREEN });
    } else {
        line.push(Span { text: joined(joined(" ", "✗ disconnected").as_str(), " "), colour: RED });
    }
    line.push(Span { text: "│ ".to_string(), colour: BG3 });
    line.push(Span { text: joined(app.status.as_str(), " "), colour: DIM });
    line.push(Span { text: "│ ".to_string(), colour: BG3 });
    let hint = match app.focus {
        Focus::List => "j/k navigate · / search · i/Enter compose · q quit",
        Focus::Search => "type to filter · Enter confirm · Esc cancel",
        Focus::Input => "Enter send · Esc back",
    };
    line.push(Span { text: hint.to_string(), colour: DIM });
    line
}

} // verus!
