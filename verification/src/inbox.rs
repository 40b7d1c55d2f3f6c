//! What comes in from `signal-cli`: contact lists, messages and errors.

use crate::effects::{
    field_is, group_is_read, lacks, message_is_announced, message_is_logged, no_text, nobody_is_read,
    person_is_read,
};
use crate::json::{member_of, text_of, Json, Tree};
use crate::laws::arrival_keeps_counters;
use crate::model::{message_view, App, Contact, ContactView, MessageView, State};
use crate::text::{decimal, decimal_text, joined, same_text};
use vstd::prelude::*;

verus! {

/// The first text where there is one, else the second.
pub open spec fn either(a: Option<Seq<char>>, b: Option<Seq<char>>) -> Option<Seq<char>> {
    if a is Some {
        a
    } else {
        b
    }
}

/// The text where there is one, else the fallback.
pub open spec fn text_or(a: Option<Seq<char>>, fallback: Seq<char>) -> Seq<char> {
    match a {
        Some(s) => s,
        None => fallback,
    }
}

/// The contact that an entry of a list describes. An entry with members is a
/// group, and goes by its name or else its id. Any other entry is a person,
/// and goes by the given name in the profile, or where the profile has none by
/// the name; where that name is empty or there is none, by the number. Without
/// an id, or without a number, the entry describes nobody.
pub open spec fn contact_in(item: Tree) -> Option<ContactView> {
    if item.member("members"@) is Some {
        match item.at("id"@).text() {
            Some(id) => Some(
                ContactView { id, name: text_or(item.at("name"@).text(), id), is_group: true },
            ),
            None => None,
        }
    } else {
        match item.at("number"@).text() {
            Some(number) => {
                let name = text_or(
                    either(
                        item.at("profile"@).at("givenName"@).text(),
                        item.at("name"@).text(),
                    ),
                    number,
                );
                Some(
                    ContactView {
                        id: number,
                        name: if name.len() == 0 {
                            number
                        } else {
                            name
                        },
                        is_group: false,
                    },
                )
            },
            None => None,
        }
    }
}

/// The contacts that the entries of a list describe, in their order.
pub open spec fn contacts_in(items: Seq<Tree>) -> Seq<ContactView>
    decreases items.len(),
{
    if items.len() == 0 {
        Seq::empty()
    } else {
        let before = contacts_in(items.drop_last());
        match contact_in(items.last()) {
            Some(contact) => before.push(contact),
            None => before,
        }
    }
}

/// The message that a notification brings, if it brings one. It belongs to the
/// chat of its group, or else of its sender.
pub open spec fn message_in(v: Tree) -> Option<MessageView> {
    let envelope = v.at("params"@).at("envelope"@);
    let data = envelope.at("dataMessage"@);
    let number = envelope.at("sourceNumber"@).text();
    match data.at("message"@).text() {
        Some(text) if v.at("method"@).text() == Some("receive"@) => Some(
            MessageView {
                chat: text_or(
                    either(data.at("groupInfo"@).at("groupId"@).text(), number),
                    "?"@,
                ),
                from: text_or(either(envelope.at("sourceName"@).text(), number), "?"@),
                text,
            },
        ),
        _ => None,
    }
}

impl State {
    /// A list of contacts or groups arrived, if `v` is the answer to such a
    /// call: its entries join the contacts.
    pub open spec fn with_contacts(self, v: Tree) -> State {
        match v.at("result"@).items() {
            Some(items) => {
                let contacts = self.contacts + contacts_in(items);
                State { contacts, status: decimal(contacts.len()) + " contacts"@, ..self }
            },
            None => self,
        }
    }

    /// A message arrived, if `v` brings one.
    pub open spec fn with_incoming(self, v: Tree) -> State {
        match message_in(v) {
            Some(message) => self.with_message(message),
            None => self,
        }
    }

    /// A call failed, if `v` says so.
    pub open spec fn with_error(self, v: Tree) -> State {
        match v.member("error"@) {
            Some(error) => State {
                status: "error: "@ + text_or(error.at("message"@).text(), "rpc error"@),
                ..self
            },
            None => self,
        }
    }

    /// The state after `v` arrived.
    pub open spec fn after(self, v: Tree) -> State {
        self.with_contacts(v).with_incoming(v).with_error(v)
    }
}

/// A notification for the desktop.
#[derive(Debug)]
pub struct Notice {
    pub summary: String,
    pub body: String,
    pub appname: String,
}

/// The notification that `v` gives rise to: one for each message.
pub open spec fn notifies(v: Tree, notice: Option<Notice>) -> bool {
    match message_in(v) {
        Some(message) => notice matches Some(n) && {
            &&& n.summary@ == "Signal: "@ + message.from
            &&& n.body@ == message.text
            &&& n.appname@ == "signal-tui"@
        },
        None => notice is None,
    }
}

fn first_text<'a>(a: Option<&'a str>, b: Option<&'a str>) -> (s: Option<&'a str>)
    ensures
        s == (if a is Some {
            a
        } else {
            b
        }),
{
    match a {
        Some(text) => Some(text),
        None => b,
    }
}

fn text_or_else<'a>(a: Option<&'a str>, fallback: &'a str) -> (s: &'a str)
    ensures
        s == (if a is Some {
            a->0
        } else {
            fallback
        }),
{
    match a {
        Some(text) => text,
        None => fallback,
    }
}

/// Reads one entry of a list.
pub fn read_contact(item: &Json) -> (contact: Option<Contact>)
    ensures
        match contact_in(item@) {
            Some(view) => contact is Some && contact->0@ == view,
            None => contact is None,
        },
        contact is Some <==> if lacks(item@, "members"@) {
            !no_text(item@, "number"@)
        } else {
            !no_text(item@, "id"@)
        },
        contact matches Some(c) ==> c.is_group == !lacks(item@, "members"@),
        forall|number: Seq<char>|
            lacks(item@, "members"@) && #[trigger] field_is(item@, "number"@, Tree::Text(number))
                ==> {
                &&& contact->0.id@ == number
                &&& forall|profile: Tree, given: Seq<char>|
                    #![trigger field_is(item@, "profile"@, profile), field_is(profile, "givenName"@, Tree::Text(given))]
                    given.len() > 0 && field_is(item@, "profile"@, profile) && field_is(
                        profile,
                        "givenName"@,
                        Tree::Text(given),
                    ) ==> contact->0.name@ == given
            },
        forall|id: Seq<char>|
            !lacks(item@, "members"@) && #[trigger] field_is(item@, "id"@, Tree::Text(id)) ==> {
                &&& contact->0.id@ == id
                &&& forall|name: Seq<char>| #[trigger]
                    field_is(item@, "name"@, Tree::Text(name)) ==> contact->0.name@ == name
            },
{
    proof {
        lemma_read_contact(item@);
    }
    let here = Some(item);
    let name = text_of(member_of(here, "name"));
    if member_of(here, "members").is_some() {
        match text_of(member_of(here, "id")) {
            Some(id) => Some(
                Contact {
                    id: id.to_string(),
                    name: text_or_else(name, id).to_string(),
                    is_group: true,
                },
            ),
            None => None,
        }
    } else {
        match text_of(member_of(here, "number")) {
            Some(number) => {
                let given = text_of(member_of(member_of(here, "profile"), "givenName"));
                let chosen = text_or_else(first_text(given, name), number);
                Some(
                    Contact {
                        id: number.to_string(),
                        name: if chosen.is_empty() {
                            number.to_string()
                        } else {
                            chosen.to_string()
                        },
                        is_group: false,
                    },
                )
            },
            None => None,
        }
    }
}

/// Whom an entry of a list describes, by its members.
proof fn lemma_read_contact(item: Tree)
    ensures
        contact_in(item) is Some <==> if lacks(item, "members"@) {
            !no_text(item, "number"@)
        } else {
            !no_text(item, "id"@)
        },
        contact_in(item) matches Some(c) ==> c.is_group == !lacks(item, "members"@),
        forall|number: Seq<char>|
            lacks(item, "members"@) && #[trigger] field_is(item, "number"@, Tree::Text(number)) ==> {
                &&& contact_in(item)->0.id == number
                &&& forall|profile: Tree, given: Seq<char>|
                    #![trigger field_is(item, "profile"@, profile), field_is(profile, "givenName"@, Tree::Text(given))]
                    given.len() > 0 && field_is(item, "profile"@, profile) && field_is(
                        profile,
                        "givenName"@,
                        Tree::Text(given),
                    ) ==> contact_in(item)->0.name == given
            },
        forall|id: Seq<char>|
            !lacks(item, "members"@) && #[trigger] field_is(item, "id"@, Tree::Text(id)) ==> {
                &&& contact_in(item)->0.id == id
                &&& forall|name: Seq<char>| #[trigger]
                    field_is(item, "name"@, Tree::Text(name)) ==> contact_in(item)->0.name == name
            },
{
    if lacks(item, "members"@) {
        if no_text(item, "number"@) {
            nobody_is_read(item);
        } else {
            let number = choose|number: Seq<char>| #[trigger]
                field_is(item, "number"@, Tree::Text(number));
            person_is_read(item, number);
        }
    } else {
        if no_text(item, "id"@) {
            nobody_is_read(item);
        } else {
            let id = choose|id: Seq<char>| #[trigger] field_is(item, "id"@, Tree::Text(id));
            group_is_read(item, id);
        }
    }
}

/// Adds the contacts that the entries describe.
fn add_contacts(app: &mut App, items: &Vec<Json>, Ghost(trees): Ghost<Seq<Tree>>)
    requires
        trees.len() == items@.len(),
        forall|i: int| 0 <= i < items@.len() ==> #[trigger] trees[i] == items@[i]@,
    ensures
        final(app)@ == (State { contacts: old(app)@.contacts + contacts_in(trees), ..old(app)@ }),
{
    let ghost before = app@;
    let mut i: usize = 0;
    assert(trees.take(0) =~= Seq::empty());
    assert(app@ =~= State { contacts: before.contacts + contacts_in(trees.take(0)), ..before });
    while i < items.len()
        invariant
            i <= items.len(),
            trees.len() == items@.len(),
            forall|k: int| 0 <= k < items@.len() ==> #[trigger] trees[k] == items@[k]@,
            app@ == (State {
                contacts: before.contacts + contacts_in(trees.take(i as int)),
                ..before
            }),
        decreases items.len() - i,
    {
        let ghost known = app@.contacts;
        assert(trees.take(i + 1).drop_last() =~= trees.take(i as int));
        assert(trees.take(i + 1).last() == items@[i as int]@);
        match read_contact(&items[i]) {
            Some(contact) => {
                let ghost view = contact@;
                app.contacts.push(contact);
                assert(app@.contacts =~= known.push(view));
                assert(known.push(view) =~= before.contacts + contacts_in(
                    trees.take(i as int),
                ).push(view));
            },
            None => {},
        }
        i = i + 1;
    }
    assert(trees.take(items@.len() as int) =~= trees);
}

/// Takes in the answer to a call for contacts or groups.
fn take_contacts(app: &mut App, v: &Json)
    ensures
        final(app)@ == old(app)@.with_contacts(v@),
{
    match member_of(Some(v), "result") {
        Some(result) => {
            match result.as_array() {
                Some(items) => {
                    add_contacts(app, items, Ghost(result@.items()->0));
                    app.status = joined(decimal_text(app.contacts.len()).as_str(), " contacts");
                },
                None => {},
            }
        },
        None => {},
    }
}

/// Takes in a message.
fn take_message(app: &mut App, v: &Json) -> (notice: Option<Notice>)
    requires
        message_in(v@) is Some ==> old(app).msg_seq < usize::MAX,
    ensures
        final(app)@ == old(app)@.with_incoming(v@),
        notifies(v@, notice),
{
    match text_of(member_of(Some(v), "method")) {
        Some(method) => {
            if !same_text(method, "receive") {
                return None;
            }
        },
        None => {
            return None;
        },
    }
    let envelope = member_of(member_of(Some(v), "params"), "envelope");
    let data = member_of(envelope, "dataMessage");
    let number = text_of(member_of(envelope, "sourceNumber"));
    let from = text_or_else(first_text(text_of(member_of(envelope, "sourceName")), number), "?");
    match text_of(member_of(data, "message")) {
        Some(text) => {
            let group = text_of(member_of(member_of(data, "groupInfo"), "groupId"));
            let chat = text_or_else(first_text(group, number), "?");
            app.record(chat.to_string(), from.to_string(), text.to_string());
            Some(
                Notice {
                    summary: joined("Signal: ", from),
                    body: text.to_string(),
                    appname: "signal-tui".to_string(),
                },
            )
        },
        None => None,
    }
}

/// Takes in the failure of a call.
fn take_error(app: &mut App, v: &Json)
    ensures
        final(app)@ == old(app)@.with_error(v@),
{
    let error = member_of(Some(v), "error");
    if error.is_some() {
        let message = text_or_else(text_of(member_of(error, "message")), "rpc error");
        app.status = joined("error: ", message);
    }
}

/// Takes in one value from `signal-cli`, and says what to show on the desktop.
/// The counters stay in agreement with the log.
pub fn handle_json(app: &mut App, v: &Json) -> (notice: Option<Notice>)
    requires
        message_in(v@) is Some ==> old(app).msg_seq < usize::MAX,
    ensures
        final(app)@ == old(app)@.after(v@),
        notifies(v@, notice),
        forall|params: Tree, envelope: Tree, data: Tree, text: Seq<char>|
            field_is(v@, "method"@, Tree::Text("receive"@)) && #[trigger] field_is(
                v@,
                "params"@,
                params,
            ) && #[trigger] field_is(params, "envelope"@, envelope) && #[trigger] field_is(
                envelope,
                "dataMessage"@,
                data,
            ) && #[trigger] field_is(data, "message"@, Tree::Text(text)) ==> {
                &&& final(app).messages@.len() == old(app).messages@.len() + 1
                &&& final(app).messages@.last().1.text@ == text
                &&& notice is Some
                &&& notice->0.body@ == text
                &&& notice->0.summary@ == "Signal: "@ + final(app).messages@.last().1.from@
            },
        old(app)@.counters_agree() ==> final(app)@.counters_agree(),
{
    let ghost before = app@;
    proof {
        if app@.counters_agree() {
            arrival_keeps_counters(app@, v@);
        }
    }
    take_contacts(app, v);
    let notice = take_message(app, v);
    take_error(app, v);
    proof {
        assert forall|params: Tree, envelope: Tree, data: Tree, text: Seq<char>|
            field_is(v@, "method"@, Tree::Text("receive"@)) && #[trigger] field_is(
                v@,
                "params"@,
                params,
            ) && #[trigger] field_is(params, "envelope"@, envelope) && #[trigger] field_is(
                envelope,
                "dataMessage"@,
                data,
            ) && #[trigger] field_is(data, "message"@, Tree::Text(text)) implies {
            &&& app.messages@.len() == before.messages.len() + 1
            &&& app.messages@.last().1.text@ == text
            &&& notice is Some
            &&& notice->0.body@ == text
            &&& notice->0.summary@ == "Signal: "@ + app.messages@.last().1.from@
        } by {
            message_is_announced(before, v@, params, envelope, data, text, notice);
            message_is_logged(before, v@, params, envelope, data, text);
            assert(app@.messages.last() == message_view(app.messages@.last()));
        }
    }
    notice
}

} // verus!
