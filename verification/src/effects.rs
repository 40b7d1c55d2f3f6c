//! What each operation does to what it is given, told in terms of the members
//! of a JSON value, the fields of the state, and the characters of a text.

use crate::inbox::{contact_in, contacts_in, message_in, notifies, Notice};
use crate::json::{first_with_key, has_key, key_index, Json, Tree};
use crate::keys::{without_last, Action, Code, Key, Received, FIRST_SEND_ID};
use crate::model::{App, Focus, MessageView, State};
use crate::text::decimal;
use crate::wire::{lemma_keys_differ, Params, Request};
use vstd::prelude::*;

verus! {

/// The value is an object with the value `value` under the key.
pub open spec fn field_is(t: Tree, key: Seq<char>, value: Tree) -> bool {
    t is Object && t->Object_0.contains_key(key) && t->Object_0[key] == value
}

/// The value is not an object, or one without the key.
pub open spec fn lacks(t: Tree, key: Seq<char>) -> bool {
    !(t is Object && t->Object_0.contains_key(key))
}

/// There is no text under the key.
pub open spec fn no_text(t: Tree, key: Seq<char>) -> bool {
    forall|s: Seq<char>| !#[trigger] field_is(t, key, Tree::Text(s))
}

/// Under the key is no value with a text under the other key.
pub open spec fn no_text_in(t: Tree, key: Seq<char>, inner: Seq<char>) -> bool {
    forall|u: Tree, s: Seq<char>| !(#[trigger] field_is(t, key, u) && #[trigger] field_is(u, inner, Tree::Text(s)))
}

/// The value under a key is reached by the key; a key that leads nowhere
/// reaches no text.
proof fn lemma_at(t: Tree, key: Seq<char>)
    ensures
        lacks(t, key) ==> t.member(key) is None && t.at(key) == Tree::Null,
        !lacks(t, key) ==> field_is(t, key, t.at(key)) && t.member(key) == Some(t.at(key)),
        forall|value: Tree| #[trigger] field_is(t, key, value) ==> t.at(key) == value && t.member(key)
            == Some(value),
        no_text(t, key) ==> t.at(key).text() is None,
        t.at(key).text() is Some ==> field_is(t, key, Tree::Text(t.at(key).text()->0)),
{
    if t.at(key).text() is Some {
        assert(field_is(t, key, Tree::Text(t.at(key).text()->0)));
    }
}

proof fn lemma_at_in(t: Tree, key: Seq<char>, inner: Seq<char>)
    ensures
        no_text_in(t, key, inner) ==> t.at(key).at(inner).text() is None,
{
    lemma_at(t, key);
    lemma_at(t.at(key), inner);
    if no_text_in(t, key, inner) && t.at(key).at(inner).text() is Some {
        let s = t.at(key).at(inner).text()->0;
        assert(!lacks(t, key));
        assert(field_is(t, key, t.at(key)) && field_is(t.at(key), inner, Tree::Text(s)));
    }
}

/// What a JSON value stands for: a text for its characters, an array for its
/// elements one by one, and an object for its fields, where no key occurs
/// twice.
pub proof fn json_stands_for(json: Json)
    ensures
        json matches Json::Text(s) ==> json@ == Tree::Text(s@),
        json matches Json::Number(n) ==> json@ == Tree::Number(n@),
        json matches Json::Bool(b) ==> json@ == Tree::Bool(b),
        json is Null ==> json@ == Tree::Null,
        json matches Json::Array(items) ==> {
            &&& json@ is Array
            &&& json@->Array_0.len() == items@.len()
            &&& forall|i: int| 0 <= i < items@.len() ==> #[trigger] json@->Array_0[i] == items@[i]@
        },
        json matches Json::Object(fields) ==> {
            &&& json@ is Object
            &&& forall|i: int|
                #![trigger fields@[i]]
                0 <= i < fields@.len() && (forall|j: int|
                    0 <= j < i ==> (#[trigger] fields@[j]).0@ != fields@[i].0@) ==> field_is(
                    json@,
                    fields@[i].0@,
                    fields@[i].1@,
                )
            &&& forall|key: Seq<char>|
                (forall|i: int| 0 <= i < fields@.len() ==> (#[trigger] fields@[i]).0@ != key)
                    ==> #[trigger] lacks(json@, key)
        },
{
    if let Json::Object(fields) = json {
        assert forall|i: int|
            #![trigger fields@[i]]
            0 <= i < fields@.len() && (forall|j: int|
                0 <= j < i ==> (#[trigger] fields@[j]).0@ != fields@[i].0@) implies field_is(
            json@,
            fields@[i].0@,
            fields@[i].1@,
        ) by {
            let key = fields@[i].0@;
            assert(first_with_key(fields@, key, i));
            assert(has_key(fields@, key));
            let k = key_index(fields@, key);
            assert(first_with_key(fields@, key, k));
            assert(k == i) by {
                if k < i {
                    assert(fields@[k].0@ != key);
                }
                if i < k {
                    assert(fields@[i].0@ != key);
                }
            }
        }
        assert forall|key: Seq<char>|
            (forall|i: int| 0 <= i < fields@.len() ==> (#[trigger] fields@[i]).0@ != key) implies #[trigger] lacks(
        json@, key) by {
            if has_key(fields@, key) {
                let k = key_index(fields@, key);
                assert(first_with_key(fields@, key, k));
                assert(fields@[k].0@ == key);
            }
        }
    }
}

/// The state of the client is what its fields hold.
pub proof fn state_is_what_fields_hold(app: App)
    ensures
        app@.contacts.len() == app.contacts@.len(),
        forall|i: int|
            0 <= i < app.contacts@.len() ==> {
                &&& (#[trigger] app@.contacts[i]).id == app.contacts@[i].id@
                &&& app@.contacts[i].name == app.contacts@[i].name@
                &&& app@.contacts[i].is_group == app.contacts@[i].is_group
            },
        app@.messages.len() == app.messages@.len(),
        forall|i: int|
            0 <= i < app.messages@.len() ==> {
                &&& (#[trigger] app@.messages[i]).chat == app.messages@[i].0@
                &&& app@.messages[i].from == app.messages@[i].1.from@
                &&& app@.messages[i].text == app.messages@[i].1.text@
            },
        app.selected matches Some(i) ==> app@.selected == Some(i as nat),
        app.selected is None ==> app@.selected is None,
        app.open_id matches Some(id) ==> app@.open_id == Some(id@),
        app.open_id is None ==> app@.open_id is None,
        forall|chat: Seq<char>|
            {
                &&& #[trigger] app@.last_msg_seq.contains_key(chat)
                    <==> app.last_msg_seq@.contains_key(chat)
                &&& app.last_msg_seq@.contains_key(chat) ==> app@.last_msg_seq[chat]
                    == app.last_msg_seq@[chat]
            },
        app@.msg_seq == app.msg_seq,
        app@.input == app.input@,
        app@.focus == app.focus,
        app@.search == app.search@,
        app@.connected == app.connected,
        app@.pending_g == app.pending_g,
        app@.status == app.status@,
{
}

/// A message that comes in is logged as the last one, with its words, whatever
/// chat it belongs to. It is from the name of the sender, or else the number,
/// or else `?`; it belongs to the chat of the group, or else of the number, or
/// else of `?`. That chat has the latest message now, and nothing is lost.
pub proof fn message_is_logged(
    s: State,
    v: Tree,
    params: Tree,
    envelope: Tree,
    data: Tree,
    text: Seq<char>,
)
    requires
        field_is(v, "method"@, Tree::Text("receive"@)),
        field_is(v, "params"@, params),
        field_is(params, "envelope"@, envelope),
        field_is(envelope, "dataMessage"@, data),
        field_is(data, "message"@, Tree::Text(text)),
    ensures
        s.after(v).messages.len() == s.messages.len() + 1,
        forall|j: int|
            0 <= j < s.messages.len() ==> #[trigger] s.after(v).messages[j] == s.messages[j],
        s.after(v).messages.last().text == text,
        forall|name: Seq<char>| #[trigger]
            field_is(envelope, "sourceName"@, Tree::Text(name)) ==> s.after(v).messages.last().from
                == name,
        forall|number: Seq<char>|
            no_text(envelope, "sourceName"@) && #[trigger] field_is(
                envelope,
                "sourceNumber"@,
                Tree::Text(number),
            ) ==> s.after(v).messages.last().from == number,
        no_text(envelope, "sourceName"@) && no_text(envelope, "sourceNumber"@) ==> s.after(
            v,
        ).messages.last().from == "?"@,
        forall|info: Tree, group: Seq<char>| #[trigger]
            field_is(data, "groupInfo"@, info) && #[trigger] field_is(info, "groupId"@, Tree::Text(group))
                ==> s.after(v).messages.last().chat == group,
        forall|number: Seq<char>|
            no_text_in(data, "groupInfo"@, "groupId"@) && #[trigger] field_is(
                envelope,
                "sourceNumber"@,
                Tree::Text(number),
            ) ==> s.after(v).messages.last().chat == number,
        no_text_in(data, "groupInfo"@, "groupId"@) && no_text(envelope, "sourceNumber"@)
            ==> s.after(v).messages.last().chat == "?"@,
        s.after(v).msg_seq == s.msg_seq + 1,
        s.after(v).last_msg_seq == s.last_msg_seq.insert(
            s.after(v).messages.last().chat,
            s.msg_seq + 1,
        ),
{
    lemma_at(v, "method"@);
    lemma_at(v, "params"@);
    lemma_at(params, "envelope"@);
    lemma_at(envelope, "dataMessage"@);
    lemma_at(data, "message"@);
    lemma_at(envelope, "sourceName"@);
    lemma_at(envelope, "sourceNumber"@);
    lemma_at(data, "groupInfo"@);
    lemma_at(data.at("groupInfo"@), "groupId"@);
    lemma_at_in(data, "groupInfo"@, "groupId"@);
    assert forall|info: Tree, group: Seq<char>| #[trigger]
        field_is(data, "groupInfo"@, info) && #[trigger] field_is(
            info,
            "groupId"@,
            Tree::Text(group),
        ) implies s.after(v).messages.last().chat == group by {
        lemma_at(info, "groupId"@);
    }
}

/// A message that comes in is announced: under the name that it is logged
/// from, with its words.
pub proof fn message_is_announced(
    s: State,
    v: Tree,
    params: Tree,
    envelope: Tree,
    data: Tree,
    text: Seq<char>,
    notice: Option<Notice>,
)
    requires
        field_is(v, "method"@, Tree::Text("receive"@)),
        field_is(v, "params"@, params),
        field_is(params, "envelope"@, envelope),
        field_is(envelope, "dataMessage"@, data),
        field_is(data, "message"@, Tree::Text(text)),
        notifies(v, notice),
    ensures
        notice is Some,
        notice->0.body@ == text,
        notice->0.summary@ == "Signal: "@ + s.after(v).messages.last().from,
        notice->0.appname@ == "signal-tui"@,
{
    message_is_logged(s, v, params, envelope, data, text);
    lemma_at(v, "method"@);
    lemma_at(v, "params"@);
    lemma_at(params, "envelope"@);
    lemma_at(envelope, "dataMessage"@);
    lemma_at(data, "message"@);
}

/// Nothing else is a message: what is not a `receive`, or has no text where the
/// words of a message stand, adds nothing to the log and announces nothing.
pub proof fn nothing_else_is_logged(s: State, v: Tree, notice: Option<Notice>)
    requires
        !field_is(v, "method"@, Tree::Text("receive"@)) || forall|
            params: Tree,
            envelope: Tree,
            data: Tree,
            text: Seq<char>,
        |
            !(#[trigger] field_is(v, "params"@, params) && #[trigger] field_is(params, "envelope"@, envelope)
                && #[trigger] field_is(envelope, "dataMessage"@, data) && #[trigger] field_is(
                data,
                "message"@,
                Tree::Text(text),
            )),
        notifies(v, notice),
    ensures
        s.after(v).messages == s.messages,
        s.after(v).msg_seq == s.msg_seq,
        s.after(v).last_msg_seq == s.last_msg_seq,
        notice is None,
{
    if message_in(v) is Some {
        let params = v.at("params"@);
        let envelope = params.at("envelope"@);
        let data = envelope.at("dataMessage"@);
        lemma_at(v, "method"@);
        lemma_at(v, "params"@);
        lemma_at(params, "envelope"@);
        lemma_at(envelope, "dataMessage"@);
        lemma_at(data, "message"@);
        let text = data.at("message"@).text()->0;
        assert(field_is(data, "message"@, Tree::Text(text)));
        assert(field_is(envelope, "dataMessage"@, data));
        assert(field_is(params, "envelope"@, envelope));
        assert(field_is(v, "params"@, params));
    }
}

/// A person in a list is known under the number. They go by the given name in
/// the profile, where it is a text that is not empty, whatever their name is.
/// Without such a text they go by their name, where that is a text that is not
/// empty. In all other cases they go by the number.
pub proof fn person_is_read(item: Tree, number: Seq<char>)
    requires
        lacks(item, "members"@),
        field_is(item, "number"@, Tree::Text(number)),
    ensures
        contact_in(item) is Some,
        contact_in(item)->0.id == number,
        !contact_in(item)->0.is_group,
        forall|profile: Tree, given: Seq<char>|
            #![trigger field_is(item, "profile"@, profile), field_is(profile, "givenName"@, Tree::Text(given))]
            field_is(item, "profile"@, profile) && field_is(profile, "givenName"@, Tree::Text(given))
                ==> contact_in(item)->0.name == (if given.len() > 0 {
                given
            } else {
                number
            }),
        forall|name: Seq<char>|
            no_text_in(item, "profile"@, "givenName"@) && #[trigger] field_is(
                item,
                "name"@,
                Tree::Text(name),
            ) ==> contact_in(item)->0.name == (if name.len() > 0 {
                name
            } else {
                number
            }),
        no_text_in(item, "profile"@, "givenName"@) && no_text(item, "name"@) ==> contact_in(
            item,
        )->0.name == number,
{
    lemma_at(item, "members"@);
    lemma_at(item, "number"@);
    lemma_at(item, "name"@);
    lemma_at(item, "profile"@);
    lemma_at_in(item, "profile"@, "givenName"@);
    assert forall|profile: Tree, given: Seq<char>|
        #![trigger field_is(item, "profile"@, profile), field_is(profile, "givenName"@, Tree::Text(given))]
        field_is(item, "profile"@, profile) && field_is(
            profile,
            "givenName"@,
            Tree::Text(given),
        ) implies contact_in(item)->0.name == (if given.len() > 0 {
        given
    } else {
        number
    }) by {
        lemma_at(profile, "givenName"@);
    }
}

/// A group in a list, which is an entry with members, is known under its id,
/// and goes by its name where that is a text, else by the id.
pub proof fn group_is_read(item: Tree, id: Seq<char>)
    requires
        !lacks(item, "members"@),
        field_is(item, "id"@, Tree::Text(id)),
    ensures
        contact_in(item) is Some,
        contact_in(item)->0.id == id,
        contact_in(item)->0.is_group,
        forall|name: Seq<char>| #[trigger]
            field_is(item, "name"@, Tree::Text(name)) ==> contact_in(item)->0.name == name,
        no_text(item, "name"@) ==> contact_in(item)->0.name == id,
{
    lemma_at(item, "members"@);
    lemma_at(item, "id"@);
    lemma_at(item, "name"@);
}

/// An entry with members but no id, or with neither members nor a number, is
/// nobody.
pub proof fn nobody_is_read(item: Tree)
    requires
        !lacks(item, "members"@) ==> no_text(item, "id"@),
        lacks(item, "members"@) ==> no_text(item, "number"@),
    ensures
        contact_in(item) is None,
{
    lemma_at(item, "members"@);
    lemma_at(item, "id"@);
    lemma_at(item, "number"@);
}

/// A list of contacts joins those that are known. An empty one adds nobody; one
/// that is longer by an entry adds whom the entry describes, at the end. The
/// status tells how many contacts there are.
pub proof fn list_joins_the_contacts(s: State, v: Tree, items: Seq<Tree>)
    requires
        field_is(v, "result"@, Tree::Array(items)),
    ensures
        items.len() == 0 ==> s.after(v).contacts == s.contacts,
        forall|i: int|
            0 <= i < s.contacts.len() ==> #[trigger] s.after(v).contacts[i] == s.contacts[i],
        forall|w: Tree, item: Tree| #[trigger]
            field_is(w, "result"@, Tree::Array(items.push(item))) ==> s.after(w).contacts == (
            match contact_in(item) {
                Some(contact) => s.after(v).contacts.push(contact),
                None => s.after(v).contacts,
            }),
        lacks(v, "error"@) ==> s.after(v).status == decimal(s.after(v).contacts.len()) + " contacts"@,
{
    lemma_at(v, "result"@);
    lemma_at(v, "error"@);
    assert forall|w: Tree, item: Tree| #[trigger]
        field_is(w, "result"@, Tree::Array(items.push(item))) implies s.after(w).contacts == (
    match contact_in(item) {
        Some(contact) => s.after(v).contacts.push(contact),
        None => s.after(v).contacts,
    }) by {
        lemma_at(w, "result"@);
        let more = items.push(item);
        assert(more.drop_last() =~= items);
        assert(s.after(w).contacts =~= s.contacts + contacts_in(more));
        match contact_in(item) {
            Some(contact) => {
                assert(contacts_in(more) == contacts_in(items).push(contact));
                assert(s.after(w).contacts =~= s.after(v).contacts.push(contact));
            },
            None => {},
        }
    }
    if items.len() == 0 {
        assert(s.contacts + contacts_in(items) =~= s.contacts);
    }
}

/// Each person and each group of a list is among the contacts that the list
/// adds: under the number and the id.
pub proof fn all_in_a_list_join(s: State, v: Tree, items: Seq<Tree>, i: int) -> (k: int)
    requires
        field_is(v, "result"@, Tree::Array(items)),
        0 <= i < items.len(),
        contact_in(items[i]) is Some,
    ensures
        s.contacts.len() <= k < s.after(v).contacts.len(),
        s.after(v).contacts[k] == contact_in(items[i])->0,
        k <= s.contacts.len() + i,
{
    lemma_at(v, "result"@);
    let k = lemma_joins(items, i);
    assert(s.after(v).contacts[s.contacts.len() + k] == contacts_in(items)[k]);
    s.contacts.len() + k
}

proof fn lemma_joins(items: Seq<Tree>, i: int) -> (k: int)
    requires
        0 <= i < items.len(),
        contact_in(items[i]) is Some,
    ensures
        0 <= k < contacts_in(items).len(),
        contacts_in(items)[k] == contact_in(items[i])->0,
        k <= i,
    decreases items.len(),
{
    lemma_no_more(items);
    if i == items.len() - 1 {
        lemma_no_more(items.drop_last());
        contacts_in(items).len() - 1
    } else {
        lemma_joins(items.drop_last(), i)
    }
}

proof fn lemma_no_more(items: Seq<Tree>)
    ensures
        contacts_in(items).len() <= items.len(),
    decreases items.len(),
{
    if items.len() > 0 {
        lemma_no_more(items.drop_last());
    }
}

/// What is not the answer to a call for contacts leaves the contacts as they
/// are, and the status too unless it reports an error.
pub proof fn nothing_else_joins(s: State, v: Tree)
    requires
        forall|items: Seq<Tree>| !#[trigger] field_is(v, "result"@, Tree::Array(items)),
    ensures
        s.after(v).contacts == s.contacts,
        lacks(v, "error"@) ==> s.after(v).status == s.status,
{
    lemma_at(v, "result"@);
    lemma_at(v, "error"@);
    if v.at("result"@).items() is Some {
        assert(field_is(v, "result"@, Tree::Array(v.at("result"@).items()->0)));
    }
}

/// The status tells what is wrong, whatever else arrived.
pub proof fn error_is_told(s: State, v: Tree, error: Tree)
    requires
        field_is(v, "error"@, error),
    ensures
        forall|message: Seq<char>| #[trigger]
            field_is(error, "message"@, Tree::Text(message)) ==> s.after(v).status == "error: "@
                + message,
        no_text(error, "message"@) ==> s.after(v).status == "error: "@ + "rpc error"@,
{
    lemma_at(v, "error"@);
    lemma_at(error, "message"@);
}

/// What arrives does not touch what the user is at.
pub proof fn arrival_leaves_the_user_alone(s: State, v: Tree)
    ensures
        s.after(v).selected == s.selected,
        s.after(v).input == s.input,
        s.after(v).focus == s.focus,
        s.after(v).search == s.search,
        s.after(v).pending_g == s.pending_g,
        s.after(v).open_id == s.open_id,
        s.after(v).connected == s.connected,
{
}

/// The reader's news: a value is taken in, nothing changes nothing, and the end
/// of `signal-cli` ends the connection and nothing else.
pub proof fn news_is_taken_in(s: State, received: Received)
    ensures
        received matches Received::Message(v) ==> s.after_received(received) == s.after(v@),
        received is Empty ==> s.after_received(received) == s,
        received is Disconnected ==> s.after_received(received) == (State { connected: false, ..s }),
{
}

/// The client starts with nothing known, nothing written and nothing open, in
/// the list, at its first row. The first message goes out under the id 100.
pub proof fn client_starts_empty()
    ensures
        State::initial().contacts.len() == 0,
        State::initial().messages.len() == 0,
        State::initial().msg_seq == 0,
        forall|chat: Seq<char>| !#[trigger] State::initial().last_msg_seq.contains_key(chat),
        State::initial().input.len() == 0,
        State::initial().search.len() == 0,
        State::initial().selected == Some(0nat),
        State::initial().focus == Focus::List,
        State::initial().open_id is None,
        State::initial().connected,
        !State::initial().pending_g,
        State::initial().status == "loading contacts..."@,
        FIRST_SEND_ID == 100,
{
}

/// A message that is logged comes last, as it is, and is the latest of its
/// chat. Nothing else changes.
pub proof fn logging_appends(s: State, message: MessageView)
    ensures
        s.with_message(message).messages.len() == s.messages.len() + 1,
        s.with_message(message).messages.last() == message,
        forall|j: int|
            0 <= j < s.messages.len() ==> #[trigger] s.with_message(message).messages[j]
                == s.messages[j],
        s.with_message(message).msg_seq == s.msg_seq + 1,
        s.with_message(message).last_msg_seq.contains_key(message.chat),
        s.with_message(message).last_msg_seq[message.chat] == s.msg_seq + 1,
        forall|chat: Seq<char>|
            chat != message.chat ==> {
                &&& #[trigger] s.with_message(message).last_msg_seq.contains_key(chat)
                    == s.last_msg_seq.contains_key(chat)
                &&& s.with_message(message).last_msg_seq[chat] == s.last_msg_seq[chat]
            },
        s.with_message(message).contacts == s.contacts,
        s.with_message(message).selected == s.selected,
        s.with_message(message).input == s.input,
        s.with_message(message).focus == s.focus,
        s.with_message(message).search == s.search,
        s.with_message(message).connected == s.connected,
        s.with_message(message).pending_g == s.pending_g,
        s.with_message(message).open_id == s.open_id,
        s.with_message(message).status == s.status,
{
}

/// There is a call exactly where a chat is open. Its method is `send`, for a
/// group as for a person; it goes out under the id that it was given, to the
/// open chat, with what was written. The chat is that of a group exactly where
/// the first contact with its id is a group.
pub proof fn call_sends_what_was_written(s: State, id: int, request: Request)
    requires
        Some(request@) == s.send_request(id),
    ensures
        request.method@ == "send"@,
        request.id == id,
        s.open_id is Some,
        match request.params {
            Params::Group { group_id, message } => group_id@ == s.open_id->0 && message@ == s.input,
            Params::Direct { recipient, message } => recipient@ == s.open_id->0 && message@
                == s.input,
            Params::Empty => false,
        },
        forall|i: int|
            #![trigger s.contacts[i]]
            0 <= i < s.contacts.len() && s.contacts[i].id == s.open_id->0 && (forall|j: int|
                0 <= j < i ==> (#[trigger] s.contacts[j]).id != s.open_id->0) ==> (
            request.params is Group <==> s.contacts[i].is_group),
        (forall|i: int|
            0 <= i < s.contacts.len() ==> (#[trigger] s.contacts[i]).id != s.open_id->0)
            ==> request.params is Direct,
{
    let open = s.open_id->0;
    assert forall|i: int|
        #![trigger s.contacts[i]]
        0 <= i < s.contacts.len() && s.contacts[i].id == open && (forall|j: int|
            0 <= j < i ==> (#[trigger] s.contacts[j]).id != open) implies (
    request.params is Group <==> s.contacts[i].is_group) by {
        group_goes_by_the_first(s, open, i);
    }
}

/// An id is that of a group exactly where the first contact with it is one.
pub proof fn group_goes_by_the_first(s: State, id: Seq<char>, i: int)
    ensures
        0 <= i < s.contacts.len() && s.contacts[i].id == id && (forall|j: int|
            0 <= j < i ==> (#[trigger] s.contacts[j]).id != id) ==> s.is_group(id)
            == s.contacts[i].is_group,
        (forall|j: int| 0 <= j < s.contacts.len() ==> (#[trigger] s.contacts[j]).id != id)
            ==> !s.is_group(id),
{
    if 0 <= i < s.contacts.len() && s.contacts[i].id == id && (forall|j: int|
        0 <= j < i ==> (#[trigger] s.contacts[j]).id != id) {
        assert(s.is_first_with_id(id, i));
        if s.is_group(id) {
            let k = choose|k: int| #[trigger] s.is_first_with_id(id, k) && s.contacts[k].is_group;
            if i < k {
                assert(s.contacts[i].id != id);
            }
            if k < i {
                assert(s.contacts[k].id != id);
            }
        }
    }
}

/// Whether there is a call is whether a chat is open.
pub proof fn call_needs_an_open_chat(s: State, id: int)
    ensures
        s.send_request(id) is Some <==> s.open_id is Some,
{
}

/// What is sent is logged as the user's own message in the open chat, word by
/// word, and the input is empty. Where no chat is open, nothing changes.
pub proof fn sending_logs_what_was_written(s: State)
    ensures
        s.open_id matches Some(open) ==> s.after_sending() == (State {
            messages: s.messages.push(MessageView { chat: open, from: "me"@, text: s.input }),
            last_msg_seq: s.last_msg_seq.insert(open, s.msg_seq + 1),
            msg_seq: s.msg_seq + 1,
            input: Seq::empty(),
            ..s
        }),
        s.open_id is None ==> s.after_sending() == s,
{
}

/// What a key asks for. The program ends on Ctrl-C, and on `q` in the list. A
/// call is made on Enter in the input, where something was written and a chat
/// is open: it is a `send` of what was written to that chat.
pub proof fn key_asks_for(s: State, key: Key, id: int, action: Action)
    requires
        s.asks(key, id, action),
    ensures
        action is Quit <==> key.pressed && ((key.code == Code::Char('c') && key.ctrl) || (s.focus
            == Focus::List && key.code == Code::Char('q'))),
        action is Send <==> key.pressed && s.focus == Focus::Input && key.code == Code::Enter
            && s.input.len() > 0 && s.open_id is Some,
        action matches Action::Send(request) ==> {
            &&& request.method@ == "send"@
            &&& request.id == id
            &&& match request.params {
                Params::Group { group_id, message } => group_id@ == s.open_id->0 && message@
                    == s.input,
                Params::Direct { recipient, message } => recipient@ == s.open_id->0 && message@
                    == s.input,
                Params::Empty => false,
            }
        },
{
    if let Action::Send(request) = action {
        call_sends_what_was_written(s, id, request);
    }
}

/// Which keys send: Enter in the input, where something was written.
pub proof fn key_sends(s: State, key: Key)
    ensures
        s.sends(key) <==> key.pressed && s.focus == Focus::Input && key.code == Code::Enter
            && s.input.len() > 0,
        s.sends(key) ==> s.after_key(key) == s.after_sending(),
{
}

/// No key but one that sends adds to the log, and none changes the contacts,
/// the connection or the status.
pub proof fn keys_keep_what_is_known(s: State, key: Key)
    ensures
        s.after_key(key).contacts == s.contacts,
        s.after_key(key).connected == s.connected,
        s.after_key(key).status == s.status,
        !(key.pressed && s.focus == Focus::Input && key.code == Code::Enter && s.input.len() > 0)
            ==> {
            &&& s.after_key(key).messages == s.messages
            &&& s.after_key(key).last_msg_seq == s.last_msg_seq
            &&& s.after_key(key).msg_seq == s.msg_seq
        },
{
}

/// What was written grows by what is typed, loses its last character to
/// Backspace, and is not touched by any other key, in the list or elsewhere,
/// unless it is sent.
pub proof fn what_is_written(s: State, key: Key)
    requires
        key.pressed,
        !(key.code == Code::Char('c') && key.ctrl),
    ensures
        s.focus != Focus::Input ==> s.after_key(key).input == s.input,
        s.focus == Focus::Input ==> match key.code {
            Code::Char(ch) => s.after_key(key).input == s.input + seq![ch],
            Code::Backspace => s.after_key(key).input == s.input.take(
                if s.input.len() > 0 {
                    s.input.len() - 1
                } else {
                    0
                },
            ),
            Code::Enter => s.open_id is Some ==> s.after_key(key).input.len() == 0,
            _ => s.after_key(key).input == s.input,
        },
        s.focus == Focus::Input ==> {
            &&& s.after_key(key).search == s.search
            &&& s.after_key(key).selected == s.selected
            &&& s.after_key(key).open_id == s.open_id
            &&& s.after_key(key).pending_g == s.pending_g
        },
{
    assert(s.input.take(0) =~= Seq::<char>::empty());
    if s.input.len() > 0 {
        assert(s.input.drop_last() =~= s.input.take(s.input.len() - 1));
    } else {
        assert(s.input =~= Seq::<char>::empty());
    }
}

/// While the filter is typed: it grows by what is typed, loses its last
/// character to Backspace, and all of it to Esc. Typing leads to the first
/// row; where the filter gets shorter, the highlighted row stays, unless the
/// list is too short for it. Nothing else is touched.
pub proof fn what_is_filtered_for(s: State, key: Key)
    requires
        s.focus == Focus::Search,
        key.pressed,
        !(key.code == Code::Char('c') && key.ctrl),
    ensures
        s.after_key(key).search == (match key.code {
            Code::Char(ch) => s.search + seq![ch],
            Code::Backspace => s.search.take(
                if s.search.len() > 0 {
                    s.search.len() - 1
                } else {
                    0
                },
            ),
            Code::Esc => Seq::empty(),
            _ => s.search,
        }),
        key.code is Char ==> s.after_key(key).selected == Some(0nat),
        key.code == Code::Backspace || key.code == Code::Esc ==> {
            let was: int = match s.selected {
                Some(i) => i as int,
                None => 0,
            };
            let n = s.after_key(key).filtered().len();
            s.after_key(key).selected matches Some(row) && {
                &&& was < n ==> row == was
                &&& was >= n > 0 ==> row == n - 1
                &&& n == 0 ==> row == 0
            }
        },
        !(key.code is Char) && key.code != Code::Backspace && key.code != Code::Esc
            ==> s.after_key(key).selected == s.selected,
        s.after_key(key).input == s.input,
        s.after_key(key).open_id == s.open_id,
        s.after_key(key).pending_g == s.pending_g,
{
    assert(s.search.take(0) =~= Seq::<char>::empty());
    if s.search.len() > 0 {
        assert(s.search.drop_last() =~= s.search.take(s.search.len() - 1));
    } else {
        assert(s.search =~= Seq::<char>::empty());
    }
    if key.code == Code::Backspace {
        same_list(State { search: without_last(s.search), ..s }, s.after_key(key));
    }
    if key.code == Code::Esc {
        same_list(
            State { search: Seq::empty(), focus: Focus::List, ..s },
            s.after_key(key),
        );
    }
}

/// Two states with the same contacts, filter and recency list the same.
proof fn same_list(s: State, t: State)
    requires
        s.contacts == t.contacts,
        s.search == t.search,
        s.last_msg_seq == t.last_msg_seq,
    ensures
        s.filtered() == t.filtered(),
{
}

/// In the list: `j` and Down lead to the next row, if there is one, `k` and Up
/// to the one before; a second `g` leads to the first, `G` to the last. `/`
/// starts an empty filter at the first row. `i` and Enter open the chat of the
/// contact in the highlighted row. No other key moves the row, touches the
/// filter or opens a chat.
pub proof fn what_is_chosen(s: State, key: Key)
    requires
        s.focus == Focus::List,
        key.pressed,
        key.code != Code::Char('q'),
        !(key.code == Code::Char('c') && key.ctrl),
    ensures
        ({
            let was: int = match s.selected {
                Some(i) => i as int,
                None => 0,
            };
            let n = s.filtered().len();
            let last: int = if n > 0 {
                n - 1
            } else {
                0
            };
            let t = s.after_key(key);
            &&& key.code == Code::Char('j') || key.code == Code::Down ==> {
                &&& t.selected is Some
                &&& was < last ==> t.selected->0 == was + 1
                &&& was >= last ==> t.selected->0 == last
            }
            &&& key.code == Code::Char('k') || key.code == Code::Up ==> {
                &&& t.selected is Some
                &&& was > 0 ==> t.selected->0 == was - 1
                &&& was == 0 ==> t.selected->0 == 0
            }
            &&& key.code == Code::Char('g') && s.pending_g || key.code == Code::Char('/')
                ==> t.selected == Some(0nat)
            &&& key.code == Code::Char('G') ==> t.selected is Some && t.selected->0 == last
            &&& match key.code {
                Code::Char(ch) => ch != 'j' && ch != 'k' && !(ch == 'g' && s.pending_g) && ch != '/'
                    && ch != 'G',
                Code::Down => false,
                Code::Up => false,
                _ => true,
            } ==> t.selected == s.selected
            &&& key.code == Code::Char('/') ==> t.search.len() == 0
            &&& key.code != Code::Char('/') ==> t.search == s.search
            &&& t.pending_g <==> key.code == Code::Char('g') && !s.pending_g
            &&& key.code == Code::Char('i') || key.code == Code::Enter ==> {
                &&& s.selected is Some && was < n ==> t.open_id == Some(s.filtered()[was].id)
                &&& s.selected is None || was >= n ==> t.open_id is None
            }
            &&& key.code != Code::Char('i') && key.code != Code::Enter ==> t.open_id == s.open_id
            &&& t.input == s.input
        }),
{
    same_list(s, State { pending_g: false, ..s });
}

/// A call is told to `signal-cli` as a JSON-RPC 2.0 request: its id, its method
/// and its parameters, and nothing else.
pub proof fn request_is_told(request: Request)
    ensures
        field_is(request@.tree(), "jsonrpc"@, Tree::Text("2.0"@)),
        field_is(request@.tree(), "id"@, Tree::Number(decimal(request.id as nat))),
        field_is(request@.tree(), "method"@, Tree::Text(request.method@)),
        field_is(request@.tree(), "params"@, request.params@.tree()),
        forall|key: Seq<char>|
            key != "jsonrpc"@ && key != "id"@ && key != "method"@ && key != "params"@
                ==> #[trigger] lacks(request@.tree(), key),
        request@.id == request.id,
        request@.method == request.method@,
{
    lemma_keys_differ();
}

/// A message to a group names the group; one to a person lists that person
/// alone. Either holds the words, and nothing else. Other calls have no
/// parameters.
pub proof fn parameters_are_told(params: Params)
    ensures
        match params {
            Params::Group { group_id, message } => {
                &&& field_is(params@.tree(), "groupId"@, Tree::Text(group_id@))
                &&& field_is(params@.tree(), "message"@, Tree::Text(message@))
                &&& forall|key: Seq<char>|
                    key != "groupId"@ && key != "message"@ ==> #[trigger] lacks(params@.tree(), key)
            },
            Params::Direct { recipient, message } => {
                &&& field_is(
                    params@.tree(),
                    "recipient"@,
                    Tree::Array(seq![Tree::Text(recipient@)]),
                )
                &&& field_is(params@.tree(), "message"@, Tree::Text(message@))
                &&& forall|key: Seq<char>|
                    key != "recipient"@ && key != "message"@ ==> #[trigger] lacks(
                        params@.tree(),
                        key,
                    )
            },
            Params::Empty => params@.tree() is Object && forall|key: Seq<char>| #[trigger]
                lacks(params@.tree(), key),
        },
{
    lemma_keys_differ();
}

/// The number that decimal digits stand for.
pub open spec fn number_of(digits: Seq<char>) -> int
    decreases digits.len(),
{
    if digits.len() == 0 {
        0
    } else {
        10 * number_of(digits.drop_last()) + (digits.last() as u32 - 0x30)
    }
}

/// The decimal notation of a number stands for that number, in digits alone,
/// and does not begin with 0 unless it is 0.
pub proof fn decimal_stands_for_the_number(n: nat)
    ensures
        number_of(decimal(n)) == n,
        decimal(n).len() > 0,
        forall|i: int| 0 <= i < decimal(n).len() ==> 0x30 <= #[trigger] decimal(n)[i] as u32 <= 0x39,
        decimal(n)[0] == '0' ==> decimal(n).len() == 1,
        decimal(n).len() == 1 <==> n < 10,
    decreases n,
{
    reveal_with_fuel(number_of, 2);
    if n < 10 {
        assert(decimal(n).drop_last() =~= Seq::empty());
    } else {
        decimal_stands_for_the_number(n / 10);
        assert(decimal(n).drop_last() =~= decimal(n / 10));
        assert(decimal(n)[0] == decimal(n / 10)[0]);
        assert(number_of(seq!['0']) == 0) by {
            assert(seq!['0'].drop_last() =~= Seq::empty());
        }
        if decimal(n / 10)[0] == '0' {
            assert(decimal(n / 10) =~= seq!['0']);
        }
        assert forall|i: int| 0 <= i < decimal(n).len() implies 0x30 <= #[trigger] decimal(
            n,
        )[i] as u32 <= 0x39 by {
            if i < decimal(n).len() - 1 {
                assert(decimal(n)[i] == decimal(n / 10)[i]);
            }
        }
    }
}

} // verus!
