//! What holds of the client as a whole.

use crate::inbox::{contacts_in, message_in};
use crate::json::Tree;
use crate::keys::{without_last, Code, Key, Received};
use crate::listing::{
    above, in_order, is_listing, lemma_drop_last, lemma_listing_exists, lemma_listing_is_unique,
    lemma_rows_differ, passes,
};
use crate::model::{ContactView, Focus, MessageView, State};
use crate::screen::{messages_of, name_of};
use crate::text::{all_ascii, ascii_lower, lowered, occurs_in};
use vstd::prelude::*;

verus! {

impl State {
    /// The latest message of the chat is the one with the number `seq`,
    /// counted from 1.
    pub open spec fn is_latest(self, chat: Seq<char>, seq: int) -> bool {
        &&& 1 <= seq <= self.messages.len()
        &&& self.messages[seq - 1].chat == chat
        &&& forall|j: int| seq <= j < self.messages.len() ==> (#[trigger] self.messages[j]).chat
            != chat
    }

    /// The chat has a message.
    pub open spec fn has_message(self, chat: Seq<char>) -> bool {
        exists|j: int|
            0 <= j < self.messages.len() && (#[trigger] self.messages[j]).chat == chat
    }

    /// The counters tell the truth about the log: it is as long as they count,
    /// and a chat's number is that of its latest message.
    pub open spec fn counters_agree(self) -> bool {
        &&& self.msg_seq == self.messages.len()
        &&& forall|chat: Seq<char>, seq: int| #[trigger]
            self.is_latest(chat, seq) <==> self.last_msg_seq.contains_key(chat)
                && self.last_msg_seq[chat] == seq
    }

    /// The counters agree with the log, a first `g` is remembered only in the
    /// list, and the highlighted row is one of the list.
    pub open spec fn consistent(self) -> bool {
        &&& self.counters_agree()
        &&& self.pending_g ==> self.focus == Focus::List
        &&& self.row() <= self.last_row()
    }
}

/// A chat with a message has a latest one.
proof fn lemma_latest_exists(s: State, j: int) -> (seq: int)
    requires
        0 <= j < s.messages.len(),
    ensures
        s.is_latest(s.messages[j].chat, seq),
    decreases s.messages.len() - j,
{
    let chat = s.messages[j].chat;
    if exists|k: int| j < k < s.messages.len() && (#[trigger] s.messages[k]).chat == chat {
        let k = choose|k: int| j < k < s.messages.len() && (#[trigger] s.messages[k]).chat == chat;
        lemma_latest_exists(s, k)
    } else {
        j + 1
    }
}

/// How recent a chat is, by the log: the number of its latest message, between
/// 1 and their count, or 0 where it has none.
proof fn lemma_recency(s: State, chat: Seq<char>)
    requires
        s.counters_agree(),
    ensures
        0 <= s.recency(chat) <= s.messages.len(),
        s.recency(chat) > 0 <==> s.has_message(chat),
        s.last_msg_seq.contains_key(chat) <==> s.has_message(chat),
{
    if s.last_msg_seq.contains_key(chat) {
        let seq = s.last_msg_seq[chat];
        assert(s.is_latest(chat, seq));
        assert(s.messages[seq - 1].chat == chat);
    }
    if s.has_message(chat) {
        let j = choose|j: int|
            0 <= j < s.messages.len() && (#[trigger] s.messages[j]).chat == chat;
        let seq = lemma_latest_exists(s, j);
        assert(s.is_latest(chat, seq));
    }
}

/// The rows of the list are a listing.
proof fn lemma_rows(s: State)
    ensures
        is_listing(lowered(s.search), s.lower_names(), s.ranks(), s.rows()),
        s.filtered().len() == s.rows().len(),
        s.rows().no_duplicates(),
        forall|k: int|
            0 <= k < s.rows().len() ==> {
                &&& 0 <= #[trigger] s.rows()[k] < s.contacts.len()
                &&& s.filtered()[k] == s.contacts[s.rows()[k]]
            },
{
    lemma_listing_exists(lowered(s.search), s.lower_names(), s.ranks());
    let rows = s.rows();
    lemma_rows_differ(s.ranks(), rows);
    assert forall|k: int| 0 <= k < rows.len() implies 0 <= #[trigger] rows[k] < s.contacts.len() by {
        assert(0 <= rows[k] < s.lower_names().len());
    }
}

/// The list stands in order of recency: no contact is below a less recent one.
pub proof fn list_is_by_recency(s: State, a: int, b: int)
    requires
        0 <= a < b < s.filtered().len(),
    ensures
        s.recency(s.filtered()[a].id) >= s.recency(s.filtered()[b].id),
{
    lemma_rows(s);
    let i = s.rows()[a];
    let j = s.rows()[b];
    assert(above(s.ranks(), i, j));
}

/// The list holds the contacts whose name passes the filter, and no others.
pub proof fn list_holds_what_passes(s: State, i: int)
    requires
        0 <= i < s.contacts.len(),
    ensures
        s.rows().contains(i) <==> passes(lowered(s.search), lowered(s.contacts[i].name)),
        s.rows().no_duplicates(),
{
    lemma_rows(s);
    assert(s.lower_names()[i] == lowered(s.contacts[i].name));
    if s.rows().contains(i) {
        let k = choose|k: int| 0 <= k < s.rows().len() && s.rows()[k] == i;
        assert(passes(lowered(s.search), s.lower_names()[s.rows()[k]]));
    }
}

/// Whoever passes a longer filter passes the shorter one.
proof fn lemma_longer_filter(query: Seq<char>, extra: Seq<char>, name: Seq<char>)
    requires
        passes(query + extra, name),
    ensures
        passes(query, name),
{
    let longer = query + extra;
    if query.len() > 0 {
        let at = choose|at: int|
            0 <= at <= name.len() - longer.len() && #[trigger] name.subrange(
                at,
                at + longer.len(),
            ) == longer;
        assert(name.subrange(at, at + query.len()) =~= query) by {
            assert forall|i: int| 0 <= i < query.len() implies name[at + i] == query[i] by {
                assert(name.subrange(at, at + longer.len())[i] == longer[i]);
            }
        }
        assert(occurs_in(query, name));
    }
}

/// Leaving rows out keeps the order of the others.
proof fn lemma_fewer_rows(ranks: Seq<int>, rows: Seq<int>, keep: spec_fn(int) -> bool)
    requires
        in_order(ranks, rows),
    ensures
        in_order(ranks, rows.filter(keep)),
        forall|i: int| #[trigger] rows.filter(keep).contains(i) <==> rows.contains(i) && keep(i),
    decreases rows.len(),
{
    reveal(Seq::filter);
    let kept = rows.filter(keep);
    if rows.len() > 0 {
        let fewer = rows.drop_last();
        let x = rows.last();
        lemma_drop_last(ranks, rows);
        lemma_fewer_rows(ranks, fewer, keep);
        let before = fewer.filter(keep);
        assert(kept == if keep(x) {
            before.push(x)
        } else {
            before
        });
        assert forall|a: int, b: int| 0 <= a < b < kept.len() implies above(
            ranks,
            #[trigger] kept[a],
            #[trigger] kept[b],
        ) by {
            assert(kept[a] == before[a]);
            if b < before.len() {
                assert(above(ranks, before[a], before[b]));
            } else {
                assert(before.contains(before[a]));
                assert(fewer.contains(before[a]));
                let p = choose|p: int| 0 <= p < fewer.len() && fewer[p] == before[a];
                assert(above(ranks, rows[p], rows[rows.len() - 1]));
            }
        }
        assert forall|i: int| #[trigger] kept.contains(i) <==> rows.contains(i) && keep(i) by {
            if kept.contains(i) {
                let p = choose|p: int| 0 <= p < kept.len() && kept[p] == i;
                if p < before.len() {
                    assert(before[p] == i);
                    assert(before.contains(i));
                    let q = choose|q: int| 0 <= q < fewer.len() && fewer[q] == i;
                    assert(rows[q] == i);
                } else {
                    assert(rows[rows.len() - 1] == i);
                }
            }
            if rows.contains(i) && keep(i) {
                let q = choose|q: int| 0 <= q < rows.len() && rows[q] == i;
                if q < fewer.len() {
                    assert(fewer[q] == i);
                    assert(before.contains(i));
                    let p = choose|p: int| 0 <= p < before.len() && before[p] == i;
                    assert(kept[p] == i);
                } else {
                    assert(kept[kept.len() - 1] == i);
                }
            }
        }
    }
}

/// Leaving rows out leaves out their contacts.
proof fn lemma_fewer_contacts(
    contacts: Seq<ContactView>,
    rows: Seq<int>,
    keep: spec_fn(int) -> bool,
    keeps: spec_fn(ContactView) -> bool,
)
    requires
        forall|k: int|
            0 <= k < rows.len() ==> keep(#[trigger] rows[k]) == keeps(contacts[rows[k]]),
    ensures
        rows.filter(keep).map_values(|i: int| contacts[i]) == rows.map_values(
            |i: int| contacts[i],
        ).filter(keeps),
    decreases rows.len(),
{
    reveal(Seq::filter);
    let at = |i: int| contacts[i];
    let all = rows.map_values(at);
    if rows.len() > 0 {
        let fewer = rows.drop_last();
        let x = rows.last();
        assert forall|k: int| 0 <= k < fewer.len() implies keep(#[trigger] fewer[k]) == keeps(
            contacts[fewer[k]],
        ) by {
            assert(fewer[k] == rows[k]);
        }
        lemma_fewer_contacts(contacts, fewer, keep, keeps);
        assert(all.drop_last() =~= fewer.map_values(at));
        assert(all.last() == contacts[x]);
        assert(keep(rows[rows.len() - 1]) == keeps(contacts[x]));
        assert(rows.filter(keep).map_values(at) =~= all.filter(keeps));
    } else {
        assert(rows.filter(keep).map_values(at) =~= all.filter(keeps));
    }
}

/// The contacts that pass the filter of a state.
pub open spec fn passing(s: State) -> spec_fn(ContactView) -> bool {
    |c: ContactView| passes(lowered(s.search), lowered(c.name))
}

/// A longer filter narrows the list. Where something is appended to the
/// lowercase filter, the list is what it was without those who no longer pass,
/// in the same order.
pub proof fn longer_filter_narrows(s: State, t: State, extra: Seq<char>)
    requires
        s.contacts == t.contacts,
        s.last_msg_seq == t.last_msg_seq,
    ensures
        lowered(t.search) == lowered(s.search) + extra ==> t.filtered() == s.filtered().filter(
            passing(t),
        ),
{
    if lowered(t.search) == lowered(s.search) + extra {
        lemma_rows(s);
        lemma_rows(t);
        let names = s.lower_names();
        let query = lowered(t.search);
        let keep = |i: int| passes(query, names[i]);
        let kept = s.rows().filter(keep);
        lemma_fewer_rows(s.ranks(), s.rows(), keep);
        assert(is_listing(query, names, s.ranks(), kept)) by {
            assert forall|k: int| 0 <= k < kept.len() implies 0 <= #[trigger] kept[k] < names.len()
                && passes(query, names[kept[k]]) by {
                assert(kept.contains(kept[k]));
                let q = choose|q: int| 0 <= q < s.rows().len() && s.rows()[q] == kept[k];
                assert(0 <= s.rows()[q] < s.contacts.len());
            }
            assert forall|i: int| 0 <= i < names.len() && passes(query, #[trigger] names[i]) implies kept.contains(
            i) by {
                lemma_longer_filter(lowered(s.search), extra, names[i]);
                assert(s.rows().contains(i));
                assert(keep(i));
            }
        }
        lemma_listing_is_unique(query, names, s.ranks(), kept, t.rows());
        assert forall|k: int| 0 <= k < s.rows().len() implies keep(#[trigger] s.rows()[k])
            == passing(t)(s.contacts[s.rows()[k]]) by {
            assert(0 <= s.rows()[k] < s.contacts.len());
        }
        lemma_fewer_contacts(s.contacts, s.rows(), keep, passing(t));
    }
}

/// Typing narrows the list: where the filter gets one more character, and all
/// of it is ASCII, the list is what it was without those who no longer pass,
/// in the same order.
pub proof fn typing_narrows(s: State, t: State, ch: char)
    requires
        s.contacts == t.contacts,
        s.last_msg_seq == t.last_msg_seq,
        t.search == s.search.push(ch),
        all_ascii(t.search),
    ensures
        t.filtered() == s.filtered().filter(passing(t)),
{
    assert(all_ascii(s.search)) by {
        assert forall|i: int| 0 <= i < s.search.len() implies (#[trigger] s.search[i] as u32)
            < 0x80 by {
            assert(t.search[i] == s.search[i]);
        }
    }
    let extra = seq![ascii_lower(ch)];
    assert(lowered(t.search) =~= lowered(s.search) + extra);
    longer_filter_narrows(s, t, extra);
}

/// Contacts without a message stand below all contacts with one.
pub proof fn silent_contacts_come_last(s: State, a: int, b: int)
    requires
        s.counters_agree(),
        0 <= a < b < s.filtered().len(),
        !s.has_message(s.filtered()[a].id),
    ensures
        !s.has_message(s.filtered()[b].id),
{
    list_is_by_recency(s, a, b);
    lemma_recency(s, s.filtered()[a].id);
    lemma_recency(s, s.filtered()[b].id);
}

/// The chat of the newest message is the first in the list, if the list shows
/// it at all.
pub proof fn newest_chat_is_first(s: State, message: MessageView, k: int)
    requires
        s.counters_agree(),
        0 <= k < s.with_message(message).filtered().len(),
        s.with_message(message).filtered()[k].id == message.chat,
    ensures
        s.with_message(message).filtered()[0].id == message.chat,
{
    let t = s.with_message(message);
    if k > 0 {
        list_is_by_recency(t, 0, k);
        let top = t.filtered()[0].id;
        assert(t.recency(message.chat) == s.msg_seq + 1);
        if top != message.chat {
            assert(t.recency(top) == s.recency(top));
            lemma_recency(s, top);
        }
    }
}

/// The list depends on the contacts, the filter and the recency alone.
proof fn lemma_same_list(s: State, t: State)
    requires
        s.contacts == t.contacts,
        s.search == t.search,
        s.last_msg_seq == t.last_msg_seq,
    ensures
        s.rows() == t.rows(),
        s.filtered() == t.filtered(),
{
}

/// Where contacts join, the list does not get shorter.
proof fn lemma_list_grows(s: State, t: State)
    requires
        s.search == t.search,
        s.contacts.len() <= t.contacts.len(),
        forall|i: int| 0 <= i < s.contacts.len() ==> #[trigger] t.contacts[i] == s.contacts[i],
    ensures
        s.filtered().len() <= t.filtered().len(),
        s.last_row() <= t.last_row(),
{
    lemma_rows(s);
    lemma_rows(t);
    assert forall|i: int| s.rows().to_set().contains(i) implies t.rows().to_set().contains(i) by {
        assert(s.rows().contains(i));
        let k = choose|k: int| 0 <= k < s.rows().len() && s.rows()[k] == i;
        assert(0 <= s.rows()[k] < s.contacts.len());
        list_holds_what_passes(s, i);
        assert(t.contacts[i] == s.contacts[i]);
        list_holds_what_passes(t, i);
    }
    s.rows().unique_seq_to_set();
    t.rows().unique_seq_to_set();
    vstd::seq_lib::seq_to_set_is_finite(t.rows());
    vstd::set_lib::lemma_len_subset(s.rows().to_set(), t.rows().to_set());
}

proof fn lemma_clamped(s: State)
    ensures
        s.clamped().row() <= s.clamped().last_row(),
{
    lemma_same_list(s, s.clamped());
}

/// The agreement of the counters is a matter of the log and the counters.
proof fn lemma_same_counters(s: State, t: State)
    requires
        s.counters_agree(),
        s.messages == t.messages,
        s.msg_seq == t.msg_seq,
        s.last_msg_seq == t.last_msg_seq,
    ensures
        t.counters_agree(),
{
    assert forall|chat: Seq<char>, seq: int| #[trigger] t.is_latest(chat, seq) <==> (
    t.last_msg_seq.contains_key(chat) && t.last_msg_seq[chat] == seq) by {
        assert(s.is_latest(chat, seq) == t.is_latest(chat, seq));
    }
}

/// Logging a message keeps the counters in agreement: they grow by one, and
/// the chat of the message becomes more recent than any other.
pub proof fn message_keeps_counters(s: State, message: MessageView)
    requires
        s.counters_agree(),
    ensures
        s.with_message(message).counters_agree(),
        s.with_message(message).msg_seq == s.msg_seq + 1,
        s.with_message(message).recency(message.chat) == s.msg_seq + 1,
        forall|chat: Seq<char>|
            chat != message.chat ==> #[trigger] s.with_message(message).recency(chat) == s.recency(
                chat,
            ) && s.recency(chat) < s.msg_seq + 1,
{
    let t = s.with_message(message);
    let n = s.messages.len() as int;
    assert(t.messages[n] == message);
    assert forall|chat: Seq<char>, seq: int| #[trigger] t.is_latest(chat, seq) <==> (
    t.last_msg_seq.contains_key(chat) && t.last_msg_seq[chat] == seq) by {
        if chat == message.chat {
            if seq <= n && t.is_latest(chat, seq) {
                assert(t.messages[n].chat != chat);
            }
        } else {
            assert(s.is_latest(chat, seq) == t.is_latest(chat, seq)) by {
                if s.is_latest(chat, seq) {
                    assert forall|j: int| seq <= j < t.messages.len() implies (
                    #[trigger] t.messages[j]).chat != chat by {
                        if j < n {
                            assert(t.messages[j] == s.messages[j]);
                        }
                    }
                }
                if t.is_latest(chat, seq) {
                    assert(seq != n + 1);
                    assert forall|j: int| seq <= j < n implies (#[trigger] s.messages[j]).chat
                        != chat by {
                        assert(t.messages[j] == s.messages[j]);
                    }
                }
            }
        }
    }
    assert forall|chat: Seq<char>| chat != message.chat implies #[trigger] t.recency(chat)
        == s.recency(chat) && s.recency(chat) < s.msg_seq + 1 by {
        lemma_recency(s, chat);
    }
}

/// Whatever arrives keeps the counters in agreement. They grow by one exactly
/// where a message comes in, and its chat becomes more recent than any other.
pub proof fn arrival_keeps_counters(s: State, v: Tree)
    requires
        s.counters_agree(),
    ensures
        s.after(v).counters_agree(),
        s.after(v).msg_seq == s.msg_seq + (if message_in(v) is Some {
            1int
        } else {
            0int
        }),
        message_in(v) matches Some(message) ==> {
            &&& s.after(v).recency(message.chat) == s.after(v).msg_seq
            &&& forall|chat: Seq<char>|
                chat != message.chat ==> #[trigger] s.after(v).recency(chat) < s.after(v).msg_seq
        },
{
    let known = s.with_contacts(v);
    lemma_same_counters(s, known);
    match message_in(v) {
        Some(message) => {
            message_keeps_counters(known, message);
            lemma_same_counters(known.with_message(message), s.after(v));
            assert forall|chat: Seq<char>| chat != message.chat implies #[trigger] s.after(
                v,
            ).recency(chat) < s.after(v).msg_seq by {
                assert(known.with_message(message).recency(chat) == known.recency(chat));
            }
        },
        None => {
            lemma_same_counters(known, s.after(v));
        },
    }
}

/// Sending keeps the counters in agreement. They grow by one exactly where a
/// chat is open, which becomes more recent than any other.
pub proof fn sending_keeps_counters(s: State)
    requires
        s.counters_agree(),
    ensures
        s.after_sending().counters_agree(),
        s.after_sending().msg_seq == s.msg_seq + (if s.open_id is Some {
            1int
        } else {
            0int
        }),
        s.open_id matches Some(open) ==> {
            &&& s.after_sending().recency(open) == s.after_sending().msg_seq
            &&& forall|chat: Seq<char>|
                chat != open ==> #[trigger] s.after_sending().recency(chat)
                    < s.after_sending().msg_seq
        },
{
    match s.open_id {
        Some(open) => {
            let told = s.with_message(MessageView { chat: open, from: "me"@, text: s.input });
            message_keeps_counters(s, MessageView { chat: open, from: "me"@, text: s.input });
            lemma_same_counters(told, s.after_sending());
            assert forall|chat: Seq<char>| chat != open implies #[trigger] s.after_sending().recency(
                chat,
            ) < s.after_sending().msg_seq by {
                assert(told.recency(chat) == s.recency(chat));
            }
        },
        None => {},
    }
}

/// The client starts in a consistent state.
pub proof fn starts_consistent()
    ensures
        State::initial().consistent(),
{
}

/// What arrives from `signal-cli` leaves a consistent state consistent.
pub proof fn arrival_keeps_consistent(s: State, received: Received)
    requires
        s.consistent(),
    ensures
        s.after_received(received).consistent(),
{
    lemma_list_grows(s, s.after_received(received));
    match received {
        Received::Message(v) => {
            arrival_keeps_counters(s, v@);
        },
        _ => {
            lemma_same_counters(s, s.after_received(received));
        },
    }
}

/// A key leaves a consistent state consistent.
pub proof fn key_keeps_consistent(s: State, key: Key)
    requires
        s.consistent(),
    ensures
        s.after_key(key).consistent(),
{
    let t = s.after_key(key);
    if s.sends(key) {
        sending_keeps_counters(s);
        lemma_list_grows(s, t);
    } else {
        lemma_same_counters(s, t);
        if s.focus == Focus::Search && key.code == Code::Esc {
            lemma_clamped(State { search: Seq::empty(), focus: Focus::List, ..s });
        } else if s.focus == Focus::Search && key.code == Code::Backspace {
            lemma_clamped(State { search: without_last(s.search), ..s });
        } else if s.search == t.search {
            lemma_same_list(s, t);
        }
    }
}

/// Drawing leaves a consistent state consistent: no row is highlighted, or one
/// of the list.
pub proof fn drawing_keeps_consistent(s: State, row: Option<nat>)
    requires
        s.consistent(),
        row matches Some(i) ==> i < s.filtered().len(),
    ensures
        (State { selected: row, ..s }).consistent(),
{
    let t = State { selected: row, ..s };
    lemma_same_counters(s, t);
    lemma_same_list(s, t);
}

/// A chat that a message comes in for goes to the top of the list.
pub proof fn received_chat_goes_to_the_top(s: State, v: Tree, k: int)
    requires
        s.counters_agree(),
        message_in(v) is Some,
        0 <= k < s.after(v).filtered().len(),
        s.after(v).filtered()[k].id == message_in(v)->0.chat,
    ensures
        s.after(v).filtered()[0].id == message_in(v)->0.chat,
{
    let known = s.with_contacts(v);
    lemma_same_counters(s, known);
    lemma_same_list(s.after(v), known.with_message(message_in(v)->0));
    newest_chat_is_first(known, message_in(v)->0, k);
}

/// A chat that the user writes to goes to the top of the list.
pub proof fn sent_chat_goes_to_the_top(s: State, key: Key, k: int)
    requires
        s.counters_agree(),
        s.sends(key),
        s.open_id is Some,
        0 <= k < s.after_key(key).filtered().len(),
        s.after_key(key).filtered()[k].id == s.open_id->0,
    ensures
        s.after_key(key).filtered()[0].id == s.open_id->0,
{
    let message = MessageView { chat: s.open_id->0, from: "me"@, text: s.input };
    lemma_same_list(s.after_key(key), s.with_message(message));
    newest_chat_is_first(s, message, k);
}

/// No two contacts have the same id.
pub open spec fn ids_differ(contacts: Seq<ContactView>) -> bool {
    forall|i: int, j: int|
        0 <= i < j < contacts.len() ==> (#[trigger] contacts[i]).id != (#[trigger] contacts[j]).id
}

/// A name is found where a contact has the id, and is the name of such a
/// contact.
proof fn lemma_name_of(contacts: Seq<ContactView>, id: Seq<char>)
    ensures
        forall|i: int|
            0 <= i < contacts.len() && (#[trigger] contacts[i]).id == id ==> name_of(
                contacts,
                id,
            ) is Some,
        name_of(contacts, id) is Some ==> exists|i: int|
            0 <= i < contacts.len() && (#[trigger] contacts[i]).id == id && contacts[i].name
                == name_of(contacts, id)->0,
    decreases contacts.len(),
{
    if contacts.len() > 0 {
        let rest = contacts.skip(1);
        lemma_name_of(rest, id);
        if contacts[0].id != id {
            assert forall|i: int|
                0 <= i < contacts.len() && (#[trigger] contacts[i]).id == id implies name_of(
                contacts,
                id,
            ) is Some by {
                assert(rest[i - 1] == contacts[i]);
            }
            if name_of(rest, id) is Some {
                let i = choose|i: int|
                    0 <= i < rest.len() && (#[trigger] rest[i]).id == id && rest[i].name == name_of(
                        rest,
                        id,
                    )->0;
                assert(contacts[i + 1] == rest[i]);
            }
        }
    }
}

/// Where the ids of the contacts differ, the list finds no other name for an
/// id than the contacts do.
proof fn lemma_listed_name(s: State, id: Seq<char>)
    requires
        ids_differ(s.contacts),
    ensures
        name_of(s.filtered(), id) is Some ==> name_of(s.filtered(), id) == name_of(s.contacts, id),
{
    lemma_rows(s);
    lemma_name_of(s.filtered(), id);
    lemma_name_of(s.contacts, id);
    if name_of(s.filtered(), id) is Some {
        let k = choose|k: int|
            0 <= k < s.filtered().len() && (#[trigger] s.filtered()[k]).id == id
                && s.filtered()[k].name == name_of(s.filtered(), id)->0;
        let i = s.rows()[k];
        assert(s.filtered()[k] == s.contacts[i]);
        let j = choose|j: int|
            0 <= j < s.contacts.len() && (#[trigger] s.contacts[j]).id == id && s.contacts[j].name
                == name_of(s.contacts, id)->0;
        assert(s.contacts[i].id == s.contacts[j].id);
    }
}

/// The open chat stays on show, with the same messages, whatever becomes of
/// the contacts, their order, the filter and the highlighted row. Its title
/// stays too, where the contacts stay and have different ids.
pub proof fn open_chat_ignores_the_list(s: State, t: State)
    requires
        s.open_id is Some,
        s.open_id == t.open_id,
        s.messages == t.messages,
    ensures
        s.chat_id() == s.open_id,
        t.chat_id() == s.chat_id(),
        t.chat_messages() == s.chat_messages(),
        s.contacts == t.contacts && ids_differ(s.contacts) ==> t.chat_title() == s.chat_title(),
{
    if s.contacts == t.contacts && ids_differ(s.contacts) {
        lemma_listed_name(s, s.open_id->0);
        lemma_listed_name(t, s.open_id->0);
    }
}

/// Only opening a chat, by `i` or Enter in the list, changes which one is
/// open.
pub proof fn only_opening_changes_the_chat(s: State, key: Key, received: Received)
    ensures
        !(s.focus == Focus::List && key.pressed && (key.code == Code::Char('i') || key.code
            == Code::Enter)) ==> s.after_key(key).open_id == s.open_id,
        s.after_received(received).open_id == s.open_id,
{
}

/// `i` or Enter in a list that is not empty opens the chat of the highlighted
/// contact, to be written to.
pub proof fn opening_a_chat(s: State, key: Key)
    requires
        s.consistent(),
        s.focus == Focus::List,
        s.selected is Some,
        s.filtered().len() > 0,
        key.pressed,
        key.code == Code::Char('i') || key.code == Code::Enter,
    ensures
        s.after_key(key).open_id == Some(s.filtered()[s.row() as int].id),
        s.after_key(key).focus == Focus::Input,
{
    lemma_same_list(s, State { pending_g: false, ..s });
}

proof fn lemma_messages_of_push(messages: Seq<MessageView>, message: MessageView, id: Seq<char>)
    ensures
        messages_of(messages.push(message), id) == (if message.chat == id {
            messages_of(messages, id).push(message)
        } else {
            messages_of(messages, id)
        }),
{
    reveal(Seq::filter);
    assert(messages.push(message).drop_last() =~= messages);
}

/// A message that comes in appears at the end of the open chat where it
/// belongs to it, and leaves it as it is where it belongs to another.
pub proof fn received_message_is_shown(s: State, v: Tree)
    requires
        s.open_id is Some,
        message_in(v) is Some,
    ensures
        message_in(v)->0.chat == s.open_id->0 ==> s.after(v).chat_messages()
            == s.chat_messages().push(message_in(v)->0),
        message_in(v)->0.chat != s.open_id->0 ==> s.after(v).chat_messages() == s.chat_messages(),
{
    lemma_messages_of_push(s.messages, message_in(v)->0, s.open_id->0);
}

/// A message that the user sends appears at the end of the chat, and the input
/// is empty again.
pub proof fn sent_message_is_shown(s: State, key: Key)
    requires
        s.sends(key),
        s.open_id is Some,
    ensures
        s.after_key(key).chat_messages() == s.chat_messages().push(
            MessageView { chat: s.open_id->0, from: "me"@, text: s.input },
        ),
        s.after_key(key).input.len() == 0,
{
    let message = MessageView { chat: s.open_id->0, from: "me"@, text: s.input };
    lemma_messages_of_push(s.messages, message, s.open_id->0);
}

/// Without something written, or without an open chat, Enter sends nothing and
/// changes nothing.
pub proof fn nothing_is_sent_to_nobody(s: State, key: Key)
    requires
        s.focus == Focus::Input,
        key.code == Code::Enter,
        s.input.len() == 0 || s.open_id is None,
    ensures
        s.after_key(key) == s,
        s.open_id is None ==> forall|id: int| #[trigger] s.send_request(id) is None,
        s.input.len() == 0 ==> !s.sends(key),
{
}

/// Messages and contacts are added at the end and never lost, a chat never
/// becomes less recent, and a lost connection stays lost.
pub open spec fn only_grows(s: State, t: State) -> bool {
    &&& s.messages.len() <= t.messages.len()
    &&& t.messages.take(s.messages.len() as int) == s.messages
    &&& s.contacts.len() <= t.contacts.len()
    &&& t.contacts.take(s.contacts.len() as int) == s.contacts
    &&& forall|chat: Seq<char>| s.recency(chat) <= #[trigger] t.recency(chat)
    &&& t.connected ==> s.connected
}

/// A key adds to what is known, and takes nothing away.
pub proof fn key_only_adds(s: State, key: Key)
    requires
        s.counters_agree(),
    ensures
        only_grows(s, s.after_key(key)),
{
    let t = s.after_key(key);
    assert(t.messages.take(s.messages.len() as int) =~= s.messages);
    assert(t.contacts.take(s.contacts.len() as int) =~= s.contacts);
    assert forall|chat: Seq<char>| s.recency(chat) <= #[trigger] t.recency(chat) by {
        lemma_recency(s, chat);
    }
}

/// What arrives adds to what is known, and takes nothing away.
pub proof fn arrival_only_adds(s: State, received: Received)
    requires
        s.counters_agree(),
    ensures
        only_grows(s, s.after_received(received)),
{
    let t = s.after_received(received);
    assert(t.messages.take(s.messages.len() as int) =~= s.messages);
    assert(t.contacts.take(s.contacts.len() as int) =~= s.contacts);
    assert forall|chat: Seq<char>| s.recency(chat) <= #[trigger] t.recency(chat) by {
        lemma_recency(s, chat);
    }
}

/// How the focus moves: `/` leads from the list to the filter, Enter and Esc
/// back; `i`, Enter and Tab lead from the list to the input, Esc and Tab back.
/// Nothing else moves it.
pub proof fn focus_moves(s: State, key: Key)
    requires
        key.pressed,
        !s.quits(key),
    ensures
        s.after_key(key).focus == (match s.focus {
            Focus::List => match key.code {
                Code::Char('/') => Focus::Search,
                Code::Char('i') => Focus::Input,
                Code::Enter => Focus::Input,
                Code::Tab => Focus::Input,
                _ => Focus::List,
            },
            Focus::Search => match key.code {
                Code::Enter => Focus::List,
                Code::Esc => Focus::List,
                _ => Focus::Search,
            },
            Focus::Input => match key.code {
                Code::Esc => Focus::List,
                Code::Tab => Focus::List,
                _ => Focus::Input,
            },
        }),
{
}

/// Ctrl-C quits wherever the user is; `q` quits in the list alone, and is an
/// ordinary character elsewhere.
pub proof fn how_to_quit(s: State, key: Key)
    requires
        key.pressed,
    ensures
        key.code == Code::Char('c') && key.ctrl ==> s.quits(key),
        key.code == Code::Char('q') ==> (s.quits(key) <==> s.focus == Focus::List),
        key.code == Code::Char('q') && s.focus == Focus::Search ==> s.after_key(key).search
            == s.search.push('q'),
        key.code == Code::Char('q') && s.focus == Focus::Input ==> s.after_key(key).input
            == s.input.push('q'),
{
}

/// A key that is not going down changes nothing, and neither does one that
/// ends the program.
pub proof fn other_events_change_nothing(s: State, key: Key)
    requires
        !key.pressed || s.quits(key),
    ensures
        s.after_key(key) == s,
{
}

/// In the list, `g` twice leads to the first row. The first `g` moves nothing;
/// any key but a second `g` forgets it, and then does what it always does.
pub proof fn gg_goes_to_the_top(s: State, g: Key, other: Key)
    requires
        s.focus == Focus::List,
        !s.pending_g,
        g.pressed,
        g.code == Code::Char('g'),
        other.pressed,
        other.code != Code::Char('g'),
        !s.quits(other),
    ensures
        s.after_key(g) == (State { pending_g: true, ..s }),
        s.after_key(g).after_key(g) == (State { selected: Some(0nat), ..s }),
        s.after_key(g).after_key(other) == s.after_key(other),
        !s.after_key(other).pending_g,
{
    lemma_same_list(s, s.after_key(g));
}

/// Moving in the list stays in the list: down by one row, but not past the
/// last; up by one, but not past the first; `G` to the last.
pub proof fn moves_stay_in_the_list(s: State, key: Key)
    requires
        s.focus == Focus::List,
        key.pressed,
    ensures
        key.code == Code::Char('j') || key.code == Code::Down ==> s.after_key(key).row() == (if s.row()
            + 1 <= s.last_row() {
            s.row() + 1
        } else {
            s.last_row()
        }),
        key.code == Code::Char('k') || key.code == Code::Up ==> s.after_key(key).row() == (if s.row()
            >= 1 {
            s.row() - 1
        } else {
            0
        }),
        key.code == Code::Char('G') ==> s.after_key(key).row() == s.last_row(),
{
}

/// Up undoes down, except at the last row.
pub proof fn up_undoes_down(s: State, down: Key, up: Key)
    requires
        s.focus == Focus::List,
        s.row() < s.last_row(),
        down.pressed,
        up.pressed,
        down.code == Code::Char('j') || down.code == Code::Down,
        up.code == Code::Char('k') || up.code == Code::Up,
    ensures
        s.after_key(down).after_key(up).row() == s.row(),
        s.after_key(down).after_key(up).filtered() == s.filtered(),
{
    lemma_same_list(s, s.after_key(down));
    lemma_same_list(s, s.after_key(down).after_key(up));
}

/// Backspace undoes a typed character, in the filter and in the input.
pub proof fn backspace_undoes_typing(s: State, key: Key, backspace: Key)
    requires
        key.pressed,
        key.code is Char,
        !s.quits(key),
        backspace.pressed,
        backspace.code == Code::Backspace,
    ensures
        s.focus == Focus::Search ==> s.after_key(key).after_key(backspace).search == s.search,
        s.focus == Focus::Input ==> s.after_key(key).after_key(backspace) == s,
{
    match key.code {
        Code::Char(ch) => {
            assert(s.search.push(ch).drop_last() =~= s.search);
            assert(s.input.push(ch).drop_last() =~= s.input);
        },
        _ => {},
    }
}

/// While the filter is typed, a character lengthens it and highlights the first
/// row, and where the filter is all ASCII the list narrows; Enter keeps the
/// filter, Esc drops it.
pub proof fn filter_keys(s: State, key: Key)
    requires
        s.focus == Focus::Search,
        key.pressed,
        !s.quits(key),
    ensures
        key.code matches Code::Char(ch) ==> s.after_key(key).search == s.search.push(ch) && s.after_key(
            key,
        ).selected == Some(0nat),
        key.code is Char && all_ascii(s.after_key(key).search) ==> s.after_key(key).filtered()
            == s.filtered().filter(passing(s.after_key(key))),
        key.code == Code::Enter ==> s.after_key(key).search == s.search && s.after_key(
            key,
        ).filtered() == s.filtered(),
        key.code == Code::Esc ==> s.after_key(key).search.len() == 0,
{
    lemma_same_list(s, State { focus: Focus::List, ..s });
    match key.code {
        Code::Char(ch) => {
            if all_ascii(s.after_key(key).search) {
                typing_narrows(s, s.after_key(key), ch);
            }
        },
        _ => {},
    }
}

/// The entries of two lists, one after the other, describe the contacts of the
/// first and then those of the second.
pub proof fn lists_add_up(a: Seq<Tree>, b: Seq<Tree>)
    ensures
        contacts_in(a + b) == contacts_in(a) + contacts_in(b),
    decreases b.len(),
{
    if b.len() == 0 {
        assert(a + b =~= a);
        assert(contacts_in(a) + contacts_in(b) =~= contacts_in(a));
    } else {
        lists_add_up(a, b.drop_last());
        assert((a + b).drop_last() =~= a + b.drop_last());
        assert((a + b).last() == b.last());
        assert(contacts_in(a + b) =~= contacts_in(a) + contacts_in(b));
    }
}

} // verus!
