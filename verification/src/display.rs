//! What the user gets to see: whom the list holds, in what order, and what is
//! on show of a chat.

use crate::laws::ids_differ;
use crate::listing::{above, lemma_listing_exists, listing, passes};
use crate::model::{ContactView, Focus, MessageView, State};
use crate::screen::{
    border_colour, first_shown, hint, label, line_texts, messages_of, name_of, rows_of, shows,
    title_colour, wrapped_rows, ChatLine, Conversation, BG, BG3, BLUE, CYAN, DIM, FG, GREEN, RED,
};
use crate::text::{all_ascii, ascii_lower, is_blank, is_white, lowercase, lowered, occurs_in};
use vstd::prelude::*;

verus! {

/// `query` stands in `name` from `at` on, character by character.
pub open spec fn stands_at(query: Seq<char>, name: Seq<char>, at: int) -> bool {
    &&& 0 <= at
    &&& at + query.len() <= name.len()
    &&& forall|i: int| 0 <= i < query.len() ==> name[at + i] == #[trigger] query[i]
}

/// `query` stands somewhere in `name`.
pub open spec fn stands_in(query: Seq<char>, name: Seq<char>) -> bool {
    exists|at: int| #[trigger] stands_at(query, name, at)
}

/// Two characters are the same but for the case of an ASCII letter.
pub open spec fn same_letter(a: char, b: char) -> bool {
    ||| a == b
    ||| 'A' <= a <= 'Z' && b as u32 == a as u32 + 0x20
    ||| 'A' <= b <= 'Z' && a as u32 == b as u32 + 0x20
}

proof fn lemma_passes(query: Seq<char>, name: Seq<char>)
    ensures
        forall|at: int| #[trigger] stands_at(query, name, at) ==> passes(query, name),
{
    assert forall|at: int| #[trigger] stands_at(query, name, at) implies passes(query, name) by {
        assert(name.subrange(at, at + query.len()) =~= query);
        assert(occurs_in(query, name));
    }
}

proof fn lemma_stands(query: Seq<char>, name: Seq<char>) -> (at: int)
    requires
        passes(query, name),
    ensures
        stands_at(query, name, at),
{
    if query.len() == 0 {
        0
    } else {
        let at = choose|at: int|
            0 <= at <= name.len() - query.len() && #[trigger] name.subrange(at, at + query.len())
                == query;
        assert forall|i: int| 0 <= i < query.len() implies name[at + i] == #[trigger] query[i] by {
            assert(name.subrange(at, at + query.len())[i] == query[i]);
        }
        at
    }
}

/// A listing holds each position once: the positions of exactly those names in
/// which the filter stands somewhere, the highest rank first, and where ranks
/// are equal the first position first.
pub proof fn listing_holds(query: Seq<char>, names: Seq<Seq<char>>, ranks: Seq<int>)
    ensures
        forall|i: int, at: int|
            0 <= i < names.len() && #[trigger] stands_at(query, names[i], at) ==> listing(
                query,
                names,
                ranks,
            ).contains(i),
        forall|k: int|
            0 <= k < listing(query, names, ranks).len() ==> {
                &&& 0 <= #[trigger] listing(query, names, ranks)[k] < names.len()
                &&& exists|at: int| #[trigger]
                    stands_at(query, names[listing(query, names, ranks)[k]], at)
            },
        forall|a: int, b: int|
            0 <= a < b < listing(query, names, ranks).len() ==> {
                let i = #[trigger] listing(query, names, ranks)[a];
                let j = #[trigger] listing(query, names, ranks)[b];
                i != j && ranks[i] >= ranks[j] && (ranks[i] == ranks[j] ==> i < j)
            },
{
    lemma_listing_exists(query, names, ranks);
    let rows = listing(query, names, ranks);
    assert forall|i: int, at: int|
        0 <= i < names.len() && #[trigger] stands_at(query, names[i], at) implies rows.contains(
        i,
    ) by {
        lemma_passes(query, names[i]);
    }
    assert forall|k: int| 0 <= k < rows.len() implies 0 <= #[trigger] rows[k] < names.len()
        && exists|at: int| #[trigger] stands_at(query, names[rows[k]], at) by {
        let at = lemma_stands(query, names[rows[k]]);
    }
    assert forall|a: int, b: int| 0 <= a < b < rows.len() implies {
        let i = #[trigger] rows[a];
        let j = #[trigger] rows[b];
        i != j && ranks[i] >= ranks[j] && (ranks[i] == ranks[j] ==> i < j)
    } by {
        assert(above(ranks, rows[a], rows[b]));
    }
}

/// Where the contacts of the list stand among all contacts: each row shows a
/// contact of its own; a contact is in the list if the lowercase filter stands
/// anywhere in its lowercase name, however long the filter is, and only then.
/// A row is above another if its chat has the later message, or if neither has
/// and the contact was known first.
pub proof fn list_lines_up(s: State) -> (rows: Seq<int>)
    ensures
        rows.len() == s.filtered().len(),
        forall|k: int|
            0 <= k < rows.len() ==> {
                &&& 0 <= #[trigger] rows[k] < s.contacts.len()
                &&& s.filtered()[k] == s.contacts[rows[k]]
                &&& exists|at: int| #[trigger]
                    stands_at(lowered(s.search), lowered(s.contacts[rows[k]].name), at)
            },
        forall|i: int, at: int|
            0 <= i < s.contacts.len() && #[trigger] stands_at(
                lowered(s.search),
                lowered(s.contacts[i].name),
                at,
            ) ==> rows.contains(i),
        forall|a: int, b: int|
            0 <= a < b < rows.len() ==> {
                let x = s.contacts[#[trigger] rows[a]].id;
                let y = s.contacts[#[trigger] rows[b]].id;
                let m = if s.last_msg_seq.contains_key(x) {
                    s.last_msg_seq[x]
                } else {
                    0
                };
                let n = if s.last_msg_seq.contains_key(y) {
                    s.last_msg_seq[y]
                } else {
                    0
                };
                rows[a] != rows[b] && m >= n && (m == n ==> rows[a] < rows[b])
            },
{
    let query = lowered(s.search);
    let names = s.lower_names();
    let ranks = s.ranks();
    listing_holds(query, names, ranks);
    let rows = s.rows();
    assert forall|k: int| 0 <= k < rows.len() implies {
        &&& 0 <= #[trigger] rows[k] < s.contacts.len()
        &&& s.filtered()[k] == s.contacts[rows[k]]
        &&& exists|at: int| #[trigger]
            stands_at(lowered(s.search), lowered(s.contacts[rows[k]].name), at)
    } by {
        assert(0 <= rows[k] < names.len());
        assert(names[rows[k]] == lowered(s.contacts[rows[k]].name));
    }
    assert forall|i: int, at: int|
        0 <= i < s.contacts.len() && #[trigger] stands_at(
            query,
            lowered(s.contacts[i].name),
            at,
        ) implies rows.contains(i) by {
        assert(stands_at(query, names[i], at));
    }
    assert forall|a: int, b: int| 0 <= a < b < rows.len() implies {
        let x = s.contacts[#[trigger] rows[a]].id;
        let y = s.contacts[#[trigger] rows[b]].id;
        let m = if s.last_msg_seq.contains_key(x) {
            s.last_msg_seq[x]
        } else {
            0
        };
        let n = if s.last_msg_seq.contains_key(y) {
            s.last_msg_seq[y]
        } else {
            0
        };
        rows[a] != rows[b] && m >= n && (m == n ==> rows[a] < rows[b])
    } by {
        assert(0 <= rows[a] < names.len() && 0 <= rows[b] < names.len());
        let i = rows[a];
        let j = rows[b];
        assert(i != j && ranks[i] >= ranks[j] && (ranks[i] == ranks[j] ==> i < j));
    }
    rows
}

/// Whoever is found is listed: if the lowercase filter stands anywhere in the
/// lowercase name of a contact, the list shows the contact. The empty filter
/// stands in every name.
pub proof fn found_is_listed(s: State, i: int, at: int)
    requires
        0 <= i < s.contacts.len(),
        0 <= at <= lowered(s.contacts[i].name).len() - lowered(s.search).len(),
        forall|j: int|
            0 <= j < lowered(s.search).len() ==> lowered(s.contacts[i].name)[at + j]
                == #[trigger] lowered(s.search)[j],
    ensures
        exists|k: int| 0 <= k < s.filtered().len() && #[trigger] s.filtered()[k] == s.contacts[i],
{
    let rows = list_lines_up(s);
    assert(stands_at(lowered(s.search), lowered(s.contacts[i].name), at));
    assert(rows.contains(i));
    let k = choose|k: int| 0 <= k < rows.len() && rows[k] == i;
    assert(s.filtered()[k] == s.contacts[rows[k]]);
}

/// Whoever is listed is found: the lowercase filter stands somewhere in the
/// lowercase name.
pub proof fn listed_is_found(s: State, k: int) -> (found: (int, int))
    requires
        0 <= k < s.filtered().len(),
    ensures
        0 <= found.0 < s.contacts.len(),
        s.filtered()[k] == s.contacts[found.0],
        0 <= found.1 <= lowered(s.filtered()[k].name).len() - lowered(s.search).len(),
        forall|j: int|
            0 <= j < lowered(s.search).len() ==> lowered(s.filtered()[k].name)[found.1 + j]
                == #[trigger] lowered(s.search)[j],
{
    let rows = list_lines_up(s);
    let i = rows[k];
    let at = choose|at: int| #[trigger]
        stands_at(lowered(s.search), lowered(s.contacts[rows[k]].name), at);
    (i, at)
}

/// With the whole name of a contact as the filter, the contact is listed; and
/// so it is without a filter.
pub proof fn whole_name_is_found(s: State, i: int)
    requires
        0 <= i < s.contacts.len(),
        s.search == s.contacts[i].name || s.search.len() == 0,
    ensures
        exists|k: int| 0 <= k < s.filtered().len() && #[trigger] s.filtered()[k] == s.contacts[i],
{
    found_is_listed(s, i, 0);
}

proof fn lemma_lower(c: char)
    ensures
        same_letter(c, ascii_lower(c)),
        !('A' <= ascii_lower(c) <= 'Z'),
{
}

/// A text in lowercase. Of ASCII text, letters alone change, and only in their
/// case; none is a capital afterwards. Other text is as Unicode has it.
pub proof fn lowercase_changes_case_alone(s: Seq<char>)
    ensures
        all_ascii(s) ==> {
            &&& lowered(s).len() == s.len()
            &&& forall|i: int|
                0 <= i < s.len() ==> same_letter(#[trigger] s[i], lowered(s)[i]) && !('A'
                    <= lowered(s)[i] <= 'Z')
        },
        !all_ascii(s) ==> lowered(s) == lowercase(s),
{
    if all_ascii(s) {
        assert forall|i: int| 0 <= i < s.len() implies same_letter(#[trigger] s[i], lowered(s)[i])
            && !('A' <= lowered(s)[i] <= 'Z') by {
            assert(lowered(s)[i] == ascii_lower(s[i]));
            lemma_lower(s[i]);
        }
    }
}

/// Whoever has, in ASCII, the filter in their name but for the case of letters
/// is listed.
pub proof fn letters_are_found(s: State, i: int, at: int)
    requires
        0 <= i < s.contacts.len(),
        all_ascii(s.search),
        all_ascii(s.contacts[i].name),
        0 <= at <= s.contacts[i].name.len() - s.search.len(),
        forall|j: int|
            0 <= j < s.search.len() ==> same_letter(
                s.contacts[i].name[at + j],
                #[trigger] s.search[j],
            ),
    ensures
        exists|k: int| 0 <= k < s.filtered().len() && #[trigger] s.filtered()[k] == s.contacts[i],
{
    let name = s.contacts[i].name;
    assert forall|j: int| 0 <= j < lowered(s.search).len() implies lowered(name)[at + j]
        == #[trigger] lowered(s.search)[j] by {
        assert(same_letter(name[at + j], s.search[j]));
    }
    found_is_listed(s, i, at);
}

/// The case of the letters in the filter does not matter.
pub proof fn case_does_not_matter(s: State, t: State)
    requires
        s.contacts == t.contacts,
        s.last_msg_seq == t.last_msg_seq,
        all_ascii(s.search),
        all_ascii(t.search),
        s.search.len() == t.search.len(),
        forall|j: int| 0 <= j < s.search.len() ==> same_letter(#[trigger] s.search[j], t.search[j]),
    ensures
        s.filtered() == t.filtered(),
{
    assert(lowered(s.search) =~= lowered(t.search));
}

/// The list goes by the log: whoever stands above a contact with a message has
/// one that is no older.
pub proof fn order_goes_by_the_log(s: State, a: int, b: int, n: int) -> (m: int)
    requires
        s.counters_agree(),
        0 <= a < b < s.filtered().len(),
        0 <= n < s.messages.len(),
        s.messages[n].chat == s.filtered()[b].id,
    ensures
        n <= m < s.messages.len(),
        s.messages[m].chat == s.filtered()[a].id,
{
    let rows = list_lines_up(s);
    let x = s.filtered()[a].id;
    let y = s.filtered()[b].id;
    assert(s.filtered()[a] == s.contacts[rows[a]]);
    assert(s.filtered()[b] == s.contacts[rows[b]]);
    let later = lemma_latest(s, n);
    assert(s.is_latest(y, later));
    assert(s.last_msg_seq.contains_key(y) && s.last_msg_seq[y] == later);
    assert(s.last_msg_seq.contains_key(x));
    let first = s.last_msg_seq[x];
    assert(s.is_latest(x, first));
    first - 1
}

/// The number of the latest message of the chat that the message belongs to.
proof fn lemma_latest(s: State, n: int) -> (seq: int)
    requires
        0 <= n < s.messages.len(),
    ensures
        n < seq,
        s.is_latest(s.messages[n].chat, seq),
    decreases s.messages.len() - n,
{
    let chat = s.messages[n].chat;
    if exists|k: int| n < k < s.messages.len() && (#[trigger] s.messages[k]).chat == chat {
        let k = choose|k: int| n < k < s.messages.len() && (#[trigger] s.messages[k]).chat == chat;
        lemma_latest(s, k)
    } else {
        n + 1
    }
}

/// Two contacts without a message stand in the order in which they came to be
/// known.
pub proof fn the_rest_keeps_its_order(s: State, a: int, b: int) -> (at: (int, int))
    requires
        s.counters_agree(),
        0 <= a < b < s.filtered().len(),
        forall|n: int|
            0 <= n < s.messages.len() ==> (#[trigger] s.messages[n]).chat != s.filtered()[a].id
                && s.messages[n].chat != s.filtered()[b].id,
    ensures
        0 <= at.0 < at.1 < s.contacts.len(),
        s.filtered()[a] == s.contacts[at.0],
        s.filtered()[b] == s.contacts[at.1],
{
    let rows = list_lines_up(s);
    let x = s.filtered()[a].id;
    let y = s.filtered()[b].id;
    assert(s.filtered()[a] == s.contacts[rows[a]]);
    assert(s.filtered()[b] == s.contacts[rows[b]]);
    if s.last_msg_seq.contains_key(x) {
        let seq = s.last_msg_seq[x];
        assert(s.is_latest(x, seq));
        assert(s.messages[seq - 1].chat == x);
    }
    if s.last_msg_seq.contains_key(y) {
        let seq = s.last_msg_seq[y];
        assert(s.is_latest(y, seq));
        assert(s.messages[seq - 1].chat == y);
    }
    (rows[a], rows[b])
}

/// The last row of the list is its length without one, or the first row where
/// the list is empty. The highlighted contact is the one in the highlighted
/// row, where the list has that row. A row that the list does not have is
/// brought back to the last; any other stays.
pub proof fn rows_of_the_list(s: State)
    ensures
        s.filtered().len() > 0 ==> s.last_row() == s.filtered().len() - 1,
        s.filtered().len() == 0 ==> s.last_row() == 0,
        s.selected matches Some(row) ==> {
            &&& row < s.filtered().len() ==> s.highlighted() == Some(s.filtered()[row as int])
            &&& row >= s.filtered().len() ==> s.highlighted() is None
            &&& row < s.filtered().len() ==> s.clamped() == s
            &&& row >= s.filtered().len() ==> s.clamped() == (State {
                selected: Some(s.last_row()),
                ..s
            })
        },
        s.selected is None ==> {
            &&& s.highlighted() is None
            &&& s.clamped() == (State { selected: Some(0nat), ..s })
        },
{
}

/// How recent a chat is: the number of its latest message, where it has one.
pub proof fn recency_is_the_latest_number(s: State, id: Seq<char>)
    ensures
        s.last_msg_seq.contains_key(id) ==> s.recency(id) == s.last_msg_seq[id],
        !s.last_msg_seq.contains_key(id) ==> s.recency(id) == 0,
{
}

/// Which chat is on show: the open one; where none is open, that of the contact
/// in the highlighted row; where there is none, no chat.
pub proof fn chat_on_show(s: State)
    ensures
        s.open_id is Some ==> s.chat_id() == s.open_id,
        s.open_id is None ==> match s.selected {
            Some(row) => {
                &&& row < s.filtered().len() ==> s.chat_id() == Some(s.filtered()[row as int].id)
                &&& row >= s.filtered().len() ==> s.chat_id() is None
            },
            None => s.chat_id() is None,
        },
        s.chat_id() is None ==> s.chat_messages().len() == 0 && s.chat_title().len() == 0,
{
}

/// A chat on show holds all messages of that chat, each once and none of
/// another, in the order of the log.
pub proof fn chat_holds_its_messages(s: State, id: Seq<char>) -> (at: Seq<int>)
    requires
        s.chat_id() == Some(id),
    ensures
        at.len() == s.chat_messages().len(),
        forall|k: int|
            0 <= k < at.len() ==> {
                &&& 0 <= #[trigger] at[k] < s.messages.len()
                &&& s.messages[at[k]].chat == id
                &&& s.chat_messages()[k] == s.messages[at[k]]
            },
        forall|a: int, b: int| 0 <= a < b < at.len() ==> #[trigger] at[a] < #[trigger] at[b],
        forall|n: int|
            0 <= n < s.messages.len() && (#[trigger] s.messages[n]).chat == id ==> at.contains(n),
{
    lemma_positions(s.messages, id)
}

proof fn lemma_positions(messages: Seq<MessageView>, id: Seq<char>) -> (at: Seq<int>)
    ensures
        at.len() == messages_of(messages, id).len(),
        forall|k: int|
            0 <= k < at.len() ==> {
                &&& 0 <= #[trigger] at[k] < messages.len()
                &&& messages[at[k]].chat == id
                &&& messages_of(messages, id)[k] == messages[at[k]]
            },
        forall|a: int, b: int| 0 <= a < b < at.len() ==> #[trigger] at[a] < #[trigger] at[b],
        forall|n: int|
            0 <= n < messages.len() && (#[trigger] messages[n]).chat == id ==> at.contains(n),
    decreases messages.len(),
{
    reveal(Seq::filter);
    if messages.len() == 0 {
        Seq::empty()
    } else {
        let fewer = messages.drop_last();
        let before = lemma_positions(fewer, id);
        let n = messages.len() - 1;
        let at = if messages.last().chat == id {
            before.push(n)
        } else {
            before
        };
        assert forall|k: int| 0 <= k < at.len() implies {
            &&& 0 <= #[trigger] at[k] < messages.len()
            &&& messages[at[k]].chat == id
            &&& messages_of(messages, id)[k] == messages[at[k]]
        } by {
            if k < before.len() {
                assert(at[k] == before[k]);
                assert(fewer[before[k]] == messages[before[k]]);
            }
        }
        assert forall|j: int|
            0 <= j < messages.len() && (#[trigger] messages[j]).chat == id implies at.contains(
            j,
        ) by {
            if j < n {
                assert(fewer[j] == messages[j]);
                assert(before.contains(j));
                let k = choose|k: int| 0 <= k < before.len() && before[k] == j;
                assert(at[k] == j);
            } else {
                assert(at[at.len() - 1] == n);
            }
        }
        at
    }
}

/// The line of a message: who wrote it, and all of its words, whoever that was.
/// The user's own messages are blue, the others green.
pub proof fn line_shows_the_words(line: ChatLine, message: MessageView)
    requires
        shows(line, message),
    ensures
        line.text@ == message.text,
        line.author@ == message.from + ": "@,
        message.from == "me"@ ==> line.colour == 0x6f8faf,
        message.from != "me"@ ==> line.colour == 0x87965f,
{
}

/// The first contact with an id, if there is one, gives the name for it.
proof fn lemma_first_name(contacts: Seq<ContactView>, id: Seq<char>)
    ensures
        forall|i: int|
            #![trigger contacts[i]]
            0 <= i < contacts.len() && contacts[i].id == id && (forall|j: int|
                0 <= j < i ==> (#[trigger] contacts[j]).id != id) ==> name_of(contacts, id) == Some(
                contacts[i].name,
            ),
        (forall|i: int| 0 <= i < contacts.len() ==> (#[trigger] contacts[i]).id != id) ==> name_of(
            contacts,
            id,
        ) is None,
    decreases contacts.len(),
{
    if contacts.len() > 0 {
        let rest = contacts.skip(1);
        lemma_first_name(rest, id);
        assert forall|i: int|
            #![trigger contacts[i]]
            0 <= i < contacts.len() && contacts[i].id == id && (forall|j: int|
                0 <= j < i ==> (#[trigger] contacts[j]).id != id) implies name_of(contacts, id)
            == Some(contacts[i].name) by {
            if i > 0 {
                assert(contacts[0].id != id);
                assert(rest[i - 1] == contacts[i]);
                assert forall|j: int| 0 <= j < i - 1 implies (#[trigger] rest[j]).id != id by {
                    assert(contacts[j + 1] == rest[j]);
                }
            }
        }
        if forall|i: int| 0 <= i < contacts.len() ==> (#[trigger] contacts[i]).id != id {
            assert(contacts[0].id != id);
            assert forall|j: int| 0 <= j < rest.len() implies (#[trigger] rest[j]).id != id by {
                assert(contacts[j + 1] == rest[j]);
            }
        }
    }
}

/// The title of a chat on show is the name of the contact with its id: of the
/// first in the list, or where the list has none of the first at all. Nobody's
/// chat has no title.
pub proof fn title_names_the_chat(s: State, id: Seq<char>, i: int)
    requires
        s.chat_id() == Some(id),
    ensures
        0 <= i < s.filtered().len() && s.filtered()[i].id == id && (forall|j: int|
            0 <= j < i ==> (#[trigger] s.filtered()[j]).id != id) ==> s.chat_title()
            == s.filtered()[i].name,
        (forall|j: int| 0 <= j < s.filtered().len() ==> (#[trigger] s.filtered()[j]).id != id) && 0
            <= i < s.contacts.len() && s.contacts[i].id == id && (forall|j: int|
            0 <= j < i ==> (#[trigger] s.contacts[j]).id != id) ==> s.chat_title()
            == s.contacts[i].name,
        (forall|j: int| 0 <= j < s.contacts.len() ==> (#[trigger] s.contacts[j]).id != id)
            ==> s.chat_title().len() == 0,
{
    lemma_first_name(s.filtered(), id);
    lemma_first_name(s.contacts, id);
    if forall|j: int| 0 <= j < s.contacts.len() ==> (#[trigger] s.contacts[j]).id != id {
        let rows = list_lines_up(s);
        assert forall|k: int| 0 <= k < s.filtered().len() implies (#[trigger] s.filtered()[k]).id
            != id by {
            assert(s.filtered()[k] == s.contacts[rows[k]]);
        }
    }
}

/// Where the ids of the contacts differ, the title of a contact's chat is the
/// contact's name, whether or not the list shows it.
pub proof fn title_is_the_name(s: State, i: int)
    requires
        ids_differ(s.contacts),
        0 <= i < s.contacts.len(),
        s.chat_id() == Some(s.contacts[i].id),
    ensures
        s.chat_title() == s.contacts[i].name,
{
    let id = s.contacts[i].id;
    let rows = list_lines_up(s);
    lemma_first_name(s.contacts, id);
    lemma_first_name(s.filtered(), id);
    assert forall|j: int| 0 <= j < i implies (#[trigger] s.contacts[j]).id != id by {
        assert(s.contacts[j].id != s.contacts[i].id);
    }
    assert forall|k: int|
        0 <= k < s.filtered().len() && (#[trigger] s.filtered()[k]).id == id implies s.filtered()[k]
        == s.contacts[i] by {
        assert(s.filtered()[k] == s.contacts[rows[k]]);
        let j = rows[k];
        if j < i {
            assert(s.contacts[j].id != s.contacts[i].id);
        }
        if i < j {
            assert(s.contacts[i].id != s.contacts[j].id);
        }
    }
    if exists|k: int| 0 <= k < s.filtered().len() && (#[trigger] s.filtered()[k]).id == id {
        let k = choose|k: int| 0 <= k < s.filtered().len() && (#[trigger] s.filtered()[k]).id == id;
        assert forall|j: int| 0 <= j < k implies (#[trigger] s.filtered()[j]).id != id by {
            if s.filtered()[j].id == id {
                assert(rows[j] != rows[k]);
                assert(s.contacts[rows[j]].id == id && s.contacts[rows[k]].id == id);
                if rows[j] < rows[k] {
                    assert(s.contacts[rows[j]].id != s.contacts[rows[k]].id);
                } else {
                    assert(s.contacts[rows[k]].id != s.contacts[rows[j]].id);
                }
            }
        }
    }
}

/// A contact is listed by its name, a group with a mark before it.
pub proof fn row_shows_the_name(contact: ContactView)
    ensures
        !contact.is_group ==> label(contact) == contact.name,
        contact.is_group ==> label(contact) == "# "@ + contact.name,
{
}

/// The title of the list shows the filter while it is typed.
pub proof fn title_shows_the_filter(s: State)
    ensures
        s.focus == Focus::Search ==> s.list_title() == "/ "@ + s.search + "_"@,
        s.focus != Focus::Search ==> s.list_title() == "Contacts"@,
{
}

/// The status line tells which keys there are, by focus.
pub proof fn hints_tell_the_keys()
    ensures
        hint(Focus::List) == "j/k navigate · / search · i/Enter compose · q quit"@,
        hint(Focus::Search) == "type to filter · Enter confirm · Esc cancel"@,
        hint(Focus::Input) == "Enter send · Esc back"@,
{
}

/// The colours, and what they tell: the active part of the screen stands out.
pub proof fn colours()
    ensures
        BG == 0x111110,
        BG3 == 0x31302c,
        DIM == 0x575651,
        FG == 0xcecbc1,
        CYAN == 0x5f9b95,
        GREEN == 0x87965f,
        RED == 0xa85f59,
        BLUE == 0x6f8faf,
        border_colour(true) == 0x5f9b95,
        border_colour(false) == 0x31302c,
        title_colour(true) == 0x5f9b95,
        title_colour(false) == 0x575651,
{
}

/// A conversation is scrolled to its end: what fits is shown from the first
/// row; of what does not, the last rows fill the pane, as far as 16 bits count.
pub proof fn end_is_on_show(rows: int, height: int)
    requires
        0 <= rows,
        0 <= height <= u16::MAX,
    ensures
        rows <= height ==> first_shown(rows, height) == 0,
        height < rows <= u16::MAX ==> first_shown(rows, height) + height == rows,
        rows > u16::MAX ==> first_shown(rows, height) + height == u16::MAX,
        0 <= first_shown(rows, height),
{
}

/// The rows of a conversation are those that its lines take at the width of the
/// pane, author and words, with their leading whitespace.
pub proof fn rows_are_counted(chat: Conversation, width: int)
    requires
        0 <= width <= u16::MAX,
    ensures
        width <= 16383 ==> rows_of(chat, width) == wrapped_rows(
            Seq::new(
                chat.lines@.len(),
                |i: int| (chat.lines@[i].author@, chat.lines@[i].text@),
            ),
            false,
            width,
        ),
        width > 16383 ==> rows_of(chat, width) == rows_of(chat, 16383),
{
    assert(line_texts(chat.lines@) =~= Seq::new(
        chat.lines@.len(),
        |i: int| (chat.lines@[i].author@, chat.lines@[i].text@),
    ));
}

/// A text is blank unless some character of it is not white space.
pub proof fn blank_is_white_throughout(s: Seq<char>)
    ensures
        is_blank(s) <==> !(exists|i: int| 0 <= i < s.len() && !is_white(#[trigger] s[i])),
        s.len() == 0 ==> is_blank(s),
{
}

} // verus!
