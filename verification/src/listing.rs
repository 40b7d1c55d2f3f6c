//! The contact list: which contacts it shows, and in what order.

use crate::display::{listing_holds, stands_at, stands_in};
use crate::model::{recency_in, row_view, App, Contact, ContactView, State};
use crate::text::{contains_text, lowered, occurs_in, to_lower};
use vstd::prelude::*;

verus! {

/// A contact whose lowercase name is `name` passes the lowercase filter
/// `query`; the empty filter lets every contact pass.
pub open spec fn passes(query: Seq<char>, name: Seq<char>) -> bool {
    query.len() == 0 || occurs_in(query, name)
}

/// The contact at `i` stands above the one at `j`: it is more recent, or as
/// recent and known for longer.
pub open spec fn above(ranks: Seq<int>, i: int, j: int) -> bool {
    ranks[i] > ranks[j] || (ranks[i] == ranks[j] && i < j)
}

/// Each row stands above the rows that follow.
pub open spec fn in_order(ranks: Seq<int>, rows: Seq<int>) -> bool {
    forall|a: int, b: int| 0 <= a < b < rows.len() ==> above(ranks, #[trigger] rows[a], #[trigger] rows[b])
}

/// `rows` lists, in order, the positions of those among the first `n` contacts
/// that pass the filter.
pub open spec fn lists_first(
    query: Seq<char>,
    names: Seq<Seq<char>>,
    ranks: Seq<int>,
    n: int,
    rows: Seq<int>,
) -> bool {
    &&& forall|k: int|
        0 <= k < rows.len() ==> 0 <= #[trigger] rows[k] < n && passes(query, names[rows[k]])
    &&& forall|i: int| 0 <= i < n && passes(query, #[trigger] names[i]) ==> rows.contains(i)
    &&& in_order(ranks, rows)
}

/// `rows` lists, in order, the positions of the contacts that pass the filter.
pub open spec fn is_listing(
    query: Seq<char>,
    names: Seq<Seq<char>>,
    ranks: Seq<int>,
    rows: Seq<int>,
) -> bool {
    lists_first(query, names, ranks, names.len() as int, rows)
}

/// The positions of the contacts that pass the filter, in order.
pub open spec fn listing(query: Seq<char>, names: Seq<Seq<char>>, ranks: Seq<int>) -> Seq<int> {
    choose|rows: Seq<int>| is_listing(query, names, ranks, rows)
}

/// Machine numbers as integers.
pub open spec fn positions(rows: Seq<usize>) -> Seq<int> {
    rows.map_values(|i: usize| i as int)
}

/// The characters of each text.
pub open spec fn texts(names: Seq<String>) -> Seq<Seq<char>> {
    names.map_values(|s: String| s@)
}

impl State {
    /// The lowercase names of the contacts.
    pub open spec fn lower_names(self) -> Seq<Seq<char>> {
        self.contacts.map_values(|c: ContactView| lowered(c.name))
    }

    /// How recent each contact is.
    pub open spec fn ranks(self) -> Seq<int> {
        let last = self.last_msg_seq;
        self.contacts.map_values(|c: ContactView| recency_in(last, c.id))
    }

    /// The positions of the contacts in the list, from the top.
    pub open spec fn rows(self) -> Seq<int> {
        listing(lowered(self.search), self.lower_names(), self.ranks())
    }

    /// The contacts in the list, from the top.
    pub open spec fn filtered(self) -> Seq<ContactView> {
        let contacts = self.contacts;
        self.rows().map_values(|i: int| contacts[i])
    }

    /// The last row of the list; the first where the list is empty.
    pub open spec fn last_row(self) -> nat {
        if self.filtered().len() == 0 {
            0
        } else {
            (self.filtered().len() - 1) as nat
        }
    }

    /// The contact in the highlighted row, where there is one.
    pub open spec fn highlighted(self) -> Option<ContactView> {
        match self.selected {
            Some(i) if i < self.filtered().len() => Some(self.filtered()[i as int]),
            _ => None,
        }
    }

    /// The highlighted row is brought back into the list.
    pub open spec fn clamped(self) -> State {
        let i: nat = match self.selected {
            Some(i) => i,
            None => 0,
        };
        State {
            selected: Some(
                if i < self.last_row() {
                    i
                } else {
                    self.last_row()
                },
            ),
            ..self
        }
    }
}

/// Without the last row, the others are still in order.
pub proof fn lemma_drop_last(ranks: Seq<int>, rows: Seq<int>)
    requires
        in_order(ranks, rows),
        rows.len() > 0,
    ensures
        in_order(ranks, rows.drop_last()),
{
    let fewer = rows.drop_last();
    assert forall|a: int, b: int| 0 <= a < b < fewer.len() implies above(
        ranks,
        #[trigger] fewer[a],
        #[trigger] fewer[b],
    ) by {
        assert(fewer[a] == rows[a] && fewer[b] == rows[b]);
    }
}

/// Rows in order differ.
pub proof fn lemma_rows_differ(ranks: Seq<int>, rows: Seq<int>)
    requires
        in_order(ranks, rows),
    ensures
        rows.no_duplicates(),
{
    assert forall|a: int, b: int| 0 <= a < rows.len() && 0 <= b < rows.len() && a != b implies rows[a]
        != rows[b] by {
        if a < b {
            assert(above(ranks, rows[a], rows[b]));
        } else {
            assert(above(ranks, rows[b], rows[a]));
        }
    }
}

/// Sequences in order that hold the same positions are the same.
pub proof fn lemma_order_is_unique(ranks: Seq<int>, a: Seq<int>, b: Seq<int>)
    requires
        in_order(ranks, a),
        in_order(ranks, b),
        forall|i: int| a.contains(i) <==> b.contains(i),
    ensures
        a == b,
    decreases a.len(),
{
    if a.len() == 0 {
        if b.len() > 0 {
            assert(b.contains(b[0]));
        }
        assert(a =~= b);
    } else {
        assert(a.contains(a[0]));
        assert(b.len() > 0);
        let x = a.last();
        let y = b.last();
        assert(a.contains(x) && b.contains(y));
        if x != y {
            let p = choose|p: int| 0 <= p < a.len() && a[p] == y;
            let q = choose|q: int| 0 <= q < b.len() && b[q] == x;
            assert(above(ranks, a[p], a[a.len() - 1]));
            assert(above(ranks, b[q], b[b.len() - 1]));
        }
        let a1 = a.drop_last();
        let b1 = b.drop_last();
        assert forall|i: int| a1.contains(i) <==> b1.contains(i) by {
            lemma_without_last(ranks, a, i);
            lemma_without_last(ranks, b, i);
        }
        lemma_drop_last(ranks, a);
        lemma_drop_last(ranks, b);
        lemma_order_is_unique(ranks, a1, b1);
        assert(a =~= a1.push(x));
        assert(b =~= b1.push(y));
    }
}

proof fn lemma_without_last(ranks: Seq<int>, a: Seq<int>, i: int)
    requires
        in_order(ranks, a),
        a.len() > 0,
    ensures
        a.drop_last().contains(i) <==> a.contains(i) && i != a.last(),
{
    let a1 = a.drop_last();
    if a1.contains(i) {
        let p = choose|p: int| 0 <= p < a1.len() && a1[p] == i;
        assert(a[p] == i);
        assert(above(ranks, a[p], a[a.len() - 1]));
    }
    if a.contains(i) && i != a.last() {
        let p = choose|p: int| 0 <= p < a.len() && a[p] == i;
        assert(a1[p] == i);
    }
}

/// Two listings of the same contacts are the same.
pub proof fn lemma_listing_is_unique(
    query: Seq<char>,
    names: Seq<Seq<char>>,
    ranks: Seq<int>,
    a: Seq<int>,
    b: Seq<int>,
)
    requires
        is_listing(query, names, ranks, a),
        is_listing(query, names, ranks, b),
    ensures
        a == b,
{
    assert forall|i: int| a.contains(i) <==> b.contains(i) by {
        if a.contains(i) {
            let p = choose|p: int| 0 <= p < a.len() && a[p] == i;
            assert(passes(query, names[a[p]]));
        }
        if b.contains(i) {
            let p = choose|p: int| 0 <= p < b.len() && b[p] == i;
            assert(passes(query, names[b[p]]));
        }
    }
    lemma_order_is_unique(ranks, a, b);
}

/// The next contact, which passes the filter, goes below the rows that are at
/// least as recent and above the others.
proof fn lemma_insert_row(
    query: Seq<char>,
    names: Seq<Seq<char>>,
    ranks: Seq<int>,
    n: int,
    rows: Seq<int>,
    p: int,
)
    requires
        0 <= n < names.len(),
        lists_first(query, names, ranks, n, rows),
        passes(query, names[n]),
        0 <= p <= rows.len(),
        forall|k: int| 0 <= k < p ==> ranks[#[trigger] rows[k]] >= ranks[n],
        forall|k: int| p <= k < rows.len() ==> ranks[#[trigger] rows[k]] < ranks[n],
    ensures
        lists_first(query, names, ranks, n + 1, rows.insert(p, n)),
{
    let more = rows.insert(p, n);
    assert forall|k: int| 0 <= k < more.len() implies 0 <= #[trigger] more[k] < n + 1 && passes(
        query,
        names[more[k]],
    ) by {
        if k < p {
            assert(more[k] == rows[k]);
        } else if k > p {
            assert(more[k] == rows[k - 1]);
        }
    }
    assert forall|i: int| 0 <= i < n + 1 && passes(query, #[trigger] names[i]) implies more.contains(
        i,
    ) by {
        if i == n {
            assert(more[p] == n);
        } else {
            assert(rows.contains(i));
            let k = choose|k: int| 0 <= k < rows.len() && rows[k] == i;
            if k < p {
                assert(more[k] == i);
            } else {
                assert(more[k + 1] == i);
            }
        }
    }
    assert forall|a: int, b: int| 0 <= a < b < more.len() implies above(
        ranks,
        #[trigger] more[a],
        #[trigger] more[b],
    ) by {
        let ra = if a < p {
            a
        } else {
            a - 1
        };
        let rb = if b < p {
            b
        } else {
            b - 1
        };
        if a == p {
            assert(more[b] == rows[rb]);
        } else if b == p {
            assert(more[a] == rows[ra]);
        } else {
            assert(more[a] == rows[ra] && more[b] == rows[rb]);
            assert(above(ranks, rows[ra], rows[rb]));
        }
    }
}

/// The next contact does not pass the filter: the rows stay as they are.
proof fn lemma_skip_row(
    query: Seq<char>,
    names: Seq<Seq<char>>,
    ranks: Seq<int>,
    n: int,
    rows: Seq<int>,
)
    requires
        0 <= n < names.len(),
        lists_first(query, names, ranks, n, rows),
        !passes(query, names[n]),
    ensures
        lists_first(query, names, ranks, n + 1, rows),
{
}

/// The row at which a contact as recent as `rank` goes in.
proof fn lemma_row_for(ranks: Seq<int>, rows: Seq<int>, rank: int) -> (p: int)
    requires
        in_order(ranks, rows),
    ensures
        0 <= p <= rows.len(),
        forall|k: int| 0 <= k < p ==> ranks[#[trigger] rows[k]] >= rank,
        forall|k: int| p <= k < rows.len() ==> ranks[#[trigger] rows[k]] < rank,
    decreases rows.len(),
{
    if rows.len() == 0 || ranks[rows.last()] >= rank {
        assert forall|k: int| 0 <= k < rows.len() implies ranks[#[trigger] rows[k]] >= rank by {
            if k < rows.len() - 1 {
                assert(above(ranks, rows[k], rows[rows.len() - 1]));
            }
        }
        rows.len() as int
    } else {
        let fewer = rows.drop_last();
        lemma_drop_last(ranks, rows);
        let p = lemma_row_for(ranks, fewer, rank);
        assert forall|k: int| 0 <= k < p implies ranks[#[trigger] rows[k]] >= rank by {
            assert(fewer[k] == rows[k]);
        }
        assert forall|k: int| p <= k < rows.len() implies ranks[#[trigger] rows[k]] < rank by {
            if k < rows.len() - 1 {
                assert(fewer[k] == rows[k]);
            }
        }
        p
    }
}

proof fn lemma_rows_exist(query: Seq<char>, names: Seq<Seq<char>>, ranks: Seq<int>, n: int) -> (rows:
    Seq<int>)
    requires
        0 <= n <= names.len(),
    ensures
        lists_first(query, names, ranks, n, rows),
    decreases n,
{
    if n == 0 {
        Seq::empty()
    } else {
        let rows = lemma_rows_exist(query, names, ranks, n - 1);
        if passes(query, names[n - 1]) {
            let p = lemma_row_for(ranks, rows, ranks[n - 1]);
            lemma_insert_row(query, names, ranks, n - 1, rows, p);
            rows.insert(p, n - 1)
        } else {
            lemma_skip_row(query, names, ranks, n - 1, rows);
            rows
        }
    }
}

/// There is a listing, whatever the contacts and the filter are.
pub proof fn lemma_listing_exists(query: Seq<char>, names: Seq<Seq<char>>, ranks: Seq<int>)
    ensures
        is_listing(query, names, ranks, listing(query, names, ranks)),
{
    let rows = lemma_rows_exist(query, names, ranks, names.len() as int);
    assert(is_listing(query, names, ranks, rows));
}

/// The empty filter lists every contact, once.
pub proof fn lemma_empty_filter_lists_all(
    query: Seq<char>,
    names: Seq<Seq<char>>,
    ranks: Seq<int>,
    rows: Seq<int>,
)
    requires
        query.len() == 0,
        is_listing(query, names, ranks, rows),
    ensures
        rows.len() == names.len(),
        rows.no_duplicates(),
        forall|i: int| 0 <= i < names.len() ==> #[trigger] rows.contains(i),
{
    lemma_rows_differ(ranks, rows);
    assert forall|i: int| 0 <= i < names.len() implies #[trigger] rows.contains(i) by {
        assert(passes(query, names[i]));
    }
    let all = vstd::set_lib::set_int_range(0, names.len() as int);
    vstd::set_lib::lemma_int_range(0, names.len() as int);
    assert forall|i: int| #[trigger] rows.to_set().contains(i) == all.contains(i) by {
        if rows.contains(i) {
            let k = choose|k: int| 0 <= k < rows.len() && rows[k] == i;
            assert(0 <= rows[k] < names.len());
        }
    }
    assert(rows.to_set() =~= all);
    rows.unique_seq_to_set();
}

/// The positions of the contacts that pass the filter, in order. `names` are
/// the lowercase names, `ranks` tells how recent each contact is.
pub fn order_rows(query: &str, names: &Vec<String>, ranks: &Vec<usize>) -> (rows: Vec<usize>)
    requires
        names.len() == ranks.len(),
    ensures
        is_listing(query@, texts(names@), positions(ranks@), positions(rows@)),
        positions(rows@) == listing(query@, texts(names@), positions(ranks@)),
        forall|i: int, at: int|
            0 <= i < names@.len() && #[trigger] stands_at(query@, names@[i]@, at) ==> rows@.contains(
                i as usize,
            ),
{
    let mut rows: Vec<usize> = Vec::new();
    let mut n: usize = 0;
    let ghost all = texts(names@);
    let ghost order = positions(ranks@);
    assert(positions(rows@) =~= Seq::empty());
    while n < names.len()
        invariant
            n <= names.len(),
            names.len() == ranks.len(),
            all == texts(names@),
            order == positions(ranks@),
            lists_first(query@, all, order, n as int, positions(rows@)),
        decreases names.len() - n,
    {
        let ghost before = positions(rows@);
        assert(all[n as int] == names@[n as int]@);
        if query.is_empty() || contains_text(names[n].as_str(), query) {
            assert forall|k: int| 0 <= k < rows@.len() implies #[trigger] rows@[k] < ranks@.len() by {
                assert(before[k] == rows@[k] as int);
            }
            let mut p: usize = rows.len();
            while p > 0 && ranks[rows[p - 1]] < ranks[n]
                invariant
                    n < names.len(),
                    names.len() == ranks.len(),
                    all == texts(names@),
                    order == positions(ranks@),
                    before == positions(rows@),
                    lists_first(query@, all, order, n as int, before),
                    p <= rows.len(),
                    forall|k: int| 0 <= k < rows@.len() ==> #[trigger] rows@[k] < ranks@.len(),
                    forall|k: int|
                        p <= k < before.len() ==> order[#[trigger] before[k]] < order[n as int],
                decreases p,
            {
                p = p - 1;
                assert(before[p as int] == rows@[p as int] as int);
            }
            proof {
                assert forall|k: int| 0 <= k < p implies order[#[trigger] before[k]]
                    >= order[n as int] by {
                    assert(before[p - 1] == rows@[p - 1] as int);
                    if k < p - 1 {
                        assert(above(order, before[k], before[p - 1]));
                    }
                }
                lemma_insert_row(query@, all, order, n as int, before, p as int);
                assert(positions(rows@.insert(p as int, n)) =~= before.insert(p as int, n as int));
            }
            rows.insert(p, n);
        } else {
            proof {
                lemma_skip_row(query@, all, order, n as int, before);
            }
        }
        n = n + 1;
    }
    proof {
        lemma_listing_exists(query@, all, order);
        lemma_listing_is_unique(
            query@,
            all,
            order,
            positions(rows@),
            listing(query@, all, order),
        );
        listing_holds(query@, all, order);
        assert forall|i: int, at: int|
            0 <= i < names@.len() && #[trigger] stands_at(
                query@,
                names@[i]@,
                at,
            ) implies rows@.contains(i as usize) by {
            assert(stands_at(query@, all[i], at));
            assert(positions(rows@).contains(i));
            let k = choose|k: int| 0 <= k < rows@.len() && positions(rows@)[k] == i;
            assert(rows@[k] == i as usize);
        }
    }
    rows
}

/// The contacts behind references.
pub open spec fn shown(contacts: Seq<&Contact>) -> Seq<ContactView> {
    contacts.map_values(|c: &Contact| (*c)@)
}

impl App {
    /// The positions of the contacts in the list, from the top.
    fn rows(&self) -> (rows: Vec<usize>)
        ensures
            positions(rows@) == self@.rows(),
            forall|k: int| 0 <= k < rows@.len() ==> #[trigger] rows@[k] < self.contacts@.len(),
    {
        let mut names: Vec<String> = Vec::new();
        let mut ranks: Vec<usize> = Vec::new();
        let mut i: usize = 0;
        while i < self.contacts.len()
            invariant
                i <= self.contacts.len(),
                names.len() == i,
                ranks.len() == i,
                forall|k: int|
                    0 <= k < i ==> (#[trigger] names@[k])@ == lowered(self.contacts@[k].name@),
                forall|k: int|
                    0 <= k < i ==> #[trigger] ranks@[k] as int == self@.recency(self.contacts@[k].id@),
            decreases self.contacts.len() - i,
        {
            names.push(to_lower(self.contacts[i].name.as_str()));
            ranks.push(self.recency(self.contacts[i].id.as_str()));
            i = i + 1;
        }
        assert(texts(names@) =~= self@.lower_names());
        assert(positions(ranks@) =~= self@.ranks());
        let query = to_lower(self.search.as_str());
        let rows = order_rows(query.as_str(), &names, &ranks);
        assert forall|k: int| 0 <= k < rows@.len() implies #[trigger] rows@[k]
            < self.contacts@.len() by {
            assert(positions(rows@)[k] == rows@[k] as int);
        }
        rows
    }

    /// The contacts whose name holds the filter, whatever the case, the most
    /// recent chat first. Contacts without a message come last; where nothing
    /// else decides, the contacts keep the order in which they came in. Without
    /// a filter every contact is in the list.
    pub fn filtered(&self) -> (contacts: Vec<&Contact>)
        ensures
            shown(contacts@) == self@.filtered(),
            is_listing(
                lowered(self@.search),
                self@.lower_names(),
                self@.ranks(),
                self@.rows(),
            ),
            self@.search.len() == 0 ==> {
                &&& contacts@.len() == self@.contacts.len()
                &&& forall|i: int|
                    0 <= i < self@.contacts.len() ==> #[trigger] self@.rows().contains(i)
            },
            forall|i: int, at: int|
                0 <= i < self.contacts@.len() && #[trigger] stands_at(
                    lowered(self.search@),
                    lowered(self.contacts@[i].name@),
                    at,
                ) ==> exists|k: int|
                    0 <= k < contacts@.len() && *(#[trigger] contacts@[k]) == self.contacts@[i],
            forall|k: int|
                0 <= k < contacts@.len() ==> stands_in(
                    lowered(self.search@),
                    lowered((#[trigger] contacts@[k]).name@),
                ),
    {
        let rows = self.rows();
        let mut contacts: Vec<&Contact> = Vec::new();
        let mut k: usize = 0;
        while k < rows.len()
            invariant
                k <= rows.len(),
                contacts.len() == k,
                forall|j: int| 0 <= j < rows@.len() ==> #[trigger] rows@[j] < self.contacts@.len(),
                forall|j: int|
                    0 <= j < k ==> *(#[trigger] contacts@[j]) == self.contacts@[rows@[j] as int],
            decreases rows.len() - k,
        {
            contacts.push(&self.contacts[rows[k]]);
            k = k + 1;
        }
        proof {
            lemma_listing_exists(lowered(self@.search), self@.lower_names(), self@.ranks());
            assert forall|j: int| 0 <= j < rows@.len() implies shown(contacts@)[j]
                == #[trigger] self@.filtered()[j] by {
                assert(positions(rows@)[j] == rows@[j] as int);
            }
            assert(positions(rows@).len() == rows@.len());
            listing_holds(lowered(self@.search), self@.lower_names(), self@.ranks());
            assert forall|i: int, at: int|
                0 <= i < self.contacts@.len() && #[trigger] stands_at(
                    lowered(self.search@),
                    lowered(self.contacts@[i].name@),
                    at,
                ) implies exists|k: int|
                0 <= k < contacts@.len() && *(#[trigger] contacts@[k]) == self.contacts@[i] by {
                assert(stands_at(lowered(self@.search), self@.lower_names()[i], at));
                assert(self@.rows().contains(i));
                let k = choose|k: int| 0 <= k < self@.rows().len() && self@.rows()[k] == i;
                assert(positions(rows@)[k] == rows@[k] as int);
                assert(*contacts@[k] == self.contacts@[i]);
            }
            assert forall|k: int| 0 <= k < contacts@.len() implies stands_in(
                lowered(self.search@),
                lowered((#[trigger] contacts@[k]).name@),
            ) by {
                assert(positions(rows@)[k] == rows@[k] as int);
                let i = self@.rows()[k];
                assert(self@.lower_names()[i] == lowered(contacts@[k].name@));
                assert(exists|at: int| #[trigger]
                    stands_at(lowered(self@.search), self@.lower_names()[i], at));
            }
            assert(shown(contacts@) =~= self@.filtered());
            if self@.search.len() == 0 {
                lemma_empty_filter_lists_all(
                    lowered(self@.search),
                    self@.lower_names(),
                    self@.ranks(),
                    self@.rows(),
                );
            }
        }
        contacts
    }

    /// The last row of the list; the first where the list is empty.
    pub fn last_row(&self) -> (row: usize)
        ensures
            row == self@.last_row(),
    {
        let contacts = self.filtered();
        assert(shown(contacts@).len() == contacts@.len());
        if contacts.len() == 0 {
            0
        } else {
            contacts.len() - 1
        }
    }

    /// The id of the contact in the highlighted row, where there is one.
    pub fn highlighted_id(&self) -> (id: Option<String>)
        ensures
            match self@.highlighted() {
                Some(contact) => id is Some && id->0@ == contact.id,
                None => id is None,
            },
    {
        match self.selected {
            Some(i) => {
                let contacts = self.filtered();
                assert(shown(contacts@).len() == contacts@.len());
                if i < contacts.len() {
                    assert(shown(contacts@)[i as int] == contacts@[i as int]@);
                    Some(contacts[i].id.clone())
                } else {
                    None
                }
            },
            None => None,
        }
    }
}

/// Highlights the row that the list was drawn with.
pub fn highlight(app: &mut App, row: Option<usize>)
    ensures
        final(app)@ == (State { selected: row_view(row), ..old(app)@ }),
{
    app.selected = row;
}

/// Brings the highlighted row back into the list.
pub fn clamp_selected(app: &mut App)
    ensures
        final(app)@ == old(app)@.clamped(),
{
    let last = app.last_row();
    let i: usize = match app.selected {
        Some(i) => i,
        None => 0,
    };
    app.selected = Some(
        if i < last {
            i
        } else {
            last
        },
    );
}

} // verus!
