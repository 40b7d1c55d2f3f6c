//! The lines exchanged with `signal-cli`: one JSON-RPC message each, read and
//! written by `serde_json`.

use crate::effects::{field_is, request_is_told};
use crate::json::{first_with_key, has_key, key_index, Json, Tree};
use crate::text::decimal;
use vstd::prelude::*;

verus! {

/// `serde_json::Value`, a JSON value.
#[verifier::external_type_specification]
#[verifier::external_body]
pub struct ExValue(serde_json::Value);

/// `serde_json::Error`, what is wrong with a text that is not JSON.
#[verifier::external_type_specification]
#[verifier::external_body]
pub struct ExError(serde_json::Error);

/// What a `serde_json::Value` holds.
pub uninterp spec fn value_content(v: serde_json::Value) -> Tree;

/// The value that `serde_json::from_str` reads in a text, `None` where it
/// reports an error.
pub uninterp spec fn parsed(line: Seq<char>) -> Option<Tree>;

/// The compact text that `serde_json` prints of a value.
pub uninterp spec fn json_text(t: Tree) -> Seq<char>;

/// One level of a `serde_json::Value`.
enum Node<'a> {
    Null,
    Bool(bool),
    Number(String),
    Text(&'a String),
    Array(&'a Vec<serde_json::Value>),
    Object(Vec<(&'a String, &'a serde_json::Value)>),
}

/// What the elements hold.
spec fn contents(items: Seq<serde_json::Value>) -> Seq<Tree> {
    items.map_values(|v: serde_json::Value| value_content(v))
}

/// `object` maps the keys of `fields`, and no others, to what their values
/// hold.
spec fn maps_fields(
    fields: Seq<(&String, &serde_json::Value)>,
    object: Map<Seq<char>, Tree>,
) -> bool {
    &&& forall|i: int|
        0 <= i < fields.len() ==> {
            &&& object.contains_key((#[trigger] fields[i]).0@)
            &&& object[fields[i].0@] == value_content(*fields[i].1)
        }
    &&& forall|key: Seq<char>| #[trigger]
        object.contains_key(key) ==> exists|i: int|
            0 <= i < fields.len() && (#[trigger] fields[i]).0@ == key
}

/// What `fields` make of an object.
spec fn object_of(fields: Seq<(String, serde_json::Value)>) -> Map<Seq<char>, Tree>
    decreases fields.len(),
{
    if fields.len() == 0 {
        Map::empty()
    } else {
        object_of(fields.drop_last()).insert(fields.last().0@, value_content(fields.last().1))
    }
}

/// `serde_json::from_str` at `Value`: a value where the text is JSON, an error
/// where it is not. Which texts are JSON and what they hold is named, not
/// described.
#[verifier::external_body]
fn parse_value(line: &str) -> (r: Result<serde_json::Value, serde_json::Error>)
    ensures
        match r {
            Ok(v) => parsed(line@) == Some(value_content(v)),
            Err(_) => parsed(line@) is None,
        },
{
    serde_json::from_str::<serde_json::Value>(line)
}

/// Tells the variants of `serde_json::Value` apart. The text of a number is
/// the one that `Number` prints; the fields of an object are those of the
/// `serde_json::Map` that it holds.
#[verifier::external_body]
fn open_value<'a>(v: &'a serde_json::Value) -> (node: Node<'a>)
    ensures
        match node {
            Node::Null => value_content(*v) == Tree::Null,
            Node::Bool(b) => value_content(*v) == Tree::Bool(b),
            Node::Number(n) => value_content(*v) == Tree::Number(n@),
            Node::Text(s) => value_content(*v) == Tree::Text(s@),
            Node::Array(items) => value_content(*v) == Tree::Array(contents(items@)),
            Node::Object(fields) => value_content(*v) is Object && maps_fields(
                fields@,
                value_content(*v)->Object_0,
            ),
        },
{
    match v {
        serde_json::Value::Null => Node::Null,
        serde_json::Value::Bool(b) => Node::Bool(*b),
        serde_json::Value::Number(n) => Node::Number(n.to_string()),
        serde_json::Value::String(s) => Node::Text(s),
        serde_json::Value::Array(items) => Node::Array(items),
        serde_json::Value::Object(fields) => Node::Object(fields.iter().collect()),
    }
}

/// `Value::from` for a text.
#[verifier::external_body]
fn text_value(s: &str) -> (v: serde_json::Value)
    ensures
        value_content(v) == Tree::Text(s@),
{
    serde_json::Value::from(s)
}

/// `Value::from` for an unsigned number, which prints in decimal notation.
#[verifier::external_body]
fn number_value(n: u64) -> (v: serde_json::Value)
    ensures
        value_content(v) == Tree::Number(decimal(n as nat)),
{
    serde_json::Value::from(n)
}

/// `Value::from` for a vector of values: an array of them.
#[verifier::external_body]
fn array_value(items: Vec<serde_json::Value>) -> (v: serde_json::Value)
    ensures
        value_content(v) == Tree::Array(contents(items@)),
{
    serde_json::Value::from(items)
}

/// `Value::from_iter` for keys with their values, no key twice: the object of
/// these fields.
#[verifier::external_body]
fn object_value(fields: Vec<(String, serde_json::Value)>) -> (v: serde_json::Value)
    requires
        forall|i: int, j: int|
            0 <= i < j < fields@.len() ==> (#[trigger] fields@[i]).0@ != (#[trigger] fields@[j]).0@,
    ensures
        value_content(v) == Tree::Object(object_of(fields@)),
{
    serde_json::Value::from_iter(fields)
}

/// `Value`'s `Display`: the value as compact JSON text. With the default
/// features of `serde_json` an object prints its fields in the order of their
/// keys, so the text depends on nothing but what the value holds. The text is
/// named, not described; a line feed never stands in it, since texts print it
/// as an escape; and what `is_message` admits is read back from it as it was.
#[verifier::external_body]
fn value_text(v: &serde_json::Value) -> (s: String)
    ensures
        s@ == json_text(value_content(*v)),
        !s@.contains('\n'),
        is_message(value_content(*v)) ==> parsed(s@) == Some(value_content(*v)),
{
    v.to_string()
}

/// A text, an unsigned number of 64 bits, or an array of texts.
pub open spec fn is_plain(t: Tree) -> bool {
    match t {
        Tree::Text(_) => true,
        Tree::Number(s) => exists|n: u64| s == #[trigger] decimal(n as nat),
        Tree::Array(items) => forall|i: int| 0 <= i < items.len() ==> #[trigger] items[i] is Text,
        _ => false,
    }
}

/// An object whose values are plain, or objects of plain values.
pub open spec fn is_message(t: Tree) -> bool {
    t is Object && forall|key: Seq<char>| #[trigger]
        t->Object_0.contains_key(key) ==> {
            let value = t->Object_0[key];
            ||| is_plain(value)
            ||| value is Object && forall|inner: Seq<char>| #[trigger]
                value->Object_0.contains_key(inner) ==> is_plain(value->Object_0[inner])
        }
}

/// The value, read into the library's own type.
fn from_value(v: &serde_json::Value) -> (json: Json)
    ensures
        json@ == value_content(*v),
    decreases value_content(*v),
{
    match open_value(v) {
        Node::Null => Json::Null,
        Node::Bool(b) => Json::Bool(b),
        Node::Number(n) => Json::Number(n),
        Node::Text(s) => Json::Text(s.clone()),
        Node::Array(items) => {
            let mut read: Vec<Json> = Vec::new();
            let mut i: usize = 0;
            while i < items.len()
                invariant
                    i <= items.len(),
                    read.len() == i,
                    value_content(*v) == Tree::Array(contents(items@)),
                    forall|j: int|
                        0 <= j < i ==> (#[trigger] read@[j])@ == value_content(items@[j]),
                decreases items.len() - i,
            {
                proof {
                    let tree = value_content(*v);
                    assert(tree->Array_0[i as int] == value_content(items@[i as int]));
                    assert(decreases_to!(tree => tree->Array_0));
                    assert(decreases_to!(tree->Array_0 => tree->Array_0[i as int]));
                }
                read.push(from_value(&items[i]));
                i = i + 1;
            }
            let json = Json::Array(read);
            assert(json@->Array_0 =~= contents(items@));
            json
        },
        Node::Object(fields) => {
            let ghost object = value_content(*v)->Object_0;
            proof {
                lemma_fields_are_finite(fields@, object);
            }
            let mut read: Vec<(String, Json)> = Vec::new();
            let mut i: usize = 0;
            while i < fields.len()
                invariant
                    i <= fields.len(),
                    read.len() == i,
                    value_content(*v) == Tree::Object(object),
                    object.dom().finite(),
                    maps_fields(fields@, object),
                    forall|j: int|
                        0 <= j < i ==> {
                            &&& (#[trigger] read@[j]).0@ == fields@[j].0@
                            &&& read@[j].1@ == value_content(*fields@[j].1)
                        },
                decreases fields.len() - i,
            {
                let field: (&String, &serde_json::Value) = fields[i];
                proof {
                    assert(field == fields@[i as int]);
                    assert(object.contains_key(field.0@));
                    let tree = value_content(*v);
                    assert(decreases_to!(tree => tree->Object_0));
                    assert(decreases_to!(tree->Object_0 => tree->Object_0[field.0@]));
                }
                read.push((field.0.clone(), from_value(field.1)));
                i = i + 1;
            }
            proof {
                lemma_read_object(fields@, object, read);
            }
            Json::Object(read)
        },
    }
}

/// An object with finitely many fields has finitely many keys.
proof fn lemma_fields_are_finite(
    fields: Seq<(&String, &serde_json::Value)>,
    object: Map<Seq<char>, Tree>,
)
    requires
        maps_fields(fields, object),
    ensures
        object.dom().finite(),
{
    let keys = fields.map_values(|f: (&String, &serde_json::Value)| f.0@);
    assert forall|key: Seq<char>| object.dom().contains(key) implies keys.to_set().contains(
        key,
    ) by {
        let i = choose|i: int| 0 <= i < fields.len() && (#[trigger] fields[i]).0@ == key;
        assert(keys[i] == key);
        assert(keys.contains(key));
    }
    vstd::seq_lib::seq_to_set_is_finite(keys);
    vstd::set_lib::lemma_set_subset_finite(keys.to_set(), object.dom());
}

/// The fields, read one by one, make up the object that they came from.
proof fn lemma_read_object(
    fields: Seq<(&String, &serde_json::Value)>,
    object: Map<Seq<char>, Tree>,
    read: Vec<(String, Json)>,
)
    requires
        maps_fields(fields, object),
        read@.len() == fields.len(),
        forall|j: int|
            0 <= j < fields.len() ==> {
                &&& (#[trigger] read@[j]).0@ == fields[j].0@
                &&& read@[j].1@ == value_content(*fields[j].1)
            },
    ensures
        Json::Object(read)@ == Tree::Object(object),
{
    let made = Json::Object(read)@->Object_0;
    assert forall|key: Seq<char>| made.contains_key(key) == object.contains_key(key) && (
    object.contains_key(key) ==> made[key] == object[key]) by {
        if object.contains_key(key) {
            let i = choose|i: int| 0 <= i < fields.len() && (#[trigger] fields[i]).0@ == key;
            assert(read@[i].0@ == key);
            lemma_first_exists(read@, key, i);
        }
        if has_key(read@, key) {
            let k = key_index(read@, key);
            assert(first_with_key(read@, key, k));
            assert(read@[k].0@ == fields[k].0@);
            assert(object.contains_key(fields[k].0@));
        }
    }
    assert(made =~= object);
}

/// Where a key occurs, it occurs somewhere first.
proof fn lemma_first_exists(fields: Seq<(String, Json)>, key: Seq<char>, i: int)
    requires
        0 <= i < fields.len(),
        fields[i].0@ == key,
    ensures
        has_key(fields, key),
    decreases i,
{
    if forall|j: int| 0 <= j < i ==> (#[trigger] fields[j]).0@ != key {
        assert(first_with_key(fields, key, i));
    } else {
        let j = choose|j: int| 0 <= j < i && (#[trigger] fields[j]).0@ == key;
        lemma_first_exists(fields, key, j);
    }
}

/// Reads a line from `signal-cli`: `None` where it is not JSON.
pub fn decode_line(line: &str) -> (read: Option<Json>)
    ensures
        read is Some <==> parsed(line@) is Some,
        read is Some ==> parsed(line@) == Some(read->0@),
{
    match parse_value(line) {
        Ok(v) => Some(from_value(&v)),
        Err(_) => None,
    }
}

/// The parameters of a call.
#[derive(Debug)]
pub enum Params {
    /// No parameters.
    Empty,
    /// A message to a group.
    Group { group_id: String, message: String },
    /// A message to one person.
    Direct { recipient: String, message: String },
}

/// A call of a `signal-cli` method.
#[derive(Debug)]
pub struct Request {
    pub id: u64,
    pub method: String,
    pub params: Params,
}

/// The parameters of a call, mathematically.
pub enum ParamsView {
    Empty,
    Group { group_id: Seq<char>, message: Seq<char> },
    Direct { recipient: Seq<char>, message: Seq<char> },
}

/// A call of a `signal-cli` method, mathematically.
pub struct RequestView {
    pub id: int,
    pub method: Seq<char>,
    pub params: ParamsView,
}

impl View for Params {
    type V = ParamsView;

    open spec fn view(&self) -> ParamsView {
        match self {
            Params::Empty => ParamsView::Empty,
            Params::Group { group_id, message } => ParamsView::Group {
                group_id: group_id@,
                message: message@,
            },
            Params::Direct { recipient, message } => ParamsView::Direct {
                recipient: recipient@,
                message: message@,
            },
        }
    }
}

impl View for Request {
    type V = RequestView;

    open spec fn view(&self) -> RequestView {
        RequestView { id: self.id as int, method: self.method@, params: self.params@ }
    }
}

impl ParamsView {
    /// The parameters as JSON: a group is named by its id, a person by a list
    /// of one recipient.
    pub open spec fn tree(self) -> Tree {
        match self {
            ParamsView::Empty => Tree::Object(Map::empty()),
            ParamsView::Group { group_id, message } => Tree::Object(
                map![
                    "groupId"@ => Tree::Text(group_id),
                    "message"@ => Tree::Text(message),
                ],
            ),
            ParamsView::Direct { recipient, message } => Tree::Object(
                map![
                    "recipient"@ => Tree::Array(seq![Tree::Text(recipient)]),
                    "message"@ => Tree::Text(message),
                ],
            ),
        }
    }
}

impl RequestView {
    /// The call as a JSON-RPC 2.0 request object.
    pub open spec fn tree(self) -> Tree {
        Tree::Object(
            map![
                "jsonrpc"@ => Tree::Text("2.0"@),
                "id"@ => Tree::Number(decimal(self.id as nat)),
                "method"@ => Tree::Text(self.method),
                "params"@ => self.params.tree(),
            ],
        )
    }
}

/// The keys of a request and of its parameters differ.
pub proof fn lemma_keys_differ()
    ensures
        "groupId"@ != "message"@,
        "recipient"@ != "message"@,
        "jsonrpc"@ != "id"@,
        "jsonrpc"@ != "method"@,
        "jsonrpc"@ != "params"@,
        "id"@ != "method"@,
        "id"@ != "params"@,
        "method"@ != "params"@,
{
    reveal_strlit("groupId");
    reveal_strlit("message");
    reveal_strlit("recipient");
    reveal_strlit("jsonrpc");
    reveal_strlit("id");
    reveal_strlit("method");
    reveal_strlit("params");
    assert("groupId"@[0] != "message"@[0]);
    assert("recipient"@[0] != "message"@[0]);
    assert("jsonrpc"@[0] != "id"@[0]);
    assert("jsonrpc"@[0] != "method"@[0]);
    assert("jsonrpc"@[0] != "params"@[0]);
    assert("id"@[0] != "method"@[0]);
    assert("id"@[0] != "params"@[0]);
    assert("method"@[0] != "params"@[0]);
}

fn params_value(params: &Params) -> (v: serde_json::Value)
    ensures
        value_content(v) == params@.tree(),
{
    let mut fields: Vec<(String, serde_json::Value)> = Vec::new();
    proof {
        reveal_with_fuel(object_of, 3);
        lemma_keys_differ();
    }
    match params {
        Params::Empty => {},
        Params::Group { group_id, message } => {
            fields.push(("groupId".to_string(), text_value(group_id.as_str())));
            fields.push(("message".to_string(), text_value(message.as_str())));
            assert(fields@.drop_last().drop_last() =~= Seq::empty());
        },
        Params::Direct { recipient, message } => {
            let mut people: Vec<serde_json::Value> = Vec::new();
            people.push(text_value(recipient.as_str()));
            assert(contents(people@) =~= seq![Tree::Text(recipient@)]);
            fields.push(("recipient".to_string(), array_value(people)));
            fields.push(("message".to_string(), text_value(message.as_str())));
            assert(fields@.drop_last().drop_last() =~= Seq::empty());
        },
    }
    object_value(fields)
}

fn request_value(request: &Request) -> (v: serde_json::Value)
    ensures
        value_content(v) == request@.tree(),
{
    let mut fields: Vec<(String, serde_json::Value)> = Vec::new();
    fields.push(("jsonrpc".to_string(), text_value("2.0")));
    fields.push(("id".to_string(), number_value(request.id)));
    fields.push(("method".to_string(), text_value(request.method.as_str())));
    fields.push(("params".to_string(), params_value(&request.params)));
    proof {
        reveal_with_fuel(object_of, 5);
        lemma_keys_differ();
        assert(fields@.drop_last().drop_last().drop_last().drop_last() =~= Seq::empty());
    }
    object_value(fields)
}

/// The line that makes a call: the request as JSON text, closed by the only
/// line feed in it. Read back without that line feed it is the request.
pub fn rpc(request: &Request) -> (line: String)
    ensures
        line@ == json_text(request@.tree()).push('\n'),
        !line@.drop_last().contains('\n'),
        parsed(line@.drop_last()) == Some(request@.tree()),
        line@.last() == '\n',
        parsed(line@.drop_last()) matches Some(t) && {
            &&& field_is(t, "jsonrpc"@, Tree::Text("2.0"@))
            &&& field_is(t, "id"@, Tree::Number(decimal(request.id as nat)))
            &&& field_is(t, "method"@, Tree::Text(request.method@))
            &&& field_is(t, "params"@, request.params@.tree())
        },
{
    let mut line = value_text(&request_value(request));
    proof {
        lemma_request_is_message(*request);
        request_is_told(*request);
        assert(line@.push('\n').drop_last() =~= line@);
    }
    line.push('\n');
    line
}

proof fn lemma_request_is_message(request: Request)
    ensures
        is_message(request@.tree()),
{
    let fields = request@.tree()->Object_0;
    let inner = request@.params.tree()->Object_0;
    assert(is_plain(Tree::Number(decimal(request.id as nat))));
    assert forall|key: Seq<char>| #[trigger] inner.contains_key(key) implies is_plain(
        inner[key],
    ) by {
        assert(key == "groupId"@ || key == "message"@ || key == "recipient"@);
    }
    assert forall|key: Seq<char>| #[trigger] fields.contains_key(key) implies is_plain(fields[key])
        || fields[key] == request@.params.tree() by {}
}

/// The calls that the client makes when it starts: for the contacts, then for
/// the groups.
pub fn startup_requests() -> (calls: Vec<Request>)
    ensures
        calls@.len() == 2,
        calls@[0]@ == (RequestView {
            id: 1,
            method: "listContacts"@,
            params: ParamsView::Empty,
        }),
        calls@[1]@ == (RequestView {
            id: 2,
            method: "listGroups"@,
            params: ParamsView::Empty,
        }),
{
    let mut calls: Vec<Request> = Vec::new();
    calls.push(Request { id: 1, method: "listContacts".to_string(), params: Params::Empty });
    calls.push(Request { id: 2, method: "listGroups".to_string(), params: Params::Empty });
    calls
}

} // verus!
