use signal_tui::inbox::{handle_json, read_contact};
use signal_tui::json::Json;
use signal_tui::keys::{handle_received, Received};
use signal_tui::model::App;
use signal_tui::wire::{decode_line, rpc, startup_requests, Params, Request};

fn make_app() -> App {
    let mut app = App::new();
    app.selected = None;
    app.status = String::new();
    app
}

fn json(text: &str) -> Json {
    decode_line(text).unwrap()
}

fn names(app: &App) -> Vec<String> {
    app.filtered().iter().map(|c| c.name.clone()).collect()
}

#[test]
fn parses_incoming_message() {
    let mut app = make_app();
    let v = decode_line(
        r#"{"jsonrpc":"2.0","method":"receive","params":{"envelope":{"sourceNumber":"+48123","sourceName":"Bob","dataMessage":{"message":"hi"}}}}"#,
    )
    .unwrap();
    handle_json(&mut app, &v);
    assert_eq!(app.messages.len(), 1);
    assert_eq!(app.messages[0].0, "+48123");
    assert_eq!(app.messages[0].1.text, "hi");
}

#[test]
fn disconnected_detected() {
    let mut app = make_app();
    app.connected = false;
    assert!(!app.connected);
}

#[test]
fn a_message_is_announced() {
    let mut app = make_app();
    let v = json(
        r#"{"method":"receive","params":{"envelope":{"sourceNumber":"+1","sourceName":"Bob","dataMessage":{"message":"hi"}}}}"#,
    );
    let notice = handle_json(&mut app, &v).unwrap();
    assert_eq!(notice.summary, "Signal: Bob");
    assert_eq!(notice.body, "hi");
    assert_eq!(notice.appname, "signal-tui");
    assert_eq!(app.messages[0].1.from, "Bob");
    assert_eq!(app.msg_seq, 1);
    assert_eq!(app.recency("+1"), 1);
    assert_eq!(app.recency("+2"), 0);
}

#[test]
fn a_group_message_goes_to_the_group() {
    let mut app = make_app();
    let v = json(
        r#"{"method":"receive","params":{"envelope":{"sourceNumber":"+48123","sourceName":"Alice","dataMessage":{"message":"hey","groupInfo":{"groupId":"abc=="}}}}}"#,
    );
    handle_json(&mut app, &v);
    assert_eq!(app.messages[0].0, "abc==");
    assert_eq!(app.messages[0].1.from, "Alice");
}

#[test]
fn a_message_from_nowhere_has_a_question_mark() {
    let mut app = make_app();
    let v = json(r#"{"method":"receive","params":{"envelope":{"dataMessage":{"message":"boo"}}}}"#);
    let notice = handle_json(&mut app, &v).unwrap();
    assert_eq!(notice.summary, "Signal: ?");
    assert_eq!(app.messages[0].0, "?");
    assert_eq!(app.messages[0].1.from, "?");
}

#[test]
fn a_message_without_a_name_comes_from_the_number() {
    let mut app = make_app();
    let v = json(
        r#"{"method":"receive","params":{"envelope":{"sourceNumber":"+5","sourceName":null,"dataMessage":{"message":"x"}}}}"#,
    );
    handle_json(&mut app, &v);
    assert_eq!(app.messages[0].1.from, "+5");
}

#[test]
fn other_notifications_bring_no_message() {
    let mut app = make_app();
    let typing = json(
        r#"{"method":"receive","params":{"envelope":{"sourceNumber":"+5","typingMessage":{}}}}"#,
    );
    assert!(handle_json(&mut app, &typing).is_none());
    let other = json(
        r#"{"method":"sync","params":{"envelope":{"sourceNumber":"+5","dataMessage":{"message":"x"}}}}"#,
    );
    assert!(handle_json(&mut app, &other).is_none());
    assert!(handle_json(&mut app, &json("[1, 2]")).is_none());
    assert_eq!(app.messages.len(), 0);
    assert_eq!(app.msg_seq, 0);
}

#[test]
fn contacts_and_groups_are_read() {
    let mut app = make_app();
    let contacts = json(
        r#"{"jsonrpc":"2.0","id":1,"result":[
            {"number":"+48123","profile":{"givenName":"Alice"},"name":"Al"},
            {"number":"+2","name":"Bob"},
            {"number":"+3","profile":{"givenName":""},"name":"Carol"},
            {"number":"+4"},
            {"number":"+5","name":""},
            {"name":"nobody"},
            7]}"#,
    );
    assert!(handle_json(&mut app, &contacts).is_none());
    assert_eq!(names(&app), ["Alice", "Bob", "+3", "+4", "+5"]);
    assert_eq!(app.status, "5 contacts");
    let groups = json(
        r#"{"id":2,"result":[
            {"id":"g1","name":"Chess","members":[]},
            {"id":"g2","members":null},
            {"id":"g3","name":"","members":[]},
            {"number":"+9","members":[]}]}"#,
    );
    handle_json(&mut app, &groups);
    assert_eq!(app.contacts.len(), 8);
    assert_eq!(app.contacts[5].id, "g1");
    assert_eq!(app.contacts[5].name, "Chess");
    assert!(app.contacts[5].is_group);
    assert_eq!(app.contacts[6].name, "g2");
    assert_eq!(app.contacts[7].name, "");
    assert!(!app.contacts[0].is_group);
    assert_eq!(app.status, "8 contacts");
}

#[test]
fn many_contacts_are_counted() {
    let mut app = make_app();
    let items: Vec<Json> = (0..1203)
        .map(|i| Json::Object(vec![("number".to_string(), Json::Text(format!("+{i}")))]))
        .collect();
    handle_json(
        &mut app,
        &Json::Object(vec![("result".to_string(), Json::Array(items))]),
    );
    assert_eq!(app.status, "1203 contacts");
}

#[test]
fn the_first_of_two_equal_keys_counts() {
    let item = Json::Object(vec![
        ("number".to_string(), Json::Text("+1".to_string())),
        ("number".to_string(), Json::Text("+2".to_string())),
    ]);
    let contact = read_contact(&item).unwrap();
    assert_eq!(contact.id, "+1");
    assert_eq!(contact.name, "+1");
}

#[test]
fn an_entry_that_is_no_object_is_nobody() {
    assert!(read_contact(&Json::Null).is_none());
    assert!(read_contact(&Json::Bool(true)).is_none());
    assert!(read_contact(&Json::Number("3".to_string())).is_none());
}

#[test]
fn an_error_is_shown() {
    let mut app = make_app();
    handle_json(&mut app, &json(r#"{"error":{"code":-1,"message":"no such method"}}"#));
    assert_eq!(app.status, "error: no such method");
    handle_json(&mut app, &json(r#"{"error":null}"#));
    assert_eq!(app.status, "error: rpc error");
    handle_json(&mut app, &json(r#"{"result":[],"error":{"message":7}}"#));
    assert_eq!(app.status, "error: rpc error");
    handle_json(&mut app, &json(r#"{"result":{}}"#));
    assert_eq!(app.status, "error: rpc error");
    handle_json(&mut app, &json(r#"{"result":[]}"#));
    assert_eq!(app.status, "0 contacts");
}

#[test]
fn the_reader_is_asked_until_it_has_nothing() {
    let mut app = make_app();
    let message = Received::Message(json(
        r#"{"method":"receive","params":{"envelope":{"sourceNumber":"+1","dataMessage":{"message":"a"}}}}"#,
    ));
    let (more, notice) = handle_received(&mut app, &message);
    assert!(more);
    assert_eq!(notice.unwrap().body, "a");
    let (more, notice) = handle_received(&mut app, &Received::Empty);
    assert!(!more && notice.is_none());
    assert!(app.connected);
    let (more, notice) = handle_received(&mut app, &Received::Disconnected);
    assert!(!more && notice.is_none());
    assert!(!app.connected);
    handle_received(&mut app, &message);
    assert!(!app.connected);
    assert_eq!(app.messages.len(), 2);
}

#[test]
fn lines_that_are_not_json_are_dropped() {
    assert!(decode_line("").is_none());
    assert!(decode_line("INFO starting").is_none());
    assert!(decode_line("{\"a\":1} x").is_none());
    assert!(matches!(decode_line("null"), Some(Json::Null)));
}

#[test]
fn every_kind_of_value_is_read() {
    let v = json(r#"{"b":[true,null,-2.5,"x\ny",{}],"a":18446744073709551615}"#);
    let items = v.get("b").unwrap().as_array().unwrap();
    assert_eq!(items.len(), 5);
    assert!(matches!(items[0], Json::Bool(true)));
    assert!(matches!(items[1], Json::Null));
    assert!(matches!(&items[2], Json::Number(n) if n == "-2.5"));
    assert_eq!(items[3].as_str(), Some("x\ny"));
    assert!(items[4].get("x").is_none());
    assert!(matches!(v.get("a"), Some(Json::Number(n)) if n == "18446744073709551615"));
    assert!(v.get("c").is_none());
    assert!(items[3].as_array().is_none());
    assert!(v.as_str().is_none());
}

#[test]
fn requests_are_single_json_lines() {
    let direct = Request {
        id: 100,
        method: "send".to_string(),
        params: Params::Direct {
            recipient: "+48123456789".to_string(),
            message: "hello".to_string(),
        },
    };
    assert_eq!(
        rpc(&direct),
        "{\"id\":100,\"jsonrpc\":\"2.0\",\"method\":\"send\",\"params\":{\"message\":\"hello\",\"recipient\":[\"+48123456789\"]}}\n"
    );
    let group = Request {
        id: 101,
        method: "send".to_string(),
        params: Params::Group {
            group_id: "abc123==".to_string(),
            message: "hi\ngroup \"x\"".to_string(),
        },
    };
    let line = rpc(&group);
    assert_eq!(
        line,
        "{\"id\":101,\"jsonrpc\":\"2.0\",\"method\":\"send\",\"params\":{\"groupId\":\"abc123==\",\"message\":\"hi\\ngroup \\\"x\\\"\"}}\n"
    );
    assert_eq!(line.matches('\n').count(), 1);
    let back = json(line.trim_end());
    assert_eq!(back.get("jsonrpc").unwrap().as_str(), Some("2.0"));
    assert!(matches!(back.get("id"), Some(Json::Number(n)) if n == "101"));
    let params = back.get("params").unwrap();
    assert_eq!(params.get("groupId").unwrap().as_str(), Some("abc123=="));
    assert_eq!(params.get("message").unwrap().as_str(), Some("hi\ngroup \"x\""));
}

#[test]
fn the_client_starts_by_asking_for_contacts_and_groups() {
    let lines: Vec<String> = startup_requests().iter().map(rpc).collect();
    assert_eq!(
        lines,
        [
            "{\"id\":1,\"jsonrpc\":\"2.0\",\"method\":\"listContacts\",\"params\":{}}\n",
            "{\"id\":2,\"jsonrpc\":\"2.0\",\"method\":\"listGroups\",\"params\":{}}\n",
        ]
    );
}
