use signal_tui::inbox::handle_json;
use signal_tui::json::Json;
use signal_tui::keys::{handle_key, Action, Code, Key, FIRST_SEND_ID};
use signal_tui::listing::{clamp_selected, highlight, order_rows};
use signal_tui::model::{App, Focus};
use signal_tui::outbox::send_message;
use signal_tui::screen::{chat_id, conversation};
use signal_tui::wire::{decode_line, Params};

fn press(app: &mut App, code: Code) {
    let mut id: u64 = FIRST_SEND_ID;
    let key = Key { code, ctrl: false, pressed: true };
    assert!(matches!(handle_key(app, key, &mut id), Action::Continue));
}

fn type_text(app: &mut App, text: &str) {
    for ch in text.chars() {
        press(app, Code::Char(ch));
    }
}

fn ids(app: &App) -> Vec<String> {
    app.filtered().iter().map(|c| c.id.clone()).collect()
}

fn receive(app: &mut App, number: &str, text: &str) {
    let line = format!(
        r#"{{"method":"receive","params":{{"envelope":{{"sourceNumber":"{number}","dataMessage":{{"message":"{text}"}}}}}}}}"#
    );
    handle_json(app, &decode_line(&line).unwrap());
}

/// Alice, Bob and Carol, and a group.
fn client() -> App {
    let mut app = App::new();
    let list = r#"{"result":[
        {"number":"+1","name":"Alice"},
        {"number":"+2","name":"Bob"},
        {"number":"+3","name":"Carol"},
        {"id":"g","name":"Alpine club","members":[]}]}"#;
    handle_json(&mut app, &decode_line(list).unwrap());
    app
}

#[test]
fn the_client_starts_in_the_list() {
    let app = App::new();
    assert_eq!(app.focus, Focus::List);
    assert_eq!(app.selected, Some(0));
    assert_eq!(app.status, "loading contacts...");
    assert!(app.connected && !app.pending_g && app.open_id.is_none());
    assert!(app.contacts.is_empty() && app.messages.is_empty());
}

#[test]
fn the_most_recent_chat_is_first() {
    let mut app = client();
    assert_eq!(ids(&app), ["+1", "+2", "+3", "g"]);
    receive(&mut app, "+3", "a");
    assert_eq!(ids(&app), ["+3", "+1", "+2", "g"]);
    receive(&mut app, "+2", "b");
    assert_eq!(ids(&app), ["+2", "+3", "+1", "g"]);
    receive(&mut app, "+3", "c");
    assert_eq!(ids(&app), ["+3", "+2", "+1", "g"]);
    receive(&mut app, "+77", "unknown");
    assert_eq!(ids(&app), ["+3", "+2", "+1", "g"]);
    assert_eq!(app.recency("+3"), 3);
    assert_eq!(app.msg_seq, 4);
}

#[test]
fn rows_are_ordered_by_rank_then_position() {
    let names: Vec<String> = ["ab", "b", "c", "abc", "xab"].iter().map(|s| s.to_string()).collect();
    let ranks: Vec<usize> = vec![0, 9, 9, 4, 4];
    assert_eq!(order_rows("", &names, &ranks), [1, 2, 3, 4, 0]);
    assert_eq!(order_rows("ab", &names, &ranks), [3, 4, 0]);
    assert_eq!(order_rows("abc", &names, &ranks), [3]);
    assert_eq!(order_rows("zz", &names, &ranks), [] as [usize; 0]);
    assert_eq!(order_rows("", &Vec::new(), &Vec::new()), [] as [usize; 0]);
}

#[test]
fn the_filter_ignores_case() {
    let mut app = client();
    press(&mut app, Code::Char('/'));
    assert_eq!(app.focus, Focus::Search);
    type_text(&mut app, "AL");
    assert_eq!(app.search, "AL");
    assert_eq!(ids(&app), ["+1", "g"]);
    type_text(&mut app, "P");
    assert_eq!(ids(&app), ["g"]);
    press(&mut app, Code::Backspace);
    assert_eq!(app.search, "AL");
    assert_eq!(ids(&app), ["+1", "g"]);
    press(&mut app, Code::Enter);
    assert_eq!(app.focus, Focus::List);
    assert_eq!(app.search, "AL");
    assert_eq!(ids(&app), ["+1", "g"]);
    press(&mut app, Code::Char('/'));
    assert_eq!(app.search, "");
    type_text(&mut app, "bob");
    press(&mut app, Code::Esc);
    assert_eq!(app.focus, Focus::List);
    assert_eq!(app.search, "");
    assert_eq!(ids(&app).len(), 4);
}

#[test]
fn lowercase_of_ascii_is_letter_by_letter() {
    for n in 0u8..128 {
        let c = n as char;
        let lower = c.to_ascii_lowercase();
        let mut app = App::new();
        let item = Json::Object(vec![
            ("number".to_string(), Json::Text("+1".to_string())),
            ("name".to_string(), Json::Text(lower.to_string())),
        ]);
        let list = Json::Object(vec![("result".to_string(), Json::Array(vec![item]))]);
        handle_json(&mut app, &list);
        app.search = c.to_string();
        assert_eq!(ids(&app), ["+1"]);
        app.search = lower.to_string();
        assert_eq!(ids(&app), ["+1"]);
    }
}

#[test]
fn typing_narrows_the_list_in_its_order() {
    let mut app = client();
    receive(&mut app, "g", "x");
    receive(&mut app, "+3", "y");
    press(&mut app, Code::Char('/'));
    let mut before = ids(&app);
    for ch in "Al".chars() {
        press(&mut app, Code::Char(ch));
        let after = ids(&app);
        let kept: Vec<String> = before.iter().filter(|id| after.contains(id)).cloned().collect();
        assert_eq!(after, kept);
        before = after;
    }
    assert_eq!(before, ["g", "+1"]);
}

#[test]
fn the_title_of_the_open_chat_stays() {
    let mut app = client();
    app.open_id = Some("+2".to_string());
    assert_eq!(conversation(&app).title, "Bob");
    app.search = "carol".to_string();
    app.selected = Some(0);
    assert_eq!(conversation(&app).title, "Bob");
}

#[test]
fn the_filter_lowers_more_than_ascii() {
    let mut app = App::new();
    let list = r#"{"result":[{"number":"+1","name":"Żaneta"},{"number":"+2","name":"ŻUBR"}]}"#;
    handle_json(&mut app, &decode_line(list).unwrap());
    app.search = "żu".to_string();
    assert_eq!(ids(&app), ["+2"]);
}

#[test]
fn typing_highlights_the_first_row_and_backspace_keeps_within_the_list() {
    let mut app = client();
    press(&mut app, Code::Char('G'));
    assert_eq!(app.selected, Some(3));
    press(&mut app, Code::Char('/'));
    assert_eq!(app.selected, Some(0));
    app.selected = Some(9);
    press(&mut app, Code::Backspace);
    assert_eq!(app.selected, Some(3));
    app.selected = None;
    clamp_selected(&mut app);
    assert_eq!(app.selected, Some(0));
    app.search = "nobody".to_string();
    app.selected = Some(2);
    clamp_selected(&mut app);
    assert_eq!(app.selected, Some(0));
}

#[test]
fn rows_are_moved_through_within_the_list() {
    let mut app = client();
    press(&mut app, Code::Char('k'));
    assert_eq!(app.selected, Some(0));
    press(&mut app, Code::Char('j'));
    press(&mut app, Code::Down);
    assert_eq!(app.selected, Some(2));
    press(&mut app, Code::Up);
    assert_eq!(app.selected, Some(1));
    press(&mut app, Code::Char('G'));
    press(&mut app, Code::Char('j'));
    assert_eq!(app.selected, Some(3));
    app.selected = None;
    press(&mut app, Code::Char('j'));
    assert_eq!(app.selected, Some(1));
    let mut nobody = App::new();
    press(&mut nobody, Code::Char('j'));
    assert_eq!(nobody.selected, Some(0));
    press(&mut nobody, Code::Char('G'));
    assert_eq!(nobody.selected, Some(0));
}

#[test]
fn two_gs_go_to_the_top() {
    let mut app = client();
    press(&mut app, Code::Char('G'));
    press(&mut app, Code::Char('g'));
    assert!(app.pending_g);
    assert_eq!(app.selected, Some(3));
    press(&mut app, Code::Char('k'));
    assert!(!app.pending_g);
    assert_eq!(app.selected, Some(2));
    press(&mut app, Code::Char('g'));
    press(&mut app, Code::Other);
    press(&mut app, Code::Char('g'));
    assert_eq!(app.selected, Some(2));
    press(&mut app, Code::Char('g'));
    assert_eq!(app.selected, Some(0));
    assert!(!app.pending_g);
}

#[test]
fn the_focus_moves_as_documented() {
    let mut app = client();
    press(&mut app, Code::Tab);
    assert_eq!(app.focus, Focus::Input);
    assert!(app.open_id.is_none());
    press(&mut app, Code::Tab);
    assert_eq!(app.focus, Focus::List);
    press(&mut app, Code::Char('i'));
    assert_eq!(app.focus, Focus::Input);
    assert_eq!(app.open_id.as_deref(), Some("+1"));
    press(&mut app, Code::Esc);
    assert_eq!(app.focus, Focus::List);
    press(&mut app, Code::Char('j'));
    press(&mut app, Code::Enter);
    assert_eq!(app.focus, Focus::Input);
    assert_eq!(app.open_id.as_deref(), Some("+2"));
    press(&mut app, Code::Esc);
    press(&mut app, Code::Tab);
    assert_eq!(app.open_id.as_deref(), Some("+2"));
    let mut nobody = App::new();
    nobody.open_id = Some("+9".to_string());
    press(&mut nobody, Code::Enter);
    assert!(nobody.open_id.is_none());
    assert_eq!(nobody.focus, Focus::Input);
}

#[test]
fn quitting() {
    let mut id: u64 = FIRST_SEND_ID;
    let ctrl_c = Key { code: Code::Char('c'), ctrl: true, pressed: true };
    let q = Key { code: Code::Char('q'), ctrl: false, pressed: true };
    for focus in [Focus::List, Focus::Search, Focus::Input] {
        let mut app = client();
        app.focus = focus;
        assert!(matches!(handle_key(&mut app, ctrl_c, &mut id), Action::Quit));
        let released = Key { pressed: false, ..ctrl_c };
        assert!(matches!(handle_key(&mut app, released, &mut id), Action::Continue));
        assert_eq!(app.focus, focus);
        assert_eq!(
            matches!(handle_key(&mut app, q, &mut id), Action::Quit),
            focus == Focus::List
        );
    }
    let mut app = client();
    app.focus = Focus::Input;
    press(&mut app, Code::Char('q'));
    press(&mut app, Code::Char('c'));
    assert_eq!(app.input, "qc");
    press(&mut app, Code::Backspace);
    assert_eq!(app.input, "q");
    press(&mut app, Code::Backspace);
    press(&mut app, Code::Backspace);
    assert_eq!(app.input, "");
    assert_eq!(id, FIRST_SEND_ID);
}

#[test]
fn a_message_is_sent_to_the_open_chat() {
    let mut app = client();
    let mut id: u64 = FIRST_SEND_ID;
    let enter = Key { code: Code::Enter, ctrl: false, pressed: true };
    press(&mut app, Code::Char('j'));
    press(&mut app, Code::Char('i'));
    type_text(&mut app, "hello");
    match handle_key(&mut app, enter, &mut id) {
        Action::Send(request) => {
            assert_eq!(request.id, 100);
            assert_eq!(request.method, "send");
            assert!(matches!(
                request.params,
                Params::Direct { recipient, message } if recipient == "+2" && message == "hello"
            ));
        }
        _ => panic!("nothing was sent"),
    }
    assert_eq!(id, 101);
    assert_eq!(app.input, "");
    assert_eq!(app.focus, Focus::Input);
    assert_eq!(app.messages[0].0, "+2");
    assert_eq!(app.messages[0].1.from, "me");
    assert_eq!(app.messages[0].1.text, "hello");
    assert_eq!(ids(&app), ["+2", "+1", "+3", "g"]);
    assert!(matches!(handle_key(&mut app, enter, &mut id), Action::Continue));
    assert_eq!(id, 101);
    assert_eq!(app.messages.len(), 1);
}

#[test]
fn a_message_is_sent_to_a_group() {
    let mut app = client();
    app.open_id = Some("g".to_string());
    app.input = "hi group".to_string();
    let request = send_message(&mut app, 7).unwrap();
    assert_eq!(request.id, 7);
    assert!(matches!(
        request.params,
        Params::Group { group_id, message } if group_id == "g" && message == "hi group"
    ));
    app.open_id = Some("+404".to_string());
    app.input = "hi".to_string();
    let request = send_message(&mut app, 8).unwrap();
    assert!(matches!(request.params, Params::Direct { .. }));
}

#[test]
fn nothing_is_sent_without_an_open_chat() {
    let mut app = client();
    let mut id: u64 = FIRST_SEND_ID;
    app.focus = Focus::Input;
    app.input = "lost".to_string();
    let enter = Key { code: Code::Enter, ctrl: false, pressed: true };
    assert!(matches!(handle_key(&mut app, enter, &mut id), Action::Continue));
    assert_eq!(id, 101);
    assert_eq!(app.input, "lost");
    assert!(app.messages.is_empty());
    assert!(send_message(&mut app, 5).is_none());
}

#[test]
fn the_open_chat_does_not_follow_the_list() {
    let mut app = client();
    press(&mut app, Code::Char('i'));
    assert_eq!(chat_id(&app).as_deref(), Some("+1"));
    receive(&mut app, "+3", "other");
    assert_eq!(ids(&app)[0], "+3");
    assert_eq!(chat_id(&app).as_deref(), Some("+1"));
    assert!(conversation(&app).lines.is_empty());
    receive(&mut app, "+1", "for you");
    assert_eq!(conversation(&app).lines.len(), 1);
    app.search = "carol".to_string();
    assert_eq!(conversation(&app).title, "Alice");
    assert_eq!(conversation(&app).lines[0].text, "for you");
}

#[test]
fn the_row_that_was_drawn_is_highlighted() {
    let mut app = App::new();
    highlight(&mut app, None);
    assert_eq!(app.selected, None);
    assert_eq!(app.highlighted_id(), None);
    highlight(&mut app, Some(2));
    assert_eq!(app.selected, Some(2));
    assert_eq!(app.msg_seq, 0);
}
