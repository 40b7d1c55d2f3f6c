use signal_tui::inbox::handle_json;
use signal_tui::model::{App, Focus};
use signal_tui::screen::{
    border_style, columns, conversation, first_row, input_active, panes, scroll, sidebar, status_line,
    title_style, ChatLine, Conversation, Extent, BG3, BLUE, CYAN, DIM, GREEN, RED,
};
use signal_tui::startup::{is_linked, link_outcome, names_account};
use signal_tui::text::decimal_text;
use signal_tui::wire::decode_line;

fn client() -> App {
    let mut app = App::new();
    let list = r#"{"result":[
        {"number":"+1","name":"Alice"},
        {"id":"g","name":"Chess","members":[]}]}"#;
    handle_json(&mut app, &decode_line(list).unwrap());
    app
}

#[test]
fn the_sidebar_marks_groups_and_shows_the_filter() {
    let mut app = client();
    let bar = sidebar(&app);
    assert_eq!(bar.rows, ["Alice", "# Chess"]);
    assert_eq!(bar.title, "Contacts");
    assert!(bar.active);
    app.focus = Focus::Search;
    app.search = "che".to_string();
    let bar = sidebar(&app);
    assert_eq!(bar.rows, ["# Chess"]);
    assert_eq!(bar.title, "/ che_");
    assert!(bar.active);
    app.focus = Focus::Input;
    let bar = sidebar(&app);
    assert_eq!(bar.title, "Contacts");
    assert!(!bar.active);
}

#[test]
fn the_conversation_falls_back_to_the_highlighted_contact() {
    let mut app = client();
    app.record("+1".to_string(), "Alice".to_string(), "hi".to_string());
    app.record("g".to_string(), "Bob".to_string(), "move".to_string());
    app.record("+1".to_string(), "me".to_string(), "hello".to_string());
    let chat = conversation(&app);
    assert_eq!(chat.title, "Alice");
    assert_eq!(chat.lines.len(), 2);
    assert_eq!(chat.lines[0].author, "Alice: ");
    assert_eq!(chat.lines[0].colour, GREEN);
    assert_eq!(chat.lines[0].text, "hi");
    assert_eq!(chat.lines[1].author, "me: ");
    assert_eq!(chat.lines[1].colour, BLUE);
    app.selected = Some(1);
    assert_eq!(conversation(&app).title, "Chess");
    app.selected = Some(2);
    assert_eq!(conversation(&app).title, "");
    assert!(conversation(&app).lines.is_empty());
    app.open_id = Some("+404".to_string());
    assert_eq!(conversation(&app).title, "");
}

#[test]
fn colours_tell_what_is_active() {
    assert_eq!(border_style(true), CYAN);
    assert_eq!(border_style(false), BG3);
    assert_eq!(title_style(true), CYAN);
    assert_eq!(title_style(false), DIM);
    let mut app = client();
    assert!(!input_active(&app));
    app.focus = Focus::Input;
    assert!(input_active(&app));
}

#[test]
fn the_status_line_tells_the_connection_and_the_keys() {
    let mut app = client();
    let line = status_line(&app);
    let texts: Vec<&str> = line.iter().map(|s| s.text.as_str()).collect();
    assert_eq!(
        texts,
        [
            " ● connected ",
            "│ ",
            "2 contacts ",
            "│ ",
            "j/k navigate · / search · i/Enter compose · q quit",
        ]
    );
    let colours: Vec<u32> = line.iter().map(|s| s.colour).collect();
    assert_eq!(colours, [GREEN, BG3, DIM, BG3, DIM]);
    app.connected = false;
    app.focus = Focus::Search;
    let line = status_line(&app);
    assert_eq!(line[0].text, " ✗ disconnected ");
    assert_eq!(line[0].colour, RED);
    assert_eq!(line[4].text, "type to filter · Enter confirm · Esc cancel");
    app.focus = Focus::Input;
    assert_eq!(status_line(&app)[4].text, "Enter send · Esc back");
}

#[test]
fn the_last_rows_of_a_conversation_are_on_show() {
    assert_eq!(first_row(0, 10), 0);
    assert_eq!(first_row(10, 10), 0);
    assert_eq!(first_row(11, 10), 1);
    assert_eq!(first_row(250, 20), 230);
    assert_eq!(first_row(5, 0), 5);
    assert_eq!(first_row(65535, 20), 65515);
    assert_eq!(first_row(65536, 20), 65515);
    assert_eq!(first_row(usize::MAX, u16::MAX), 0);
}

fn chat(lines: &[(&str, &str)]) -> Conversation {
    let lines = lines
        .iter()
        .map(|(author, text)| ChatLine {
            author: author.to_string(),
            colour: GREEN,
            text: text.to_string(),
        })
        .collect();
    Conversation { title: String::new(), lines }
}

#[test]
fn wrapped_lines_count_when_the_conversation_is_scrolled() {
    let hello = chat(&[("Hello ", "World")]);
    assert_eq!(scroll(&hello, 20, 1), 0);
    assert_eq!(scroll(&hello, 10, 1), 1);
    assert_eq!(scroll(&hello, 10, 2), 0);
    assert_eq!(scroll(&hello, 10, 0), 2);
    assert_eq!(scroll(&hello, 0, 1), 0);
    assert_eq!(scroll(&hello, u16::MAX, 1), 0);
    assert_eq!(scroll(&chat(&[("    ", "ab")]), 5, 1), 1);
    assert_eq!(scroll(&chat(&[("a: ", ""), ("b: ", "x"), ("c: ", "y")]), 10, 1), 2);
    assert_eq!(scroll(&chat(&[]), 10, 1), 0);
}

#[test]
fn the_screen_is_divided() {
    assert_eq!(columns(), [Extent::Length(28), Extent::Min(1)]);
    assert_eq!(panes(), [Extent::Min(1), Extent::Length(3), Extent::Length(1)]);
}

#[test]
fn accounts_are_detected() {
    assert!(!is_linked(None));
    assert!(!is_linked(Some(&Vec::new())));
    assert!(!is_linked(Some(&b" \n\t ".to_vec())));
    assert!(is_linked(Some(&b"Number: +48123\n".to_vec())));
    assert!(is_linked(Some(&vec![0xff])));
    assert!(!is_linked(Some(&"\u{a0}\u{3000}".as_bytes().to_vec())));
    assert!(is_linked(Some(&"\u{a0}é".as_bytes().to_vec())));
    assert!(!names_account("\u{a0}\u{2003}\u{3000}\r\n"));
    assert!(names_account("\u{200b}"));
    for c in '\0'..=char::MAX {
        let white = matches!(
            c as u32,
            0x9..=0xd
                | 0x20
                | 0x85
                | 0xa0
                | 0x1680
                | 0x2000..=0x200a
                | 0x2028
                | 0x2029
                | 0x202f
                | 0x205f
                | 0x3000
        );
        assert_eq!(names_account(&c.to_string()), !white);
    }
    assert!(names_account(" \n a \n"));
}

#[test]
fn linking_succeeds_or_fails() {
    assert_eq!(
        link_outcome(true).unwrap(),
        "\nLinked successfully. Starting signal-tui...\n"
    );
    assert_eq!(link_outcome(false).unwrap_err(), "linking failed or was cancelled");
}

#[test]
fn counts_are_written_in_decimal() {
    for n in [0usize, 7, 10, 99, 100, 1203, usize::MAX] {
        assert_eq!(decimal_text(n), n.to_string());
    }
}
