use movie_night::chat::{frame_payload, read_frame, ChatAction, ChatMessage, FrameEvent, DGG};
use movie_night::dinkdonk::Movie;

fn msg(nick: &str, data: &str) -> ChatMessage {
    ChatMessage { nick: nick.to_owned(), data: data.to_owned() }
}

#[test]
fn frames_carry_messages_after_msg() {
    assert_eq!(frame_payload("MSG {\"a\":1}"), Some("{\"a\":1}".to_owned()));
    assert_eq!(frame_payload("MSG"), None);
    assert_eq!(frame_payload("PING x"), None);
    assert_eq!(frame_payload("MSGX y"), None);
    assert_eq!(frame_payload("MSG  two"), Some(" two".to_owned()));
}

#[test]
fn read_frame_chat_message() {
    let e = read_frame(r#"MSG {"nick":"bob","data":"hello there","timestamp":1}"#);
    assert_eq!(e, FrameEvent::Chat(msg("bob", "hello there")));
}

#[test]
fn read_frame_not_chat_and_malformed() {
    assert_eq!(read_frame(r#"JOIN {"nick":"bob"}"#), FrameEvent::NotChat);
    assert_eq!(read_frame("NAMES"), FrameEvent::NotChat);
    assert_eq!(read_frame("MSG not json"), FrameEvent::Malformed);
    assert_eq!(read_frame(r#"MSG {"nick":"bob"}"#), FrameEvent::Malformed);
    assert_eq!(read_frame(r#"MSG {"nick":3,"data":"x"}"#), FrameEvent::Malformed);
}

#[test]
fn request_in_any_case_starts_a_search() {
    let bot = DGG::new();
    match bot.on_message(&msg("bob", "!REQUEST The Thing")) {
        ChatAction::AnnounceAndSearch(s) => {
            assert_eq!(s.query, "The Thing");
            assert_eq!(s.api_key, "");
            assert_eq!(s.year, None);
        }
        other => panic!("unexpected {:?}", other),
    }
}

#[test]
fn request_title_follows_first_white_space() {
    let bot = DGG::new();
    match bot.on_message(&msg("bob", "!request\u{3000}Akira")) {
        ChatAction::AnnounceAndSearch(s) => assert_eq!(s.query, "Akira"),
        other => panic!("unexpected {:?}", other),
    }
    match bot.on_message(&msg("bob", "!requested\tHeat 1995")) {
        ChatAction::AnnounceAndSearch(s) => assert_eq!(s.query, "Heat 1995"),
        other => panic!("unexpected {:?}", other),
    }
}

#[test]
fn other_messages_are_ignored_or_only_shown() {
    let bot = DGG::new();
    assert_eq!(bot.on_message(&msg("bob", "hello")), ChatAction::Ignore);
    assert_eq!(bot.on_message(&msg("bob", "please !request X")), ChatAction::Ignore);
    assert_eq!(bot.on_message(&msg("bob", "!request")), ChatAction::Announce);
}

#[test]
fn one_request_per_chatter() {
    let mut bot = DGG::new();
    assert!(!bot.has_request("bob"));
    let m = Movie::make_generic_movie("Heat".to_owned(), Some(949), Some(170));
    bot.record_request("bob".to_owned(), m.clone());
    assert!(bot.has_request("bob"));
    assert_eq!(bot.requested_movie("bob"), Some(&m));
    assert_eq!(bot.on_message(&msg("bob", "!request Alien")), ChatAction::Announce);
    assert!(matches!(bot.on_message(&msg("ann", "!request Alien")), ChatAction::AnnounceAndSearch(_)));
    assert_eq!(bot.requested_movie("ann"), None);
}

#[test]
fn recording_again_replaces_only_that_chatter() {
    let mut bot = DGG::new();
    let heat = Movie::make_generic_movie("Heat".to_owned(), None, None);
    let alien = Movie::make_generic_movie("Alien".to_owned(), None, None);
    let dune = Movie::make_generic_movie("Dune".to_owned(), None, None);
    bot.record_request("bob".to_owned(), heat.clone());
    bot.record_request("ann".to_owned(), alien.clone());
    bot.record_request("bob".to_owned(), dune.clone());
    assert_eq!(bot.requested_movie("bob"), Some(&dune));
    assert_eq!(bot.requested_movie("ann"), Some(&alien));
}
