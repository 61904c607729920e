use chat_session::client::{Client, ClientConfig, Phase};
use chat_session::cmd::{CmdKick, Command};
use chat_session::config::Args;
use chat_session::event::{Action, Event, Notice, Purpose, KEEPALIVE_PERIOD_SECS};
use chat_session::msg_parser::{
    DecodeError, FieldName, Info, Message, MsgChat, MsgOnlineAdd, MsgOnlineRemove, MsgOnlineSet,
    MsgOnlineSetUser, MsgWhisper,
};
use chat_session::roster::NameMatch;
use chat_session::user::User;

fn config() -> ClientConfig {
    ClientConfig::from(Args {
        server: "wss://chat.example/ws".to_string(),
        channel: "lobby".to_string(),
        username: "bot".to_string(),
        password: "secret".to_string(),
    })
}

fn user(name: &str, level: i32) -> User {
    User { username: name.to_string(), level }
}

fn entry(name: &str, level: i32) -> MsgOnlineSetUser {
    MsgOnlineSetUser { username: name.to_string(), is_me: false, trip: String::new(), level }
}

fn set(names: &[&str]) -> Message {
    Message::OnlineSet(MsgOnlineSet { users: names.iter().map(|n| entry(n, 100)).collect() })
}

fn add(name: &str, level: i32) -> Message {
    Message::OnlineAdd(MsgOnlineAdd { username: name.to_string(), trip: String::new(), level })
}

fn remove(name: &str) -> Message {
    Message::OnlineRemove(MsgOnlineRemove { username: name.to_string() })
}

fn chat(sender: &str, message: &str) -> Message {
    Message::Chat(MsgChat { sender: sender.to_string(), message: message.to_string() })
}

fn whisper(sender: &str, message: &str) -> Message {
    Message::Info(Info::Whisper(MsgWhisper {
        sender: sender.to_string(),
        message: message.to_string(),
    }))
}

fn client_with(names: &[&str]) -> Client {
    let mut client = Client::new(&config());
    assert!(client.handle(&set(names)).is_empty());
    client
}

fn joined_client() -> Client {
    let mut client = Client::new(&config());
    assert!(client.step(Event::Connected).is_empty());
    assert!(client.join().is_some());
    client
}

fn names(client: &Client) -> Vec<String> {
    client.users().into_iter().map(|u| u.username).collect()
}

fn reply(text: &str) -> Action {
    Action::Send {
        frame: serde_json_chat(text),
        purpose: Purpose::Reply,
    }
}

fn serde_json_chat(text: &str) -> String {
    let mut map = serde_json::Map::new();
    map.insert("cmd".to_string(), serde_json::Value::String("chat".to_string()));
    map.insert("text".to_string(), serde_json::Value::String(text.to_string()));
    serde_json::Value::Object(map).to_string()
}

#[test]
fn config_keeps_the_server() {
    assert_eq!(config().server(), "wss://chat.example/ws");
}

#[test]
fn new_client_knows_nobody() {
    let client = Client::new(&config());
    assert_eq!(client.phase(), Phase::Created);
    assert!(client.users().is_empty());
    assert_eq!(client.get_user("bob"), None);
}

#[test]
fn users_command_lists_names_in_descending_order() {
    let client = client_with(&["bob", "alice", "carol"]);
    let replies = client.handle_cmd(&chat("x", "::users"), &Command::Users);
    assert_eq!(replies, vec!["Users: carol, bob, alice".to_string()]);
}

#[test]
fn users_command_on_an_empty_registry_sends_nothing() {
    let client = Client::new(&config());
    let replies = client.handle_cmd(&chat("x", "::users"), &Command::Users);
    assert!(replies.is_empty());
}

#[test]
fn users_command_with_one_user_and_with_a_repeated_name() {
    let client = client_with(&["solo"]);
    assert_eq!(
        client.handle_cmd(&Message::Unknown, &Command::Users),
        vec!["Users: solo".to_string()]
    );
    let mut client = client_with(&["bob", "alice"]);
    client.handle(&add("bob", 5));
    assert_eq!(
        client.handle_cmd(&Message::Unknown, &Command::Users),
        vec!["Users: bob, bob, alice".to_string()]
    );
}

#[test]
fn kick_uses_the_stored_name_when_case_is_ignored() {
    let client = client_with(&["bob", "Alice"]);
    let kick = Command::Kick(CmdKick { target: "alice".to_string() });
    assert_eq!(
        client.handle_cmd(&chat("x", "::kick alice"), &kick),
        vec!["Would kick Alice".to_string()]
    );
}

#[test]
fn kick_misses_the_name_when_case_counts() {
    let client = client_with(&["bob", "Alice"]).with_name_match(NameMatch::Exact);
    let kick = Command::Kick(CmdKick { target: "alice".to_string() });
    assert_eq!(
        client.handle_cmd(&chat("x", "::kick alice"), &kick),
        vec!["User not in userlist: alice".to_string()]
    );
    let exact = Command::Kick(CmdKick { target: "Alice".to_string() });
    assert_eq!(
        client.handle_cmd(&chat("x", "::kick Alice"), &exact),
        vec!["Would kick Alice".to_string()]
    );
}

#[test]
fn kick_of_an_absent_user_says_so_and_removes_nobody() {
    let mut client = client_with(&["bob", "alice"]);
    assert_eq!(
        client.handle(&chat("mod", "::kick carol")),
        vec!["User not in userlist: carol".to_string()]
    );
    assert_eq!(
        client.handle(&chat("mod", "::kick bob")),
        vec!["Would kick bob".to_string()]
    );
    assert_eq!(names(&client), vec!["bob", "alice"]);
}

#[test]
fn get_user_matches_without_regard_to_case_by_default() {
    let client = client_with(&["bob", "Alice"]);
    assert_eq!(client.get_user("ALICE"), Some(user("Alice", 100)));
    assert_eq!(client.get_user("Bob"), Some(user("bob", 100)));
    assert_eq!(client.get_user("carol"), None);
    let exact = client.with_name_match(NameMatch::Exact);
    assert_eq!(exact.get_user("ALICE"), None);
    assert_eq!(exact.get_user("Alice"), Some(user("Alice", 100)));
}

#[test]
fn handle_chat_with_a_quoted_kick() {
    let mut client = client_with(&["bob smith", "alice"]);
    assert_eq!(
        client.handle(&chat("mod", "::kick \"bob smith\"")),
        vec!["Would kick bob smith".to_string()]
    );
}

#[test]
fn handle_chat_without_a_command_sends_nothing() {
    let mut client = client_with(&["bob"]);
    assert!(client.handle(&chat("a", "hello")).is_empty());
    assert!(client.handle(&chat("a", "::")).is_empty());
    assert!(client.handle(&chat("a", "::kick")).is_empty());
    assert!(client.handle(&chat("a", "::frobnicate")).is_empty());
    assert!(client.handle(&chat("a", " ::users")).is_empty());
    assert!(client.handle(&chat("a", ":users")).is_empty());
    assert!(client.handle(&chat("a", "::kick \"bob")).is_empty());
    assert_eq!(names(&client), vec!["bob"]);
}

#[test]
fn handle_whisper_with_a_command() {
    let mut client = client_with(&["bob", "alice"]);
    assert_eq!(
        client.handle(&whisper("mod", "::users")),
        vec!["Users: bob, alice".to_string()]
    );
    assert!(client.handle(&whisper("mod", "users")).is_empty());
}

#[test]
fn handle_of_other_messages_changes_nothing() {
    let mut client = client_with(&["bob"]);
    assert!(client.handle(&Message::Unknown).is_empty());
    assert!(client.handle(&Message::Info(Info::Unknown)).is_empty());
    assert_eq!(names(&client), vec!["bob"]);
}

#[test]
fn roster_messages_change_the_registry_in_order() {
    let mut client = Client::new(&config());
    assert!(client.handle(&add("early", 1)).is_empty());
    assert!(client.handle(&set(&["bob", "alice"])).is_empty());
    assert_eq!(names(&client), vec!["bob", "alice"]);
    assert!(client.handle(&add("carol", 500)).is_empty());
    assert!(client.handle(&add("bob", 7)).is_empty());
    assert_eq!(names(&client), vec!["bob", "alice", "carol", "bob"]);
    assert!(client.handle(&remove("bob")).is_empty());
    assert_eq!(client.users(), vec![user("alice", 100), user("carol", 500), user("bob", 7)]);
    assert!(client.handle(&remove("nobody")).is_empty());
    assert!(client.handle(&remove("Alice")).is_empty());
    assert_eq!(names(&client), vec!["alice", "carol", "bob"]);
    assert!(client.handle(&set(&[])).is_empty());
    assert!(client.users().is_empty());
}

#[test]
fn a_joiner_is_seen_by_the_next_users_command() {
    let mut client = client_with(&["bob"]);
    client.handle(&add("zoe", 1));
    assert_eq!(client.handle(&chat("a", "::users")), vec!["Users: zoe, bob".to_string()]);
    client.handle(&remove("bob"));
    assert_eq!(client.handle(&chat("a", "::users")), vec!["Users: zoe".to_string()]);
    client.handle(&remove("zoe"));
    assert!(client.handle(&chat("a", "::users")).is_empty());
}

#[test]
fn chat_asks_for_one_frame_whose_failure_is_dropped() {
    let client = Client::new(&config());
    assert_eq!(
        client.chat("hi".to_string()),
        Action::Send { frame: r#"{"cmd":"chat","text":"hi"}"#.to_string(), purpose: Purpose::Reply }
    );
    assert_eq!(client.chat("a\"b".to_string()), reply("a\"b"));
}

#[test]
fn json_asks_for_the_frame_as_it_is() {
    let client = Client::new(&config());
    assert_eq!(
        client.json("{\"cmd\":\"x\"}".to_string()),
        Action::Send { frame: "{\"cmd\":\"x\"}".to_string(), purpose: Purpose::Reply }
    );
    assert_eq!(
        client.json(String::new()),
        Action::Send { frame: String::new(), purpose: Purpose::Reply }
    );
}

#[test]
fn run_takes_the_events_in_their_order() {
    let mut client = joined_client();
    let actions = client.run(vec![
        Event::Text(r#"{"cmd":"onlineAdd","nick":"bob","trip":"","level":1}"#.into()),
        Event::NonText,
        Event::Tick,
        Event::Text(r#"{"cmd":"chat","nick":"mod","text":"::users"}"#.into()),
        Event::SendFailed(Purpose::Reply),
        Event::Text(r#"{"cmd":"onlineRemove","nick":"bob"}"#.into()),
        Event::Text(r#"{"cmd":"chat","nick":"mod","text":"::users"}"#.into()),
    ]);
    assert_eq!(
        actions,
        vec![
            Action::Send { frame: r#"{"cmd":"ping"}"#.to_string(), purpose: Purpose::Keepalive },
            Action::Report(Notice::Chat { sender: "mod".into(), message: "::users".into() }),
            reply("Users: bob"),
            Action::Report(Notice::Chat { sender: "mod".into(), message: "::users".into() }),
        ]
    );
    assert_eq!(client.phase(), Phase::Joined);
    assert!(client.users().is_empty());
}

#[test]
fn run_answers_nothing_after_the_cancellation() {
    let mut client = joined_client();
    let actions = client.run(vec![
        Event::Tick,
        Event::Cancelled,
        Event::Text(r#"{"cmd":"chat","nick":"mod","text":"::kick bob"}"#.into()),
        Event::Tick,
        Event::ReadEnded,
    ]);
    assert_eq!(
        actions,
        vec![
            Action::Send { frame: r#"{"cmd":"ping"}"#.to_string(), purpose: Purpose::Keepalive },
            Action::Stop,
        ]
    );
    assert_eq!(client.phase(), Phase::Closed);
}

#[test]
fn run_of_no_events_asks_for_nothing() {
    let mut client = joined_client();
    assert!(client.run(Vec::new()).is_empty());
    assert_eq!(client.phase(), Phase::Joined);
}

#[test]
fn join_is_handed_out_once_after_the_connection() {
    let mut client = Client::new(&config());
    assert_eq!(client.join(), None);
    assert_eq!(client.phase(), Phase::Created);
    assert!(client.step(Event::Connected).is_empty());
    assert_eq!(client.phase(), Phase::Connected);
    assert_eq!(
        client.join(),
        Some(r#"{"channel":"lobby","cmd":"join","nick":"bot","password":"secret"}"#.to_string())
    );
    assert_eq!(client.phase(), Phase::Joined);
    assert_eq!(client.join(), None);
    assert_eq!(client.phase(), Phase::Joined);
}

#[test]
fn join_with_an_empty_password() {
    let mut client = Client::new(&ClientConfig::from(Args {
        server: "s".to_string(),
        channel: "c".to_string(),
        username: "n".to_string(),
        password: String::new(),
    }));
    client.step(Event::Connected);
    assert_eq!(
        client.join(),
        Some(r#"{"channel":"c","cmd":"join","nick":"n","password":""}"#.to_string())
    );
}

#[test]
fn keepalive_period_is_a_minute() {
    assert_eq!(KEEPALIVE_PERIOD_SECS, 60);
}

#[test]
fn tick_asks_for_a_ping_whose_failure_is_fatal() {
    let mut client = joined_client();
    assert_eq!(
        client.step(Event::Tick),
        vec![Action::Send { frame: r#"{"cmd":"ping"}"#.to_string(), purpose: Purpose::Keepalive }]
    );
    assert_eq!(client.step(Event::SendFailed(Purpose::Keepalive)), vec![Action::Stop]);
    assert_eq!(client.phase(), Phase::Closed);
}

#[test]
fn tick_before_the_join_asks_for_nothing() {
    let mut client = Client::new(&config());
    assert!(client.step(Event::Tick).is_empty());
    client.step(Event::Connected);
    assert!(client.step(Event::Tick).is_empty());
    assert_eq!(client.phase(), Phase::Connected);
}

#[test]
fn cancellation_stops_at_once() {
    let mut client = joined_client();
    assert_eq!(client.step(Event::Cancelled), vec![Action::Stop]);
    assert_eq!(client.phase(), Phase::Closed);
    // nothing that arrives later is answered
    assert!(client.step(Event::Text(r#"{"cmd":"chat","nick":"a","text":"::users"}"#.into()))
        .is_empty());
    assert!(client.step(Event::Tick).is_empty());
    assert!(client.step(Event::Cancelled).is_empty());
    assert!(client.step(Event::ReadEnded).is_empty());
    assert_eq!(client.phase(), Phase::Closed);
}

#[test]
fn cancellation_stops_in_every_phase() {
    let mut created = Client::new(&config());
    assert_eq!(created.step(Event::Cancelled), vec![Action::Stop]);
    assert_eq!(created.phase(), Phase::Closed);
    let mut connected = Client::new(&config());
    connected.step(Event::Connected);
    assert_eq!(connected.step(Event::Cancelled), vec![Action::Stop]);
    assert_eq!(connected.phase(), Phase::Closed);
}

#[test]
fn end_of_reading_stops() {
    let mut client = joined_client();
    assert_eq!(client.step(Event::ReadEnded), vec![Action::Stop]);
    assert_eq!(client.phase(), Phase::Closed);
}

#[test]
fn failed_connection_stops() {
    let mut client = Client::new(&config());
    assert_eq!(client.step(Event::ConnectFailed), vec![Action::Stop]);
    assert_eq!(client.phase(), Phase::Closed);
    assert!(client.step(Event::Connected).is_empty());
    assert_eq!(client.join(), None);
}

#[test]
fn failed_join_stops_and_failed_reply_does_not() {
    let mut client = joined_client();
    assert!(client.step(Event::SendFailed(Purpose::Reply)).is_empty());
    assert_eq!(client.phase(), Phase::Joined);
    assert_eq!(client.step(Event::SendFailed(Purpose::Join)), vec![Action::Stop]);
    assert_eq!(client.phase(), Phase::Closed);
}

#[test]
fn connected_twice_changes_nothing_more() {
    let mut client = joined_client();
    assert!(client.step(Event::Connected).is_empty());
    assert_eq!(client.phase(), Phase::Joined);
}

#[test]
fn frames_that_are_empty_or_no_text_are_passed_over() {
    let mut client = joined_client();
    assert!(client.step(Event::Text(String::new())).is_empty());
    assert!(client.step(Event::NonText).is_empty());
    assert_eq!(client.phase(), Phase::Joined);
}

#[test]
fn frames_before_the_join_are_passed_over() {
    let mut client = Client::new(&config());
    let frame = r#"{"cmd":"onlineAdd","nick":"a","trip":"","level":1}"#;
    assert!(client.step(Event::Text(frame.into())).is_empty());
    client.step(Event::Connected);
    assert!(client.step(Event::Text(frame.into())).is_empty());
    assert!(client.users().is_empty());
}

#[test]
fn undecodable_frame_is_reported_and_the_session_goes_on() {
    let mut client = joined_client();
    let actions = client.step(Event::Text("{\"cmd\":".into()));
    assert_eq!(actions.len(), 1);
    match &actions[0] {
        Action::Report(Notice::Undecodable { error: DecodeError::Syntax(_), text }) => {
            assert_eq!(text, "{\"cmd\":")
        }
        other => panic!("{:?}", other),
    }
    assert_eq!(
        client.step(Event::Text(r#"{"cmd":"chat","nick":"a"}"#.into())),
        vec![Action::Report(Notice::Undecodable {
            error: DecodeError::Missing(FieldName::Text),
            text: r#"{"cmd":"chat","nick":"a"}"#.to_string(),
        })]
    );
    assert_eq!(client.phase(), Phase::Joined);
}

#[test]
fn unknown_tag_is_reported() {
    let mut client = joined_client();
    assert_eq!(
        client.step(Event::Text(r#"{"cmd":"warn","text":"x"}"#.into())),
        vec![Action::Report(Notice::UnknownTag { text: r#"{"cmd":"warn","text":"x"}"#.into() })]
    );
    // a notice of an unknown type is passed over in silence
    assert!(client.step(Event::Text(r#"{"cmd":"info","type":"x"}"#.into())).is_empty());
}

#[test]
fn chat_frame_is_told_and_its_command_answered() {
    let mut client = joined_client();
    let roster = r#"{"cmd":"onlineSet","users":[
        {"nick":"bob","isme":false,"trip":"","level":100},
        {"nick":"alice","isme":false,"trip":"","level":100},
        {"nick":"carol","isme":true,"trip":"","level":100}]}"#;
    assert!(client.step(Event::Text(roster.into())).is_empty());
    assert_eq!(
        client.step(Event::Text(r#"{"cmd":"chat","nick":"mod","text":"::users"}"#.into())),
        vec![
            Action::Report(Notice::Chat { sender: "mod".into(), message: "::users".into() }),
            reply("Users: carol, bob, alice"),
        ]
    );
    assert_eq!(
        client.step(Event::Text(r#"{"cmd":"chat","nick":"mod","text":"hello"}"#.into())),
        vec![Action::Report(Notice::Chat { sender: "mod".into(), message: "hello".into() })]
    );
}

#[test]
fn whisper_frame_is_told_and_its_command_answered() {
    let mut client = joined_client();
    client.step(Event::Text(r#"{"cmd":"onlineAdd","nick":"Alice","trip":"","level":1}"#.into()));
    let frame =
        r#"{"cmd":"info","type":"whisper","from":"mod","text":"mod whispered: ::kick alice"}"#;
    assert_eq!(
        client.step(Event::Text(frame.into())),
        vec![
            Action::Report(Notice::Whisper { sender: "mod".into(), message: "::kick alice".into() }),
            reply("Would kick Alice"),
        ]
    );
}

#[test]
fn roster_frames_are_applied_in_the_order_of_arrival() {
    let mut client = joined_client();
    let frames = [
        r#"{"cmd":"onlineSet","users":[{"nick":"bob","isme":false,"trip":"","level":1}]}"#,
        r#"{"cmd":"onlineAdd","nick":"alice","trip":"","level":2}"#,
        r#"{"cmd":"onlineAdd","nick":"bob","trip":"","level":3}"#,
        r#"{"cmd":"onlineRemove","nick":"bob"}"#,
        r#"{"cmd":"onlineRemove","nick":"nobody"}"#,
    ];
    for frame in frames {
        assert!(client.step(Event::Text(frame.to_string())).is_empty());
    }
    assert_eq!(client.users(), vec![user("alice", 2), user("bob", 3)]);
}
