//! The messages that the server sends, and how they are read from the
//! wire.

use vstd::prelude::*;
use vstd::std_specs::convert::FromSpecImpl;

use crate::json::{
    find_member, item_values, json_of_text, lemma_list_view, lemma_object_view, member,
    member_values, read_json, Json, JsonValue,
};
use crate::registry::RosterEvent;
use crate::roster::RosterChange;
use crate::text::{
    is_word, join, joined, lemma_words_are_words, lemma_words_of_joined, split_whitespace, words,
};
use crate::user::{Member, User};

verus! {

/// A line that somebody said in the channel.
#[derive(Debug, PartialEq, Eq)]
pub struct MsgChat {
    pub sender: String,
    pub message: String,
}

/// A line that somebody whispered to this client. The message is the
/// payload: what the wire text holds behind its two routing words.
#[derive(Debug, PartialEq, Eq)]
pub struct MsgWhisper {
    pub sender: String,
    pub message: String,
}

/// The full roster of the channel.
#[derive(Debug, PartialEq, Eq)]
pub struct MsgOnlineSet {
    pub users: Vec<MsgOnlineSetUser>,
}

/// One entry of the full roster.
#[derive(Debug, PartialEq, Eq)]
pub struct MsgOnlineSetUser {
    pub username: String,
    pub is_me: bool,
    pub trip: String,
    pub level: i32,
}

/// Somebody joined the channel.
#[derive(Debug, PartialEq, Eq)]
pub struct MsgOnlineAdd {
    pub username: String,
    pub trip: String,
    pub level: i32,
}

/// Somebody left the channel.
#[derive(Debug, PartialEq, Eq)]
pub struct MsgOnlineRemove {
    pub username: String,
}

/// A notice of the server, told apart by its type.
#[derive(Debug, PartialEq, Eq)]
pub enum Info {
    Whisper(MsgWhisper),
    /// A notice of a type that this client does not know.
    Unknown,
}

/// A message of the server, told apart by its tag.
#[derive(Debug, PartialEq, Eq)]
pub enum Message {
    Chat(MsgChat),
    Info(Info),
    OnlineSet(MsgOnlineSet),
    OnlineAdd(MsgOnlineAdd),
    OnlineRemove(MsgOnlineRemove),
    /// A message with a tag that this client does not know.
    Unknown,
}

/// What a chat line or a whisper stands for.
pub struct Line {
    pub sender: Seq<char>,
    pub message: Seq<char>,
}

/// What an entry of the full roster stands for.
pub struct Entry {
    pub name: Seq<char>,
    pub is_me: bool,
    pub trip: Seq<char>,
    pub level: int,
}

/// What the notice of a joiner stands for.
pub struct Arrival {
    pub name: Seq<char>,
    pub trip: Seq<char>,
    pub level: int,
}

/// What an `Info` stands for.
pub enum InfoView {
    Whisper(Line),
    Unknown,
}

/// What a `Message` stands for.
pub enum MessageView {
    Chat(Line),
    Info(InfoView),
    OnlineSet(Seq<Entry>),
    OnlineAdd(Arrival),
    OnlineRemove(Seq<char>),
    Unknown,
}

impl View for MsgChat {
    type V = Line;

    open spec fn view(&self) -> Line {
        Line { sender: self.sender@, message: self.message@ }
    }
}

impl View for MsgWhisper {
    type V = Line;

    open spec fn view(&self) -> Line {
        Line { sender: self.sender@, message: self.message@ }
    }
}

impl View for MsgOnlineSetUser {
    type V = Entry;

    open spec fn view(&self) -> Entry {
        Entry {
            name: self.username@,
            is_me: self.is_me,
            trip: self.trip@,
            level: self.level as int,
        }
    }
}

/// What a list of roster entries stands for.
pub open spec fn entries(users: Seq<MsgOnlineSetUser>) -> Seq<Entry> {
    Seq::new(users.len(), |i: int| users[i]@)
}

impl View for MsgOnlineSet {
    type V = Seq<Entry>;

    open spec fn view(&self) -> Seq<Entry> {
        entries(self.users@)
    }
}

impl View for MsgOnlineAdd {
    type V = Arrival;

    open spec fn view(&self) -> Arrival {
        Arrival { name: self.username@, trip: self.trip@, level: self.level as int }
    }
}

impl View for MsgOnlineRemove {
    type V = Seq<char>;

    open spec fn view(&self) -> Seq<char> {
        self.username@
    }
}

impl View for Info {
    type V = InfoView;

    open spec fn view(&self) -> InfoView {
        match self {
            Info::Whisper(whisper) => InfoView::Whisper(whisper@),
            Info::Unknown => InfoView::Unknown,
        }
    }
}

impl View for Message {
    type V = MessageView;

    open spec fn view(&self) -> MessageView {
        match self {
            Message::Chat(chat) => MessageView::Chat(chat@),
            Message::Info(info) => MessageView::Info(info@),
            Message::OnlineSet(set) => MessageView::OnlineSet(set@),
            Message::OnlineAdd(add) => MessageView::OnlineAdd(add@),
            Message::OnlineRemove(remove) => MessageView::OnlineRemove(remove@),
            Message::Unknown => MessageView::Unknown,
        }
    }
}

impl From<&MsgOnlineSetUser> for User {
    fn from(value: &MsgOnlineSetUser) -> (user: User) {
        User { username: value.username.clone(), level: value.level }
    }
}

impl FromSpecImpl<&MsgOnlineSetUser> for User {
    open spec fn obeys_from_spec() -> bool {
        true
    }

    open spec fn from_spec(value: &MsgOnlineSetUser) -> User {
        User { username: value.username, level: value.level }
    }
}

impl From<&MsgOnlineAdd> for User {
    fn from(value: &MsgOnlineAdd) -> (user: User) {
        User { username: value.username.clone(), level: value.level }
    }
}

impl FromSpecImpl<&MsgOnlineAdd> for User {
    open spec fn obeys_from_spec() -> bool {
        true
    }

    open spec fn from_spec(value: &MsgOnlineAdd) -> User {
        User { username: value.username, level: value.level }
    }
}

/// The payload among the words of a whisper's wire text: the words behind
/// the first two, with one space between neighbours; nothing where there are
/// no more than two words.
pub open spec fn payload_of_words(words: Seq<Seq<char>>) -> Seq<char> {
    if words.len() > 2 {
        joined(words.skip(2), " "@)
    } else {
        Seq::empty()
    }
}

/// The payload of a whisper's wire text.
pub open spec fn payload_of(text: Seq<char>) -> Seq<char> {
    payload_of_words(words(text))
}

/// The words of the payload are the words of the wire text without the
/// first two.
pub proof fn lemma_payload_drops_two_words(text: Seq<char>)
    ensures
        words(payload_of(text)) == if words(text).len() > 2 {
            words(text).skip(2)
        } else {
            Seq::<Seq<char>>::empty()
        },
{
    reveal_strlit(" ");
    assert(" "@ =~= seq![' ']);
    if words(text).len() > 2 {
        let rest = words(text).skip(2);
        lemma_words_are_words(text);
        assert forall|k: int| 0 <= k < rest.len() implies is_word(#[trigger] rest[k]) by {
            assert(rest[k] == words(text)[k + 2]);
        }
        lemma_words_of_joined(rest, ' ');
    }
}

/// The payload among the words of a whisper's wire text.
pub fn payload_from_words(words: &Vec<String>) -> (payload: String)
    ensures
        payload@ == payload_of_words(words.deep_view()),
{
    if words.len() > 2 {
        let rest = vstd::slice::slice_subrange(words.as_slice(), 2, words.len());
        proof {
            assert(rest.deep_view() =~= words.deep_view().skip(2));
        }
        join(rest, " ")
    } else {
        String::new()
    }
}

/// The payload of a whisper's wire text: the text without its first two
/// words, the routing words of the protocol.
pub fn whisper_payload(text: &str) -> (payload: String)
    ensures
        payload@ == payload_of(text@),
{
    let words = split_whitespace(text);
    payload_from_words(&words)
}

/// The members of a message that this client reads.
#[derive(Clone, Copy, Debug, PartialEq, Eq)]
pub enum FieldName {
    Cmd,
    Type,
    Nick,
    Text,
    From,
    Users,
    IsMe,
    Trip,
    Level,
}

impl FieldName {
    /// The key under which the wire carries the member.
    pub open spec fn key(self) -> Seq<char> {
        match self {
            FieldName::Cmd => "cmd"@,
            FieldName::Type => "type"@,
            FieldName::Nick => "nick"@,
            FieldName::Text => "text"@,
            FieldName::From => "from"@,
            FieldName::Users => "users"@,
            FieldName::IsMe => "isme"@,
            FieldName::Trip => "trip"@,
            FieldName::Level => "level"@,
        }
    }

    /// The key under which the wire carries the member.
    pub fn name(self) -> (name: &'static str)
        ensures
            name@ == self.key(),
    {
        match self {
            FieldName::Cmd => "cmd",
            FieldName::Type => "type",
            FieldName::Nick => "nick",
            FieldName::Text => "text",
            FieldName::From => "from",
            FieldName::Users => "users",
            FieldName::IsMe => "isme",
            FieldName::Trip => "trip",
            FieldName::Level => "level",
        }
    }
}

/// Why a text is no message of the protocol.
#[derive(Debug, PartialEq, Eq)]
pub enum DecodeError {
    /// The text is no JSON value; the words say why.
    Syntax(String),
    /// The message, or an entry of the roster, is no JSON object.
    NotObject,
    /// A member that the message needs is not there.
    Missing(FieldName),
    /// A member is there but holds a value of the wrong kind: no text, no
    /// truth value, no list, or no integer that a level can be.
    Mistyped(FieldName),
}

/// What a `DecodeError` stands for.
pub enum DecodeFault {
    Syntax(Seq<char>),
    NotObject,
    Missing(FieldName),
    Mistyped(FieldName),
}

impl View for DecodeError {
    type V = DecodeFault;

    open spec fn view(&self) -> DecodeFault {
        match self {
            DecodeError::Syntax(why) => DecodeFault::Syntax(why@),
            DecodeError::NotObject => DecodeFault::NotObject,
            DecodeError::Missing(field) => DecodeFault::Missing(*field),
            DecodeError::Mistyped(field) => DecodeFault::Mistyped(*field),
        }
    }
}

/// The text that the member `field` holds.
pub open spec fn text_of(members: Seq<(Seq<char>, JsonValue)>, field: FieldName) -> Result<
    Seq<char>,
    DecodeFault,
> {
    match member(members, field.key()) {
        Some(JsonValue::Text(text)) => Ok(text),
        Some(_) => Err(DecodeFault::Mistyped(field)),
        None => Err(DecodeFault::Missing(field)),
    }
}

/// The truth value that the member `field` holds.
pub open spec fn flag_of(members: Seq<(Seq<char>, JsonValue)>, field: FieldName) -> Result<
    bool,
    DecodeFault,
> {
    match member(members, field.key()) {
        Some(JsonValue::Bool(flag)) => Ok(flag),
        Some(_) => Err(DecodeFault::Mistyped(field)),
        None => Err(DecodeFault::Missing(field)),
    }
}

/// The level that the member `level` holds: an integer that fits 32 bits.
pub open spec fn level_of(members: Seq<(Seq<char>, JsonValue)>) -> Result<int, DecodeFault> {
    match member(members, FieldName::Level.key()) {
        Some(JsonValue::Number(Some(n))) => if i32::MIN <= n <= i32::MAX {
            Ok(n)
        } else {
            Err(DecodeFault::Mistyped(FieldName::Level))
        },
        Some(_) => Err(DecodeFault::Mistyped(FieldName::Level)),
        None => Err(DecodeFault::Missing(FieldName::Level)),
    }
}

/// The chat line that the members of a `chat` message hold.
pub open spec fn chat_of(members: Seq<(Seq<char>, JsonValue)>) -> Result<Line, DecodeFault> {
    match text_of(members, FieldName::Nick) {
        Ok(sender) => match text_of(members, FieldName::Text) {
            Ok(message) => Ok(Line { sender, message }),
            Err(fault) => Err(fault),
        },
        Err(fault) => Err(fault),
    }
}

/// The whisper that the members of a `whisper` notice hold: the message is
/// the payload of the wire text.
pub open spec fn whisper_of(members: Seq<(Seq<char>, JsonValue)>) -> Result<Line, DecodeFault> {
    match text_of(members, FieldName::From) {
        Ok(sender) => match text_of(members, FieldName::Text) {
            Ok(text) => Ok(Line { sender, message: payload_of(text) }),
            Err(fault) => Err(fault),
        },
        Err(fault) => Err(fault),
    }
}

/// The notice that the members of an `info` message hold.
pub open spec fn info_of(members: Seq<(Seq<char>, JsonValue)>) -> Result<InfoView, DecodeFault> {
    match text_of(members, FieldName::Type) {
        Ok(kind) => if kind == "whisper"@ {
            match whisper_of(members) {
                Ok(line) => Ok(InfoView::Whisper(line)),
                Err(fault) => Err(fault),
            }
        } else {
            Ok(InfoView::Unknown)
        },
        Err(fault) => Err(fault),
    }
}

/// The roster entry that a value holds.
pub open spec fn entry_of(value: JsonValue) -> Result<Entry, DecodeFault> {
    match value {
        JsonValue::Object(members) => match text_of(members, FieldName::Nick) {
            Ok(name) => match flag_of(members, FieldName::IsMe) {
                Ok(is_me) => match text_of(members, FieldName::Trip) {
                    Ok(trip) => match level_of(members) {
                        Ok(level) => Ok(Entry { name, is_me, trip, level }),
                        Err(fault) => Err(fault),
                    },
                    Err(fault) => Err(fault),
                },
                Err(fault) => Err(fault),
            },
            Err(fault) => Err(fault),
        },
        _ => Err(DecodeFault::NotObject),
    }
}

/// The roster entries that a list of values holds, or the fault of the first
/// value that holds none.
pub open spec fn entries_of(items: Seq<JsonValue>) -> Result<Seq<Entry>, DecodeFault>
    decreases items.len(),
{
    if items.len() == 0 {
        Ok(Seq::empty())
    } else {
        match entries_of(items.drop_last()) {
            Ok(front) => match entry_of(items.last()) {
                Ok(entry) => Ok(front.push(entry)),
                Err(fault) => Err(fault),
            },
            Err(fault) => Err(fault),
        }
    }
}

/// The roster that the members of an `onlineSet` message hold.
pub open spec fn roster_of(members: Seq<(Seq<char>, JsonValue)>) -> Result<
    Seq<Entry>,
    DecodeFault,
> {
    match member(members, FieldName::Users.key()) {
        Some(JsonValue::List(items)) => entries_of(items),
        Some(_) => Err(DecodeFault::Mistyped(FieldName::Users)),
        None => Err(DecodeFault::Missing(FieldName::Users)),
    }
}

/// The joiner that the members of an `onlineAdd` message hold.
pub open spec fn arrival_of(members: Seq<(Seq<char>, JsonValue)>) -> Result<Arrival, DecodeFault> {
    match text_of(members, FieldName::Nick) {
        Ok(name) => match text_of(members, FieldName::Trip) {
            Ok(trip) => match level_of(members) {
                Ok(level) => Ok(Arrival { name, trip, level }),
                Err(fault) => Err(fault),
            },
            Err(fault) => Err(fault),
        },
        Err(fault) => Err(fault),
    }
}

/// The message that a JSON value holds. The member `cmd` is the tag; a tag
/// that this client does not know gives `Unknown`, whatever else the object
/// holds.
pub open spec fn message_of(value: JsonValue) -> Result<MessageView, DecodeFault> {
    match value {
        JsonValue::Object(members) => match text_of(members, FieldName::Cmd) {
            Ok(tag) => if tag == "chat"@ {
                match chat_of(members) {
                    Ok(line) => Ok(MessageView::Chat(line)),
                    Err(fault) => Err(fault),
                }
            } else if tag == "info"@ {
                match info_of(members) {
                    Ok(info) => Ok(MessageView::Info(info)),
                    Err(fault) => Err(fault),
                }
            } else if tag == "onlineSet"@ {
                match roster_of(members) {
                    Ok(roster) => Ok(MessageView::OnlineSet(roster)),
                    Err(fault) => Err(fault),
                }
            } else if tag == "onlineAdd"@ {
                match arrival_of(members) {
                    Ok(arrival) => Ok(MessageView::OnlineAdd(arrival)),
                    Err(fault) => Err(fault),
                }
            } else if tag == "onlineRemove"@ {
                match text_of(members, FieldName::Nick) {
                    Ok(name) => Ok(MessageView::OnlineRemove(name)),
                    Err(fault) => Err(fault),
                }
            } else {
                Ok(MessageView::Unknown)
            },
            Err(fault) => Err(fault),
        },
        _ => Err(DecodeFault::NotObject),
    }
}

/// Whether this client knows a tag.
pub open spec fn is_known_tag(tag: Seq<char>) -> bool {
    tag == "chat"@ || tag == "info"@ || tag == "onlineSet"@ || tag == "onlineAdd"@ || tag
        == "onlineRemove"@
}

/// An object whose tag this client does not know is the message `Unknown`,
/// whatever else it holds: a tag of a later protocol is no error.
pub proof fn lemma_unknown_tag_is_no_error(members: Seq<(Seq<char>, JsonValue)>, tag: Seq<char>)
    requires
        member(members, FieldName::Cmd.key()) == Some(JsonValue::Text(tag)),
        !is_known_tag(tag),
    ensures
        message_of(JsonValue::Object(members)) == Ok::<MessageView, DecodeFault>(
            MessageView::Unknown,
        ),
{
}

/// The message that a wire text holds.
pub open spec fn message_of_text(text: Seq<char>) -> Result<MessageView, DecodeFault> {
    match json_of_text(text) {
        Ok(value) => message_of(value),
        Err(why) => Err(DecodeFault::Syntax(why)),
    }
}

/// Whether `decoded` is what `meant` says.
pub open spec fn decoded_is(
    decoded: Result<Message, DecodeError>,
    meant: Result<MessageView, DecodeFault>,
) -> bool {
    match decoded {
        Ok(message) => meant == Ok::<MessageView, DecodeFault>(message@),
        Err(error) => meant == Err::<MessageView, DecodeFault>(error@),
    }
}

/// The text that the member `field` holds.
fn text_field(members: &Vec<(String, Json)>, field: FieldName) -> (text: Result<
    String,
    DecodeError,
>)
    ensures
        match text {
            Ok(t) => text_of(member_values(members@), field) == Ok::<Seq<char>, DecodeFault>(t@),
            Err(e) => text_of(member_values(members@), field) == Err::<Seq<char>, DecodeFault>(
                e@,
            ),
        },
{
    match find_member(members, field.name()) {
        Some(Json::Text(text)) => Ok(text.clone()),
        Some(_) => Err(DecodeError::Mistyped(field)),
        None => Err(DecodeError::Missing(field)),
    }
}

/// The truth value that the member `field` holds.
fn flag_field(members: &Vec<(String, Json)>, field: FieldName) -> (flag: Result<bool, DecodeError>)
    ensures
        match flag {
            Ok(f) => flag_of(member_values(members@), field) == Ok::<bool, DecodeFault>(f),
            Err(e) => flag_of(member_values(members@), field) == Err::<bool, DecodeFault>(e@),
        },
{
    match find_member(members, field.name()) {
        Some(Json::Bool(flag)) => Ok(*flag),
        Some(_) => Err(DecodeError::Mistyped(field)),
        None => Err(DecodeError::Missing(field)),
    }
}

/// The level that the member `level` holds.
fn level_field(members: &Vec<(String, Json)>) -> (level: Result<i32, DecodeError>)
    ensures
        match level {
            Ok(n) => level_of(member_values(members@)) == Ok::<int, DecodeFault>(n as int),
            Err(e) => level_of(member_values(members@)) == Err::<int, DecodeFault>(e@),
        },
{
    match find_member(members, FieldName::Level.name()) {
        Some(Json::Number(Some(n))) => {
            if -2147483648 <= *n && *n <= 2147483647 {
                Ok(*n as i32)
            } else {
                Err(DecodeError::Mistyped(FieldName::Level))
            }
        },
        Some(_) => Err(DecodeError::Mistyped(FieldName::Level)),
        None => Err(DecodeError::Missing(FieldName::Level)),
    }
}

impl MsgChat {
    /// Reads a chat line from the members of a `chat` message.
    pub fn from_members(members: &Vec<(String, Json)>) -> (chat: Result<MsgChat, DecodeError>)
        ensures
            match chat {
                Ok(c) => chat_of(member_values(members@)) == Ok::<Line, DecodeFault>(c@),
                Err(e) => chat_of(member_values(members@)) == Err::<Line, DecodeFault>(e@),
            },
    {
        let sender = match text_field(members, FieldName::Nick) {
            Ok(sender) => sender,
            Err(error) => {
                return Err(error);
            },
        };
        let message = match text_field(members, FieldName::Text) {
            Ok(message) => message,
            Err(error) => {
                return Err(error);
            },
        };
        Ok(MsgChat { sender, message })
    }
}

impl MsgWhisper {
    /// Reads a whisper from the members of a `whisper` notice.
    pub fn from_members(members: &Vec<(String, Json)>) -> (whisper: Result<
        MsgWhisper,
        DecodeError,
    >)
        ensures
            match whisper {
                Ok(w) => whisper_of(member_values(members@)) == Ok::<Line, DecodeFault>(w@),
                Err(e) => whisper_of(member_values(members@)) == Err::<Line, DecodeFault>(e@),
            },
    {
        let sender = match text_field(members, FieldName::From) {
            Ok(sender) => sender,
            Err(error) => {
                return Err(error);
            },
        };
        let text = match text_field(members, FieldName::Text) {
            Ok(text) => text,
            Err(error) => {
                return Err(error);
            },
        };
        Ok(MsgWhisper { sender, message: whisper_payload(text.as_str()) })
    }
}

impl Info {
    /// Reads a notice from the members of an `info` message.
    pub fn from_members(members: &Vec<(String, Json)>) -> (info: Result<Info, DecodeError>)
        ensures
            match info {
                Ok(i) => info_of(member_values(members@)) == Ok::<InfoView, DecodeFault>(i@),
                Err(e) => info_of(member_values(members@)) == Err::<InfoView, DecodeFault>(e@),
            },
    {
        let kind = match text_field(members, FieldName::Type) {
            Ok(kind) => kind,
            Err(error) => {
                return Err(error);
            },
        };
        if kind == "whisper".to_owned() {
            match MsgWhisper::from_members(members) {
                Ok(whisper) => Ok(Info::Whisper(whisper)),
                Err(error) => Err(error),
            }
        } else {
            Ok(Info::Unknown)
        }
    }
}

impl MsgOnlineSetUser {
    /// Reads a roster entry from a JSON value.
    pub fn from_json(json: &Json) -> (entry: Result<MsgOnlineSetUser, DecodeError>)
        ensures
            match entry {
                Ok(u) => entry_of(json@) == Ok::<Entry, DecodeFault>(u@),
                Err(e) => entry_of(json@) == Err::<Entry, DecodeFault>(e@),
            },
    {
        match json {
            Json::Object(members) => {
                proof {
                    lemma_object_view(*members);
                }
                let username = match text_field(members, FieldName::Nick) {
                    Ok(username) => username,
                    Err(error) => {
                        return Err(error);
                    },
                };
                let is_me = match flag_field(members, FieldName::IsMe) {
                    Ok(is_me) => is_me,
                    Err(error) => {
                        return Err(error);
                    },
                };
                let trip = match text_field(members, FieldName::Trip) {
                    Ok(trip) => trip,
                    Err(error) => {
                        return Err(error);
                    },
                };
                let level = match level_field(members) {
                    Ok(level) => level,
                    Err(error) => {
                        return Err(error);
                    },
                };
                Ok(MsgOnlineSetUser { username, is_me, trip, level })
            },
            _ => Err(DecodeError::NotObject),
        }
    }
}

impl MsgOnlineSet {
    /// Reads the full roster from the members of an `onlineSet` message.
    pub fn from_members(members: &Vec<(String, Json)>) -> (set: Result<MsgOnlineSet, DecodeError>)
        ensures
            match set {
                Ok(s) => roster_of(member_values(members@)) == Ok::<Seq<Entry>, DecodeFault>(s@),
                Err(e) => roster_of(member_values(members@)) == Err::<Seq<Entry>, DecodeFault>(
                    e@,
                ),
            },
    {
        match find_member(members, FieldName::Users.name()) {
            Some(Json::List(items)) => {
                proof {
                    lemma_list_view(*items);
                }
                let ghost values = item_values(items@);
                let mut users: Vec<MsgOnlineSetUser> = Vec::new();
                let mut i: usize = 0;
                proof {
                    assert(values.take(0) =~= Seq::<JsonValue>::empty());
                    assert(entries(users@) =~= Seq::<Entry>::empty());
                }
                while i < items.len()
                    invariant
                        i <= items@.len(),
                        values == item_values(items@),
                        roster_of(member_values(members@)) == entries_of(values),
                        entries_of(values.take(i as int)) == Ok::<Seq<Entry>, DecodeFault>(
                            entries(users@),
                        ),
                    decreases items@.len() - i,
                {
                    proof {
                        assert(values.take(i + 1).drop_last() =~= values.take(i as int));
                        assert(values.take(i + 1).last() == items@[i as int]@);
                    }
                    match MsgOnlineSetUser::from_json(&items[i]) {
                        Ok(user) => {
                            let ghost before = entries(users@);
                            users.push(user);
                            proof {
                                assert(entries(users@) =~= before.push(user@));
                            }
                        },
                        Err(error) => {
                            proof {
                                lemma_entries_fault(values, i + 1);
                            }
                            return Err(error);
                        },
                    }
                    i += 1;
                }
                proof {
                    assert(values.take(i as int) =~= values);
                }
                Ok(MsgOnlineSet { users })
            },
            Some(_) => Err(DecodeError::Mistyped(FieldName::Users)),
            None => Err(DecodeError::Missing(FieldName::Users)),
        }
    }
}

/// The fault of a front part of a list is the fault of the list.
proof fn lemma_entries_fault(items: Seq<JsonValue>, n: int)
    requires
        0 <= n <= items.len(),
        entries_of(items.take(n)) is Err,
    ensures
        entries_of(items) == entries_of(items.take(n)),
    decreases items.len() - n,
{
    if n < items.len() {
        assert(items.take(n + 1).drop_last() =~= items.take(n));
        lemma_entries_fault(items, n + 1);
    } else {
        assert(items.take(n) =~= items);
    }
}

impl MsgOnlineAdd {
    /// Reads a joiner from the members of an `onlineAdd` message.
    pub fn from_members(members: &Vec<(String, Json)>) -> (add: Result<MsgOnlineAdd, DecodeError>)
        ensures
            match add {
                Ok(a) => arrival_of(member_values(members@)) == Ok::<Arrival, DecodeFault>(a@),
                Err(e) => arrival_of(member_values(members@)) == Err::<Arrival, DecodeFault>(e@),
            },
    {
        let username = match text_field(members, FieldName::Nick) {
            Ok(username) => username,
            Err(error) => {
                return Err(error);
            },
        };
        let trip = match text_field(members, FieldName::Trip) {
            Ok(trip) => trip,
            Err(error) => {
                return Err(error);
            },
        };
        let level = match level_field(members) {
            Ok(level) => level,
            Err(error) => {
                return Err(error);
            },
        };
        Ok(MsgOnlineAdd { username, trip, level })
    }
}

impl Message {
    /// Reads a message from a JSON value.
    pub fn from_json(json: &Json) -> (decoded: Result<Message, DecodeError>)
        ensures
            decoded_is(decoded, message_of(json@)),
    {
        match json {
            Json::Object(members) => {
                proof {
                    lemma_object_view(*members);
                }
                let tag = match text_field(members, FieldName::Cmd) {
                    Ok(tag) => tag,
                    Err(error) => {
                        return Err(error);
                    },
                };
                if tag == "chat".to_owned() {
                    match MsgChat::from_members(members) {
                        Ok(chat) => Ok(Message::Chat(chat)),
                        Err(error) => Err(error),
                    }
                } else if tag == "info".to_owned() {
                    match Info::from_members(members) {
                        Ok(info) => Ok(Message::Info(info)),
                        Err(error) => Err(error),
                    }
                } else if tag == "onlineSet".to_owned() {
                    match MsgOnlineSet::from_members(members) {
                        Ok(set) => Ok(Message::OnlineSet(set)),
                        Err(error) => Err(error),
                    }
                } else if tag == "onlineAdd".to_owned() {
                    match MsgOnlineAdd::from_members(members) {
                        Ok(add) => Ok(Message::OnlineAdd(add)),
                        Err(error) => Err(error),
                    }
                } else if tag == "onlineRemove".to_owned() {
                    match text_field(members, FieldName::Nick) {
                        Ok(username) => Ok(Message::OnlineRemove(MsgOnlineRemove { username })),
                        Err(error) => Err(error),
                    }
                } else {
                    Ok(Message::Unknown)
                }
            },
            _ => Err(DecodeError::NotObject),
        }
    }
}

/// The members that the entries of a full roster announce.
pub open spec fn members_of_entries(entries: Seq<Entry>) -> Seq<Member> {
    Seq::new(entries.len(), |i: int| Member { name: entries[i].name, level: entries[i].level })
}

/// The change to the roster that a message announces, if it announces one.
pub open spec fn roster_change(message: MessageView) -> Option<RosterChange> {
    match message {
        MessageView::OnlineSet(entries) => Some(
            RosterChange::Replace(members_of_entries(entries)),
        ),
        MessageView::OnlineAdd(arrival) => Some(
            RosterChange::Join(Member { name: arrival.name, level: arrival.level }),
        ),
        MessageView::OnlineRemove(name) => Some(RosterChange::Leave(name)),
        _ => None,
    }
}

impl Message {
    /// The change to the roster that the message announces, if it announces
    /// one.
    pub fn roster_event(&self) -> (event: Option<RosterEvent>)
        ensures
            match event {
                Some(e) => roster_change(self@) == Some(e@),
                None => roster_change(self@) is None,
            },
    {
        match self {
            Message::OnlineSet(set) => {
                let mut users: Vec<User> = Vec::new();
                let mut i: usize = 0;
                while i < set.users.len()
                    invariant
                        i <= set.users@.len(),
                        users@.len() == i,
                        forall|j: int|
                            0 <= j < i ==> (#[trigger] users@[j])@ == (Member {
                                name: set.users@[j]@.name,
                                level: set.users@[j]@.level,
                            }),
                    decreases set.users@.len() - i,
                {
                    users.push(User::from(&set.users[i]));
                    i += 1;
                }
                proof {
                    assert(crate::roster::members(users@) =~= members_of_entries(set@));
                }
                Some(RosterEvent::Replace(users))
            },
            Message::OnlineAdd(add) => Some(RosterEvent::Join(User::from(add))),
            Message::OnlineRemove(remove) => Some(RosterEvent::Leave(remove.username.clone())),
            _ => None,
        }
    }
}

/// Wire text that may hold a message.
pub trait Parseable {
    /// The message that the text holds.
    spec fn message(&self) -> Result<MessageView, DecodeFault>;

    /// Decodes the text.
    fn parse(&self) -> (decoded: Result<Message, DecodeError>)
        ensures
            decoded_is(decoded, self.message()),
    ;
}

impl Parseable for String {
    open spec fn message(&self) -> Result<MessageView, DecodeFault> {
        message_of_text(self@)
    }

    fn parse(&self) -> (decoded: Result<Message, DecodeError>) {
        match read_json(self.as_str()) {
            Ok(json) => Message::from_json(&json),
            Err(why) => Err(DecodeError::Syntax(why)),
        }
    }
}

} // verus!
