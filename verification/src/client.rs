//! The session: what the client knows of its connection and of the channel,
//! and what it decides when something happens on the connection.

use vstd::prelude::*;
use vstd::std_specs::convert::FromSpecImpl;

use crate::cmd::{command_of_line, Command, CommandView, ParseableCommand};
use crate::config::Args;
use crate::event::{
    action_views, event_views, Action, ActionView, Event, EventView, Notice, NoticeView, Purpose,
};
use crate::msg_parser::{
    message_of_text, roster_change, Info, InfoView, Message, MessageView, Parseable,
};
use crate::outbound::{frame_of, Outbound, OutboundView};
use crate::registry::Registry;
use crate::roster::{
    lemma_sort_desc_permutes, lemma_sorted_names_ignore_order, lookup, names, roster_step,
    sort_desc, NameMatch,
};
use crate::text::{after_sentinel, join, joined, strip_sentinel};
use crate::user::{Member, User};

verus! {

/// What the client needs to know to connect and to enter its channel.
#[derive(Debug, PartialEq, Eq)]
pub struct ClientConfig {
    server: String,
    channel: String,
    username: String,
    password: String,
}

/// What a `ClientConfig` stands for.
pub struct Settings {
    pub server: Seq<char>,
    pub channel: Seq<char>,
    pub username: Seq<char>,
    pub password: Seq<char>,
}

impl View for ClientConfig {
    type V = Settings;

    closed spec fn view(&self) -> Settings {
        Settings {
            server: self.server@,
            channel: self.channel@,
            username: self.username@,
            password: self.password@,
        }
    }
}

impl From<Args> for ClientConfig {
    fn from(value: Args) -> (config: ClientConfig)
        ensures
            config@ == (Settings {
                server: value.server@,
                channel: value.channel@,
                username: value.username@,
                password: value.password@,
            }),
    {
        ClientConfig {
            server: value.server,
            channel: value.channel,
            username: value.username,
            password: value.password,
        }
    }
}

impl FromSpecImpl<Args> for ClientConfig {
    open spec fn obeys_from_spec() -> bool {
        true
    }

    closed spec fn from_spec(value: Args) -> ClientConfig {
        ClientConfig {
            server: value.server,
            channel: value.channel,
            username: value.username,
            password: value.password,
        }
    }
}

impl ClientConfig {
    /// The address of the server.
    pub fn server(&self) -> (server: &str)
        ensures
            server@ == self@.server,
    {
        self.server.as_str()
    }
}

/// Where a session stands in its life.
#[derive(Clone, Copy, Debug, PartialEq, Eq, Structural)]
pub enum Phase {
    /// Made, with no connection yet.
    Created,
    /// The connection stands; the channel is not entered yet.
    Connected,
    /// The command to enter the channel has been handed out.
    Joined,
    /// Over: the connection ended, a fatal write failed, or the session was
    /// cancelled.
    Closed,
}

/// One session with one channel.
pub struct Client {
    config: ClientConfig,
    userlist: Registry,
    phase: Phase,
    name_match: NameMatch,
}

/// What a `Client` stands for.
pub struct Session {
    pub settings: Settings,
    pub roster: Seq<Member>,
    pub phase: Phase,
    pub name_match: NameMatch,
}

impl View for Client {
    type V = Session;

    closed spec fn view(&self) -> Session {
        Session {
            settings: self.config@,
            roster: self.userlist@,
            phase: self.phase,
            name_match: self.name_match,
        }
    }
}

/// The one reply to the command `users`: the names, latest first, behind
/// `Users: `; no reply where the roster is empty.
pub open spec fn users_replies(roster: Seq<Member>) -> Seq<Seq<char>> {
    if roster.len() == 0 {
        Seq::empty()
    } else {
        seq!["Users: "@ + joined(names(sort_desc(roster)), ", "@)]
    }
}

/// The reply to the command `kick`: the stored name of the member that the
/// target matches, or the target as it was typed where it matches nobody.
pub open spec fn kick_reply(roster: Seq<Member>, target: Seq<char>, policy: NameMatch) -> Seq<
    char,
> {
    match lookup(roster, target, policy) {
        Some(member) => "Would kick "@ + member.name,
        None => "User not in userlist: "@ + target,
    }
}

/// The chat replies to a command.
pub open spec fn command_replies(
    roster: Seq<Member>,
    policy: NameMatch,
    command: CommandView,
) -> Seq<Seq<char>> {
    match command {
        CommandView::Users => users_replies(roster),
        CommandView::Kick { target } => seq![kick_reply(roster, target, policy)],
    }
}

/// The command that a line of chat holds: what follows the sentinel, read
/// as a command.
pub open spec fn command_in(text: Seq<char>) -> Option<CommandView> {
    match after_sentinel(text) {
        Some(rest) => command_of_line(rest),
        None => None,
    }
}

/// The chat replies to a line of chat.
pub open spec fn line_replies(roster: Seq<Member>, policy: NameMatch, text: Seq<char>) -> Seq<
    Seq<char>,
> {
    match command_in(text) {
        Some(command) => command_replies(roster, policy, command),
        None => Seq::empty(),
    }
}

/// The chat replies to a message: those to the command that a chat line or
/// a whisper holds, and none to anything else.
pub open spec fn message_replies(
    roster: Seq<Member>,
    policy: NameMatch,
    message: MessageView,
) -> Seq<Seq<char>> {
    match message {
        MessageView::Chat(line) => line_replies(roster, policy, line.message),
        MessageView::Info(InfoView::Whisper(line)) => line_replies(roster, policy, line.message),
        _ => Seq::empty(),
    }
}

/// The roster after a message.
pub open spec fn roster_after(roster: Seq<Member>, message: MessageView) -> Seq<Member> {
    match roster_change(message) {
        Some(change) => roster_step(roster, change),
        None => roster,
    }
}

/// What a message gives to tell: a chat line or a whisper is told, and
/// nothing else is.
pub open spec fn notices_of(message: MessageView) -> Seq<ActionView> {
    match message {
        MessageView::Chat(line) => seq![
            ActionView::Report(NoticeView::Chat { sender: line.sender, message: line.message }),
        ],
        MessageView::Info(InfoView::Whisper(line)) => seq![
            ActionView::Report(
                NoticeView::Whisper { sender: line.sender, message: line.message },
            ),
        ],
        _ => Seq::empty(),
    }
}

/// The action that says a text in the channel: one chat frame whose
/// failure is dropped.
pub open spec fn chat_action(text: Seq<char>) -> ActionView {
    ActionView::Send { frame: frame_of(OutboundView::Chat { text }), purpose: Purpose::Reply }
}

/// The actions that say the replies, in their order.
pub open spec fn sends_of(replies: Seq<Seq<char>>) -> Seq<ActionView> {
    Seq::new(replies.len(), |i: int| chat_action(replies[i]))
}

/// What a text frame does to a session that has entered its channel. An
/// empty frame is passed over. A text that holds no message is told and
/// changes nothing, and so is a message with an unknown tag. Any other
/// message changes the roster as it says, is told where it is a line, and
/// gets its replies.
pub open spec fn text_outcome(session: Session, text: Seq<char>) -> (Session, Seq<ActionView>) {
    if text.len() == 0 {
        (session, Seq::empty())
    } else {
        match message_of_text(text) {
            Err(fault) => (
                session,
                seq![ActionView::Report(NoticeView::Undecodable { fault, text })],
            ),
            Ok(MessageView::Unknown) => (
                session,
                seq![ActionView::Report(NoticeView::UnknownTag { text })],
            ),
            Ok(message) => (
                Session { roster: roster_after(session.roster, message), ..session },
                notices_of(message) + sends_of(
                    message_replies(session.roster, session.name_match, message),
                ),
            ),
        }
    }
}

/// Whether an event ends a session that is not over yet: the connection
/// could not be made, nothing more can be read, the session was cancelled,
/// or the write of the join or of a keepalive failed.
pub open spec fn is_fatal(event: EventView) -> bool {
    match event {
        EventView::ConnectFailed => true,
        EventView::ReadEnded => true,
        EventView::Cancelled => true,
        EventView::SendFailed(purpose) => purpose != Purpose::Reply,
        _ => false,
    }
}

/// The session after an event, and what it asks for. A session that is over
/// ignores every event. A fatal event ends the session with the one action
/// `Stop`. The connection, once made, is noted. A session that has entered
/// its channel answers the keepalive timer with a ping whose failure is
/// fatal, and takes text frames in; every other event leaves it as it is.
pub open spec fn step_of(session: Session, event: EventView) -> (Session, Seq<ActionView>) {
    if session.phase == Phase::Closed {
        (session, Seq::empty())
    } else if is_fatal(event) {
        (Session { phase: Phase::Closed, ..session }, seq![ActionView::Stop])
    } else {
        match event {
            EventView::Connected => if session.phase == Phase::Created {
                (Session { phase: Phase::Connected, ..session }, Seq::empty())
            } else {
                (session, Seq::empty())
            },
            EventView::Tick => if session.phase == Phase::Joined {
                (
                    session,
                    seq![
                        ActionView::Send {
                            frame: frame_of(OutboundView::Ping),
                            purpose: Purpose::Keepalive,
                        },
                    ],
                )
            } else {
                (session, Seq::empty())
            },
            EventView::Text(text) => if session.phase == Phase::Joined {
                text_outcome(session, text)
            } else {
                (session, Seq::empty())
            },
            _ => (session, Seq::empty()),
        }
    }
}

/// The session after the events, taken in their order, and all that it
/// asks for on the way.
pub open spec fn run_of(session: Session, events: Seq<EventView>) -> (Session, Seq<ActionView>)
    decreases events.len(),
{
    if events.len() == 0 {
        (session, Seq::empty())
    } else {
        let before = run_of(session, events.drop_last());
        let last = step_of(before.0, events.last());
        (last.0, before.1 + last.1)
    }
}

/// The frame that enters the channel of a session.
pub open spec fn join_frame(settings: Settings) -> Seq<char> {
    frame_of(
        OutboundView::Join {
            channel: settings.channel,
            nick: settings.username,
            password: settings.password,
        },
    )
}

impl Client {
    /// A session that has no connection yet, knows nobody and matches names
    /// without regard to case.
    pub fn new(config: &ClientConfig) -> (client: Client)
        ensures
            client@ == (Session {
                settings: config@,
                roster: Seq::empty(),
                phase: Phase::Created,
                name_match: NameMatch::IgnoreCase,
            }),
    {
        Client {
            config: ClientConfig {
                server: config.server.clone(),
                channel: config.channel.clone(),
                username: config.username.clone(),
                password: config.password.clone(),
            },
            userlist: Registry::new(),
            phase: Phase::Created,
            name_match: NameMatch::IgnoreCase,
        }
    }

    /// The same session with another way to match names.
    pub fn with_name_match(self, policy: NameMatch) -> (client: Client)
        ensures
            client@ == (Session { name_match: policy, ..self@ }),
    {
        Client {
            config: self.config,
            userlist: self.userlist,
            phase: self.phase,
            name_match: policy,
        }
    }

    /// Where the session stands in its life.
    pub fn phase(&self) -> (phase: Phase)
        ensures
            phase == self@.phase,
    {
        self.phase
    }

    /// The users that the session knows, in the order of the roster.
    pub fn users(&self) -> (users: Vec<User>)
        ensures
            crate::roster::members(users@) == self@.roster,
    {
        self.userlist.snapshot()
    }

    /// The action that writes `data` as one text frame; a failure of the
    /// write is dropped.
    pub fn json(&self, data: String) -> (action: Action)
        ensures
            action@ == (ActionView::Send { frame: data@, purpose: Purpose::Reply }),
    {
        Action::Send { frame: data, purpose: Purpose::Reply }
    }

    /// The action that says `text` in the channel; a failure of the write
    /// is dropped.
    pub fn chat(&self, text: String) -> (action: Action)
        ensures
            action@ == chat_action(text@),
    {
        self.json(Outbound::Chat { text }.encode())
    }

    /// The first user whose name matches `username`.
    pub fn get_user(&self, username: &str) -> (found: Option<User>)
        ensures
            match found {
                Some(user) => lookup(self@.roster, username@, self@.name_match) == Some(user@),
                None => lookup(self@.roster, username@, self@.name_match) is None,
            },
    {
        self.userlist.find(username, self.name_match)
    }

    /// The chat replies to a command. No command so far consults the message
    /// that carried it.
    pub fn handle_cmd(&self, msg: &Message, cmd: &Command) -> (replies: Vec<String>)
        ensures
            replies.deep_view() == command_replies(self@.roster, self@.name_match, cmd@),
    {
        let mut replies: Vec<String> = Vec::new();
        match cmd {
            Command::Users => {
                let sorted = self.userlist.sorted_desc();
                proof {
                    lemma_sort_desc_permutes(self@.roster);
                }
                if sorted.len() > 0 {
                    let listed = usernames(&sorted);
                    let mut reply = "Users: ".to_owned();
                    reply.append(join(listed.as_slice(), ", ").as_str());
                    replies.push(reply);
                }
            },
            Command::Kick(kick) => {
                let reply = match self.get_user(kick.target.as_str()) {
                    Some(user) => {
                        let mut reply = "Would kick ".to_owned();
                        reply.append(user.username.as_str());
                        reply
                    },
                    None => {
                        let mut reply = "User not in userlist: ".to_owned();
                        reply.append(kick.target.as_str());
                        reply
                    },
                };
                replies.push(reply);
            },
        }
        proof {
            assert(replies.deep_view() =~= command_replies(
                self@.roster,
                self@.name_match,
                cmd@,
            ));
        }
        replies
    }

    /// The chat replies to a line of chat.
    fn answer(&self, msg: &Message, text: &str) -> (replies: Vec<String>)
        ensures
            replies.deep_view() == line_replies(self@.roster, self@.name_match, text@),
    {
        match strip_sentinel(text) {
            Some(rest) => match rest.parse_cmd() {
                Some(cmd) => self.handle_cmd(msg, &cmd),
                None => empty_replies(),
            },
            None => empty_replies(),
        }
    }

    /// Takes a message in: a roster message changes the roster, and a chat
    /// line or a whisper that holds a command gets its replies.
    pub fn handle(&mut self, msg: &Message) -> (replies: Vec<String>)
        ensures
            final(self)@ == (Session {
                roster: roster_after(old(self)@.roster, msg@),
                ..old(self)@
            }),
            replies.deep_view() == message_replies(
                old(self)@.roster,
                old(self)@.name_match,
                msg@,
            ),
    {
        match msg {
            Message::Chat(chat) => self.answer(msg, chat.message.as_str()),
            Message::Info(Info::Whisper(whisper)) => self.answer(msg, whisper.message.as_str()),
            _ => {
                match msg.roster_event() {
                    Some(event) => {
                        self.userlist.apply(&event);
                    },
                    None => {},
                }
                empty_replies()
            },
        }
    }

    /// The frame that enters the channel, handed out once: when the
    /// connection stands and the frame has not been handed out before. The
    /// session then counts as joined. At any other time there is no frame
    /// and nothing changes.
    pub fn join(&mut self) -> (frame: Option<String>)
        ensures
            old(self)@.phase == Phase::Connected ==> {
                &&& final(self)@ == (Session { phase: Phase::Joined, ..old(self)@ })
                &&& frame matches Some(f) && f@ == join_frame(old(self)@.settings)
            },
            old(self)@.phase != Phase::Connected ==> {
                &&& final(self)@ == old(self)@
                &&& frame is None
            },
    {
        match self.phase {
            Phase::Connected => {
                let command = Outbound::Join {
                    channel: self.config.channel.clone(),
                    nick: self.config.username.clone(),
                    password: self.config.password.clone(),
                };
                self.phase = Phase::Joined;
                Some(command.encode())
            },
            _ => None,
        }
    }

    /// Takes an event in and says what is to be done about it.
    pub fn step(&mut self, event: Event) -> (actions: Vec<Action>)
        ensures
            (final(self)@, action_views(actions@)) == step_of(old(self)@, event@),
    {
        let mut actions: Vec<Action> = Vec::new();
        proof {
            assert(action_views(actions@) =~= Seq::<ActionView>::empty());
        }
        if self.phase == Phase::Closed {
            return actions;
        }
        match event {
            Event::ConnectFailed | Event::ReadEnded | Event::Cancelled => {
                self.close(&mut actions);
            },
            Event::SendFailed(purpose) => {
                match purpose {
                    Purpose::Reply => {},
                    _ => {
                        self.close(&mut actions);
                    },
                }
            },
            Event::Connected => {
                if self.phase == Phase::Created {
                    self.phase = Phase::Connected;
                }
            },
            Event::Tick => {
                if self.phase == Phase::Joined {
                    actions.push(
                        Action::Send { frame: Outbound::Ping.encode(), purpose: Purpose::Keepalive },
                    );
                    proof {
                        assert(action_views(actions@) =~= step_of(old(self)@, event@).1);
                    }
                }
            },
            Event::Text(text) => {
                if self.phase == Phase::Joined {
                    return self.take_text(text);
                }
            },
            Event::NonText => {},
        }
        actions
    }

    /// Takes the events in, in their order, and says all that is to be
    /// done about them.
    pub fn run(&mut self, events: Vec<Event>) -> (actions: Vec<Action>)
        ensures
            (final(self)@, action_views(actions@)) == run_of(old(self)@, event_views(events@)),
    {
        let mut actions: Vec<Action> = Vec::new();
        let ghost all = event_views(events@);
        proof {
            assert(action_views(actions@) =~= Seq::<ActionView>::empty());
            assert(all.take(0) =~= Seq::<EventView>::empty());
        }
        for event in it: events
            invariant
                all == event_views(it.seq()),
                (self@, action_views(actions@)) == run_of(old(self)@, all.take(it.index())),
        {
            let ghost before = action_views(actions@);
            let ghost taken = all.take(it.index());
            let mut more = self.step(event);
            let ghost added = action_views(more@);
            actions.append(&mut more);
            proof {
                assert(action_views(actions@) =~= before + added);
                assert(all.take(it.index() + 1).drop_last() =~= taken);
            }
        }
        proof {
            assert(all.take(all.len() as int) =~= all);
        }
        actions
    }

    /// Ends the session.
    fn close(&mut self, actions: &mut Vec<Action>)
        requires
            old(actions)@.len() == 0,
        ensures
            final(self)@ == (Session { phase: Phase::Closed, ..old(self)@ }),
            action_views(final(actions)@) == seq![ActionView::Stop],
    {
        self.phase = Phase::Closed;
        actions.push(Action::Stop);
        proof {
            assert(action_views(actions@) =~= seq![ActionView::Stop]);
        }
    }

    /// Takes a text frame in.
    fn take_text(&mut self, text: String) -> (actions: Vec<Action>)
        ensures
            (final(self)@, action_views(actions@)) == text_outcome(old(self)@, text@),
    {
        let mut actions: Vec<Action> = Vec::new();
        proof {
            assert(action_views(actions@) =~= Seq::<ActionView>::empty());
        }
        if text.as_str().unicode_len() == 0 {
            return actions;
        }
        match text.parse() {
            Err(error) => {
                actions.push(Action::Report(Notice::Undecodable { error, text }));
                proof {
                    assert(action_views(actions@) =~= text_outcome(old(self)@, text@).1);
                }
            },
            Ok(Message::Unknown) => {
                actions.push(Action::Report(Notice::UnknownTag { text }));
                proof {
                    assert(action_views(actions@) =~= text_outcome(old(self)@, text@).1);
                }
            },
            Ok(message) => {
                match &message {
                    Message::Chat(chat) => {
                        actions.push(
                            Action::Report(
                                Notice::Chat {
                                    sender: chat.sender.clone(),
                                    message: chat.message.clone(),
                                },
                            ),
                        );
                    },
                    Message::Info(Info::Whisper(whisper)) => {
                        actions.push(
                            Action::Report(
                                Notice::Whisper {
                                    sender: whisper.sender.clone(),
                                    message: whisper.message.clone(),
                                },
                            ),
                        );
                    },
                    _ => {},
                }
                proof {
                    assert(action_views(actions@) =~= notices_of(message@));
                }
                let replies = self.handle(&message);
                let ghost sends = sends_of(replies.deep_view());
                let mut i: usize = 0;
                proof {
                    assert(notices_of(message@) + sends.take(0) =~= notices_of(message@));
                }
                while i < replies.len()
                    invariant
                        i <= replies@.len(),
                        sends == sends_of(replies.deep_view()),
                        action_views(actions@) == notices_of(message@) + sends.take(i as int),
                    decreases replies@.len() - i,
                {
                    let ghost before = action_views(actions@);
                    let say = self.chat(replies[i].clone());
                    actions.push(say);
                    proof {
                        assert(replies.deep_view()[i as int] == replies@[i as int]@);
                        assert(action_views(actions@) =~= before.push(sends[i as int]));
                        assert(sends.take(i + 1) =~= sends.take(i as int).push(sends[i as int]));
                        assert(action_views(actions@) =~= notices_of(message@) + sends.take(
                            i + 1,
                        ));
                    }
                    i += 1;
                }
                proof {
                    assert(sends.take(i as int) =~= sends);
                }
            },
        }
        actions
    }
}

/// The reply to the command `users` depends only on which names the roster
/// holds and how often: neither the order in which they came nor the levels
/// change it.
pub proof fn lemma_users_reply_ignores_order(one: Seq<Member>, other: Seq<Member>)
    requires
        names(one).to_multiset() == names(other).to_multiset(),
    ensures
        users_replies(one) == users_replies(other),
{
    names(one).to_multiset_ensures();
    names(other).to_multiset_ensures();
    lemma_sorted_names_ignore_order(one, other);
}

/// A session that is over ignores every event: it stays as it is and asks
/// for nothing.
pub proof fn lemma_closed_is_final(session: Session, event: EventView)
    requires
        session.phase == Phase::Closed,
    ensures
        step_of(session, event) == (session, Seq::<ActionView>::empty()),
{
}

/// Cancelling a session that is not over ends it at once: the one action is
/// `Stop`, whatever the session was doing, and no event after that is
/// answered with any action.
pub proof fn lemma_cancel_stops(session: Session, later: EventView)
    requires
        session.phase != Phase::Closed,
    ensures
        step_of(session, EventView::Cancelled).0 == (Session { phase: Phase::Closed, ..session }),
        step_of(session, EventView::Cancelled).1 == seq![ActionView::Stop],
        step_of(step_of(session, EventView::Cancelled).0, later).1 == Seq::<ActionView>::empty(),
{
}

/// A step asks to stop exactly when it ends the session, and then it asks
/// for nothing else.
pub proof fn lemma_stop_iff_ended(session: Session, event: EventView)
    ensures
        step_of(session, event).1.contains(ActionView::Stop) <==> (session.phase != Phase::Closed
            && step_of(session, event).0.phase == Phase::Closed),
        step_of(session, event).1.contains(ActionView::Stop) ==> step_of(session, event).1
            == seq![ActionView::Stop],
{
    let actions = step_of(session, event).1;
    if session.phase != Phase::Closed && is_fatal(event) {
        assert(actions[0] == ActionView::Stop);
    } else if actions.contains(ActionView::Stop) {
        let at = choose|i: int| 0 <= i < actions.len() && actions[i] == ActionView::Stop;
        assert(actions[at] is Stop);
        if session.phase == Phase::Joined && event is Text {
            let text = event->Text_0;
            if text.len() > 0 {
                match message_of_text(text) {
                    Ok(message) => {
                        if message != MessageView::Unknown {
                            let notices = notices_of(message);
                            let sends = sends_of(
                                message_replies(session.roster, session.name_match, message),
                            );
                            assert(actions == notices + sends);
                            if at < notices.len() {
                                assert(actions[at] == notices[at]);
                            } else {
                                assert(actions[at] == sends[at - notices.len()]);
                            }
                        }
                    },
                    Err(_) => {},
                }
            }
        }
    }
}

/// No step changes the settings of a session or its way to match names,
/// and only a text frame that reaches a session in its channel can change
/// the roster.
pub proof fn lemma_step_keeps_settings(session: Session, event: EventView)
    ensures
        step_of(session, event).0.settings == session.settings,
        step_of(session, event).0.name_match == session.name_match,
        !(event is Text && session.phase == Phase::Joined) ==> step_of(session, event).0.roster
            == session.roster,
{
}

/// A session that is over stays so under every list of events, and asks
/// for nothing.
pub proof fn lemma_run_closed(session: Session, events: Seq<EventView>)
    requires
        session.phase == Phase::Closed,
    ensures
        run_of(session, events) == (session, Seq::<ActionView>::empty()),
    decreases events.len(),
{
    if events.len() > 0 {
        lemma_run_closed(session, events.drop_last());
        assert(Seq::<ActionView>::empty() + Seq::<ActionView>::empty() =~= Seq::<
            ActionView,
        >::empty());
    }
}

/// Taking in one list of events and then another is taking in the two as
/// one list.
pub proof fn lemma_run_concat(session: Session, first: Seq<EventView>, second: Seq<EventView>)
    ensures
        run_of(session, first + second).0 == run_of(run_of(session, first).0, second).0,
        run_of(session, first + second).1 == run_of(session, first).1 + run_of(
            run_of(session, first).0,
            second,
        ).1,
    decreases second.len(),
{
    let mid = run_of(session, first);
    if second.len() == 0 {
        assert(first + second =~= first);
        assert(mid.1 + Seq::<ActionView>::empty() =~= mid.1);
    } else {
        let front = second.drop_last();
        lemma_run_concat(session, first, front);
        assert((first + second).drop_last() =~= first + front);
        assert((first + second).last() == second.last());
        let before = run_of(mid.0, front);
        let last = step_of(before.0, second.last());
        assert((mid.1 + before.1) + last.1 =~= mid.1 + (before.1 + last.1));
    }
}

/// Cancelling a session that is not over is answered with `Stop` and with
/// nothing after it, whatever happens later: no frame that arrives after
/// the cancellation is waited for or answered.
pub proof fn lemma_run_cancelled(
    session: Session,
    before: Seq<EventView>,
    after: Seq<EventView>,
)
    requires
        run_of(session, before).0.phase != Phase::Closed,
    ensures
        run_of(session, before.push(EventView::Cancelled) + after).1 == run_of(
            session,
            before,
        ).1.push(ActionView::Stop),
        run_of(session, before.push(EventView::Cancelled) + after).0.phase == Phase::Closed,
{
    let until = before.push(EventView::Cancelled);
    let then = run_of(session, before);
    assert(until.drop_last() =~= before);
    assert(run_of(session, until).1 =~= then.1.push(ActionView::Stop));
    lemma_run_concat(session, until, after);
    lemma_run_closed(run_of(session, until).0, after);
    assert(run_of(session, until).1 + Seq::<ActionView>::empty() =~= run_of(session, until).1);
}

/// A session in its channel answers the timer with one keepalive ping,
/// and a failed reply changes nothing and asks for nothing.
pub proof fn lemma_keepalive_and_replies(session: Session, event: EventView)
    ensures
        session.phase == Phase::Joined ==> step_of(session, EventView::Tick).1 == seq![
            ActionView::Send { frame: frame_of(OutboundView::Ping), purpose: Purpose::Keepalive },
        ],
        step_of(session, EventView::SendFailed(Purpose::Reply)) == (
            session,
            Seq::<ActionView>::empty(),
        ),
{
}

/// The place of a phase in the life of a session: made, connected, joined,
/// over.
pub open spec fn phase_rank(phase: Phase) -> int {
    match phase {
        Phase::Created => 0,
        Phase::Connected => 1,
        Phase::Joined => 2,
        Phase::Closed => 3,
    }
}

/// No step takes a session back to an earlier phase.
pub proof fn lemma_phase_never_goes_back(session: Session, event: EventView)
    ensures
        phase_rank(session.phase) <= phase_rank(step_of(session, event).0.phase),
{
}

/// No replies.
fn empty_replies() -> (replies: Vec<String>)
    ensures
        replies.deep_view() == Seq::<Seq<char>>::empty(),
{
    let replies: Vec<String> = Vec::new();
    proof {
        assert(replies.deep_view() =~= Seq::<Seq<char>>::empty());
    }
    replies
}

/// The names of the users, in their order.
fn usernames(users: &Vec<User>) -> (listed: Vec<String>)
    ensures
        listed.deep_view() == names(crate::roster::members(users@)),
{
    let mut listed: Vec<String> = Vec::new();
    let mut i: usize = 0;
    while i < users.len()
        invariant
            i <= users@.len(),
            listed@.len() == i,
            forall|j: int| 0 <= j < i ==> (#[trigger] listed@[j])@ == users@[j].username@,
        decreases users@.len() - i,
    {
        listed.push(users[i].username.clone());
        i += 1;
    }
    proof {
        assert(listed.deep_view() =~= names(crate::roster::members(users@)));
    }
    listed
}

} // verus!
