//! What happens on the connection, and what the session asks for in
//! return.

use vstd::prelude::*;

use crate::msg_parser::{DecodeError, DecodeFault};

verus! {

/// The seconds between two keepalive frames.
pub const KEEPALIVE_PERIOD_SECS: u64 = 60;

/// Why a frame is sent; it decides what a failed write means.
#[derive(Clone, Copy, Debug, PartialEq, Eq, Structural)]
pub enum Purpose {
    /// To enter the channel: a failure is fatal.
    Join,
    /// To keep the connection alive: a failure is fatal.
    Keepalive,
    /// To answer a command: a failure is dropped.
    Reply,
}

/// Something that happened on the connection.
#[derive(Debug, PartialEq, Eq)]
pub enum Event {
    /// The connection stands.
    Connected,
    /// The connection could not be made.
    ConnectFailed,
    /// A text frame arrived.
    Text(String),
    /// A frame arrived that is no text frame.
    NonText,
    /// No frame will arrive any more: the peer closed, or the transport
    /// failed.
    ReadEnded,
    /// The keepalive period has passed.
    Tick,
    /// A frame could not be written.
    SendFailed(Purpose),
    /// The session was asked to end.
    Cancelled,
}

/// What an `Event` stands for.
pub enum EventView {
    Connected,
    ConnectFailed,
    Text(Seq<char>),
    NonText,
    ReadEnded,
    Tick,
    SendFailed(Purpose),
    Cancelled,
}

impl View for Event {
    type V = EventView;

    open spec fn view(&self) -> EventView {
        match self {
            Event::Connected => EventView::Connected,
            Event::ConnectFailed => EventView::ConnectFailed,
            Event::Text(text) => EventView::Text(text@),
            Event::NonText => EventView::NonText,
            Event::ReadEnded => EventView::ReadEnded,
            Event::Tick => EventView::Tick,
            Event::SendFailed(purpose) => EventView::SendFailed(*purpose),
            Event::Cancelled => EventView::Cancelled,
        }
    }
}

/// What a list of events stands for.
pub open spec fn event_views(events: Seq<Event>) -> Seq<EventView> {
    Seq::new(events.len(), |i: int| events[i]@)
}

/// Something worth telling whoever watches the session.
#[derive(Debug, PartialEq, Eq)]
pub enum Notice {
    /// Somebody said a line in the channel.
    Chat { sender: String, message: String },
    /// Somebody whispered a line to this client.
    Whisper { sender: String, message: String },
    /// A text frame held no message of the protocol.
    Undecodable { error: DecodeError, text: String },
    /// A text frame held a message with a tag that this client does not
    /// know.
    UnknownTag { text: String },
}

/// What a `Notice` stands for.
pub enum NoticeView {
    Chat { sender: Seq<char>, message: Seq<char> },
    Whisper { sender: Seq<char>, message: Seq<char> },
    Undecodable { fault: DecodeFault, text: Seq<char> },
    UnknownTag { text: Seq<char> },
}

impl View for Notice {
    type V = NoticeView;

    open spec fn view(&self) -> NoticeView {
        match self {
            Notice::Chat { sender, message } => NoticeView::Chat {
                sender: sender@,
                message: message@,
            },
            Notice::Whisper { sender, message } => NoticeView::Whisper {
                sender: sender@,
                message: message@,
            },
            Notice::Undecodable { error, text } => NoticeView::Undecodable {
                fault: error@,
                text: text@,
            },
            Notice::UnknownTag { text } => NoticeView::UnknownTag { text: text@ },
        }
    }
}

/// What the session asks of whoever drives it.
#[derive(Debug, PartialEq, Eq)]
pub enum Action {
    /// Write this text frame, whole, through the one writer.
    Send { frame: String, purpose: Purpose },
    /// Tell this to whoever watches.
    Report(Notice),
    /// End the session: stop reading, stop the keepalive, write no more.
    Stop,
}

/// What an `Action` stands for.
pub enum ActionView {
    Send { frame: Seq<char>, purpose: Purpose },
    Report(NoticeView),
    Stop,
}

impl View for Action {
    type V = ActionView;

    open spec fn view(&self) -> ActionView {
        match self {
            Action::Send { frame, purpose } => ActionView::Send {
                frame: frame@,
                purpose: *purpose,
            },
            Action::Report(notice) => ActionView::Report(notice@),
            Action::Stop => ActionView::Stop,
        }
    }
}

/// What a list of actions stands for.
pub open spec fn action_views(actions: Seq<Action>) -> Seq<ActionView> {
    Seq::new(actions.len(), |i: int| actions[i]@)
}

} // verus!
