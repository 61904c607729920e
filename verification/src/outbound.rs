//! The commands that this client sends, and their text on the wire.

use vstd::prelude::*;

use crate::json::{object_text, text_pairs, write_object};

verus! {

/// A command for the server.
#[derive(Debug, PartialEq, Eq)]
pub enum Outbound {
    /// Enter a channel under a name; the password may be empty.
    Join { channel: String, nick: String, password: String },
    /// Say a line in the channel.
    Chat { text: String },
    /// Keep the connection alive: a command of the chat protocol, not a
    /// ping frame of the transport.
    Ping,
}

/// What an `Outbound` stands for.
pub enum OutboundView {
    Join { channel: Seq<char>, nick: Seq<char>, password: Seq<char> },
    Chat { text: Seq<char> },
    Ping,
}

impl View for Outbound {
    type V = OutboundView;

    open spec fn view(&self) -> OutboundView {
        match self {
            Outbound::Join { channel, nick, password } => OutboundView::Join {
                channel: channel@,
                nick: nick@,
                password: password@,
            },
            Outbound::Chat { text } => OutboundView::Chat { text: text@ },
            Outbound::Ping => OutboundView::Ping,
        }
    }
}

/// The members of the JSON object that carries a command: the tag under
/// `cmd`, then what the command holds.
pub open spec fn members_of(command: OutboundView) -> Seq<(Seq<char>, Seq<char>)> {
    match command {
        OutboundView::Join { channel, nick, password } => seq![
            ("cmd"@, "join"@),
            ("channel"@, channel),
            ("nick"@, nick),
            ("password"@, password),
        ],
        OutboundView::Chat { text } => seq![("cmd"@, "chat"@), ("text"@, text)],
        OutboundView::Ping => seq![("cmd"@, "ping"@)],
    }
}

/// The text frame that carries a command.
pub open spec fn frame_of(command: OutboundView) -> Seq<char> {
    object_text(members_of(command))
}

impl Outbound {
    /// The members of the JSON object that carries the command.
    pub fn members(&self) -> (members: Vec<(String, String)>)
        ensures
            text_pairs(members@) == members_of(self@),
    {
        let mut members: Vec<(String, String)> = Vec::new();
        match self {
            Outbound::Join { channel, nick, password } => {
                members.push(("cmd".to_owned(), "join".to_owned()));
                members.push(("channel".to_owned(), channel.clone()));
                members.push(("nick".to_owned(), nick.clone()));
                members.push(("password".to_owned(), password.clone()));
            },
            Outbound::Chat { text } => {
                members.push(("cmd".to_owned(), "chat".to_owned()));
                members.push(("text".to_owned(), text.clone()));
            },
            Outbound::Ping => {
                members.push(("cmd".to_owned(), "ping".to_owned()));
            },
        }
        proof {
            assert(text_pairs(members@) =~= members_of(self@));
        }
        members
    }

    /// The text frame that carries the command.
    pub fn encode(&self) -> (frame: String)
        ensures
            frame@ == frame_of(self@),
    {
        write_object(&self.members())
    }
}

} // verus!
