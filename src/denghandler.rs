//! Turns chat messages into dispatcher events: a message in the listen
//! channel is a check-in when its text is exactly the check-in word, and any
//! other event otherwise; messages elsewhere are ignored.
use crate::slackinfo::SlackInfo;
use crate::types::Broadcast;
use vstd::prelude::*;

verus! {

/// The text of a check-in.
pub const CHECK_IN_TEXT: &'static str = "deng";

/// A standard chat message, as far as the bot reads it.
pub struct MessageStandard {
    pub text: Option<String>,
    pub user: Option<String>,
    pub channel: Option<String>,
}

/// Why a message could not be processed.
#[derive(PartialEq, Eq, Structural, Clone, Copy, Debug)]
pub enum MessageError {
    NoText,
    NoUser,
    NotInitialised,
}

impl MessageError {
    pub fn message(&self) -> (r: &'static str) {
        match self {
            MessageError::NoText => "No text in message",
            MessageError::NoUser => "No user in message",
            MessageError::NotInitialised => "Info has not been initialised yet",
        }
    }
}

pub open spec fn opt_view(o: Option<String>) -> Option<Seq<char>> {
    match o {
        Some(s) => Some(s@),
        None => None,
    }
}

/// The event a message yields: `Some((is_check_in, user))`, `None` when the
/// message is not for the bot, or the error. `listen` is the listen channel,
/// known once connected.
pub open spec fn message_outcome(
    listen: Option<Seq<char>>,
    text: Option<Seq<char>>,
    user: Option<Seq<char>>,
    channel: Option<Seq<char>>,
) -> Result<Option<(bool, Seq<char>)>, MessageError> {
    match (text, user) {
        (None, _) => Err(MessageError::NoText),
        (Some(_), None) => Err(MessageError::NoUser),
        (Some(t), Some(u)) => match channel {
            None => Ok(None),
            Some(c) => match listen {
                None => Err(MessageError::NotInitialised),
                Some(l) => if c == l {
                    Ok(Some((t == CHECK_IN_TEXT@, u)))
                } else {
                    Ok(None)
                },
            },
        },
    }
}

pub struct DengHandler {
    info: Option<SlackInfo>,
}

impl DengHandler {
    /// The listen channel, once connected.
    pub closed spec fn listen_channel(&self) -> Option<Seq<char>> {
        match self.info {
            Some(info) => Some(info.listen_channel_id@),
            None => None,
        }
    }

    /// A handler that has not connected yet.
    pub fn new() -> (r: Self)
        ensures
            r.listen_channel() is None,
    {
        DengHandler { info: None }
    }

    /// Keeps the connection metadata received on connection.
    pub fn on_connect(&mut self, info: SlackInfo)
        ensures
            final(self).listen_channel() == Some(info.listen_channel_id@),
    {
        self.info = Some(info);
    }

    /// The event that `message` yields, if any.
    pub fn handle_message(&self, message: MessageStandard) -> (r: Result<Option<Broadcast>, MessageError>)
        ensures
            match (r, message_outcome(
                self.listen_channel(),
                opt_view(message.text),
                opt_view(message.user),
                opt_view(message.channel),
            )) {
                (Err(e), Err(f)) => e == f,
                (Ok(None), Ok(None)) => true,
                (Ok(Some(Broadcast::Deng(u))), Ok(Some((true, v)))) => u@ == v,
                (Ok(Some(Broadcast::NonDeng(u))), Ok(Some((false, v)))) => u@ == v,
                _ => false,
            },
    {
        let text = match message.text {
            None => {
                return Err(MessageError::NoText);
            },
            Some(t) => t,
        };
        let user = match message.user {
            None => {
                return Err(MessageError::NoUser);
            },
            Some(u) => u,
        };
        let channel = match message.channel {
            None => {
                return Ok(None);
            },
            Some(c) => c,
        };
        let listen_channel_id = match &self.info {
            None => {
                return Err(MessageError::NotInitialised);
            },
            Some(info) => &info.listen_channel_id,
        };
        if channel == *listen_channel_id {
            if text == CHECK_IN_TEXT.to_owned() {
                Ok(Some(Broadcast::Deng(user)))
            } else {
                Ok(Some(Broadcast::NonDeng(user)))
            }
        } else {
            Ok(None)
        }
    }
}

} // verus!
