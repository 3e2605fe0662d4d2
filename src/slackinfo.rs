//! What the chat platform reports on connection: the user directory and the
//! ids of the two channels the bot works in.
use vstd::prelude::*;

verus! {

/// A member of the workspace, as far as the scoreboard needs to know it.
#[derive(Clone, Debug)]
pub struct User {
    pub id: String,
    pub display_name: String,
}

/// A channel as listed on connection.
#[derive(Clone, Debug)]
pub struct Channel {
    pub id: Option<String>,
    pub name: Option<String>,
}

/// What the bot needs from the connection: the user directory, the channel
/// where check-ins are posted and the channel for reports.
#[derive(Clone, Debug)]
pub struct SlackInfo {
    pub users: Vec<User>,
    pub listen_channel_id: String,
    pub meta_channel_id: String,
}

/// Why the connection's start response is unusable.
#[derive(PartialEq, Eq, Structural, Clone, Copy, Debug)]
pub enum InfoError {
    NoChannelList,
    UnnamedChannel,
    ListenChannelNotFound,
    ListenChannelWithoutId,
    MetaChannelNotFound,
    MetaChannelWithoutId,
    NoUserList,
}

impl InfoError {
    pub fn message(&self) -> (r: &'static str) {
        match self {
            InfoError::NoChannelList => "No channel list returned",
            InfoError::UnnamedChannel => "No listen channel name found",
            InfoError::ListenChannelNotFound => "Could not find listen channel by that name",
            InfoError::ListenChannelWithoutId => "No ID associated with listen channel",
            InfoError::MetaChannelNotFound => "Could not find meta channel by that name",
            InfoError::MetaChannelWithoutId => "No ID associated with meta channel",
            InfoError::NoUserList => "No users returned on connection",
        }
    }
}

/// Where the search for a channel named `name`, from position `i` on, ends:
/// at the first channel with that name, or at the first channel without a
/// name, or past the end.
pub open spec fn channel_search(chs: Seq<Channel>, i: int, name: Seq<char>) -> Option<int>
    decreases chs.len() - i,
{
    if i < 0 || i >= chs.len() {
        None
    } else {
        match chs[i].name {
            None => Some(i),
            Some(n) => if n@ == name {
                Some(i)
            } else {
                channel_search(chs, i + 1, name)
            },
        }
    }
}

/// The id of channel `i`, if any.
pub open spec fn channel_id(chs: Seq<Channel>, i: int) -> Option<Seq<char>> {
    match chs[i].id {
        Some(id) => Some(id@),
        None => None,
    }
}

/// The outcome of reading a start response: the positions of the listen and
/// meta channels, or the error. The meta channel is looked for after the
/// listen channel, and a channel without a name met on the way is an error.
pub open spec fn info_outcome(
    chs: Option<Seq<Channel>>,
    has_users: bool,
    listen_name: Seq<char>,
    meta_name: Seq<char>,
) -> Result<(int, int), InfoError> {
    match chs {
        None => Err(InfoError::NoChannelList),
        Some(chs) => match channel_search(chs, 0, listen_name) {
            None => Err(InfoError::ListenChannelNotFound),
            Some(li) => if chs[li].name is None {
                Err(InfoError::UnnamedChannel)
            } else if chs[li].id is None {
                Err(InfoError::ListenChannelWithoutId)
            } else {
                match channel_search(chs, li + 1, meta_name) {
                    None => Err(InfoError::MetaChannelNotFound),
                    Some(mi) => if chs[mi].name is None {
                        Err(InfoError::UnnamedChannel)
                    } else if chs[mi].id is None {
                        Err(InfoError::MetaChannelWithoutId)
                    } else if !has_users {
                        Err(InfoError::NoUserList)
                    } else {
                        Ok((li, mi))
                    },
                }
            },
        },
    }
}

proof fn lemma_channel_search_in_range(chs: Seq<Channel>, i: int, name: Seq<char>)
    ensures
        channel_search(chs, i, name) matches Some(k) ==> i <= k < chs.len(),
    decreases chs.len() - i,
{
    if 0 <= i < chs.len() {
        lemma_channel_search_in_range(chs, i + 1, name);
    }
}

/// Looks for the channel named `name` from position `from` on.
fn find_channel(channels: &Vec<Channel>, from: usize, name: &str) -> (r: Option<usize>)
    ensures
        match r {
            Some(i) => channel_search(channels@, from as int, name@) == Some(i as int),
            None => channel_search(channels@, from as int, name@) is None,
        },
        r matches Some(i) ==> from <= i < channels@.len(),
{
    proof {
        lemma_channel_search_in_range(channels@, from as int, name@);
    }
    let ghost chs = channels@;
    let mut i: usize = from;
    let wanted = name.to_owned();
    if i >= channels.len() {
        return None;
    }
    while i < channels.len()
        invariant
            chs == channels@,
            from <= i,
            wanted@ == name@,
            i <= chs.len(),
            channel_search(chs, from as int, name@) == channel_search(chs, i as int, name@),
        decreases chs.len() - i,
    {
        match &channels[i].name {
            None => {
                return Some(i);
            },
            Some(n) => {
                if *n == wanted {
                    return Some(i);
                }
            },
        }
        i += 1;
    }
    None
}

impl SlackInfo {
    /// Reads the connection metadata from a start response: the channel list
    /// (if any), the user list (if any), and the names of the listen and meta
    /// channels. Every missing item is an error.
    pub fn from_start_response(
        channels: Option<Vec<Channel>>,
        users: Option<Vec<User>>,
        listen_channel_name: &str,
        meta_channel_name: &str,
    ) -> (r: Result<SlackInfo, InfoError>)
        ensures
            ({
                let chs = match channels {
                    Some(v) => Some(v@),
                    None => None,
                };
                let outcome = info_outcome(chs, users is Some, listen_channel_name@, meta_channel_name@);
                match r {
                    Ok(info) => outcome matches Ok((li, mi)) && channel_id(chs->Some_0, li) == Some(
                        info.listen_channel_id@,
                    ) && channel_id(chs->Some_0, mi) == Some(info.meta_channel_id@) && Some(info.users)
                        == users,
                    Err(e) => outcome == Err::<(int, int), InfoError>(e),
                }
            }),
    {
        let channels = match channels {
            None => {
                return Err(InfoError::NoChannelList);
            },
            Some(c) => c,
        };
        let li = match find_channel(&channels, 0, listen_channel_name) {
            None => {
                return Err(InfoError::ListenChannelNotFound);
            },
            Some(i) => i,
        };
        let listen_channel_id = match (&channels[li].name, &channels[li].id) {
            (None, _) => {
                return Err(InfoError::UnnamedChannel);
            },
            (Some(_), None) => {
                return Err(InfoError::ListenChannelWithoutId);
            },
            (Some(_), Some(id)) => id.clone(),
        };
        let mi = match find_channel(&channels, li + 1, meta_channel_name) {
            None => {
                return Err(InfoError::MetaChannelNotFound);
            },
            Some(i) => i,
        };
        let meta_channel_id = match (&channels[mi].name, &channels[mi].id) {
            (None, _) => {
                return Err(InfoError::UnnamedChannel);
            },
            (Some(_), None) => {
                return Err(InfoError::MetaChannelWithoutId);
            },
            (Some(_), Some(id)) => id.clone(),
        };
        match users {
            None => Err(InfoError::NoUserList),
            Some(users) => Ok(SlackInfo { users, listen_channel_id, meta_channel_id }),
        }
    }
}

} // verus!
