use dengbot::denghandler::{DengHandler, MessageError, MessageStandard};
use dengbot::slackinfo::{Channel, InfoError, SlackInfo, User};
use dengbot::types::Broadcast;

fn msg(text: Option<&str>, user: Option<&str>, channel: Option<&str>) -> MessageStandard {
    MessageStandard {
        text: text.map(String::from),
        user: user.map(String::from),
        channel: channel.map(String::from),
    }
}

fn connected() -> DengHandler {
    let mut h = DengHandler::new();
    h.on_connect(SlackInfo {
        users: Vec::new(),
        listen_channel_id: String::from("C1"),
        meta_channel_id: String::from("C2"),
    });
    h
}

fn chan(id: Option<&str>, name: Option<&str>) -> Channel {
    Channel { id: id.map(String::from), name: name.map(String::from) }
}

#[test]
fn check_in_in_listen_channel() {
    match connected().handle_message(msg(Some("deng"), Some("U1"), Some("C1"))) {
        Ok(Some(Broadcast::Deng(u))) => assert_eq!(u, "U1"),
        _ => panic!("expected a check-in"),
    }
}

#[test]
fn other_text_is_other_event() {
    for text in ["Deng", "deng!", " deng", "hello", ""] {
        match connected().handle_message(msg(Some(text), Some("U1"), Some("C1"))) {
            Ok(Some(Broadcast::NonDeng(u))) => assert_eq!(u, "U1"),
            _ => panic!("expected another event"),
        }
    }
}

#[test]
fn other_channels_are_ignored() {
    assert!(matches!(connected().handle_message(msg(Some("deng"), Some("U1"), Some("C2"))), Ok(None)));
    assert!(matches!(connected().handle_message(msg(Some("deng"), Some("U1"), None)), Ok(None)));
}

#[test]
fn malformed_messages_are_errors() {
    assert!(matches!(connected().handle_message(msg(None, Some("U1"), Some("C1"))), Err(MessageError::NoText)));
    assert!(matches!(connected().handle_message(msg(Some("deng"), None, Some("C1"))), Err(MessageError::NoUser)));
    let fresh = DengHandler::new();
    assert!(matches!(fresh.handle_message(msg(Some("deng"), Some("U1"), Some("C1"))), Err(MessageError::NotInitialised)));
    assert_eq!(MessageError::NoUser.message(), "No user in message");
}

#[test]
fn start_response_gives_channels_and_users() {
    let channels = vec![chan(Some("C0"), Some("general")), chan(Some("C1"), Some("dengs")), chan(Some("C2"), Some("meta"))];
    let users = vec![User { id: String::from("U1"), display_name: String::from("alice") }];
    let info = SlackInfo::from_start_response(Some(channels), Some(users), "dengs", "meta").ok().unwrap();
    assert_eq!(info.listen_channel_id, "C1");
    assert_eq!(info.meta_channel_id, "C2");
    assert_eq!(info.users.len(), 1);
    assert_eq!(info.users[0].display_name, "alice");
}

#[test]
fn start_response_errors() {
    let users = || Some(Vec::<User>::new());
    let err = |chs: Option<Vec<Channel>>, us: Option<Vec<User>>| {
        SlackInfo::from_start_response(chs, us, "dengs", "meta").err().unwrap()
    };
    assert_eq!(err(None, users()), InfoError::NoChannelList);
    assert_eq!(err(Some(vec![chan(Some("C0"), Some("general"))]), users()), InfoError::ListenChannelNotFound);
    assert_eq!(err(Some(vec![chan(Some("C0"), None), chan(Some("C1"), Some("dengs"))]), users()), InfoError::UnnamedChannel);
    assert_eq!(err(Some(vec![chan(None, Some("dengs"))]), users()), InfoError::ListenChannelWithoutId);
    assert_eq!(err(Some(vec![chan(Some("C1"), Some("dengs"))]), users()), InfoError::MetaChannelNotFound);
    assert_eq!(
        err(Some(vec![chan(Some("C2"), Some("meta")), chan(Some("C1"), Some("dengs"))]), users()),
        InfoError::MetaChannelNotFound
    );
    assert_eq!(
        err(Some(vec![chan(Some("C1"), Some("dengs")), chan(None, Some("meta"))]), users()),
        InfoError::MetaChannelWithoutId
    );
    assert_eq!(
        err(Some(vec![chan(Some("C1"), Some("dengs")), chan(Some("C2"), Some("meta"))]), None),
        InfoError::NoUserList
    );
    assert_eq!(InfoError::NoChannelList.message(), "No channel list returned");
}
