use twitch_irc::irc_message::IRCMessage;
use twitch_irc::join::JoinMessage;

#[test]
pub fn test_basic() {
    let src = ":randers811!randers811@randers811.tmi.twitch.tv JOIN #pajlada";
    let irc_message = IRCMessage::parse(src).unwrap();
    let msg = JoinMessage::try_from(irc_message.clone()).unwrap();

    assert_eq!(
        msg,
        JoinMessage {
            channel_login: "pajlada".to_owned(),
            user_login: "randers811".to_owned(),
            source: irc_message
        }
    )
}
