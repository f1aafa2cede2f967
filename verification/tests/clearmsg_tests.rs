use twitch_irc::clearmsg::ClearMsgMessage;
use twitch_irc::irc_message::IRCMessage;

#[test]
pub fn test_simple() {
    let src = "@login=alazymeme;room-id=;target-msg-id=3c92014f-340a-4dc3-a9c9-e5cf182f4a84;tmi-sent-ts=1594561955611 :tmi.twitch.tv CLEARMSG #pajlada :NIGHT CUNT";
    let irc_message = IRCMessage::parse(src).unwrap();
    let msg = ClearMsgMessage::try_from(irc_message.clone()).unwrap();

    assert_eq!(
        msg,
        ClearMsgMessage {
            channel_login: "pajlada".to_owned(),
            sender_login: "alazymeme".to_owned(),
            message_id: "3c92014f-340a-4dc3-a9c9-e5cf182f4a84".to_owned(),
            message_text: "NIGHT CUNT".to_owned(),
            is_action: false,
            server_timestamp: 1594561955611,
            source: irc_message
        }
    )
}

#[test]
pub fn test_action() {
    let src = "@login=randers;room-id=;target-msg-id=15e5164d-f8e6-4aec-baf4-2d6a330760c4;tmi-sent-ts=1594562632383 :tmi.twitch.tv CLEARMSG #pajlada :\u{0001}ACTION test\u{0001}";
    let irc_message = IRCMessage::parse(src).unwrap();
    let msg = ClearMsgMessage::try_from(irc_message.clone()).unwrap();

    assert_eq!(
        msg,
        ClearMsgMessage {
            channel_login: "pajlada".to_owned(),
            sender_login: "randers".to_owned(),
            message_id: "15e5164d-f8e6-4aec-baf4-2d6a330760c4".to_owned(),
            message_text: "test".to_owned(),
            is_action: true,
            server_timestamp: 1594562632383,
            source: irc_message
        }
    )
}
