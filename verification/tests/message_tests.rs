use twitch_irc::commands::ServerMessage;
use twitch_irc::join::JoinMessage;
use twitch_irc::ping::PingMessage;
use twitch_irc::pong::PongMessage;
use twitch_irc::commands::ServerMessageParseError;
use twitch_irc::irc_message::IRCMessage;
use twitch_irc::irc_message::IRCParseError;
use twitch_irc::irc_message::IRCPrefix;
use twitch_irc::privmsg::PrivmsgMessage;
use twitch_irc::strutil;
use twitch_irc::twitch_types::Badge;
use twitch_irc::twitch_types::CharRange;
use twitch_irc::twitch_types::Emote;
use twitch_irc::twitch_types::RGBColor;

#[test]
fn parse_splits_tags_prefix_command_and_params() {
    let m = IRCMessage::parse(
        "@login=alazymeme;room-id=;flag :tmi.twitch.tv CLEARMSG #pajlada :NIGHT CUNT",
    )
    .unwrap();
    assert_eq!(
        m.tags,
        vec![
            ("login".to_owned(), Some("alazymeme".to_owned())),
            ("room-id".to_owned(), Some("".to_owned())),
            ("flag".to_owned(), None),
        ]
    );
    assert_eq!(m.prefix, Some(IRCPrefix::HostOnly { host: "tmi.twitch.tv".to_owned() }));
    assert_eq!(m.command, "CLEARMSG");
    assert_eq!(m.params, vec!["#pajlada".to_owned(), "NIGHT CUNT".to_owned()]);
}

#[test]
fn parse_full_prefix() {
    let m = IRCMessage::parse(":randers811!randers811@randers811.tmi.twitch.tv JOIN #pajlada")
        .unwrap();
    assert_eq!(
        m.prefix,
        Some(IRCPrefix::Full {
            nick: "randers811".to_owned(),
            user: Some("randers811".to_owned()),
            host: Some("randers811.tmi.twitch.tv".to_owned()),
        })
    );
}

#[test]
fn parse_rejects_malformed_lines() {
    assert_eq!(IRCMessage::parse(""), Err(IRCParseError::EmptyMessage));
    assert_eq!(IRCMessage::parse("PING\r\n"), Err(IRCParseError::NewlinesInMessage));
    assert_eq!(IRCMessage::parse("@a=b"), Err(IRCParseError::NoSpaceAfterTags));
    assert_eq!(IRCMessage::parse("@ PING"), Err(IRCParseError::EmptyTagsDeclaration));
    assert_eq!(IRCMessage::parse(":tmi.twitch.tv"), Err(IRCParseError::NoSpaceAfterPrefix));
    assert_eq!(IRCMessage::parse(": PING"), Err(IRCParseError::EmptyPrefixDeclaration));
    assert_eq!(IRCMessage::parse("PING1 x"), Err(IRCParseError::MalformedCommand));
    assert_eq!(IRCMessage::parse("PING  :x"), Err(IRCParseError::TooManySpacesInMiddleParams));
}

#[test]
fn raw_irc_round_trips() {
    let src = "@login=alazymeme;room-id=;target-msg-id=3c92014f-340a-4dc3-a9c9-e5cf182f4a84;tmi-sent-ts=1594561955611 :tmi.twitch.tv CLEARMSG #pajlada :NIGHT CUNT";
    let m = IRCMessage::parse(src).unwrap();
    assert_eq!(m.as_raw_irc(), src);
    let simple = IRCMessage::new_simple("PONG".to_owned(), vec!["tmi.twitch.tv".to_owned()]);
    assert_eq!(simple.as_raw_irc(), "PONG tmi.twitch.tv");
}

#[test]
fn channel_login_errors() {
    let no_params = IRCMessage::parse("JOIN").unwrap();
    assert_eq!(no_params.try_get_channel_login(), Err(ServerMessageParseError::MissingParameter(0)));
    let no_hash = IRCMessage::parse("JOIN pajlada").unwrap();
    assert_eq!(no_hash.try_get_channel_login(), Err(ServerMessageParseError::MalformedChannel()));
    let bare_hash = IRCMessage::parse("JOIN #").unwrap();
    assert_eq!(bare_hash.try_get_channel_login(), Err(ServerMessageParseError::MalformedChannel()));
}

#[test]
fn prefix_nickname_errors() {
    let no_prefix = IRCMessage::parse("JOIN #pajlada").unwrap();
    assert_eq!(
        no_prefix.try_get_prefix_nickname(),
        Err(ServerMessageParseError::MissingPrefix())
    );
    let host_only = IRCMessage::parse(":tmi.twitch.tv JOIN #pajlada").unwrap();
    assert_eq!(
        host_only.try_get_prefix_nickname(),
        Err(ServerMessageParseError::MissingNickname())
    );
}

#[test]
fn tag_value_errors() {
    let m = IRCMessage::parse("@flag PING").unwrap();
    assert_eq!(
        m.try_get_nonempty_tag_value("absent"),
        Err(ServerMessageParseError::MissingTag("absent".to_owned()))
    );
    assert_eq!(
        m.try_get_nonempty_tag_value("flag"),
        Err(ServerMessageParseError::MissingTagValue("flag".to_owned()))
    );
}

#[test]
fn bits_tag_is_optional_but_numeric() {
    let none = IRCMessage::parse("PING").unwrap();
    assert_eq!(none.try_get_bits("bits"), Ok(None));
    let some = IRCMessage::parse("@bits=500 PING").unwrap();
    assert_eq!(some.try_get_bits("bits"), Ok(Some(500)));
    let bad = IRCMessage::parse("@bits=many PING").unwrap();
    assert_eq!(
        bad.try_get_bits("bits"),
        Err(ServerMessageParseError::MalformedTagValue("bits".to_owned(), "many".to_owned()))
    );
}

#[test]
fn color_pairs_are_read_as_decimal_numbers() {
    let m = IRCMessage::parse("@color=#123456 PING").unwrap();
    assert_eq!(m.try_get_color("color"), Ok(RGBColor { r: 12, g: 34, b: 56 }));
    let short = IRCMessage::parse("@color=#123 PING").unwrap();
    assert_eq!(
        short.try_get_color("color"),
        Err(ServerMessageParseError::MalformedTagValue("color".to_owned(), "#123".to_owned()))
    );
}

#[test]
fn badges_are_name_version_pairs() {
    let m = IRCMessage::parse("@badges=admin/1,subscriber/12 PING").unwrap();
    assert_eq!(
        m.try_get_badges("badges"),
        Ok(vec![
            Badge { name: "admin".to_owned(), version: "1".to_owned() },
            Badge { name: "subscriber".to_owned(), version: "12".to_owned() },
        ])
    );
    let bad = IRCMessage::parse("@badges=admin PING").unwrap();
    assert_eq!(
        bad.try_get_badges("badges"),
        Err(ServerMessageParseError::MalformedTagValue("badges".to_owned(), "admin".to_owned()))
    );
}

#[test]
fn emotes_are_located_in_the_message_text() {
    let m = IRCMessage::parse("@emotes=25:0-4,6-10/1902:12-16 PING").unwrap();
    let emotes = m.try_get_emotes("emotes", "Kappa Kappa Keepo").unwrap();
    assert_eq!(
        emotes,
        vec![
            Emote {
                id: "25".to_owned(),
                char_range: CharRange { start: 0, end: 5 },
                code: "Kappa".to_owned()
            },
            Emote {
                id: "25".to_owned(),
                char_range: CharRange { start: 6, end: 11 },
                code: "Kappa".to_owned()
            },
            Emote {
                id: "1902".to_owned(),
                char_range: CharRange { start: 12, end: 17 },
                code: "Keepo".to_owned()
            },
        ]
    );
    // a range past the end of the text is malformed
    let out_of_range = m.try_get_emotes("emotes", "Kappa");
    assert_eq!(
        out_of_range,
        Err(ServerMessageParseError::MalformedTagValue(
            "emotes".to_owned(),
            "25:0-4,6-10/1902:12-16".to_owned()
        ))
    );
}

#[test]
fn privmsg_decodes_whole_messages() {
    let src = "@badges=moderator/1;bits=100;color=#001122;emotes=25:0-4;id=qqq-www;tmi-sent-ts=1594561955611 :randers!randers@randers.tmi.twitch.tv PRIVMSG #pajlada :Kappa and more";
    let m = IRCMessage::parse(src).unwrap();
    let p = PrivmsgMessage::try_from(m).unwrap();
    assert_eq!(p.channel_login, "pajlada");
    assert_eq!(p.sender_login, "randers");
    assert_eq!(p.message_text, "Kappa and more");
    assert!(!p.is_action);
    assert_eq!(p.badges, vec![Badge { name: "moderator".to_owned(), version: "1".to_owned() }]);
    assert_eq!(p.emotes.len(), 1);
    assert_eq!(p.emotes[0].code, "Kappa");
    assert_eq!(p.name_color, Some(RGBColor { r: 0, g: 11, b: 22 }));
    assert_eq!(p.bits, Some(100));
    assert_eq!(p.message_id, "qqq-www");
    assert_eq!(p.server_timestamp, 1594561955611);
}

#[test]
fn server_message_dispatch_and_generic() {
    let join = IRCMessage::parse(":a!a@a JOIN #chan").unwrap();
    assert!(matches!(ServerMessage::try_from(join), Ok(ServerMessage::Join(_))));
    let part = IRCMessage::parse(":a!a@a PART #chan").unwrap();
    assert!(matches!(ServerMessage::try_from(part), Ok(ServerMessage::Part(_))));
    let other = IRCMessage::parse(":a!a@a WHISPER x :hi").unwrap();
    let sm = ServerMessage::try_from(other.clone()).unwrap();
    assert!(matches!(sm, ServerMessage::Generic(_)));
    assert_eq!(IRCMessage::from(sm), other);
    let bad_join = IRCMessage::parse("JOIN nochannel").unwrap();
    assert_eq!(
        ServerMessage::try_from(bad_join),
        Err(ServerMessageParseError::MalformedChannel())
    );
}

#[test]
fn mismatched_command_is_rejected() {
    let ping = IRCMessage::parse("PING :tmi.twitch.tv").unwrap();
    assert_eq!(
        JoinMessage::try_from(ping.clone()),
        Err(ServerMessageParseError::MismatchedCommand())
    );
    let decoded = PingMessage::try_from(ping.clone()).unwrap();
    assert_eq!(decoded.argument, Some("tmi.twitch.tv".to_owned()));
    assert_eq!(
        PongMessage::try_from(ping),
        Err(ServerMessageParseError::MismatchedCommand())
    );
}

#[test]
fn string_helpers_behave_like_their_specs() {
    assert!(strutil::str_eq("abc", "abc"));
    assert!(!strutil::str_eq("abc", "abd"));
    assert!(!strutil::str_eq("abc", "ab"));
    assert_eq!(strutil::split2("a:b:c", ':'), Some(("a".to_owned(), "b:c".to_owned())));
    assert_eq!(strutil::split2("abc", ':'), None);
    assert_eq!(
        strutil::split_all("a,,b", ','),
        vec!["a".to_owned(), "".to_owned(), "b".to_owned()]
    );
    assert_eq!(strutil::split_all("", ','), vec!["".to_owned()]);
    assert_eq!(strutil::parse_u64("1594561955611"), Some(1594561955611));
    assert_eq!(strutil::parse_u64(""), None);
    assert_eq!(strutil::parse_u64("12a"), None);
    assert_eq!(strutil::parse_u64("99999999999999999999999"), None);
    assert_eq!(strutil::parse_u64("18446744073709551615"), Some(u64::MAX));
    assert_eq!(strutil::parse_u64("18446744073709551616"), None);
}
