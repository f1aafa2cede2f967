//! Reading typed data out of an IRC message: parameters, tag values,
//! channel names, emotes, badges, colors and timestamps, and the
//! dispatch from a wire message to a typed server message.

use vstd::prelude::*;
use vstd::string::*;
use crate::irc_message::IRCMessage;
use crate::irc_message::IRCMessageV;
use crate::irc_message::IRCPrefix;
use crate::irc_message::IRCPrefixV;
use crate::irc_message::spec_tag_value;
use crate::strutil::all_digits;
use crate::strutil::dec_val;
use crate::strutil::lemma_dec_val_nonneg;
use crate::strutil::parse_u64;
use crate::strutil::parse_usize;
use crate::strutil::spec_split;
use crate::strutil::spec_split2;
use crate::strutil::split2;
use crate::strutil::split_all;
use crate::strutil::starts_with_str;
use crate::strutil::str_eq;
use crate::strutil::substring;
use crate::twitch_types::Badge;
use crate::twitch_types::BadgeV;
use crate::twitch_types::CharRange;
use crate::twitch_types::Emote;
use crate::twitch_types::EmoteV;
use crate::twitch_types::RGBColor;

verus! {

/// Why an IRC message could not be decoded as the typed server message
/// that was asked for.
#[derive(Debug, Clone, PartialEq, Eq)]
pub enum ServerMessageParseError {
    MismatchedCommand(),
    MissingTag(String),
    MissingTagValue(String),
    MalformedTagValue(String, String),
    MissingParameter(usize),
    MalformedChannel(),
    MissingPrefix(),
    MissingNickname(),
}

#[verifier::ext_equal]
pub enum ParseErrorV {
    MismatchedCommand,
    MissingTag(Seq<char>),
    MissingTagValue(Seq<char>),
    MalformedTagValue(Seq<char>, Seq<char>),
    MissingParameter(int),
    MalformedChannel,
    MissingPrefix,
    MissingNickname,
}

impl View for ServerMessageParseError {
    type V = ParseErrorV;

    open spec fn view(&self) -> ParseErrorV {
        match self {
            ServerMessageParseError::MismatchedCommand() => ParseErrorV::MismatchedCommand,
            ServerMessageParseError::MissingTag(k) => ParseErrorV::MissingTag(k@),
            ServerMessageParseError::MissingTagValue(k) => ParseErrorV::MissingTagValue(k@),
            ServerMessageParseError::MalformedTagValue(k, v) => ParseErrorV::MalformedTagValue(
                k@,
                v@,
            ),
            ServerMessageParseError::MissingParameter(i) => ParseErrorV::MissingParameter(
                *i as int,
            ),
            ServerMessageParseError::MalformedChannel() => ParseErrorV::MalformedChannel,
            ServerMessageParseError::MissingPrefix() => ParseErrorV::MissingPrefix,
            ServerMessageParseError::MissingNickname() => ParseErrorV::MissingNickname,
        }
    }
}

/// The parameter at `index`, or which parameter is missing.
pub open spec fn spec_try_get_param(m: IRCMessageV, index: int) -> Result<Seq<char>, ParseErrorV> {
    if 0 <= index < m.params.len() {
        Ok(m.params[index])
    } else {
        Err(ParseErrorV::MissingParameter(index))
    }
}

/// The (possibly valueless) tag under `key`, or that the key is absent.
pub open spec fn spec_try_get_tag_value(m: IRCMessageV, key: Seq<char>) -> Result<
    Option<Seq<char>>,
    ParseErrorV,
> {
    match spec_tag_value(m.tags, key) {
        None => Err(ParseErrorV::MissingTag(key)),
        Some(v) => Ok(v),
    }
}

/// The tag under `key`, which must carry a value.
pub open spec fn spec_try_get_nonempty_tag_value(m: IRCMessageV, key: Seq<char>) -> Result<
    Seq<char>,
    ParseErrorV,
> {
    match spec_try_get_tag_value(m, key) {
        Err(e) => Err(e),
        Ok(None) => Err(ParseErrorV::MissingTagValue(key)),
        Ok(Some(v)) => Ok(v),
    }
}

/// The channel login from the first parameter: `#name` with a nonempty
/// name.
pub open spec fn spec_try_get_channel_login(m: IRCMessageV) -> Result<Seq<char>, ParseErrorV> {
    match spec_try_get_param(m, 0) {
        Err(e) => Err(e),
        Ok(p) => if p.len() >= 2 && p[0] == '#' {
            Ok(p.skip(1))
        } else {
            Err(ParseErrorV::MalformedChannel)
        },
    }
}

/// The sender's nickname out of the prefix.
pub open spec fn spec_try_get_prefix_nickname(m: IRCMessageV) -> Result<Seq<char>, ParseErrorV> {
    match m.prefix {
        None => Err(ParseErrorV::MissingPrefix),
        Some(IRCPrefixV::HostOnly { host }) => Err(ParseErrorV::MissingNickname),
        Some(IRCPrefixV::Full { nick, user, host }) => Ok(nick),
    }
}

/// The `/me` marker: a control-A, the word ACTION, a space, the text,
/// and a final control-A.
pub open spec fn spec_is_action(p: Seq<char>) -> bool {
    p.len() > 8 && p.subrange(0, 8) == "\u{1}ACTION "@ && p[p.len() - 1] == '\u{1}'
}

/// The message text from the second parameter, unwrapped from the `/me`
/// marker when present.
pub open spec fn spec_try_get_message_text(m: IRCMessageV) -> Result<
    (Seq<char>, bool),
    ParseErrorV,
> {
    match spec_try_get_param(m, 1) {
        Err(e) => Err(e),
        Ok(p) => if spec_is_action(p) {
            Ok((p.subrange(8, p.len() - 1), true))
        } else {
            Ok((p, false))
        },
    }
}

/// A decimal string with a value that fits in `u64`.
pub open spec fn spec_u64_string(v: Seq<char>) -> bool {
    v.len() > 0 && all_digits(v) && dec_val(v) <= u64::MAX
}

/// The millisecond timestamp under `key`.
pub open spec fn spec_try_get_timestamp(m: IRCMessageV, key: Seq<char>) -> Result<
    int,
    ParseErrorV,
> {
    match spec_try_get_nonempty_tag_value(m, key) {
        Err(e) => Err(e),
        Ok(v) => if spec_u64_string(v) {
            Ok(dec_val(v))
        } else {
            Err(ParseErrorV::MalformedTagValue(key, v))
        },
    }
}

/// The bits amount under `key`: absent is fine, present means a number.
pub open spec fn spec_try_get_bits(m: IRCMessageV, key: Seq<char>) -> Result<
    Option<int>,
    ParseErrorV,
> {
    match spec_tag_value(m.tags, key) {
        None => Ok(None),
        Some(None) => Err(ParseErrorV::MissingTagValue(key)),
        Some(Some(v)) => if spec_u64_string(v) {
            Ok(Some(dec_val(v)))
        } else {
            Err(ParseErrorV::MalformedTagValue(key, v))
        },
    }
}

/// A two-digit decimal pair of a `#RRGGBB` color value.
pub open spec fn spec_color_pair(v: Seq<char>, at: int) -> bool {
    all_digits(v.subrange(at, at + 2))
}

/// The color under `key`: `#RRGGBB`, seven characters, pairs decimal.
pub open spec fn spec_try_get_color(m: IRCMessageV, key: Seq<char>) -> Result<
    RGBColor,
    ParseErrorV,
> {
    match spec_try_get_nonempty_tag_value(m, key) {
        Err(e) => Err(e),
        Ok(v) => if v.len() == 7 && spec_color_pair(v, 1) && spec_color_pair(v, 3)
            && spec_color_pair(v, 5) {
            Ok(
                RGBColor {
                    r: dec_val(v.subrange(1, 3)) as u8,
                    g: dec_val(v.subrange(3, 5)) as u8,
                    b: dec_val(v.subrange(5, 7)) as u8,
                },
            )
        } else {
            Err(ParseErrorV::MalformedTagValue(key, v))
        },
    }
}

/// One `from-to` emote range: both decimal, the exclusive end must still
/// fit in `usize`.
pub open spec fn spec_parse_range(r: Seq<char>) -> Option<(int, int)> {
    match spec_split2(r, '-') {
        None => None,
        Some(p) => if p.0.len() > 0 && all_digits(p.0) && dec_val(p.0) <= usize::MAX && p.1.len()
            > 0 && all_digits(p.1) && dec_val(p.1) + 1 <= usize::MAX {
            Some((dec_val(p.0), dec_val(p.1) + 1))
        } else {
            None
        },
    }
}

/// The emotes named by the `,`-separated ranges of one emote id.
pub open spec fn spec_parse_ranges(rs: Seq<Seq<char>>, id: Seq<char>, text: Seq<char>) -> Option<
    Seq<EmoteV>,
>
    decreases rs.len(),
{
    if rs.len() == 0 {
        Some(Seq::empty())
    } else {
        match spec_parse_range(rs[0]) {
            None => None,
            Some((st, en)) => if st == en || (st < en && en <= text.len()) {
                let code = if st == en {
                    Seq::<char>::empty()
                } else {
                    text.subrange(st, en)
                };
                match spec_parse_ranges(rs.skip(1), id, text) {
                    None => None,
                    Some(rest) => Some(
                        seq![EmoteV { id: id, start: st, end: en, code: code }] + rest,
                    ),
                }
            } else {
                None
            },
        }
    }
}

/// One `id:from-to,from-to` group.
pub open spec fn spec_parse_group(g: Seq<char>, text: Seq<char>) -> Option<Seq<EmoteV>> {
    match spec_split2(g, ':') {
        None => None,
        Some(p) => spec_parse_ranges(spec_split(p.1, ','), p.0, text),
    }
}

/// All groups of a `/`-separated emotes tag.
pub open spec fn spec_parse_groups(gs: Seq<Seq<char>>, text: Seq<char>) -> Option<Seq<EmoteV>>
    decreases gs.len(),
{
    if gs.len() == 0 {
        Some(Seq::empty())
    } else {
        match spec_parse_group(gs[0], text) {
            None => None,
            Some(es) => match spec_parse_groups(gs.skip(1), text) {
                None => None,
                Some(r) => Some(es + r),
            },
        }
    }
}

/// The emotes under `key`, against the given message text.
pub open spec fn spec_try_get_emotes(m: IRCMessageV, key: Seq<char>, text: Seq<char>) -> Result<
    Seq<EmoteV>,
    ParseErrorV,
> {
    match spec_try_get_nonempty_tag_value(m, key) {
        Err(e) => Err(e),
        Ok(v) => match spec_parse_groups(spec_split(v, '/'), text) {
            None => Err(ParseErrorV::MalformedTagValue(key, v)),
            Some(es) => Ok(es),
        },
    }
}

/// One `name/version` badge.
pub open spec fn spec_parse_badge(b: Seq<char>) -> Option<BadgeV> {
    match spec_split2(b, '/') {
        None => None,
        Some(p) => Some(BadgeV { name: p.0, version: p.1 }),
    }
}

pub open spec fn spec_parse_badge_list(bs: Seq<Seq<char>>) -> Option<Seq<BadgeV>>
    decreases bs.len(),
{
    if bs.len() == 0 {
        Some(Seq::empty())
    } else {
        match spec_parse_badge(bs[0]) {
            None => None,
            Some(b) => match spec_parse_badge_list(bs.skip(1)) {
                None => None,
                Some(r) => Some(seq![b] + r),
            },
        }
    }
}

/// The badges under `key`: `,`-separated `name/version` pairs.
pub open spec fn spec_try_get_badges(m: IRCMessageV, key: Seq<char>) -> Result<
    Seq<BadgeV>,
    ParseErrorV,
> {
    match spec_try_get_nonempty_tag_value(m, key) {
        Err(e) => Err(e),
        Ok(v) => match spec_parse_badge_list(spec_split(v, ',')) {
            None => Err(ParseErrorV::MalformedTagValue(key, v)),
            Some(bs) => Ok(bs),
        },
    }
}

impl IRCMessage {
    /// The parameter at `index`, cloned.
    pub fn try_get_param(&self, index: usize) -> (r: Result<String, ServerMessageParseError>)
        ensures
            match r {
                Ok(p) => spec_try_get_param(self@, index as int) == Ok::<_, ParseErrorV>(p@),
                Err(e) => spec_try_get_param(self@, index as int) == Err::<Seq<char>, _>(e@),
            },
    {
        if index < self.params.len() {
            Ok(self.params[index].clone())
        } else {
            Err(ServerMessageParseError::MissingParameter(index))
        }
    }

    /// The tag under `key`, which may be present without a value.
    pub fn try_get_tag_value(&self, key: &str) -> (r: Result<
        Option<String>,
        ServerMessageParseError,
    >)
        ensures
            match r {
                Ok(v) => spec_try_get_tag_value(self@, key@) == Ok::<_, ParseErrorV>(
                    v.deep_view(),
                ),
                Err(e) => spec_try_get_tag_value(self@, key@) == Err::<Option<Seq<char>>, _>(e@),
            },
    {
        match self.get_tag_value(key) {
            Some(v) => Ok(v),
            None => Err(ServerMessageParseError::MissingTag(String::from_str(key))),
        }
    }

    /// The tag under `key`, which must carry a value.
    pub fn try_get_nonempty_tag_value(&self, key: &str) -> (r: Result<
        String,
        ServerMessageParseError,
    >)
        ensures
            match r {
                Ok(v) => spec_try_get_nonempty_tag_value(self@, key@) == Ok::<_, ParseErrorV>(v@),
                Err(e) => spec_try_get_nonempty_tag_value(self@, key@) == Err::<Seq<char>, _>(e@),
            },
    {
        match self.try_get_tag_value(key)? {
            Some(v) => Ok(v),
            None => Err(ServerMessageParseError::MissingTagValue(String::from_str(key))),
        }
    }

    /// The channel login from the first parameter.
    pub fn try_get_channel_login(&self) -> (r: Result<String, ServerMessageParseError>)
        ensures
            match r {
                Ok(c) => spec_try_get_channel_login(self@) == Ok::<_, ParseErrorV>(c@),
                Err(e) => spec_try_get_channel_login(self@) == Err::<Seq<char>, _>(e@),
            },
    {
        let param = self.try_get_param(0)?;
        let plen = param.as_str().unicode_len();
        if plen < 2 || param.as_str().get_char(0) != '#' {
            return Err(ServerMessageParseError::MalformedChannel());
        }
        let login = substring(param.as_str(), 1, plen);
        proof {
            assert(login@ =~= self@.params[0].skip(1));
        }
        Ok(login)
    }

    /// The sending user's login name from the IRC prefix.
    pub fn try_get_prefix_nickname(&self) -> (r: Result<String, ServerMessageParseError>)
        ensures
            match r {
                Ok(n) => spec_try_get_prefix_nickname(self@) == Ok::<_, ParseErrorV>(n@),
                Err(e) => spec_try_get_prefix_nickname(self@) == Err::<Seq<char>, _>(e@),
            },
    {
        match &self.prefix {
            None => Err(ServerMessageParseError::MissingPrefix()),
            Some(IRCPrefix::HostOnly { host }) => Err(ServerMessageParseError::MissingNickname()),
            Some(IRCPrefix::Full { nick, user, host }) => Ok(nick.clone()),
        }
    }

    /// The message text from the second parameter, with whether it was a
    /// `/me` action.
    pub fn try_get_message_text(&self) -> (r: Result<(String, bool), ServerMessageParseError>)
        ensures
            match r {
                Ok(t) => spec_try_get_message_text(self@) == Ok::<_, ParseErrorV>((t.0@, t.1)),
                Err(e) => spec_try_get_message_text(self@) == Err::<(Seq<char>, bool), _>(e@),
            },
    {
        let param = self.try_get_param(1)?;
        let plen = param.as_str().unicode_len();
        if plen > 8 && starts_with_str(param.as_str(), "\u{1}ACTION ") && param.as_str().get_char(
            plen - 1,
        ) == '\u{1}' {
            proof {
                reveal_strlit("\u{1}ACTION ");
                assert(spec_is_action(param@));
            }
            let text = substring(param.as_str(), 8, plen - 1);
            Ok((text, true))
        } else {
            proof {
                reveal_strlit("\u{1}ACTION ");
                assert("\u{1}ACTION "@.len() == 8);
                if spec_is_action(param@) {
                    assert(param@.len() > 8);
                    assert(param@.subrange(0, 8) == "\u{1}ACTION "@);
                    assert(param@[param@.len() - 1] == '\u{1}');
                }
            }
            Ok((param, false))
        }
    }

    /// The millisecond timestamp under `key`.
    pub fn try_get_timestamp(&self, key: &str) -> (r: Result<u64, ServerMessageParseError>)
        ensures
            match r {
                Ok(t) => spec_try_get_timestamp(self@, key@) == Ok::<_, ParseErrorV>(t as int),
                Err(e) => spec_try_get_timestamp(self@, key@) == Err::<int, _>(e@),
            },
    {
        let v = self.try_get_nonempty_tag_value(key)?;
        match parse_u64(v.as_str()) {
            Some(t) => Ok(t),
            None => Err(
                ServerMessageParseError::MalformedTagValue(String::from_str(key), v),
            ),
        }
    }

    /// The bits amount under `key`, when the tag is there at all.
    pub fn try_get_bits(&self, key: &str) -> (r: Result<Option<u64>, ServerMessageParseError>)
        ensures
            match r {
                Ok(None) => spec_try_get_bits(self@, key@) == Ok::<_, ParseErrorV>(
                    None::<int>,
                ),
                Ok(Some(b)) => spec_try_get_bits(self@, key@) == Ok::<_, ParseErrorV>(
                    Some(b as int),
                ),
                Err(e) => spec_try_get_bits(self@, key@) == Err::<Option<int>, _>(e@),
            },
    {
        let tag_value = match self.get_tag_value(key) {
            None => {
                return Ok(None);
            },
            Some(None) => {
                return Err(
                    ServerMessageParseError::MissingTagValue(String::from_str(key)),
                );
            },
            Some(Some(v)) => v,
        };
        match parse_u64(tag_value.as_str()) {
            Some(b) => Ok(Some(b)),
            None => Err(
                ServerMessageParseError::MalformedTagValue(String::from_str(key), tag_value),
            ),
        }
    }

    /// The `#RRGGBB` color under `key`.
    pub fn try_get_color(&self, key: &str) -> (r: Result<RGBColor, ServerMessageParseError>)
        ensures
            match r {
                Ok(c) => spec_try_get_color(self@, key@) == Ok::<_, ParseErrorV>(c),
                Err(e) => spec_try_get_color(self@, key@) == Err::<RGBColor, _>(e@),
            },
    {
        let v = self.try_get_nonempty_tag_value(key)?;
        let vlen = v.as_str().unicode_len();
        if vlen != 7 {
            return Err(
                ServerMessageParseError::MalformedTagValue(String::from_str(key), v),
            );
        }
        let r = parse_color_pair(v.as_str(), 1);
        let g = parse_color_pair(v.as_str(), 3);
        let b = parse_color_pair(v.as_str(), 5);
        match (r, g, b) {
            (Some(r), Some(g), Some(b)) => Ok(RGBColor { r, g, b }),
            _ => Err(ServerMessageParseError::MalformedTagValue(String::from_str(key), v)),
        }
    }
}

fn collect_badges(parts: &Vec<String>, from: usize, out: &mut Vec<Badge>) -> (ok: bool)
    requires
        from <= parts.len(),
    ensures
        match spec_parse_badge_list(parts.deep_view().skip(from as int)) {
            Some(bs) => ok && final(out).deep_view() =~= old(out).deep_view() + bs,
            None => !ok,
        },
    decreases parts.len() - from,
{
    let ghost tail = parts.deep_view().skip(from as int);
    if from == parts.len() {
        proof {
            assert(tail.len() == 0);
            assert(final(out).deep_view() =~= old(out).deep_view() + Seq::<BadgeV>::empty());
        }
        return true;
    }
    proof {
        assert(tail[0] == parts.deep_view()[from as int]);
    }
    match split2(parts[from].as_str(), '/') {
        None => false,
        Some(p) => {
            let b = Badge { name: p.0, version: p.1 };
            let ghost bv = b@;
            proof {
                assert(Some(bv) == spec_parse_badge(tail[0]));
            }
            out.push(b);
            let ghost mid = out.deep_view();
            proof {
                assert(mid =~= old(out).deep_view() + seq![bv]);
            }
            let ok = collect_badges(parts, from + 1, out);
            proof {
                assert(tail.skip(1) =~= parts.deep_view().skip(from as int + 1));
                if let Some(r) = spec_parse_badge_list(tail.skip(1)) {
                    assert(final(out).deep_view() =~= old(out).deep_view() + (seq![bv] + r));
                }
            }
            ok
        },
    }
}

fn collect_ranges(
    ranges: &Vec<String>,
    from: usize,
    id: &String,
    text: &str,
    out: &mut Vec<Emote>,
) -> (ok: bool)
    requires
        from <= ranges.len(),
    ensures
        match spec_parse_ranges(ranges.deep_view().skip(from as int), id@, text@) {
            Some(es) => ok && final(out).deep_view() =~= old(out).deep_view() + es,
            None => !ok,
        },
    decreases ranges.len() - from,
{
    let ghost tail = ranges.deep_view().skip(from as int);
    if from == ranges.len() {
        proof {
            assert(tail.len() == 0);
            assert(final(out).deep_view() =~= old(out).deep_view() + Seq::<EmoteV>::empty());
        }
        return true;
    }
    proof {
        assert(tail[0] == ranges.deep_view()[from as int]);
    }
    let p = match split2(ranges[from].as_str(), '-') {
        None => {
            return false;
        },
        Some(p) => p,
    };
    let st = match parse_usize(p.0.as_str()) {
        None => {
            return false;
        },
        Some(x) => x,
    };
    let en0 = match parse_usize(p.1.as_str()) {
        None => {
            return false;
        },
        Some(x) => x,
    };
    if en0 == usize::MAX {
        return false;
    }
    let en = en0 + 1;
    proof {
        assert(spec_parse_range(tail[0]) == Some((st as int, en as int)));
    }
    let text_len = text.unicode_len();
    if !(st == en || (st < en && en <= text_len)) {
        return false;
    }
    let code = if st == en {
        String::new()
    } else {
        substring(text, st, en)
    };
    let e = Emote { id: id.clone(), char_range: CharRange { start: st, end: en }, code };
    let ghost ev = e@;
    proof {
        assert(spec_parse_ranges(tail, id@, text@) matches Some(es) ==> es == seq![ev]
            + spec_parse_ranges(tail.skip(1), id@, text@).unwrap());
    }
    out.push(e);
    let ghost mid = out.deep_view();
    proof {
        assert(mid =~= old(out).deep_view() + seq![ev]);
    }
    let ok = collect_ranges(ranges, from + 1, id, text, out);
    proof {
        assert(tail.skip(1) =~= ranges.deep_view().skip(from as int + 1));
        if let Some(r) = spec_parse_ranges(tail.skip(1), id@, text@) {
            assert(final(out).deep_view() =~= old(out).deep_view() + (seq![ev] + r));
        }
    }
    ok
}

fn collect_groups(groups: &Vec<String>, from: usize, text: &str, out: &mut Vec<Emote>) -> (ok:
    bool)
    requires
        from <= groups.len(),
    ensures
        match spec_parse_groups(groups.deep_view().skip(from as int), text@) {
            Some(es) => ok && final(out).deep_view() =~= old(out).deep_view() + es,
            None => !ok,
        },
    decreases groups.len() - from,
{
    let ghost tail = groups.deep_view().skip(from as int);
    if from == groups.len() {
        proof {
            assert(tail.len() == 0);
            assert(final(out).deep_view() =~= old(out).deep_view() + Seq::<EmoteV>::empty());
        }
        return true;
    }
    proof {
        assert(tail[0] == groups.deep_view()[from as int]);
    }
    let p = match split2(groups[from].as_str(), ':') {
        None => {
            return false;
        },
        Some(p) => p,
    };
    let ranges = split_all(p.1.as_str(), ',');
    proof {
        assert(ranges.deep_view().skip(0) =~= spec_split(p.1@, ','));
    }
    let ghost before = out.deep_view();
    let ok1 = collect_ranges(&ranges, 0, &p.0, text, out);
    if !ok1 {
        return false;
    }
    let ghost mid = out.deep_view();
    let ok = collect_groups(groups, from + 1, text, out);
    proof {
        assert(tail.skip(1) =~= groups.deep_view().skip(from as int + 1));
        let es0 = spec_parse_group(tail[0], text@).unwrap();
        assert(mid =~= before + es0);
        if let Some(r) = spec_parse_groups(tail.skip(1), text@) {
            assert(final(out).deep_view() =~= before + (es0 + r));
        }
    }
    ok
}

impl IRCMessage {
    /// The badges listed under `key`.
    pub fn try_get_badges(&self, key: &str) -> (r: Result<Vec<Badge>, ServerMessageParseError>)
        ensures
            match r {
                Ok(bs) => spec_try_get_badges(self@, key@) == Ok::<_, ParseErrorV>(bs.deep_view()),
                Err(e) => spec_try_get_badges(self@, key@) == Err::<Seq<BadgeV>, _>(e@),
            },
    {
        let v = self.try_get_nonempty_tag_value(key)?;
        let parts = split_all(v.as_str(), ',');
        proof {
            assert(parts.deep_view().skip(0) =~= spec_split(v@, ','));
        }
        let mut out: Vec<Badge> = Vec::new();
        let ghost before = out.deep_view();
        let ok = collect_badges(&parts, 0, &mut out);
        if ok {
            proof {
                assert(before =~= Seq::<BadgeV>::empty());
                assert(out.deep_view() =~= spec_parse_badge_list(spec_split(v@, ',')).unwrap());
            }
            Ok(out)
        } else {
            Err(ServerMessageParseError::MalformedTagValue(String::from_str(key), v))
        }
    }

    /// The emotes listed under `key`, located in `message_text`.
    pub fn try_get_emotes(&self, key: &str, message_text: &str) -> (r: Result<
        Vec<Emote>,
        ServerMessageParseError,
    >)
        ensures
            match r {
                Ok(es) => spec_try_get_emotes(self@, key@, message_text@) == Ok::<_, ParseErrorV>(
                    es.deep_view(),
                ),
                Err(e) => spec_try_get_emotes(self@, key@, message_text@) == Err::<Seq<EmoteV>, _>(
                    e@,
                ),
            },
    {
        let v = self.try_get_nonempty_tag_value(key)?;
        let groups = split_all(v.as_str(), '/');
        proof {
            assert(groups.deep_view().skip(0) =~= spec_split(v@, '/'));
        }
        let mut out: Vec<Emote> = Vec::new();
        let ghost before = out.deep_view();
        let ok = collect_groups(&groups, 0, message_text, &mut out);
        if ok {
            proof {
                assert(before =~= Seq::<EmoteV>::empty());
                assert(out.deep_view() =~= spec_parse_groups(
                    spec_split(v@, '/'),
                    message_text@,
                ).unwrap());
            }
            Ok(out)
        } else {
            Err(ServerMessageParseError::MalformedTagValue(String::from_str(key), v))
        }
    }
}

/// Holds the wire message behind a `ServerMessage::Generic`, so that
/// callers reach it only through `IRCMessage::from` and additions to the
/// typed variants stay compatible.
#[derive(Debug, Clone, PartialEq, Eq)]
pub struct HiddenIRCMessage(pub IRCMessage);

/// A message from the server, decoded to its typed form where one is
/// known, and kept as `Generic` otherwise.
#[derive(Debug, Clone, PartialEq, Eq)]
#[non_exhaustive]
pub enum ServerMessage {
    Join(crate::join::JoinMessage),
    Part(crate::part::PartMessage),
    Ping(crate::ping::PingMessage),
    Pong(crate::pong::PongMessage),
    Reconnect(crate::reconnect::ReconnectMessage),
    Privmsg(crate::privmsg::PrivmsgMessage),
    Generic(HiddenIRCMessage),
}

#[verifier::ext_equal]
pub enum ServerMessageV {
    Join(crate::join::JoinMessageV),
    Part(crate::part::PartMessageV),
    Ping(crate::ping::PingMessageV),
    Pong(crate::pong::PongMessageV),
    Reconnect(crate::reconnect::ReconnectMessageV),
    Privmsg(crate::privmsg::PrivmsgMessageV),
    Generic(IRCMessageV),
}

impl View for ServerMessage {
    type V = ServerMessageV;

    open spec fn view(&self) -> ServerMessageV {
        match self {
            ServerMessage::Join(m) => ServerMessageV::Join(m@),
            ServerMessage::Part(m) => ServerMessageV::Part(m@),
            ServerMessage::Ping(m) => ServerMessageV::Ping(m@),
            ServerMessage::Pong(m) => ServerMessageV::Pong(m@),
            ServerMessage::Reconnect(m) => ServerMessageV::Reconnect(m@),
            ServerMessage::Privmsg(m) => ServerMessageV::Privmsg(m@),
            ServerMessage::Generic(m) => ServerMessageV::Generic(m.0@),
        }
    }
}

/// What decoding any wire message returns: the typed form for the known
/// commands, `Generic` for the rest.
pub open spec fn spec_server_message(m: IRCMessageV) -> Result<ServerMessageV, ParseErrorV> {
    if m.command == "JOIN"@ {
        match crate::join::spec_join(m) {
            Ok(t) => Ok(ServerMessageV::Join(t)),
            Err(e) => Err(e),
        }
    } else if m.command == "PART"@ {
        match crate::part::spec_part(m) {
            Ok(t) => Ok(ServerMessageV::Part(t)),
            Err(e) => Err(e),
        }
    } else if m.command == "PING"@ {
        match crate::ping::spec_ping(m) {
            Ok(t) => Ok(ServerMessageV::Ping(t)),
            Err(e) => Err(e),
        }
    } else if m.command == "PONG"@ {
        match crate::pong::spec_pong(m) {
            Ok(t) => Ok(ServerMessageV::Pong(t)),
            Err(e) => Err(e),
        }
    } else if m.command == "RECONNECT"@ {
        match crate::reconnect::spec_reconnect(m) {
            Ok(t) => Ok(ServerMessageV::Reconnect(t)),
            Err(e) => Err(e),
        }
    } else if m.command == "PRIVMSG"@ {
        match crate::privmsg::spec_privmsg(m) {
            Ok(t) => Ok(ServerMessageV::Privmsg(t)),
            Err(e) => Err(e),
        }
    } else {
        Ok(ServerMessageV::Generic(m))
    }
}

/// The wire message a typed server message was decoded from.
pub open spec fn spec_source_of(sm: ServerMessageV) -> IRCMessageV {
    match sm {
        ServerMessageV::Join(t) => t.source,
        ServerMessageV::Part(t) => t.source,
        ServerMessageV::Ping(t) => t.source,
        ServerMessageV::Pong(t) => t.source,
        ServerMessageV::Reconnect(t) => t.source,
        ServerMessageV::Privmsg(t) => t.source,
        ServerMessageV::Generic(m) => m,
    }
}

impl ServerMessage {
    /// Decodes a wire message to its typed form.
    pub fn try_from(source: IRCMessage) -> (r: Result<ServerMessage, ServerMessageParseError>)
        ensures
            match r {
                Ok(sm) => spec_server_message(source@) == Ok::<_, ParseErrorV>(sm@),
                Err(e) => spec_server_message(source@) == Err::<ServerMessageV, _>(e@),
            },
    {
        if str_eq(source.command.as_str(), "JOIN") {
            match crate::join::JoinMessage::try_from(source) {
                Ok(t) => Ok(ServerMessage::Join(t)),
                Err(e) => Err(e),
            }
        } else if str_eq(source.command.as_str(), "PART") {
            match crate::part::PartMessage::try_from(source) {
                Ok(t) => Ok(ServerMessage::Part(t)),
                Err(e) => Err(e),
            }
        } else if str_eq(source.command.as_str(), "PING") {
            match crate::ping::PingMessage::try_from(source) {
                Ok(t) => Ok(ServerMessage::Ping(t)),
                Err(e) => Err(e),
            }
        } else if str_eq(source.command.as_str(), "PONG") {
            match crate::pong::PongMessage::try_from(source) {
                Ok(t) => Ok(ServerMessage::Pong(t)),
                Err(e) => Err(e),
            }
        } else if str_eq(source.command.as_str(), "RECONNECT") {
            match crate::reconnect::ReconnectMessage::try_from(source) {
                Ok(t) => Ok(ServerMessage::Reconnect(t)),
                Err(e) => Err(e),
            }
        } else if str_eq(source.command.as_str(), "PRIVMSG") {
            match crate::privmsg::PrivmsgMessage::try_from(source) {
                Ok(t) => Ok(ServerMessage::Privmsg(t)),
                Err(e) => Err(e),
            }
        } else {
            Ok(ServerMessage::Generic(HiddenIRCMessage(source)))
        }
    }

    /// Wraps a wire message unchanged, for when typed decoding failed.
    pub fn new_generic(m: IRCMessage) -> (r: ServerMessage)
        ensures
            r@ == ServerMessageV::Generic(m@),
    {
        ServerMessage::Generic(HiddenIRCMessage(m))
    }
}

impl IRCMessage {
    /// Gives back the wire message a typed server message came from.
    pub fn from(msg: ServerMessage) -> (r: IRCMessage)
        ensures
            r@ == spec_source_of(msg@),
    {
        match msg {
            ServerMessage::Join(m) => m.source,
            ServerMessage::Part(m) => m.source,
            ServerMessage::Ping(m) => m.source,
            ServerMessage::Pong(m) => m.source,
            ServerMessage::Reconnect(m) => m.source,
            ServerMessage::Privmsg(m) => m.source,
            ServerMessage::Generic(m) => m.0,
        }
    }
}

/// A two-digit decimal group of a color value.
fn parse_color_pair(v: &str, at: usize) -> (r: Option<u8>)
    requires
        at + 2 <= v@.len(),
        v@.len() <= usize::MAX,
    ensures
        match r {
            Some(x) => spec_color_pair(v@, at as int) && x == dec_val(
                v@.subrange(at as int, at as int + 2),
            ),
            None => !spec_color_pair(v@, at as int),
        },
{
    let pair = substring(v, at, at + 2);
    let ghost pv = v@.subrange(at as int, at as int + 2);
    match parse_usize(pair.as_str()) {
        Some(x) => {
            proof {
                assert(pv.len() == 2);
                assert(pv.drop_last() =~= pv.take(1));
                assert(pv.take(1).drop_last() =~= pv.take(0));
                assert(pv.take(0).len() == 0);
                assert(dec_val(pv) <= 99) by {
                    assert(dec_val(pv) == dec_val(pv.drop_last()) * 10 + crate::strutil::digit_val(
                        pv.last(),
                    ));
                    assert(dec_val(pv.drop_last()) == dec_val(pv.take(1)));
                    assert(dec_val(pv.take(1)) == dec_val(pv.take(0)) * 10
                        + crate::strutil::digit_val(pv.take(1).last()));
                    assert(dec_val(pv.take(0)) == 0);
                    assert(crate::strutil::digit_val(pv.take(1).last()) <= 9);
                    assert(crate::strutil::digit_val(pv.last()) <= 9);
                }
            }
            Some(x as u8)
        },
        None => {
            proof {
                assert(pv.len() == 2);
                if all_digits(pv) {
                    lemma_dec_val_nonneg(pv);
                    assert(dec_val(pv) <= 99) by {
                        assert(dec_val(pv) == dec_val(pv.drop_last()) * 10
                            + crate::strutil::digit_val(pv.last()));
                        assert(pv.drop_last() =~= pv.take(1));
                        assert(dec_val(pv.take(1)) == dec_val(pv.take(1).drop_last()) * 10
                            + crate::strutil::digit_val(pv.take(1).last()));
                        assert(pv.take(1).drop_last() =~= pv.take(0));
                        assert(dec_val(pv.take(0)) == 0);
                        assert(crate::strutil::digit_val(pv.take(1).last()) <= 9);
                        assert(crate::strutil::digit_val(pv.last()) <= 9);
                    }
                }
            }
            None
        },
    }
}

} // verus!
