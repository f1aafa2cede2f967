//! The IRC wire frame: tags, optional prefix, command and parameters,
//! with a verified parser and serializer.

use vstd::prelude::*;
use vstd::string::*;
use crate::strutil::find_char;
use crate::strutil::find_char_at;
use crate::strutil::spec_split;
use crate::strutil::spec_split2;
use crate::strutil::split2;
use crate::strutil::split_all;
use crate::strutil::substring;
use crate::strutil::all_digits;
use crate::strutil::is_digit;

verus! {

/// Mathematical view of an IRC prefix.
#[verifier::ext_equal]
pub enum IRCPrefixV {
    HostOnly { host: Seq<char> },
    Full { nick: Seq<char>, user: Option<Seq<char>>, host: Option<Seq<char>> },
}

/// The sender prefix of an IRC message: either a bare host, or a full
/// `nick[!user][@host]` triple.
#[derive(Debug, Clone, PartialEq, Eq)]
pub enum IRCPrefix {
    HostOnly { host: String },
    Full { nick: String, user: Option<String>, host: Option<String> },
}

impl View for IRCPrefix {
    type V = IRCPrefixV;

    open spec fn view(&self) -> IRCPrefixV {
        match self {
            IRCPrefix::HostOnly { host } => IRCPrefixV::HostOnly { host: host@ },
            IRCPrefix::Full { nick, user, host } => IRCPrefixV::Full {
                nick: nick@,
                user: match user {
                    Some(u) => Some(u@),
                    None => None,
                },
                host: match host {
                    Some(h) => Some(h@),
                    None => None,
                },
            },
        }
    }
}

/// Mathematical view of an IRC message.
#[verifier::ext_equal]
pub struct IRCMessageV {
    pub tags: Seq<(Seq<char>, Option<Seq<char>>)>,
    pub prefix: Option<IRCPrefixV>,
    pub command: Seq<char>,
    pub params: Seq<Seq<char>>,
}

/// A single IRC message. Tags are an association list in wire order; a
/// key without `=` carries no value.
#[derive(Debug, Clone, PartialEq, Eq)]
pub struct IRCMessage {
    pub tags: Vec<(String, Option<String>)>,
    pub prefix: Option<IRCPrefix>,
    pub command: String,
    pub params: Vec<String>,
}

impl View for IRCMessage {
    type V = IRCMessageV;

    open spec fn view(&self) -> IRCMessageV {
        IRCMessageV {
            tags: self.tags.deep_view(),
            prefix: match &self.prefix {
                Some(p) => Some(p@),
                None => None,
            },
            command: self.command@,
            params: self.params.deep_view(),
        }
    }
}

impl DeepView for IRCMessage {
    type V = IRCMessageV;

    open spec fn deep_view(&self) -> IRCMessageV {
        self.view()
    }
}

/// The value under `key` in an association list of tags: the first
/// binding wins, `None` when the key is absent.
pub open spec fn spec_tag_value(
    tags: Seq<(Seq<char>, Option<Seq<char>>)>,
    key: Seq<char>,
) -> Option<Option<Seq<char>>>
    decreases tags.len(),
{
    if tags.len() == 0 {
        None
    } else if tags[0].0 == key {
        Some(tags[0].1)
    } else {
        spec_tag_value(tags.skip(1), key)
    }
}

proof fn lemma_tag_value_is(tags: Seq<(Seq<char>, Option<Seq<char>>)>, key: Seq<char>, i: int)
    requires
        0 <= i < tags.len(),
        tags[i].0 == key,
        forall|j: int| 0 <= j < i ==> (#[trigger] tags[j]).0 != key,
    ensures
        spec_tag_value(tags, key) == Some(tags[i].1),
    decreases i,
{
    if i > 0 {
        assert(tags[0].0 != key);
        let t1 = tags.skip(1);
        assert(t1[i - 1] == tags[i]);
        assert forall|j: int| 0 <= j < i - 1 implies (#[trigger] t1[j]).0 != key by {
            assert(t1[j] == tags[j + 1]);
        }
        lemma_tag_value_is(t1, key, i - 1);
    }
}

proof fn lemma_tag_value_none(tags: Seq<(Seq<char>, Option<Seq<char>>)>, key: Seq<char>)
    requires
        forall|j: int| 0 <= j < tags.len() ==> (#[trigger] tags[j]).0 != key,
    ensures
        spec_tag_value(tags, key) is None,
    decreases tags.len(),
{
    if tags.len() > 0 {
        let t1 = tags.skip(1);
        assert forall|j: int| 0 <= j < t1.len() implies (#[trigger] t1[j]).0 != key by {
            assert(t1[j] == tags[j + 1]);
        }
        lemma_tag_value_none(t1, key);
    }
}

/// One `key[=value]` tag.
pub open spec fn spec_parse_tag(t: Seq<char>) -> (Seq<char>, Option<Seq<char>>) {
    match spec_split2(t, '=') {
        None => (t, None),
        Some(p) => (p.0, Some(p.1)),
    }
}

/// The tags section: `;`-separated `key[=value]` pairs.
pub open spec fn spec_parse_tags(s: Seq<char>) -> Seq<(Seq<char>, Option<Seq<char>>)> {
    spec_split(s, ';').map_values(|t: Seq<char>| spec_parse_tag(t))
}

/// A prefix string: a bare host unless it holds `!` or `@`.
pub open spec fn spec_parse_prefix(s: Seq<char>) -> IRCPrefixV {
    if find_char(s, '@') is None && find_char(s, '!') is None {
        IRCPrefixV::HostOnly { host: s }
    } else {
        let nu_host = match spec_split2(s, '@') {
            Some(p) => (p.0, Some(p.1)),
            None => (s, None::<Seq<char>>),
        };
        match spec_split2(nu_host.0, '!') {
            Some(p) => IRCPrefixV::Full { nick: p.0, user: Some(p.1), host: nu_host.1 },
            None => IRCPrefixV::Full { nick: nu_host.0, user: None, host: nu_host.1 },
        }
    }
}

pub open spec fn is_alpha(c: char) -> bool {
    ('a' <= c && c <= 'z') || ('A' <= c && c <= 'Z')
}

/// A command is a word of letters, or a three-digit numeric reply.
pub open spec fn valid_command(s: Seq<char>) -> bool {
    (s.len() > 0 && forall|i: int| 0 <= i < s.len() ==> is_alpha(#[trigger] s[i])) || (s.len() == 3
        && all_digits(s))
}

/// Space-joined text of the given segments.
pub open spec fn join_sp(parts: Seq<Seq<char>>) -> Seq<char>
    decreases parts.len(),
{
    if parts.len() == 0 {
        Seq::empty()
    } else if parts.len() == 1 {
        parts[0]
    } else {
        parts[0] + seq![' '] + join_sp(parts.skip(1))
    }
}

/// Parameters from the space-split tokens after the command: plain tokens
/// until one starts with `:`, which begins the trailing parameter (the
/// rest of the message, colon stripped). An empty token means two
/// adjacent spaces and is malformed.
pub open spec fn spec_params_from_tokens(toks: Seq<Seq<char>>) -> Option<Seq<Seq<char>>>
    decreases toks.len(),
{
    if toks.len() == 0 {
        Some(Seq::empty())
    } else if toks[0].len() > 0 && toks[0][0] == ':' {
        Some(seq![join_sp(toks).skip(1)])
    } else if toks[0].len() == 0 {
        None
    } else {
        match spec_params_from_tokens(toks.skip(1)) {
            None => None,
            Some(r) => Some(seq![toks[0]] + r),
        }
    }
}

/// Why a line failed to parse as an IRC message.
#[derive(Debug, Clone, Copy, PartialEq, Eq, Structural)]
pub enum IRCParseError {
    NewlinesInMessage,
    EmptyMessage,
    NoSpaceAfterTags,
    EmptyTagsDeclaration,
    NoSpaceAfterPrefix,
    EmptyPrefixDeclaration,
    MalformedCommand,
    TooManySpacesInMiddleParams,
}

pub open spec fn spec_has_newline(s: Seq<char>) -> bool {
    exists|i: int| 0 <= i < s.len() && ((#[trigger] s[i]) == '\r' || s[i] == '\n')
}

/// The command and parameters section.
pub open spec fn spec_parse_rest(
    tags: Seq<(Seq<char>, Option<Seq<char>>)>,
    prefix: Option<IRCPrefixV>,
    rest: Seq<char>,
) -> Result<IRCMessageV, IRCParseError> {
    let toks = spec_split(rest, ' ');
    if !valid_command(toks[0]) {
        Err(IRCParseError::MalformedCommand)
    } else {
        match spec_params_from_tokens(toks.skip(1)) {
            None => Err(IRCParseError::TooManySpacesInMiddleParams),
            Some(ps) => Ok(
                IRCMessageV { tags, prefix, command: toks[0], params: ps },
            ),
        }
    }
}

/// The optional prefix section and what follows.
pub open spec fn spec_parse_after_tags(
    tags: Seq<(Seq<char>, Option<Seq<char>>)>,
    rest: Seq<char>,
) -> Result<IRCMessageV, IRCParseError> {
    if rest.len() > 0 && rest[0] == ':' {
        match spec_split2(rest.skip(1), ' ') {
            None => Err(IRCParseError::NoSpaceAfterPrefix),
            Some(p) => if p.0.len() == 0 {
                Err(IRCParseError::EmptyPrefixDeclaration)
            } else {
                spec_parse_rest(tags, Some(spec_parse_prefix(p.0)), p.1)
            },
        }
    } else {
        spec_parse_rest(tags, None, rest)
    }
}

/// What `IRCMessage::parse` returns on any input line.
pub open spec fn spec_parse(s: Seq<char>) -> Result<IRCMessageV, IRCParseError> {
    if spec_has_newline(s) {
        Err(IRCParseError::NewlinesInMessage)
    } else if s.len() == 0 {
        Err(IRCParseError::EmptyMessage)
    } else if s[0] == '@' {
        match spec_split2(s.skip(1), ' ') {
            None => Err(IRCParseError::NoSpaceAfterTags),
            Some(p) => if p.0.len() == 0 {
                Err(IRCParseError::EmptyTagsDeclaration)
            } else {
                spec_parse_after_tags(spec_parse_tags(p.0), p.1)
            },
        }
    } else {
        spec_parse_after_tags(Seq::empty(), s)
    }
}

fn has_newline(s: &str) -> (r: bool)
    ensures
        r == spec_has_newline(s@),
{
    let len = s.unicode_len();
    let mut i: usize = 0;
    while i < len
        invariant
            i <= len,
            len == s@.len(),
            forall|j: int| 0 <= j < i ==> (#[trigger] s@[j]) != '\r' && s@[j] != '\n',
        decreases len - i,
    {
        let c = s.get_char(i);
        if c == '\r' || c == '\n' {
            return true;
        }
        i += 1;
    }
    false
}

fn is_valid_command(s: &str) -> (r: bool)
    ensures
        r == valid_command(s@),
{
    let len = s.unicode_len();
    if len == 0 {
        return false;
    }
    let mut i: usize = 0;
    let mut all_alpha = true;
    while i < len
        invariant
            i <= len,
            len == s@.len(),
            all_alpha ==> forall|j: int| 0 <= j < i ==> is_alpha(#[trigger] s@[j]),
            !all_alpha ==> exists|j: int| 0 <= j < s@.len() && !is_alpha(#[trigger] s@[j]),
        decreases len - i,
    {
        let c = s.get_char(i);
        if !((c >= 'a' && c <= 'z') || (c >= 'A' && c <= 'Z')) {
            proof {
                assert(!is_alpha(s@[i as int]));
            }
            all_alpha = false;
        }
        i += 1;
    }
    if all_alpha {
        return true;
    }
    proof {
        let j = choose|j: int| 0 <= j < s@.len() && !is_alpha(#[trigger] s@[j]);
        assert(!is_alpha(s@[j]));
        assert(!(forall|i: int| 0 <= i < s@.len() ==> is_alpha(#[trigger] s@[i])));
    }
    if len != 3 {
        return false;
    }
    let mut k: usize = 0;
    while k < len
        invariant
            k <= len,
            len == s@.len(),
            forall|j: int| 0 <= j < k ==> is_digit(#[trigger] s@[j]),
            exists|j: int| 0 <= j < s@.len() && !is_alpha(#[trigger] s@[j]),
        decreases len - k,
    {
        let c = s.get_char(k);
        if c < '0' || c > '9' {
            proof {
                assert(!is_digit(s@[k as int]));
                assert(!all_digits(s@));
                assert(!valid_command(s@));
            }
            return false;
        }
        k += 1;
    }
    true
}

fn parse_tags_section(s: &str) -> (tags: Vec<(String, Option<String>)>)
    ensures
        tags.deep_view() =~= spec_parse_tags(s@),
{
    let parts = split_all(s, ';');
    let mut tags: Vec<(String, Option<String>)> = Vec::new();
    let mut i: usize = 0;
    while i < parts.len()
        invariant
            i <= parts.len(),
            parts.deep_view() =~= spec_split(s@, ';'),
            tags.deep_view() =~= spec_parse_tags(s@).take(i as int),
        decreases parts.len() - i,
    {
        let part = &parts[i];
        let ghost pv = parts.deep_view()[i as int];
        let entry = match split2(part.as_str(), '=') {
            Some(p) => (p.0, Some(p.1)),
            None => (part.clone(), None),
        };
        proof {
            assert(entry.deep_view() == spec_parse_tag(pv));
            assert(spec_parse_tags(s@)[i as int] == spec_parse_tag(pv));
        }
        let ghost old_dv = tags.deep_view();
        tags.push(entry);
        proof {
            assert(tags.deep_view() =~= old_dv + seq![entry.deep_view()]);
            assert(spec_parse_tags(s@).take(i as int + 1) =~= spec_parse_tags(s@).take(i as int)
                + seq![spec_parse_tags(s@)[i as int]]);
            assert(tags.deep_view() =~= spec_parse_tags(s@).take(i as int + 1));
        }
        i += 1;
    }
    proof {
        assert(spec_parse_tags(s@).take(parts.len() as int) =~= spec_parse_tags(s@));
    }
    tags
}

fn parse_prefix_section(s: &str) -> (p: IRCPrefix)
    ensures
        p@ == spec_parse_prefix(s@),
{
    let at = find_char_at(s, '@');
    let bang = find_char_at(s, '!');
    if at.is_none() && bang.is_none() {
        let r = IRCPrefix::HostOnly { host: s.to_owned() };
        proof {
            assert(r@ =~~= spec_parse_prefix(s@));
        }
        r
    } else {
        let (nick_user, host) = match split2(s, '@') {
            Some(p) => (p.0, Some(p.1)),
            None => (s.to_owned(), None),
        };
        let r = match split2(nick_user.as_str(), '!') {
            Some(p) => IRCPrefix::Full { nick: p.0, user: Some(p.1), host },
            None => IRCPrefix::Full { nick: nick_user, user: None, host },
        };
        proof {
            assert(r@ =~~= spec_parse_prefix(s@));
        }
        r
    }
}

fn join_tokens(toks: &Vec<String>, from: usize) -> (r: String)
    requires
        from < toks.len(),
    ensures
        r@ == join_sp(toks.deep_view().skip(from as int)),
    decreases toks.len() - from,
{
    if from + 1 == toks.len() {
        let r = toks[from].clone();
        proof {
            let tail = toks.deep_view().skip(from as int);
            assert(tail.len() == 1);
            assert(tail[0] == toks.deep_view()[from as int]);
        }
        r
    } else {
        let rest = join_tokens(toks, from + 1);
        let mut r = toks[from].clone();
        r.append(" ");
        r.append(rest.as_str());
        proof {
            reveal_strlit(" ");
            let tail = toks.deep_view().skip(from as int);
            assert(tail.len() >= 2);
            assert(tail[0] == toks.deep_view()[from as int]);
            assert(tail.skip(1) =~= toks.deep_view().skip(from as int + 1));
            assert(" "@ =~= seq![' ']);
            assert(r@ =~= tail[0] + seq![' '] + join_sp(tail.skip(1)));
        }
        r
    }
}

fn collect_params(toks: &Vec<String>, from: usize, out: &mut Vec<String>) -> (ok: bool)
    requires
        from <= toks.len(),
    ensures
        match spec_params_from_tokens(toks.deep_view().skip(from as int)) {
            Some(ps) => ok && final(out).deep_view() =~= old(out).deep_view() + ps,
            None => !ok,
        },
    decreases toks.len() - from,
{
    let ghost tail = toks.deep_view().skip(from as int);
    if from == toks.len() {
        proof {
            assert(tail.len() == 0);
            assert(final(out).deep_view() =~= old(out).deep_view() + Seq::<Seq<char>>::empty());
        }
        return true;
    }
    proof {
        assert(tail[0] == toks.deep_view()[from as int]);
    }
    let tok = &toks[from];
    let tok_len = tok.as_str().unicode_len();
    if tok_len > 0 && tok.as_str().get_char(0) == ':' {
        let joined = join_tokens(toks, from);
        let trailing = substring(joined.as_str(), 1, joined.as_str().unicode_len());
        proof {
            assert(joined@.len() >= tok@.len());
            assert(trailing@ =~= join_sp(tail).skip(1));
        }
        out.push(trailing);
        proof {
            assert(final(out).deep_view() =~= old(out).deep_view() + seq![join_sp(tail).skip(1)]);
        }
        return true;
    }
    if tok_len == 0 {
        return false;
    }
    out.push(tok.clone());
    let ghost mid = out.deep_view();
    proof {
        assert(mid =~= old(out).deep_view() + seq![tail[0]]);
    }
    let ok = collect_params(toks, from + 1, out);
    proof {
        assert(tail.skip(1) =~= toks.deep_view().skip(from as int + 1));
        if let Some(r) = spec_params_from_tokens(tail.skip(1)) {
            assert(final(out).deep_view() =~= old(out).deep_view() + (seq![tail[0]] + r));
        }
    }
    ok
}

/// Wire text of one `key[=value]` tag.
pub open spec fn raw_tag(t: (Seq<char>, Option<Seq<char>>)) -> Seq<char> {
    match t.1 {
        None => t.0,
        Some(v) => t.0 + seq!['='] + v,
    }
}

/// Wire text of the tags, `;`-joined.
pub open spec fn raw_tags(tags: Seq<(Seq<char>, Option<Seq<char>>)>) -> Seq<char>
    decreases tags.len(),
{
    if tags.len() == 0 {
        Seq::empty()
    } else if tags.len() == 1 {
        raw_tag(tags[0])
    } else {
        raw_tag(tags[0]) + seq![';'] + raw_tags(tags.skip(1))
    }
}

/// Wire text of a prefix.
pub open spec fn raw_prefix(p: IRCPrefixV) -> Seq<char> {
    match p {
        IRCPrefixV::HostOnly { host } => host,
        IRCPrefixV::Full { nick, user, host } => nick + (match user {
            Some(u) => seq!['!'] + u,
            None => Seq::empty(),
        }) + (match host {
            Some(h) => seq!['@'] + h,
            None => Seq::empty(),
        }),
    }
}

/// A parameter that must be written as a trailing `:` parameter.
pub open spec fn param_needs_colon(p: Seq<char>) -> bool {
    p.len() == 0 || p[0] == ':' || find_char(p, ' ') is Some
}

/// Wire text of the parameters, each preceded by a space.
pub open spec fn raw_params(ps: Seq<Seq<char>>) -> Seq<char>
    decreases ps.len(),
{
    if ps.len() == 0 {
        Seq::empty()
    } else {
        seq![' '] + (if param_needs_colon(ps[0]) {
            seq![':'] + ps[0]
        } else {
            ps[0]
        }) + raw_params(ps.skip(1))
    }
}

/// The whole message as one line of wire text (without the CR LF).
pub open spec fn spec_raw(m: IRCMessageV) -> Seq<char> {
    (if m.tags.len() > 0 {
        seq!['@'] + raw_tags(m.tags) + seq![' ']
    } else {
        Seq::empty()
    }) + (match m.prefix {
        Some(p) => seq![':'] + raw_prefix(p) + seq![' '],
        None => Seq::empty(),
    }) + m.command + raw_params(m.params)
}

fn raw_tags_exec(tags: &Vec<(String, Option<String>)>, from: usize) -> (r: String)
    requires
        from < tags.len(),
    ensures
        r@ == raw_tags(tags.deep_view().skip(from as int)),
    decreases tags.len() - from,
{
    let ghost tail = tags.deep_view().skip(from as int);
    proof {
        assert(tail[0] == tags.deep_view()[from as int]);
    }
    let mut r = tags[from].0.clone();
    if let Some(v) = &tags[from].1 {
        r.append("=");
        r.append(v.as_str());
    }
    proof {
        reveal_strlit("=");
        assert("="@ =~= seq!['=']);
        assert(r@ =~= raw_tag(tail[0]));
    }
    if from + 1 < tags.len() {
        let rest = raw_tags_exec(tags, from + 1);
        r.append(";");
        r.append(rest.as_str());
        proof {
            reveal_strlit(";");
            assert(";"@ =~= seq![';']);
            assert(tail.skip(1) =~= tags.deep_view().skip(from as int + 1));
            assert(tail.len() >= 2);
            assert(r@ =~= raw_tag(tail[0]) + seq![';'] + raw_tags(tail.skip(1)));
        }
    } else {
        proof {
            assert(tail.len() == 1);
        }
    }
    r
}

fn raw_prefix_exec(p: &IRCPrefix) -> (r: String)
    ensures
        r@ == raw_prefix(p@),
{
    match p {
        IRCPrefix::HostOnly { host } => host.clone(),
        IRCPrefix::Full { nick, user, host } => {
            let mut r = nick.clone();
            if let Some(u) = user {
                r.append("!");
                r.append(u.as_str());
            }
            if let Some(h) = host {
                r.append("@");
                r.append(h.as_str());
            }
            proof {
                reveal_strlit("!");
                reveal_strlit("@");
                assert("!"@ =~= seq!['!']);
                assert("@"@ =~= seq!['@']);
                assert(r@ =~= raw_prefix(p@));
            }
            r
        },
    }
}

fn raw_params_exec(params: &Vec<String>, from: usize) -> (r: String)
    requires
        from <= params.len(),
    ensures
        r@ == raw_params(params.deep_view().skip(from as int)),
    decreases params.len() - from,
{
    let ghost tail = params.deep_view().skip(from as int);
    if from == params.len() {
        let empty = String::new();
        proof {
            assert(tail.len() == 0);
            assert(empty@ =~= raw_params(tail));
        }
        return empty;
    }
    proof {
        assert(tail[0] == params.deep_view()[from as int]);
    }
    let p = &params[from];
    let plen = p.as_str().unicode_len();
    let mut r = String::from_str(" ");
    let needs_colon = plen == 0 || p.as_str().get_char(0) == ':' || find_char_at(
        p.as_str(),
        ' ',
    ).is_some();
    proof {
        assert(needs_colon == param_needs_colon(tail[0]));
    }
    if needs_colon {
        r.append(":");
    }
    r.append(p.as_str());
    let rest = raw_params_exec(params, from + 1);
    r.append(rest.as_str());
    proof {
        reveal_strlit(" ");
        reveal_strlit(":");
        assert(" "@ =~= seq![' ']);
        assert(":"@ =~= seq![':']);
        assert(tail.skip(1) =~= params.deep_view().skip(from as int + 1));
        assert(r@ =~= raw_params(tail));
    }
    r
}

impl IRCMessage {
    /// The message as one line of wire text (without the CR LF).
    pub fn as_raw_irc(&self) -> (r: String)
        ensures
            r@ == spec_raw(self@),
    {
        let mut r = String::new();
        if self.tags.len() > 0 {
            r.append("@");
            let t = raw_tags_exec(&self.tags, 0);
            r.append(t.as_str());
            r.append(" ");
            proof {
                reveal_strlit("@");
                reveal_strlit(" ");
                assert("@"@ =~= seq!['@']);
                assert(" "@ =~= seq![' ']);
                assert(self@.tags.skip(0) =~= self@.tags);
            }
        }
        if let Some(p) = &self.prefix {
            r.append(":");
            let ps = raw_prefix_exec(p);
            r.append(ps.as_str());
            r.append(" ");
            proof {
                reveal_strlit(":");
                reveal_strlit(" ");
                assert(":"@ =~= seq![':']);
                assert(" "@ =~= seq![' ']);
            }
        }
        r.append(self.command.as_str());
        let ps = raw_params_exec(&self.params, 0);
        r.append(ps.as_str());
        proof {
            assert(self@.params.skip(0) =~= self@.params);
            assert(r@ =~= spec_raw(self@));
        }
        r
    }

    /// An exact copy, with the copy's meaning known to the verifier.
    pub fn duplicate(&self) -> (r: IRCMessage)
        ensures
            r@ == self@,
    {
        let mut tags: Vec<(String, Option<String>)> = Vec::new();
        let mut i: usize = 0;
        while i < self.tags.len()
            invariant
                i <= self.tags.len(),
                tags.deep_view() =~= self.tags.deep_view().take(i as int),
            decreases self.tags.len() - i,
        {
            let v = match &self.tags[i].1 {
                Some(s) => Some(s.clone()),
                None => None,
            };
            let entry = (self.tags[i].0.clone(), v);
            let ghost old_dv = tags.deep_view();
            proof {
                assert(entry.deep_view() == self.tags.deep_view()[i as int]);
            }
            tags.push(entry);
            proof {
                assert(tags.deep_view() =~= old_dv + seq![entry.deep_view()]);
                assert(tags.deep_view() =~= self.tags.deep_view().take(i as int + 1));
            }
            i += 1;
        }
        proof {
            assert(self.tags.deep_view().take(self.tags.len() as int) =~= self.tags.deep_view());
        }
        let prefix = match &self.prefix {
            None => None,
            Some(IRCPrefix::HostOnly { host }) => Some(IRCPrefix::HostOnly { host: host.clone() }),
            Some(IRCPrefix::Full { nick, user, host }) => Some(
                IRCPrefix::Full {
                    nick: nick.clone(),
                    user: match user {
                        Some(u) => Some(u.clone()),
                        None => None,
                    },
                    host: match host {
                        Some(h) => Some(h.clone()),
                        None => None,
                    },
                },
            ),
        };
        let mut params: Vec<String> = Vec::new();
        let mut j: usize = 0;
        while j < self.params.len()
            invariant
                j <= self.params.len(),
                params.deep_view() =~= self.params.deep_view().take(j as int),
            decreases self.params.len() - j,
        {
            let p = self.params[j].clone();
            let ghost old_dv = params.deep_view();
            params.push(p);
            proof {
                assert(params.deep_view() =~= old_dv + seq![self.params.deep_view()[j as int]]);
                assert(params.deep_view() =~= self.params.deep_view().take(j as int + 1));
            }
            j += 1;
        }
        proof {
            assert(self.params.deep_view().take(self.params.len() as int) =~= self.params.deep_view());
        }
        let r = IRCMessage { tags, prefix, command: self.command.clone(), params };
        proof {
            assert(r@ =~= self@);
        }
        r
    }

    /// A message with only a command and parameters, as the client sends.
    pub fn new_simple(command: String, params: Vec<String>) -> (r: IRCMessage)
        ensures
            r@.tags =~= Seq::<(Seq<char>, Option<Seq<char>>)>::empty(),
            r@.prefix is None,
            r@.command == command@,
            r@.params =~= params.deep_view(),
    {
        IRCMessage { tags: Vec::new(), prefix: None, command, params }
    }

    /// The first binding under `key` among the tags, when one exists.
    pub fn get_tag_value(&self, key: &str) -> (r: Option<Option<String>>)
        ensures
            r.deep_view() == spec_tag_value(self@.tags, key@),
    {
        let mut i: usize = 0;
        while i < self.tags.len()
            invariant
                i <= self.tags.len(),
                forall|j: int| 0 <= j < i ==> (#[trigger] self@.tags[j]).0 != key@,
            decreases self.tags.len() - i,
        {
            if crate::strutil::str_eq(self.tags[i].0.as_str(), key) {
                proof {
                    assert(self@.tags[i as int].0 == key@);
                    lemma_tag_value_is(self@.tags, key@, i as int);
                }
                let v = match &self.tags[i].1 {
                    Some(s) => Some(s.clone()),
                    None => None,
                };
                return Some(v);
            }
            proof {
                assert(self@.tags[i as int].0 != key@);
            }
            i += 1;
        }
        proof {
            lemma_tag_value_none(self@.tags, key@);
        }
        None
    }

    /// Parses one line of wire text.
    pub fn parse(source: &str) -> (r: Result<IRCMessage, IRCParseError>)
        ensures
            match r {
                Ok(m) => spec_parse(source@) == Ok::<IRCMessageV, IRCParseError>(m@),
                Err(e) => spec_parse(source@) == Err::<IRCMessageV, IRCParseError>(e),
            },
    {
        if has_newline(source) {
            return Err(IRCParseError::NewlinesInMessage);
        }
        let src_len = source.unicode_len();
        if src_len == 0 {
            return Err(IRCParseError::EmptyMessage);
        }
        let (tags, rest): (Vec<(String, Option<String>)>, String) = if source.get_char(0) == '@' {
            let after = substring(source, 1, src_len);
            proof {
                assert(after@ =~= source@.skip(1));
            }
            match split2(after.as_str(), ' ') {
                None => {
                    return Err(IRCParseError::NoSpaceAfterTags);
                },
                Some(p) => {
                    if p.0.as_str().unicode_len() == 0 {
                        return Err(IRCParseError::EmptyTagsDeclaration);
                    }
                    (parse_tags_section(p.0.as_str()), p.1)
                },
            }
        } else {
            (Vec::new(), source.to_owned())
        };
        let ghost tags_v = tags.deep_view();
        let ghost rest_v = rest@;
        proof {
            if source@[0] != '@' {
                assert(tags_v =~= Seq::<(Seq<char>, Option<Seq<char>>)>::empty());
            }
            assert(spec_parse(source@) == spec_parse_after_tags(tags_v, rest_v));
        }
        let rest_len = rest.as_str().unicode_len();
        let (prefix, rest2): (Option<IRCPrefix>, String) = if rest_len > 0
            && rest.as_str().get_char(0) == ':' {
            let after = substring(rest.as_str(), 1, rest_len);
            proof {
                assert(after@ =~= rest_v.skip(1));
            }
            match split2(after.as_str(), ' ') {
                None => {
                    return Err(IRCParseError::NoSpaceAfterPrefix);
                },
                Some(p) => {
                    if p.0.as_str().unicode_len() == 0 {
                        return Err(IRCParseError::EmptyPrefixDeclaration);
                    }
                    (Some(parse_prefix_section(p.0.as_str())), p.1)
                },
            }
        } else {
            (None, rest)
        };
        let ghost prefix_v = match &prefix {
            Some(p) => Some(p@),
            None => None::<IRCPrefixV>,
        };
        let ghost rest2_v = rest2@;
        proof {
            assert(spec_parse(source@) == spec_parse_rest(tags_v, prefix_v, rest2_v));
        }
        let toks = split_all(rest2.as_str(), ' ');
        proof {
            crate::strutil::lemma_split_len(rest2_v, ' ');
            assert(toks.deep_view()[0] == spec_split(rest2_v, ' ')[0]);
        }
        if !is_valid_command(toks[0].as_str()) {
            return Err(IRCParseError::MalformedCommand);
        }
        let command = toks[0].clone();
        let mut params: Vec<String> = Vec::new();
        let ok = collect_params(&toks, 1, &mut params);
        proof {
            assert(toks.deep_view().skip(1) =~= spec_split(rest2_v, ' ').skip(1));
        }
        if !ok {
            return Err(IRCParseError::TooManySpacesInMiddleParams);
        }
        let m = IRCMessage { tags, prefix, command, params };
        proof {
            let ps = spec_params_from_tokens(spec_split(rest2_v, ' ').skip(1));
            assert(params.deep_view() =~= Seq::<Seq<char>>::empty() + ps.unwrap());
            assert(m@ =~= IRCMessageV {
                tags: tags_v,
                prefix: prefix_v,
                command: spec_split(rest2_v, ' ')[0],
                params: ps.unwrap(),
            });
        }
        Ok(m)
    }
}

} // verus!
