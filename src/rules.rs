//! Matching one rule against one piece of content.

use vstd::prelude::*;
use crate::compile::{compile_regex, strings_view, PatternError};
use crate::config::{EmojiId, FilterMode, MessageFilterRule, ReactionFilterRule, StickerId, UsernameFilterRule};
use crate::pattern::{first_groups_of, first_match, opt_view, pattern_compiles, Pattern};
use crate::scoping::vec_contains;
use crate::text::{domain_listed, host_listed, is_zalgo, string_in, zalgo};

verus! {

/// What a message offers to the rules.
pub struct MessageSample {
    /// The text of the message.
    pub text: String,
    /// The declared MIME type of each attachment, where it has one.
    pub mime_types: Vec<Option<String>>,
    /// The ids of the stickers used.
    pub sticker_ids: Vec<StickerId>,
    /// The names of the stickers used.
    pub sticker_names: Vec<String>,
    /// The names of the custom emoji referenced in the text.
    pub emoji_names: Vec<String>,
}

/// What a message offers to the rules, as a contract sees it.
pub ghost struct SampleView {
    pub text: Seq<char>,
    pub mime_types: Seq<Option<String>>,
    pub sticker_ids: Seq<StickerId>,
    pub sticker_names: Seq<String>,
    pub emoji_names: Seq<String>,
}

impl View for MessageSample {
    type V = SampleView;

    open spec fn view(&self) -> SampleView {
        SampleView {
            text: self.text@,
            mime_types: self.mime_types@,
            sticker_ids: self.sticker_ids@,
            sticker_names: self.sticker_names@,
            emoji_names: self.emoji_names@,
        }
    }
}

/// The emoji of a reaction.
#[allow(inconsistent_fields)]
pub enum ReactionEmoji {
    /// A standard emoji, by its text.
    Unicode { name: String },
    /// A custom emoji of a guild.
    Custom { id: EmojiId, name: Option<String> },
}

/// Why a rule matched: the value that offended.
pub enum Reason {
    /// The text that a pattern matched.
    Matched(String),
    /// The text is corrupted by combining marks.
    Zalgo,
    /// An attachment declares no MIME type.
    UnknownMimeType,
    /// An attachment's MIME type.
    MimeType(String),
    /// An invite code.
    Invite(String),
    /// The host of a link.
    Domain(String),
    /// A sticker's id.
    StickerId(StickerId),
    /// A standard emoji.
    Emoji(String),
    /// A custom emoji's id.
    EmojiId(EmojiId),
}

/// What a reason looks like to a contract.
pub ghost enum ReasonView {
    Matched(Seq<char>),
    Zalgo,
    UnknownMimeType,
    MimeType(Seq<char>),
    Invite(Seq<char>),
    Domain(Seq<char>),
    StickerId(StickerId),
    Emoji(Seq<char>),
    EmojiId(EmojiId),
}

impl View for Reason {
    type V = ReasonView;

    open spec fn view(&self) -> ReasonView {
        match self {
            Reason::Matched(s) => ReasonView::Matched(s@),
            Reason::Zalgo => ReasonView::Zalgo,
            Reason::UnknownMimeType => ReasonView::UnknownMimeType,
            Reason::MimeType(s) => ReasonView::MimeType(s@),
            Reason::Invite(s) => ReasonView::Invite(s@),
            Reason::Domain(s) => ReasonView::Domain(s@),
            Reason::StickerId(id) => ReasonView::StickerId(*id),
            Reason::Emoji(s) => ReasonView::Emoji(s@),
            Reason::EmojiId(id) => ReasonView::EmojiId(*id),
        }
    }
}

/// The view of an optional reason.
pub open spec fn opt_reason(r: Option<Reason>) -> Option<ReasonView> {
    match r {
        Some(r) => Some(r@),
        None => None,
    }
}

/// The fixed expressions that find invite codes and link hosts in text; the
/// first capture group of each holds the code or the host.
pub struct Recognizers {
    pub invite: Pattern,
    pub link: Pattern,
}

/// The expression that finds invite links; its group holds the code.
pub const INVITE_SOURCE: &'static str = "(?:discord\\.gg|discord(?:app)?\\.com/invite)/([A-Za-z0-9-]+)";

/// The expression that finds web links; its group holds the host.
pub const LINK_SOURCE: &'static str = "https?://([^\\s/?#:]+)";

impl Recognizers {
    /// Compiles the recognizers from their fixed sources.
    pub fn new() -> (r: Result<Recognizers, PatternError>)
        ensures
            r is Ok <==> pattern_compiles(INVITE_SOURCE@) && pattern_compiles(LINK_SOURCE@),
            r matches Ok(rec) ==> rec.invite@ == INVITE_SOURCE@ && rec.link@ == LINK_SOURCE@,
    {
        let invite = match compile_regex(INVITE_SOURCE.to_owned()) {
            Ok(p) => p,
            Err(e) => {
                return Err(e);
            },
        };
        let link = match compile_regex(LINK_SOURCE.to_owned()) {
            Ok(p) => p,
            Err(e) => {
                return Err(e);
            },
        };
        Ok(Recognizers { invite, link })
    }
}

/// The first hit of `f` along `s`: its position and reason.
pub open spec fn first_hit<T>(s: Seq<T>, f: spec_fn(T) -> Option<ReasonView>) -> Option<(nat, ReasonView)>
    decreases s.len(),
{
    if s.len() == 0 {
        None
    } else {
        match f(s[0]) {
            Some(r) => Some((0nat, r)),
            None => match first_hit(s.drop_first(), f) {
                Some((i, r)) => Some((i + 1, r)),
                None => None,
            },
        }
    }
}

/// The reason of the first hit of `f` along `s`.
pub open spec fn first_reason<T>(s: Seq<T>, f: spec_fn(T) -> Option<ReasonView>) -> Option<ReasonView> {
    match first_hit(s, f) {
        Some((_, r)) => Some(r),
        None => None,
    }
}

/// Where every item before `i` misses, the first hit is at `i` if `i` hits,
/// and there is none if `i` is the end.
pub proof fn lemma_first_hit<T>(s: Seq<T>, f: spec_fn(T) -> Option<ReasonView>, i: int)
    requires
        0 <= i <= s.len(),
        forall|j: int| 0 <= j < i ==> f(#[trigger] s[j]) is None,
    ensures
        i < s.len() && f(s[i]) is Some ==> first_hit(s, f) == Some((i as nat, f(s[i])->0)),
        i == s.len() ==> first_hit(s, f) is None,
    decreases i,
{
    if i > 0 {
        let t = s.drop_first();
        assert(f(s[0]) is None);
        assert forall|j: int| 0 <= j < i - 1 implies f(#[trigger] t[j]) is None by {
            assert(t[j] == s[j + 1]);
        }
        lemma_first_hit(t, f, i - 1);
        if i < s.len() {
            assert(t[i - 1] == s[i]);
        }
    }
}

/// A first hit names an item of the sequence, and that item's reason.
pub proof fn lemma_first_hit_index<T>(s: Seq<T>, f: spec_fn(T) -> Option<ReasonView>)
    ensures
        first_hit(s, f) matches Some((i, r)) ==> i < s.len() && f(s[i as int]) == Some(r),
    decreases s.len(),
{
    if s.len() > 0 {
        lemma_first_hit_index(s.drop_first(), f);
        if f(s[0]) is None {
            if let Some((i, r)) = first_hit(s.drop_first(), f) {
                assert(s.drop_first()[i as int] == s[i as int + 1]);
            }
        }
    }
}

/// Whether a value offends a list: one listed in a deny list, one missing
/// from an allow list.
pub open spec fn offends(mode: FilterMode, listed: bool) -> bool {
    match mode {
        FilterMode::DenyList => listed,
        FilterMode::AllowList => !listed,
    }
}

fn offends_exec(mode: FilterMode, listed: bool) -> (r: bool)
    ensures
        r == offends(mode, listed),
{
    match mode {
        FilterMode::DenyList => listed,
        FilterMode::AllowList => !listed,
    }
}

/// The reason that the expression `p` gives against `t`: what it matched.
pub open spec fn text_reason(p: Seq<char>, t: Seq<char>) -> Option<ReasonView> {
    match first_match(p, t) {
        Some(m) => Some(ReasonView::Matched(m)),
        None => None,
    }
}

fn match_text(p: &Pattern, t: &str) -> (r: Option<Reason>)
    ensures
        opt_reason(r) == text_reason(p@, t@),
{
    match p.find(t) {
        Some(m) => Some(Reason::Matched(m)),
        None => None,
    }
}

pub open spec fn regex_check(t: Seq<char>) -> spec_fn(Pattern) -> Option<ReasonView> {
    |p: Pattern| text_reason(p@, t)
}

pub open spec fn name_check(p: Seq<char>) -> spec_fn(String) -> Option<ReasonView> {
    |n: String| text_reason(p, n@)
}

pub open spec fn mime_check(mode: FilterMode, types: Seq<Seq<char>>, allow_unknown: bool) -> spec_fn(Option<String>) -> Option<ReasonView> {
    |o: Option<String>|
        match o {
            None => if allow_unknown {
                None
            } else {
                Some(ReasonView::UnknownMimeType)
            },
            Some(t) => if offends(mode, types.contains(t@)) {
                Some(ReasonView::MimeType(t@))
            } else {
                None
            },
        }
}

pub open spec fn invite_check(mode: FilterMode, invites: Seq<Seq<char>>) -> spec_fn(Option<Seq<char>>) -> Option<ReasonView> {
    |g: Option<Seq<char>>|
        match g {
            Some(code) => if offends(mode, invites.contains(code)) {
                Some(ReasonView::Invite(code))
            } else {
                None
            },
            None => None,
        }
}

pub open spec fn link_check(mode: FilterMode, domains: Seq<Seq<char>>) -> spec_fn(Option<Seq<char>>) -> Option<ReasonView> {
    |g: Option<Seq<char>>|
        match g {
            Some(host) => if offends(mode, domain_listed(host, domains)) {
                Some(ReasonView::Domain(host))
            } else {
                None
            },
            None => None,
        }
}

pub open spec fn sticker_check(mode: FilterMode, stickers: Seq<StickerId>) -> spec_fn(StickerId) -> Option<ReasonView> {
    |id: StickerId|
        if offends(mode, stickers.contains(id)) {
            Some(ReasonView::StickerId(id))
        } else {
            None
        }
}

/// What a message rule finds in a message, if anything.
pub open spec fn message_rule_match(rule: MessageFilterRule, sample: SampleView, rec: Recognizers) -> Option<ReasonView> {
    let text = sample.text;
    match rule {
        MessageFilterRule::Words { words } => text_reason(words@, text),
        MessageFilterRule::Substring { substrings } => text_reason(substrings@, text),
        MessageFilterRule::Regex { regexes } => first_reason(regexes@, regex_check(text)),
        MessageFilterRule::Zalgo => if is_zalgo(text) {
            Some(ReasonView::Zalgo)
        } else {
            None
        },
        MessageFilterRule::MimeType { mode, types, allow_unknown } => first_reason(
            sample.mime_types,
            mime_check(mode, strings_view(types@), allow_unknown),
        ),
        MessageFilterRule::Invite { mode, invites } => first_reason(
            first_groups_of(rec.invite@, text),
            invite_check(mode, strings_view(invites@)),
        ),
        MessageFilterRule::Link { mode, domains } => first_reason(
            first_groups_of(rec.link@, text),
            link_check(mode, strings_view(domains@)),
        ),
        MessageFilterRule::StickerId { mode, stickers } => first_reason(
            sample.sticker_ids,
            sticker_check(mode, stickers@),
        ),
        MessageFilterRule::StickerName { stickers } => first_reason(sample.sticker_names, name_check(stickers@)),
        MessageFilterRule::EmojiName { names } => first_reason(sample.emoji_names, name_check(names@)),
    }
}

fn first_regex_match(regexes: &Vec<Pattern>, t: &str) -> (r: Option<Reason>)
    ensures
        opt_reason(r) == first_reason(regexes@, regex_check(t@)),
{
    let ghost f = regex_check(t@);
    for i in 0..regexes.len()
        invariant
            f == regex_check(t@),
            forall|j: int| 0 <= j < i ==> f(#[trigger] regexes@[j]) is None,
    {
        let m = match_text(&regexes[i], t);
        if m.is_some() {
            proof {
                lemma_first_hit(regexes@, f, i as int);
            }
            return m;
        }
    }
    proof {
        lemma_first_hit(regexes@, f, regexes@.len() as int);
    }
    None
}

fn first_name_match(p: &Pattern, names: &Vec<String>) -> (r: Option<Reason>)
    ensures
        opt_reason(r) == first_reason(names@, name_check(p@)),
{
    let ghost f = name_check(p@);
    for i in 0..names.len()
        invariant
            f == name_check(p@),
            forall|j: int| 0 <= j < i ==> f(#[trigger] names@[j]) is None,
    {
        let m = match_text(p, names[i].as_str());
        if m.is_some() {
            proof {
                lemma_first_hit(names@, f, i as int);
            }
            return m;
        }
    }
    proof {
        lemma_first_hit(names@, f, names@.len() as int);
    }
    None
}

/// The first attachment type that offends a MIME rule.
pub fn first_mime_offence(mime_types: &Vec<Option<String>>, mode: FilterMode, types: &Vec<String>, allow_unknown: bool) -> (r: Option<Reason>)
    ensures
        opt_reason(r) == first_reason(mime_types@, mime_check(mode, strings_view(types@), allow_unknown)),
{
    let ghost f = mime_check(mode, strings_view(types@), allow_unknown);
    for i in 0..mime_types.len()
        invariant
            f == mime_check(mode, strings_view(types@), allow_unknown),
            forall|j: int| 0 <= j < i ==> f(#[trigger] mime_types@[j]) is None,
    {
        let hit = match &mime_types[i] {
            None => if allow_unknown {
                None
            } else {
                Some(Reason::UnknownMimeType)
            },
            Some(t) => if offends_exec(mode, string_in(types, t)) {
                Some(Reason::MimeType(t.clone()))
            } else {
                None
            },
        };
        assert(opt_reason(hit) == f(mime_types@[i as int]));
        if hit.is_some() {
            proof {
                lemma_first_hit(mime_types@, f, i as int);
            }
            return hit;
        }
    }
    proof {
        lemma_first_hit(mime_types@, f, mime_types@.len() as int);
    }
    None
}

/// The first invite code, of those the recognizer captured, that offends
/// an invite rule.
pub fn first_invite_offence(groups: &Vec<Option<String>>, mode: FilterMode, invites: &Vec<String>) -> (r: Option<Reason>)
    ensures
        opt_reason(r) == first_reason(groups@.map_values(|o: Option<String>| opt_view(o)), invite_check(mode, strings_view(invites@))),
{
    let ghost gs = groups@.map_values(|o: Option<String>| opt_view(o));
    let ghost f = invite_check(mode, strings_view(invites@));
    for i in 0..groups.len()
        invariant
            gs == groups@.map_values(|o: Option<String>| opt_view(o)),
            f == invite_check(mode, strings_view(invites@)),
            forall|j: int| 0 <= j < i ==> f(#[trigger] gs[j]) is None,
    {
        assert(gs[i as int] == opt_view(groups@[i as int]));
        let hit = match &groups[i] {
            Some(code) => if offends_exec(mode, string_in(invites, code)) {
                Some(Reason::Invite(code.clone()))
            } else {
                None
            },
            None => None,
        };
        assert(opt_reason(hit) == f(gs[i as int]));
        if hit.is_some() {
            proof {
                lemma_first_hit(gs, f, i as int);
            }
            return hit;
        }
    }
    proof {
        lemma_first_hit(gs, f, gs.len() as int);
    }
    None
}

/// The first link host, of those the recognizer captured, that offends a
/// link rule.
pub fn first_link_offence(groups: &Vec<Option<String>>, mode: FilterMode, domains: &Vec<String>) -> (r: Option<Reason>)
    ensures
        opt_reason(r) == first_reason(groups@.map_values(|o: Option<String>| opt_view(o)), link_check(mode, strings_view(domains@))),
{
    let ghost gs = groups@.map_values(|o: Option<String>| opt_view(o));
    let ghost f = link_check(mode, strings_view(domains@));
    for i in 0..groups.len()
        invariant
            gs == groups@.map_values(|o: Option<String>| opt_view(o)),
            f == link_check(mode, strings_view(domains@)),
            forall|j: int| 0 <= j < i ==> f(#[trigger] gs[j]) is None,
    {
        assert(gs[i as int] == opt_view(groups@[i as int]));
        let hit = match &groups[i] {
            Some(host) => if offends_exec(mode, host_listed(host.as_str(), domains)) {
                Some(Reason::Domain(host.clone()))
            } else {
                None
            },
            None => None,
        };
        assert(opt_reason(hit) == f(gs[i as int]));
        if hit.is_some() {
            proof {
                lemma_first_hit(gs, f, i as int);
            }
            return hit;
        }
    }
    proof {
        lemma_first_hit(gs, f, gs.len() as int);
    }
    None
}

/// The first sticker id that offends a sticker rule.
pub fn first_sticker_offence(ids: &Vec<StickerId>, mode: FilterMode, stickers: &Vec<StickerId>) -> (r: Option<Reason>)
    ensures
        opt_reason(r) == first_reason(ids@, sticker_check(mode, stickers@)),
{
    let ghost f = sticker_check(mode, stickers@);
    for i in 0..ids.len()
        invariant
            f == sticker_check(mode, stickers@),
            forall|j: int| 0 <= j < i ==> f(#[trigger] ids@[j]) is None,
    {
        if offends_exec(mode, vec_contains(stickers, ids[i])) {
            proof {
                lemma_first_hit(ids@, f, i as int);
            }
            return Some(Reason::StickerId(ids[i]));
        }
    }
    proof {
        lemma_first_hit(ids@, f, ids@.len() as int);
    }
    None
}

impl MessageFilterRule {
    /// What this rule finds in a message, if anything.
    pub fn matches(&self, sample: &MessageSample, rec: &Recognizers) -> (r: Option<Reason>)
        ensures
            opt_reason(r) == message_rule_match(*self, sample@, *rec),
    {
        let text = sample.text.as_str();
        match self {
            MessageFilterRule::Words { words } => match_text(words, text),
            MessageFilterRule::Substring { substrings } => match_text(substrings, text),
            MessageFilterRule::Regex { regexes } => first_regex_match(regexes, text),
            MessageFilterRule::Zalgo => if zalgo(text) {
                Some(Reason::Zalgo)
            } else {
                None
            },
            MessageFilterRule::MimeType { mode, types, allow_unknown } => first_mime_offence(
                &sample.mime_types,
                *mode,
                types,
                *allow_unknown,
            ),
            MessageFilterRule::Invite { mode, invites } => {
                let groups = rec.invite.first_groups(text);
                first_invite_offence(&groups, *mode, invites)
            },
            MessageFilterRule::Link { mode, domains } => {
                let groups = rec.link.first_groups(text);
                first_link_offence(&groups, *mode, domains)
            },
            MessageFilterRule::StickerId { mode, stickers } => first_sticker_offence(
                &sample.sticker_ids,
                *mode,
                stickers,
            ),
            MessageFilterRule::StickerName { stickers } => first_name_match(stickers, &sample.sticker_names),
            MessageFilterRule::EmojiName { names } => first_name_match(names, &sample.emoji_names),
        }
    }
}

/// What a reaction rule finds in a reaction's emoji, if anything.
pub open spec fn reaction_rule_match(rule: ReactionFilterRule, emoji: ReactionEmoji) -> Option<ReasonView> {
    match rule {
        ReactionFilterRule::Default { mode, emoji: listed } => match emoji {
            ReactionEmoji::Unicode { name } => if offends(mode, strings_view(listed@).contains(name@)) {
                Some(ReasonView::Emoji(name@))
            } else {
                None
            },
            ReactionEmoji::Custom { .. } => None,
        },
        ReactionFilterRule::CustomId { mode, emoji: listed } => match emoji {
            ReactionEmoji::Custom { id, .. } => if offends(mode, listed@.contains(id)) {
                Some(ReasonView::EmojiId(id))
            } else {
                None
            },
            ReactionEmoji::Unicode { .. } => None,
        },
        ReactionFilterRule::CustomName { names } => match emoji {
            ReactionEmoji::Custom { name: Some(n), .. } => text_reason(names@, n@),
            _ => None,
        },
    }
}

impl ReactionFilterRule {
    /// What this rule finds in a reaction's emoji, if anything.
    pub fn matches(&self, emoji: &ReactionEmoji) -> (r: Option<Reason>)
        ensures
            opt_reason(r) == reaction_rule_match(*self, *emoji),
    {
        match self {
            ReactionFilterRule::Default { mode, emoji: listed } => match emoji {
                ReactionEmoji::Unicode { name } => if offends_exec(*mode, string_in(listed, name)) {
                    Some(Reason::Emoji(name.clone()))
                } else {
                    None
                },
                ReactionEmoji::Custom { .. } => None,
            },
            ReactionFilterRule::CustomId { mode, emoji: listed } => match emoji {
                ReactionEmoji::Custom { id, .. } => if offends_exec(*mode, vec_contains(listed, *id)) {
                    Some(Reason::EmojiId(*id))
                } else {
                    None
                },
                ReactionEmoji::Unicode { .. } => None,
            },
            ReactionFilterRule::CustomName { names } => match emoji {
                ReactionEmoji::Custom { name: Some(n), .. } => match_text(names, n.as_str()),
                _ => None,
            },
        }
    }
}

/// What a username rule finds in a name, if anything.
pub open spec fn username_rule_match(rule: UsernameFilterRule, name: Seq<char>) -> Option<ReasonView> {
    match rule {
        UsernameFilterRule::Substring { substrings } => text_reason(substrings@, name),
        UsernameFilterRule::Regex { regexes } => first_reason(regexes@, regex_check(name)),
    }
}

impl UsernameFilterRule {
    /// What this rule finds in a name, if anything.
    pub fn matches(&self, name: &str) -> (r: Option<Reason>)
        ensures
            opt_reason(r) == username_rule_match(*self, name@),
    {
        match self {
            UsernameFilterRule::Substring { substrings } => match_text(substrings, name),
            UsernameFilterRule::Regex { regexes } => first_regex_match(regexes, name),
        }
    }
}

} // verus!
