//! The policy store and the entry points that evaluate each event.

use vstd::prelude::*;
use crate::actions::{resolve, resolved};
use crate::compile::PatternError;
use crate::config::{
    actions_view, ActionView, ChannelId, GuildConfig, GuildId, MessageFilter, MessageFilterAction, RoleId,
    UsernameFilterAction,
};
use crate::filters::{
    deref_opt, first_violated_message_filter, first_violated_reaction_filter, in_scope, message_filter_check,
    message_rule_check, reaction_filter_check, result_view, scope_of, username_filter_outcome, FilterResult,
};
use crate::pattern::{first_groups_of, pattern_compiles};
use crate::rules::{first_hit, MessageSample, ReactionEmoji, Recognizers, SampleView, INVITE_SOURCE, LINK_SOURCE};
use crate::spam::{
    duplicates, last_of, message_recorded, message_verdict, SignalCounts, SpamDetector, SpamState, SpamViolation,
};
use crate::validate::{guild_problems, validate_guild_config, ConfigProblem};

verus! {

/// A message as it arrives.
pub struct MessageEvent {
    pub guild: GuildId,
    pub channel: ChannelId,
    pub author: u64,
    pub author_roles: Vec<RoleId>,
    pub author_is_bot: bool,
    /// How many users and roles the message mentions.
    pub mentions: usize,
    pub sample: MessageSample,
}

/// A reaction as it arrives.
pub struct ReactionEvent {
    pub guild: GuildId,
    pub channel: ChannelId,
    pub author: u64,
    pub author_roles: Vec<RoleId>,
    pub author_is_bot: bool,
    pub emoji: ReactionEmoji,
}

/// A change of a member's name.
pub struct UsernameEvent {
    pub guild: GuildId,
    pub user: u64,
    pub new_name: String,
}

/// One guild's policy in the store.
pub struct GuildEntry {
    pub guild: GuildId,
    pub config: GuildConfig,
}

/// The policy of a guild in the store, if it has one.
pub open spec fn policy_of(s: Seq<GuildEntry>, guild: GuildId) -> Option<GuildConfig>
    decreases s.len(),
{
    if s.len() == 0 {
        None
    } else if s[0].guild == guild {
        Some(s[0].config)
    } else {
        policy_of(s.drop_first(), guild)
    }
}

proof fn lemma_policy_at(s: Seq<GuildEntry>, i: int, guild: GuildId)
    requires
        0 <= i < s.len(),
        s[i].guild == guild,
        forall|j: int| 0 <= j < i ==> s[j].guild != guild,
    ensures
        policy_of(s, guild) == Some(s[i].config),
    decreases i,
{
    if i > 0 {
        lemma_policy_at(s.drop_first(), i - 1, guild);
    }
}

proof fn lemma_policy_none(s: Seq<GuildEntry>, guild: GuildId)
    requires
        forall|j: int| 0 <= j < s.len() ==> s[j].guild != guild,
    ensures
        policy_of(s, guild) is None,
    decreases s.len(),
{
    if s.len() > 0 {
        lemma_policy_none(s.drop_first(), guild);
    }
}

proof fn lemma_policy_update(s: Seq<GuildEntry>, i: int, e: GuildEntry, guild: GuildId)
    requires
        0 <= i < s.len(),
        s[i].guild == e.guild,
        forall|j: int| 0 <= j < i ==> s[j].guild != e.guild,
    ensures
        policy_of(s.update(i, e), guild) == if guild == e.guild {
            Some(e.config)
        } else {
            policy_of(s, guild)
        },
    decreases i,
{
    let u = s.update(i, e);
    if i > 0 {
        assert(u.drop_first() =~= s.drop_first().update(i - 1, e));
        assert(u[0] == s[0]);
        assert forall|j: int| 0 <= j < i - 1 implies #[trigger] s.drop_first()[j].guild != e.guild by {
            assert(s.drop_first()[j] == s[j + 1]);
        }
        lemma_policy_update(s.drop_first(), i - 1, e, guild);
    } else {
        assert(u[0] == e);
        assert(u.drop_first() =~= s.drop_first());
    }
}

proof fn lemma_policy_push(s: Seq<GuildEntry>, e: GuildEntry, guild: GuildId)
    requires
        policy_of(s, e.guild) is None,
    ensures
        policy_of(s.push(e), guild) == if guild == e.guild {
            Some(e.config)
        } else {
            policy_of(s, guild)
        },
    decreases s.len(),
{
    if s.len() > 0 {
        assert(s.push(e).drop_first() =~= s.drop_first().push(e));
        assert(s.push(e)[0] == s[0]);
        lemma_policy_push(s.drop_first(), e, guild);
    } else {
        assert(s.push(e)[0] == e);
        assert(s.push(e).drop_first() =~= s);
    }
}

/// The message filters of a guild, in order.
pub open spec fn message_filters_of(g: GuildConfig) -> Seq<MessageFilter> {
    match g.messages {
        Some(v) => v@,
        None => seq![],
    }
}

pub open spec fn opt_vec_actions(o: Option<Vec<MessageFilterAction>>) -> Option<Seq<ActionView>> {
    match o {
        Some(v) => Some(actions_view(v@)),
        None => None,
    }
}

/// Whether a guild's policy evaluates content from this author at all.
pub open spec fn evaluates_author(g: GuildConfig, is_bot: bool) -> bool {
    !is_bot || g.include_bots
}

/// Whether the guild's spam filter applies to a message.
pub open spec fn spam_applies(g: GuildConfig, ev: MessageEvent) -> bool {
    g.spam matches Some(sf) && in_scope(scope_of(sf.scoping, g.default_scoping), ev.channel, ev.author_roles@)
}

/// How many `||` pairs open or close spoilers in `t`, read from the front.
pub open spec fn spoiler_marks(t: Seq<char>) -> nat
    decreases t.len(),
{
    if t.len() < 2 {
        0
    } else if t[0] == '|' && t[1] == '|' {
        1 + spoiler_marks(t.skip(2))
    } else {
        spoiler_marks(t.skip(1))
    }
}

/// The spam signals a message carries, duplicates aside.
pub open spec fn signal_counts(ev: MessageEvent, rec: Recognizers) -> SignalCounts {
    SignalCounts {
        emoji: ev.sample.emoji_names.len(),
        links: first_groups_of(rec.link@, ev.sample.text@).len() as usize,
        attachments: ev.sample.mime_types.len(),
        spoilers: (spoiler_marks(ev.sample.text@) / 2) as usize,
        mentions: ev.mentions,
    }
}

/// The actions for a message: those of the first message filter that it
/// violates, else, where the spam check reported, those of the spam filter.
pub open spec fn message_actions(
    g: GuildConfig,
    ev: MessageEvent,
    rec: Recognizers,
    armed: bool,
    spam: Option<SpamViolation>,
) -> Seq<ActionView> {
    match first_hit(
        message_filters_of(g),
        message_filter_check(ev.sample@, rec, ev.channel, ev.author_roles@, g.default_scoping),
    ) {
        Some((i, _)) => resolved(
            opt_vec_actions(message_filters_of(g)[i as int].actions),
            opt_vec_actions(g.default_actions),
            armed,
        ),
        None => match (spam, g.spam) {
            (Some(_), Some(sf)) => resolved(opt_vec_actions(sf.actions), opt_vec_actions(g.default_actions), armed),
            _ => seq![],
        },
    }
}

/// The actions for a reaction: those of the first reaction filter that it
/// violates.
pub open spec fn reaction_actions(g: GuildConfig, ev: ReactionEvent, armed: bool) -> Seq<ActionView> {
    let filters = match g.reactions {
        Some(v) => v@,
        None => seq![],
    };
    match first_hit(filters, reaction_filter_check(ev.emoji, ev.channel, ev.author_roles@, g.default_scoping)) {
        Some((i, _)) => resolved(opt_vec_actions(filters[i as int].actions), opt_vec_actions(g.default_actions), armed),
        None => seq![],
    }
}

/// The actions for a new name: those of the username filter where a rule
/// matches the name.
pub open spec fn username_actions(g: GuildConfig, name: Seq<char>) -> Seq<(ChannelId, Seq<char>)> {
    match g.usernames {
        Some(u) => if username_filter_outcome(u, name) is Some {
            u.actions@.map_values(|a: UsernameFilterAction| a@)
        } else {
            seq![]
        },
        None => seq![],
    }
}

fn count_spoiler_marks(t: &Vec<char>) -> (r: usize)
    ensures
        r == spoiler_marks(t@),
{
    let mut i: usize = 0;
    let mut n: usize = 0;
    assert(t@.skip(0) =~= t@);
    while i < t.len() && t.len() - i >= 2
        invariant
            i <= t.len(),
            n + spoiler_marks(t@.skip(i as int)) == spoiler_marks(t@),
            n <= i,
        decreases t.len() - i,
    {
        assert(t@.skip(i as int)[0] == t@[i as int] && t@.skip(i as int)[1] == t@[i + 1]);
        if t[i] == '|' && t[i + 1] == '|' {
            assert(t@.skip(i as int).skip(2) =~= t@.skip(i + 2));
            n = n + 1;
            i = i + 2;
        } else {
            assert(t@.skip(i as int).skip(1) =~= t@.skip(i + 1));
            i = i + 1;
        }
    }
    n
}

fn copy_actions(actions: &Vec<UsernameFilterAction>) -> (r: Vec<UsernameFilterAction>)
    ensures
        r@.map_values(|a: UsernameFilterAction| a@) == actions@.map_values(|a: UsernameFilterAction| a@),
{
    let mut out: Vec<UsernameFilterAction> = Vec::new();
    for i in 0..actions.len()
        invariant
            out@.len() == i,
            forall|j: int| 0 <= j < i ==> out@[j]@ == actions@[j]@,
    {
        out.push(actions[i].duplicate());
    }
    assert(out@.map_values(|a: UsernameFilterAction| a@) =~= actions@.map_values(|a: UsernameFilterAction| a@));
    out
}

/// The process-wide state: each guild's policy, the armed switch, and the
/// spam windows.
pub struct Engine {
    pub policies: Vec<GuildEntry>,
    pub armed: bool,
    pub spam: SpamDetector,
    pub recognizers: Recognizers,
}

impl Engine {
    /// Every stored policy passed validation.
    pub open spec fn wf(&self) -> bool {
        forall|j: int| 0 <= j < self.policies@.len() ==> guild_problems(#[trigger] self.policies@[j].config).len() == 0
    }

    /// An engine with no policy and no spam history.
    pub fn new(armed: bool) -> (r: Result<Engine, PatternError>)
        ensures
            r is Ok <==> pattern_compiles(INVITE_SOURCE@) && pattern_compiles(LINK_SOURCE@),
            r matches Ok(e) ==> e.policies@.len() == 0 && e.armed == armed && e.spam@.entries.len() == 0
                && e.spam@.last.len() == 0 && e.recognizers.invite@ == INVITE_SOURCE@
                && e.recognizers.link@ == LINK_SOURCE@ && e.wf(),
    {
        let recognizers = match Recognizers::new() {
            Ok(rec) => rec,
            Err(e) => {
                return Err(e);
            },
        };
        Ok(Engine { policies: Vec::new(), armed, spam: SpamDetector::new(), recognizers })
    }

    /// Arms the engine: messages that require arming are sent again.
    pub fn arm(&mut self)
        ensures
            final(self).armed,
            final(self).policies@ == old(self).policies@,
            final(self).spam@ == old(self).spam@,
    {
        self.armed = true;
    }

    /// Disarms the engine: messages that require arming are held back.
    pub fn disarm(&mut self)
        ensures
            !final(self).armed,
            final(self).policies@ == old(self).policies@,
            final(self).spam@ == old(self).spam@,
    {
        self.armed = false;
    }

    fn find(&self, guild: GuildId) -> (r: Option<usize>)
        ensures
            r matches Some(i) ==> i < self.policies@.len() && self.policies@[i as int].guild == guild
                && forall|j: int| 0 <= j < i ==> self.policies@[j].guild != guild,
            r is None ==> forall|j: int| 0 <= j < self.policies@.len() ==> self.policies@[j].guild != guild,
    {
        for i in 0..self.policies.len()
            invariant
                forall|j: int| 0 <= j < i ==> self.policies@[j].guild != guild,
        {
            if self.policies[i].guild == guild {
                return Some(i);
            }
        }
        None
    }

    /// The policy of a guild, if it has one.
    pub fn policy(&self, guild: GuildId) -> (r: Option<&GuildConfig>)
        ensures
            deref_config(r) == policy_of(self.policies@, guild),
    {
        match self.find(guild) {
            Some(i) => {
                proof {
                    lemma_policy_at(self.policies@, i as int, guild);
                }
                Some(&self.policies[i].config)
            },
            None => {
                proof {
                    lemma_policy_none(self.policies@, guild);
                }
                None
            },
        }
    }

    /// Installs a guild's policy if it validates, replacing the one before;
    /// otherwise reports every problem and keeps the store as it was.
    pub fn reload(&mut self, guild: GuildId, config: GuildConfig) -> (r: Result<(), Vec<ConfigProblem>>)
        requires
            old(self).wf(),
        ensures
            final(self).wf(),
            r is Ok <==> guild_problems(config).len() == 0,
            r matches Err(es) ==> es@ == guild_problems(config),
            r is Ok ==> forall|g: GuildId|
                #[trigger] policy_of(final(self).policies@, g) == if g == guild {
                    Some(config)
                } else {
                    policy_of(old(self).policies@, g)
                },
            r is Err ==> final(self).policies@ == old(self).policies@,
            final(self).armed == old(self).armed,
            final(self).spam@ == old(self).spam@,
    {
        match validate_guild_config(&config) {
            Err(es) => Err(es),
            Ok(()) => {
                let ghost old_policies = self.policies@;
                let entry = GuildEntry { guild, config };
                let ghost e = entry;
                match self.find(guild) {
                    Some(i) => {
                        self.policies.set(i, entry);
                        proof {
                            assert forall|j: int| 0 <= j < self.policies@.len() implies guild_problems(#[trigger] self.policies@[j].config).len() == 0 by {
                                if j != i {
                                    assert(self.policies@[j] == old_policies[j]);
                                }
                            }
                            assert forall|g: GuildId|
                                #[trigger] policy_of(self.policies@, g) == if g == guild {
                                    Some(config)
                                } else {
                                    policy_of(old_policies, g)
                                } by {
                                lemma_policy_update(old_policies, i as int, e, g);
                            }
                        }
                    },
                    None => {
                        proof {
                            lemma_policy_none(old_policies, guild);
                        }
                        self.policies.push(entry);
                        proof {
                            assert forall|j: int| 0 <= j < self.policies@.len() implies guild_problems(#[trigger] self.policies@[j].config).len() == 0 by {
                                if j < old_policies.len() {
                                    assert(self.policies@[j] == old_policies[j]);
                                }
                            }
                            assert forall|g: GuildId|
                                #[trigger] policy_of(self.policies@, g) == if g == guild {
                                    Some(config)
                                } else {
                                    policy_of(old_policies, g)
                                } by {
                                lemma_policy_push(old_policies, e, g);
                            }
                        }
                    },
                }
                Ok(())
            },
        }
    }

    /// Evaluates a message at time `now`: the spam filter, where it applies,
    /// records the message; the actions are those of the first violated
    /// message filter, else those of the spam filter where it reported.
    pub fn on_message(&mut self, ev: &MessageEvent, now: u64) -> (r: Vec<MessageFilterAction>)
        ensures
            final(self).policies@ == old(self).policies@,
            final(self).armed == old(self).armed,
            match policy_of(old(self).policies@, ev.guild) {
                Some(g) => if evaluates_author(g, ev.author_is_bot) {
                    &&& (spam_applies(g, *ev) ==> final(self).spam@.entries == message_recorded(
                        old(self).spam@.entries,
                        ev.guild,
                        ev.author,
                        signal_counts(*ev, old(self).recognizers),
                        duplicates(
                            last_of(old(self).spam@.last, ev.guild, ev.author),
                            ev.sample.text@,
                            now,
                            g.spam->0.interval,
                        ),
                        now,
                        g.spam->0.interval,
                    ))
                    &&& (!spam_applies(g, *ev) ==> final(self).spam@ == old(self).spam@)
                    &&& actions_view(r@) == message_actions(
                        g,
                        *ev,
                        old(self).recognizers,
                        old(self).armed,
                        if spam_applies(g, *ev) {
                            message_verdict(final(self).spam@.entries, ev.guild, ev.author, g.spam->0)
                        } else {
                            None
                        },
                    )
                } else {
                    r@.len() == 0 && final(self).spam@ == old(self).spam@
                },
                None => r@.len() == 0 && final(self).spam@ == old(self).spam@,
            },
    {
        let idx = match self.find(ev.guild) {
            Some(i) => i,
            None => {
                proof {
                    lemma_policy_none(self.policies@, ev.guild);
                }
                return Vec::new();
            },
        };
        proof {
            lemma_policy_at(self.policies@, idx as int, ev.guild);
        }
        let g = &self.policies[idx].config;
        if ev.author_is_bot && !g.include_bots {
            return Vec::new();
        }
        let spam_hit = match &g.spam {
            Some(sf) => {
                let scoping = match &sf.scoping {
                    Some(s) => Some(s),
                    None => g.default_scoping.as_ref(),
                };
                if crate::scoping::applies(scoping, ev.channel, &ev.author_roles) {
                    let text = ev.sample.text.as_str();
                    let links = self.recognizers.link.first_groups(text);
                    let chars = crate::text::chars_of(text);
                    let counts = SignalCounts {
                        emoji: ev.sample.emoji_names.len(),
                        links: links.len(),
                        attachments: ev.sample.mime_types.len(),
                        spoilers: count_spoiler_marks(&chars) / 2,
                        mentions: ev.mentions,
                    };
                    self.spam.record_message(ev.guild, ev.author, &ev.sample.text, &counts, now, sf)
                } else {
                    None
                }
            },
            None => None,
        };
        let defaults = g.default_actions.as_ref();
        match &g.messages {
            Some(filters) => {
                match first_violated_message_filter(
                    filters,
                    &ev.sample,
                    &self.recognizers,
                    ev.channel,
                    &ev.author_roles,
                    g.default_scoping.as_ref(),
                ) {
                    Some((i, _)) => {
                        proof {
                            crate::rules::lemma_first_hit_index(
                                filters@,
                                message_filter_check(ev.sample@, self.recognizers, ev.channel, ev.author_roles@, g.default_scoping),
                            );
                        }
                        return resolve(filters[i].actions.as_ref(), defaults, self.armed);
                    },
                    None => {},
                }
            },
            None => {},
        }
        match (&spam_hit, &g.spam) {
            (Some(_), Some(sf)) => resolve(sf.actions.as_ref(), defaults, self.armed),
            _ => Vec::new(),
        }
    }

    /// Evaluates a reaction: the actions of the first violated reaction
    /// filter.
    pub fn on_reaction(&self, ev: &ReactionEvent) -> (r: Vec<MessageFilterAction>)
        ensures
            match policy_of(self.policies@, ev.guild) {
                Some(g) => if evaluates_author(g, ev.author_is_bot) {
                    actions_view(r@) == reaction_actions(g, *ev, self.armed)
                } else {
                    r@.len() == 0
                },
                None => r@.len() == 0,
            },
    {
        let g = match self.policy(ev.guild) {
            Some(g) => g,
            None => {
                return Vec::new();
            },
        };
        if ev.author_is_bot && !g.include_bots {
            return Vec::new();
        }
        match &g.reactions {
            Some(filters) => match first_violated_reaction_filter(
                filters,
                &ev.emoji,
                ev.channel,
                &ev.author_roles,
                g.default_scoping.as_ref(),
            ) {
                Some((i, _)) => {
                    proof {
                        crate::rules::lemma_first_hit_index(
                            filters@,
                            reaction_filter_check(ev.emoji, ev.channel, ev.author_roles@, g.default_scoping),
                        );
                    }
                    resolve(filters[i].actions.as_ref(), g.default_actions.as_ref(), self.armed)
                },
                None => Vec::new(),
            },
            None => {
                assert(actions_view(Seq::<MessageFilterAction>::empty()) =~= Seq::<ActionView>::empty());
                Vec::new()
            },
        }
    }

    /// Evaluates a new name: the username filter's actions where one of its
    /// rules matches.
    pub fn on_username_change(&self, ev: &UsernameEvent) -> (r: Vec<UsernameFilterAction>)
        ensures
            r@.map_values(|a: UsernameFilterAction| a@) == match policy_of(self.policies@, ev.guild) {
                Some(g) => username_actions(g, ev.new_name@),
                None => seq![],
            },
    {
        let empty: Vec<UsernameFilterAction> = Vec::new();
        assert(empty@.map_values(|a: UsernameFilterAction| a@) =~= Seq::<(ChannelId, Seq<char>)>::empty());
        let g = match self.policy(ev.guild) {
            Some(g) => g,
            None => {
                return empty;
            },
        };
        match &g.usernames {
            Some(u) => match u.evaluate(ev.new_name.as_str()) {
                FilterResult::Violated { .. } => copy_actions(&u.actions),
                FilterResult::Clean => empty,
            },
            None => empty,
        }
    }

    /// Runs every message filter of a guild on a text, wherever it would be
    /// posted, and reports each filter's outcome in order.
    pub fn test_text(&self, guild: GuildId, text: &String) -> (r: Vec<FilterResult>)
        ensures
            match policy_of(self.policies@, guild) {
                Some(g) => {
                    &&& r@.len() == message_filters_of(g).len()
                    &&& forall|i: int|
                        0 <= i < r@.len() ==> result_view(#[trigger] r@[i]) == first_hit(
                            message_filters_of(g)[i].rules@,
                            message_rule_check(text_sample(text@), self.recognizers),
                        )
                },
                None => r@.len() == 0,
            },
    {
        let mut out: Vec<FilterResult> = Vec::new();
        let g = match self.policy(guild) {
            Some(g) => g,
            None => {
                return out;
            },
        };
        let sample = MessageSample {
            text: text.clone(),
            mime_types: Vec::new(),
            sticker_ids: Vec::new(),
            sticker_names: Vec::new(),
            emoji_names: Vec::new(),
        };
        assert(sample@ =~= text_sample(text@));
        match &g.messages {
            Some(filters) => {
                for i in 0..filters.len()
                    invariant
                        sample@ == text_sample(text@),
                        out@.len() == i,
                        forall|j: int|
                            0 <= j < i ==> result_view(#[trigger] out@[j]) == first_hit(
                                filters@[j].rules@,
                                message_rule_check(sample@, self.recognizers),
                            ),
                {
                    out.push(filters[i].evaluate_rules(&sample, &self.recognizers));
                }
                out
            },
            None => out,
        }
    }
}

/// A message that holds only a text.
pub open spec fn text_sample(text: Seq<char>) -> SampleView {
    SampleView { text, mime_types: seq![], sticker_ids: seq![], sticker_names: seq![], emoji_names: seq![] }
}

pub open spec fn deref_config(o: Option<&GuildConfig>) -> Option<GuildConfig> {
    match o {
        Some(g) => Some(*g),
        None => None,
    }
}

} // verus!
