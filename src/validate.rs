//! Load-time validation of a guild policy: every problem is reported.

use vstd::prelude::*;
use crate::config::{GuildConfig, MessageFilter, ReactionFilter, Scoping};

verus! {

/// Where in a policy a scoping stands.
#[derive(PartialEq, Eq, Structural, Clone, Copy, Debug)]
pub enum ScopeSite {
    Default,
    Spam,
    MessageFilter(usize),
    ReactionFilter(usize),
}

/// One problem found in a guild policy.
#[derive(PartialEq, Eq, Structural, Clone, Copy, Debug)]
pub enum ConfigProblem {
    /// `slash_commands.roles` is empty.
    EmptySlashCommandRoles,
    /// A scoping sets both `exclude_channels` and `include_channels`.
    BothChannelLists(ScopeSite),
    /// A scoping sets an empty `exclude_channels`.
    EmptyExcludeChannels(ScopeSite),
    /// A scoping sets an empty `include_channels`.
    EmptyIncludeChannels(ScopeSite),
    /// A scoping sets an empty `exclude_roles`.
    EmptyExcludeRoles(ScopeSite),
    /// `default_actions` is set but empty.
    EmptyDefaultActions,
    /// `notifications.ping_roles` is set but empty.
    EmptyPingRoles,
    /// The spam filter sets an empty `actions`.
    EmptySpamActions,
    /// The spam filter has no actions and the guild has no default actions.
    SpamWithoutActions,
    /// The spam filter sets no threshold.
    NoSpamThresholds,
    /// The username filter has no actions.
    EmptyUsernameActions,
    /// The username filter has no rules.
    EmptyUsernameRules,
    /// `messages` is set but empty.
    EmptyMessageFilters,
    /// A message filter sets an empty `actions`.
    MessageFilterEmptyActions(usize),
    /// A message filter has no actions and the guild has no default actions.
    MessageFilterWithoutActions(usize),
    /// A message filter has no rules.
    MessageFilterWithoutRules(usize),
    /// `reactions` is set but empty.
    EmptyReactionFilters,
    /// A reaction filter sets an empty `actions`.
    ReactionFilterEmptyActions(usize),
    /// A reaction filter has no actions and the guild has no default actions.
    ReactionFilterWithoutActions(usize),
    /// A reaction filter has no rules.
    ReactionFilterWithoutRules(usize),
}

/// Why a guild policy could not be loaded.
pub enum LoadConfigError {
    /// The policy document could not be read.
    IoError(String),
    /// The policy document is not a valid policy.
    DeserializeError(String),
    /// The policy was read but breaks the rules listed.
    ValidateError(Vec<ConfigProblem>),
}

pub open spec fn one_if(cond: bool, p: ConfigProblem) -> Seq<ConfigProblem> {
    if cond {
        seq![p]
    } else {
        seq![]
    }
}

pub open spec fn set_but_empty<T>(o: Option<Vec<T>>) -> bool {
    o matches Some(v) && v.len() == 0
}

/// The problems of one scoping, in the order they are reported.
pub open spec fn scoping_problems(s: Scoping, site: ScopeSite) -> Seq<ConfigProblem> {
    one_if(s.exclude_channels is Some && s.include_channels is Some, ConfigProblem::BothChannelLists(site))
        + one_if(set_but_empty(s.exclude_channels), ConfigProblem::EmptyExcludeChannels(site))
        + one_if(set_but_empty(s.include_channels), ConfigProblem::EmptyIncludeChannels(site))
        + one_if(set_but_empty(s.exclude_roles), ConfigProblem::EmptyExcludeRoles(site))
}

pub open spec fn opt_scoping_problems(s: Option<Scoping>, site: ScopeSite) -> Seq<ConfigProblem> {
    match s {
        Some(s) => scoping_problems(s, site),
        None => seq![],
    }
}

/// Whether the guild has a non-empty list of default actions.
pub open spec fn has_default_actions(g: GuildConfig) -> bool {
    g.default_actions matches Some(a) && a.len() > 0
}

pub open spec fn message_filter_problems(f: MessageFilter, i: usize, has_default: bool) -> Seq<ConfigProblem> {
    one_if(set_but_empty(f.actions), ConfigProblem::MessageFilterEmptyActions(i))
        + one_if(f.actions is None && !has_default, ConfigProblem::MessageFilterWithoutActions(i))
        + opt_scoping_problems(f.scoping, ScopeSite::MessageFilter(i))
        + one_if(f.rules.len() == 0, ConfigProblem::MessageFilterWithoutRules(i))
}

/// The problems of the message filters `fs`, which stand first in the list.
pub open spec fn message_filters_problems(fs: Seq<MessageFilter>, has_default: bool) -> Seq<ConfigProblem>
    decreases fs.len(),
{
    if fs.len() == 0 {
        seq![]
    } else {
        message_filters_problems(fs.drop_last(), has_default)
            + message_filter_problems(fs.last(), (fs.len() - 1) as usize, has_default)
    }
}

pub open spec fn reaction_filter_problems(f: ReactionFilter, i: usize, has_default: bool) -> Seq<ConfigProblem> {
    one_if(set_but_empty(f.actions), ConfigProblem::ReactionFilterEmptyActions(i))
        + one_if(f.actions is None && !has_default, ConfigProblem::ReactionFilterWithoutActions(i))
        + opt_scoping_problems(f.scoping, ScopeSite::ReactionFilter(i))
        + one_if(f.rules.len() == 0, ConfigProblem::ReactionFilterWithoutRules(i))
}

/// The problems of the reaction filters `fs`, which stand first in the list.
pub open spec fn reaction_filters_problems(fs: Seq<ReactionFilter>, has_default: bool) -> Seq<ConfigProblem>
    decreases fs.len(),
{
    if fs.len() == 0 {
        seq![]
    } else {
        reaction_filters_problems(fs.drop_last(), has_default)
            + reaction_filter_problems(fs.last(), (fs.len() - 1) as usize, has_default)
    }
}

pub open spec fn general_problems(g: GuildConfig) -> Seq<ConfigProblem> {
    (match g.slash_commands {
        Some(sc) => one_if(sc.roles.len() == 0, ConfigProblem::EmptySlashCommandRoles),
        None => seq![],
    }) + opt_scoping_problems(g.default_scoping, ScopeSite::Default)
        + one_if(set_but_empty(g.default_actions), ConfigProblem::EmptyDefaultActions)
        + (match g.notifications {
        Some(n) => one_if(set_but_empty(n.ping_roles), ConfigProblem::EmptyPingRoles),
        None => seq![],
    })
}

pub open spec fn spam_problems(g: GuildConfig) -> Seq<ConfigProblem> {
    match g.spam {
        Some(s) => opt_scoping_problems(s.scoping, ScopeSite::Spam)
            + one_if(set_but_empty(s.actions), ConfigProblem::EmptySpamActions)
            + one_if(s.actions is None && !has_default_actions(g), ConfigProblem::SpamWithoutActions)
            + one_if(
            s.emoji is None && s.attachments is None && s.duplicates is None && s.links is None
                && s.spoilers is None && s.mentions is None,
            ConfigProblem::NoSpamThresholds,
        ),
        None => seq![],
    }
}

pub open spec fn username_problems(g: GuildConfig) -> Seq<ConfigProblem> {
    match g.usernames {
        Some(u) => one_if(u.actions.len() == 0, ConfigProblem::EmptyUsernameActions)
            + one_if(u.rules.len() == 0, ConfigProblem::EmptyUsernameRules),
        None => seq![],
    }
}

pub open spec fn filter_list_problems(g: GuildConfig) -> Seq<ConfigProblem> {
    (match g.messages {
        Some(ms) => one_if(ms.len() == 0, ConfigProblem::EmptyMessageFilters)
            + message_filters_problems(ms@, has_default_actions(g)),
        None => seq![],
    }) + (match g.reactions {
        Some(rs) => one_if(rs.len() == 0, ConfigProblem::EmptyReactionFilters)
            + reaction_filters_problems(rs@, has_default_actions(g)),
        None => seq![],
    })
}

/// Every problem of a guild policy, in the order they are reported.
pub open spec fn guild_problems(g: GuildConfig) -> Seq<ConfigProblem> {
    general_problems(g) + spam_problems(g) + username_problems(g) + filter_list_problems(g)
}

fn push_if(errors: &mut Vec<ConfigProblem>, cond: bool, p: ConfigProblem)
    ensures
        final(errors)@ == old(errors)@ + one_if(cond, p),
{
    if cond {
        errors.push(p);
    } else {
        assert(old(errors)@ + one_if(cond, p) =~= old(errors)@);
    }
}

fn is_set_but_empty<T>(o: &Option<Vec<T>>) -> (r: bool)
    ensures
        r == set_but_empty(*o),
{
    match o {
        Some(v) => v.len() == 0,
        None => false,
    }
}

/// Appends the problems of one scoping to `errors`.
pub fn validate_scoping(scoping: &Scoping, site: ScopeSite, errors: &mut Vec<ConfigProblem>)
    ensures
        final(errors)@ == old(errors)@ + scoping_problems(*scoping, site),
{
    let ghost start = errors@;
    push_if(
        errors,
        scoping.exclude_channels.is_some() && scoping.include_channels.is_some(),
        ConfigProblem::BothChannelLists(site),
    );
    push_if(errors, is_set_but_empty(&scoping.exclude_channels), ConfigProblem::EmptyExcludeChannels(site));
    push_if(errors, is_set_but_empty(&scoping.include_channels), ConfigProblem::EmptyIncludeChannels(site));
    push_if(errors, is_set_but_empty(&scoping.exclude_roles), ConfigProblem::EmptyExcludeRoles(site));
    assert(errors@ =~= start + scoping_problems(*scoping, site));
}

fn validate_opt_scoping(scoping: &Option<Scoping>, site: ScopeSite, errors: &mut Vec<ConfigProblem>)
    ensures
        final(errors)@ == old(errors)@ + opt_scoping_problems(*scoping, site),
{
    match scoping {
        Some(s) => validate_scoping(s, site, errors),
        None => {
            assert(errors@ + opt_scoping_problems(*scoping, site) =~= errors@);
        },
    }
}

fn validate_message_filter(f: &MessageFilter, i: usize, has_default: bool, errors: &mut Vec<ConfigProblem>)
    ensures
        final(errors)@ == old(errors)@ + message_filter_problems(*f, i, has_default),
{
    let ghost before = errors@;
    push_if(errors, is_set_but_empty(&f.actions), ConfigProblem::MessageFilterEmptyActions(i));
    push_if(errors, f.actions.is_none() && !has_default, ConfigProblem::MessageFilterWithoutActions(i));
    validate_opt_scoping(&f.scoping, ScopeSite::MessageFilter(i), errors);
    push_if(errors, f.rules.len() == 0, ConfigProblem::MessageFilterWithoutRules(i));
    assert(errors@ =~= before + message_filter_problems(*f, i, has_default));
}

#[verifier::rlimit(40)]
fn validate_message_filters(fs: &Vec<MessageFilter>, has_default: bool, errors: &mut Vec<ConfigProblem>)
    ensures
        final(errors)@ == old(errors)@ + message_filters_problems(fs@, has_default),
{
    let ghost start = errors@;
    assert(fs@.take(0) =~= Seq::<MessageFilter>::empty());
    for i in 0..fs.len()
        invariant
            errors@ == start + message_filters_problems(fs@.take(i as int), has_default),
    {
        validate_message_filter(&fs[i], i, has_default, errors);
        assert(fs@.take(i + 1).drop_last() =~= fs@.take(i as int));
    }
    assert(fs@.take(fs.len() as int) =~= fs@);
}

fn validate_reaction_filter(f: &ReactionFilter, i: usize, has_default: bool, errors: &mut Vec<ConfigProblem>)
    ensures
        final(errors)@ == old(errors)@ + reaction_filter_problems(*f, i, has_default),
{
    let ghost before = errors@;
    push_if(errors, is_set_but_empty(&f.actions), ConfigProblem::ReactionFilterEmptyActions(i));
    push_if(errors, f.actions.is_none() && !has_default, ConfigProblem::ReactionFilterWithoutActions(i));
    validate_opt_scoping(&f.scoping, ScopeSite::ReactionFilter(i), errors);
    push_if(errors, f.rules.len() == 0, ConfigProblem::ReactionFilterWithoutRules(i));
    assert(errors@ =~= before + reaction_filter_problems(*f, i, has_default));
}

#[verifier::rlimit(40)]
fn validate_reaction_filters(fs: &Vec<ReactionFilter>, has_default: bool, errors: &mut Vec<ConfigProblem>)
    ensures
        final(errors)@ == old(errors)@ + reaction_filters_problems(fs@, has_default),
{
    let ghost start = errors@;
    assert(fs@.take(0) =~= Seq::<ReactionFilter>::empty());
    for i in 0..fs.len()
        invariant
            errors@ == start + reaction_filters_problems(fs@.take(i as int), has_default),
    {
        validate_reaction_filter(&fs[i], i, has_default, errors);
        assert(fs@.take(i + 1).drop_last() =~= fs@.take(i as int));
    }
    assert(fs@.take(fs.len() as int) =~= fs@);
}

fn validate_general(guild: &GuildConfig, errors: &mut Vec<ConfigProblem>)
    ensures
        final(errors)@ == old(errors)@ + general_problems(*guild),
{
    let ghost start = errors@;
    match &guild.slash_commands {
        Some(sc) => push_if(errors, sc.roles.len() == 0, ConfigProblem::EmptySlashCommandRoles),
        None => {},
    }
    validate_opt_scoping(&guild.default_scoping, ScopeSite::Default, errors);
    push_if(errors, is_set_but_empty(&guild.default_actions), ConfigProblem::EmptyDefaultActions);
    match &guild.notifications {
        Some(n) => push_if(errors, is_set_but_empty(&n.ping_roles), ConfigProblem::EmptyPingRoles),
        None => {},
    }
    assert(errors@ =~= start + general_problems(*guild));
}

fn validate_spam(guild: &GuildConfig, has_default: bool, errors: &mut Vec<ConfigProblem>)
    requires
        has_default == has_default_actions(*guild),
    ensures
        final(errors)@ == old(errors)@ + spam_problems(*guild),
{
    let ghost start = errors@;
    match &guild.spam {
        Some(s) => {
            validate_opt_scoping(&s.scoping, ScopeSite::Spam, errors);
            push_if(errors, is_set_but_empty(&s.actions), ConfigProblem::EmptySpamActions);
            push_if(errors, s.actions.is_none() && !has_default, ConfigProblem::SpamWithoutActions);
            push_if(
                errors,
                s.emoji.is_none() && s.attachments.is_none() && s.duplicates.is_none()
                    && s.links.is_none() && s.spoilers.is_none() && s.mentions.is_none(),
                ConfigProblem::NoSpamThresholds,
            );
        },
        None => {},
    }
    assert(errors@ =~= start + spam_problems(*guild));
}

fn validate_usernames(guild: &GuildConfig, errors: &mut Vec<ConfigProblem>)
    ensures
        final(errors)@ == old(errors)@ + username_problems(*guild),
{
    let ghost start = errors@;
    match &guild.usernames {
        Some(u) => {
            push_if(errors, u.actions.len() == 0, ConfigProblem::EmptyUsernameActions);
            push_if(errors, u.rules.len() == 0, ConfigProblem::EmptyUsernameRules);
        },
        None => {},
    }
    assert(errors@ =~= start + username_problems(*guild));
}

fn validate_filter_lists(guild: &GuildConfig, has_default: bool, errors: &mut Vec<ConfigProblem>)
    requires
        has_default == has_default_actions(*guild),
    ensures
        final(errors)@ == old(errors)@ + filter_list_problems(*guild),
{
    let ghost start = errors@;
    match &guild.messages {
        Some(ms) => {
            push_if(errors, ms.len() == 0, ConfigProblem::EmptyMessageFilters);
            validate_message_filters(ms, has_default, errors);
        },
        None => {},
    }
    let ghost mid = errors@;
    match &guild.reactions {
        Some(rs) => {
            push_if(errors, rs.len() == 0, ConfigProblem::EmptyReactionFilters);
            validate_reaction_filters(rs, has_default, errors);
        },
        None => {},
    }
    assert(errors@ =~= start + filter_list_problems(*guild));
}

/// Checks a guild policy: `Ok` exactly when it has no problem, else every
/// problem found, in order.
pub fn validate_guild_config(guild: &GuildConfig) -> (r: Result<(), Vec<ConfigProblem>>)
    ensures
        r is Ok <==> guild_problems(*guild).len() == 0,
        r matches Err(es) ==> es@ == guild_problems(*guild),
{
    let mut errors: Vec<ConfigProblem> = Vec::new();
    let has_default = match &guild.default_actions {
        Some(a) => a.len() > 0,
        None => false,
    };
    validate_general(guild, &mut errors);
    validate_spam(guild, has_default, &mut errors);
    validate_usernames(guild, &mut errors);
    validate_filter_lists(guild, has_default, &mut errors);
    assert(errors@ =~= guild_problems(*guild));

    if errors.len() > 0 {
        Err(errors)
    } else {
        Ok(())
    }
}

/// The scoping that stands at a site of a guild policy, if any.
pub open spec fn scoping_at(g: GuildConfig, site: ScopeSite) -> Option<Scoping> {
    match site {
        ScopeSite::Default => g.default_scoping,
        ScopeSite::Spam => match g.spam {
            Some(s) => s.scoping,
            None => None,
        },
        ScopeSite::MessageFilter(i) => match g.messages {
            Some(ms) => if i < ms.len() {
                ms@[i as int].scoping
            } else {
                None
            },
            None => None,
        },
        ScopeSite::ReactionFilter(i) => match g.reactions {
            Some(rs) => if i < rs.len() {
                rs@[i as int].scoping
            } else {
                None
            },
            None => None,
        },
    }
}

proof fn lemma_concat_contains<T>(a: Seq<T>, b: Seq<T>, x: T)
    ensures
        a.contains(x) ==> (a + b).contains(x),
        b.contains(x) ==> (a + b).contains(x),
{
    if a.contains(x) {
        let i = choose|i: int| 0 <= i < a.len() && a[i] == x;
        assert((a + b)[i] == x);
    }
    if b.contains(x) {
        let i = choose|i: int| 0 <= i < b.len() && b[i] == x;
        assert((a + b)[a.len() + i] == x);
    }
}

proof fn lemma_message_filter_reported(fs: Seq<MessageFilter>, hd: bool, i: int, x: ConfigProblem)
    requires
        0 <= i < fs.len(),
        message_filter_problems(fs[i], i as usize, hd).contains(x),
    ensures
        message_filters_problems(fs, hd).contains(x),
    decreases fs.len(),
{
    let p = fs.drop_last();
    if i < fs.len() - 1 {
        assert(p[i] == fs[i]);
        lemma_message_filter_reported(p, hd, i, x);
        lemma_concat_contains(message_filters_problems(p, hd), message_filter_problems(fs.last(), (fs.len() - 1) as usize, hd), x);
    } else {
        lemma_concat_contains(message_filters_problems(p, hd), message_filter_problems(fs.last(), (fs.len() - 1) as usize, hd), x);
    }
}

proof fn lemma_reaction_filter_reported(fs: Seq<ReactionFilter>, hd: bool, i: int, x: ConfigProblem)
    requires
        0 <= i < fs.len(),
        reaction_filter_problems(fs[i], i as usize, hd).contains(x),
    ensures
        reaction_filters_problems(fs, hd).contains(x),
    decreases fs.len(),
{
    let p = fs.drop_last();
    if i < fs.len() - 1 {
        assert(p[i] == fs[i]);
        lemma_reaction_filter_reported(p, hd, i, x);
        lemma_concat_contains(reaction_filters_problems(p, hd), reaction_filter_problems(fs.last(), (fs.len() - 1) as usize, hd), x);
    } else {
        lemma_concat_contains(reaction_filters_problems(p, hd), reaction_filter_problems(fs.last(), (fs.len() - 1) as usize, hd), x);
    }
}

/// Every problem of a scoping, wherever it stands in a policy, is among the
/// problems that validation reports for the policy.
pub proof fn lemma_scoping_problems_reported(g: GuildConfig, site: ScopeSite, x: ConfigProblem)
    requires
        scoping_at(g, site) matches Some(s) && scoping_problems(s, site).contains(x),
    ensures
        guild_problems(g).contains(x),
{
    let s = scoping_at(g, site)->0;
    let gp = general_problems(g);
    let sp = spam_problems(g);
    let up = username_problems(g);
    let fp = filter_list_problems(g);
    match site {
        ScopeSite::Default => {
            let sc = match g.slash_commands {
                Some(sc) => one_if(sc.roles.len() == 0, ConfigProblem::EmptySlashCommandRoles),
                None => seq![],
            };
            let rest1 = one_if(set_but_empty(g.default_actions), ConfigProblem::EmptyDefaultActions);
            let rest2 = match g.notifications {
                Some(n) => one_if(set_but_empty(n.ping_roles), ConfigProblem::EmptyPingRoles),
                None => seq![],
            };
            lemma_concat_contains(sc, opt_scoping_problems(g.default_scoping, site), x);
            lemma_concat_contains(sc + opt_scoping_problems(g.default_scoping, site), rest1, x);
            lemma_concat_contains(sc + opt_scoping_problems(g.default_scoping, site) + rest1, rest2, x);
            assert(gp == sc + opt_scoping_problems(g.default_scoping, site) + rest1 + rest2);
            lemma_concat_contains(gp, sp, x);
            lemma_concat_contains(gp + sp, up, x);
            lemma_concat_contains(gp + sp + up, fp, x);
        },
        ScopeSite::Spam => {
            let sf = g.spam->0;
            let a = opt_scoping_problems(sf.scoping, ScopeSite::Spam);
            let b = one_if(set_but_empty(sf.actions), ConfigProblem::EmptySpamActions);
            let c = one_if(sf.actions is None && !has_default_actions(g), ConfigProblem::SpamWithoutActions);
            let d = one_if(
                sf.emoji is None && sf.attachments is None && sf.duplicates is None && sf.links is None
                    && sf.spoilers is None && sf.mentions is None,
                ConfigProblem::NoSpamThresholds,
            );
            lemma_concat_contains(a, b, x);
            lemma_concat_contains(a + b, c, x);
            lemma_concat_contains(a + b + c, d, x);
            assert(sp == a + b + c + d);
            lemma_concat_contains(gp, sp, x);
            lemma_concat_contains(gp + sp, up, x);
            lemma_concat_contains(gp + sp + up, fp, x);
        },
        ScopeSite::MessageFilter(i) => {
            let ms = g.messages->0;
            let hd = has_default_actions(g);
            let f = ms@[i as int];
            let a = one_if(set_but_empty(f.actions), ConfigProblem::MessageFilterEmptyActions(i));
            let b = one_if(f.actions is None && !hd, ConfigProblem::MessageFilterWithoutActions(i));
            let c = opt_scoping_problems(f.scoping, ScopeSite::MessageFilter(i));
            let d = one_if(f.rules.len() == 0, ConfigProblem::MessageFilterWithoutRules(i));
            lemma_concat_contains(a + b, c, x);
            lemma_concat_contains(a + b + c, d, x);
            assert(message_filter_problems(f, i, hd) == a + b + c + d);
            lemma_message_filter_reported(ms@, hd, i as int, x);
            let e = one_if(ms.len() == 0, ConfigProblem::EmptyMessageFilters);
            lemma_concat_contains(e, message_filters_problems(ms@, hd), x);
            let mp = e + message_filters_problems(ms@, hd);
            let rp = match g.reactions {
                Some(rs) => one_if(rs.len() == 0, ConfigProblem::EmptyReactionFilters)
                    + reaction_filters_problems(rs@, hd),
                None => seq![],
            };
            lemma_concat_contains(mp, rp, x);
            assert(fp == mp + rp);
            lemma_concat_contains(gp + sp + up, fp, x);
        },
        ScopeSite::ReactionFilter(i) => {
            let rs = g.reactions->0;
            let hd = has_default_actions(g);
            let f = rs@[i as int];
            let a = one_if(set_but_empty(f.actions), ConfigProblem::ReactionFilterEmptyActions(i));
            let b = one_if(f.actions is None && !hd, ConfigProblem::ReactionFilterWithoutActions(i));
            let c = opt_scoping_problems(f.scoping, ScopeSite::ReactionFilter(i));
            let d = one_if(f.rules.len() == 0, ConfigProblem::ReactionFilterWithoutRules(i));
            lemma_concat_contains(a + b, c, x);
            lemma_concat_contains(a + b + c, d, x);
            assert(reaction_filter_problems(f, i, hd) == a + b + c + d);
            lemma_reaction_filter_reported(rs@, hd, i as int, x);
            let e = one_if(rs.len() == 0, ConfigProblem::EmptyReactionFilters);
            lemma_concat_contains(e, reaction_filters_problems(rs@, hd), x);
            let rp = e + reaction_filters_problems(rs@, hd);
            let mp = match g.messages {
                Some(ms) => one_if(ms.len() == 0, ConfigProblem::EmptyMessageFilters)
                    + message_filters_problems(ms@, hd),
                None => seq![],
            };
            lemma_concat_contains(mp, rp, x);
            assert(fp == mp + rp);
            lemma_concat_contains(gp + sp + up, fp, x);
        },
    }
}

/// A scoping that sets both channel lists, wherever it stands, makes
/// validation reject the policy.
pub proof fn lemma_both_channel_lists_rejected(g: GuildConfig, site: ScopeSite)
    requires
        scoping_at(g, site) matches Some(s) && s.include_channels is Some && s.exclude_channels is Some,
    ensures
        guild_problems(g).contains(ConfigProblem::BothChannelLists(site)),
        guild_problems(g).len() > 0,
{
    let s = scoping_at(g, site)->0;
    let x = ConfigProblem::BothChannelLists(site);
    let rest = one_if(set_but_empty(s.exclude_channels), ConfigProblem::EmptyExcludeChannels(site))
        + one_if(set_but_empty(s.include_channels), ConfigProblem::EmptyIncludeChannels(site))
        + one_if(set_but_empty(s.exclude_roles), ConfigProblem::EmptyExcludeRoles(site));
    assert(scoping_problems(s, site) =~= seq![x] + rest);
    assert(scoping_problems(s, site)[0] == x);
    lemma_scoping_problems_reported(g, site, x);
}

/// A scoping with an empty `exclude_roles`, wherever it stands, makes
/// validation reject the policy.
pub proof fn lemma_empty_exclude_roles_rejected(g: GuildConfig, site: ScopeSite)
    requires
        scoping_at(g, site) matches Some(s) && s.exclude_roles matches Some(r) && r.len() == 0,
    ensures
        guild_problems(g).contains(ConfigProblem::EmptyExcludeRoles(site)),
        guild_problems(g).len() > 0,
{
    let s = scoping_at(g, site)->0;
    let x = ConfigProblem::EmptyExcludeRoles(site);
    let front = one_if(s.exclude_channels is Some && s.include_channels is Some, ConfigProblem::BothChannelLists(site))
        + one_if(set_but_empty(s.exclude_channels), ConfigProblem::EmptyExcludeChannels(site))
        + one_if(set_but_empty(s.include_channels), ConfigProblem::EmptyIncludeChannels(site));
    assert(scoping_problems(s, site) =~= front + seq![x]);
    assert(scoping_problems(s, site)[front.len() as int] == x);
    lemma_scoping_problems_reported(g, site, x);
}

} // verus!
