//! Evaluating one filter, and finding the first violated filter of a list.

use vstd::prelude::*;
use crate::config::{ChannelId, MessageFilter, ReactionFilter, RoleId, Scoping, UsernameFilter};
use crate::rules::{
    first_hit, lemma_first_hit, message_rule_match, opt_reason, reaction_rule_match, username_rule_match,
    MessageSample, ReactionEmoji, Reason, ReasonView, Recognizers, SampleView,
};
use crate::scoping::{applies, scoping_applies};

verus! {

/// The outcome of one filter.
pub enum FilterResult {
    /// No rule matched, or the filter does not apply here.
    Clean,
    /// The rule at `rule_index` matched first, for `reason`.
    Violated { rule_index: usize, reason: Reason },
}

pub open spec fn result_view(r: FilterResult) -> Option<(nat, ReasonView)> {
    match r {
        FilterResult::Clean => None,
        FilterResult::Violated { rule_index, reason } => Some((rule_index as nat, reason@)),
    }
}

pub open spec fn deref_opt(o: Option<&Scoping>) -> Option<Scoping> {
    match o {
        Some(s) => Some(*s),
        None => None,
    }
}

/// The scoping that governs a filter: its own, else the guild's default.
pub open spec fn scope_of(own: Option<Scoping>, default: Option<Scoping>) -> Option<Scoping> {
    match own {
        Some(s) => Some(s),
        None => default,
    }
}

/// Whether an optional scoping admits a channel and author; none admits all.
pub open spec fn in_scope(s: Option<Scoping>, channel: ChannelId, roles: Seq<RoleId>) -> bool {
    match s {
        Some(s) => scoping_applies(s, channel, roles),
        None => true,
    }
}

pub open spec fn message_rule_check(sample: SampleView, rec: Recognizers) -> spec_fn(crate::config::MessageFilterRule) -> Option<ReasonView> {
    |r: crate::config::MessageFilterRule| message_rule_match(r, sample, rec)
}

/// The outcome of a message filter: out of scope it is clean, else the
/// first rule that matches, in order, decides.
pub open spec fn message_filter_outcome(
    f: MessageFilter,
    sample: SampleView,
    rec: Recognizers,
    channel: ChannelId,
    roles: Seq<RoleId>,
    default: Option<Scoping>,
) -> Option<(nat, ReasonView)> {
    if in_scope(scope_of(f.scoping, default), channel, roles) {
        first_hit(f.rules@, message_rule_check(sample, rec))
    } else {
        None
    }
}

pub open spec fn reaction_rule_check(emoji: ReactionEmoji) -> spec_fn(crate::config::ReactionFilterRule) -> Option<ReasonView> {
    |r: crate::config::ReactionFilterRule| reaction_rule_match(r, emoji)
}

/// The outcome of a reaction filter, as for a message filter.
pub open spec fn reaction_filter_outcome(
    f: ReactionFilter,
    emoji: ReactionEmoji,
    channel: ChannelId,
    roles: Seq<RoleId>,
    default: Option<Scoping>,
) -> Option<(nat, ReasonView)> {
    if in_scope(scope_of(f.scoping, default), channel, roles) {
        first_hit(f.rules@, reaction_rule_check(emoji))
    } else {
        None
    }
}

pub open spec fn username_rule_check(name: Seq<char>) -> spec_fn(crate::config::UsernameFilterRule) -> Option<ReasonView> {
    |r: crate::config::UsernameFilterRule| username_rule_match(r, name)
}

/// The outcome of the username filter: the first rule that matches.
pub open spec fn username_filter_outcome(f: UsernameFilter, name: Seq<char>) -> Option<(nat, ReasonView)> {
    first_hit(f.rules@, username_rule_check(name))
}

fn in_scope_exec(own: Option<&Scoping>, default: Option<&Scoping>, channel: ChannelId, roles: &Vec<RoleId>) -> (r: bool)
    ensures
        r == in_scope(scope_of(deref_opt(own), deref_opt(default)), channel, roles@),
{
    match own {
        Some(s) => applies(Some(s), channel, roles),
        None => applies(default, channel, roles),
    }
}

impl MessageFilter {
    /// Evaluates this filter on a message in `channel` from an author with
    /// `roles`; `default_scoping` is the guild's.
    pub fn evaluate(
        &self,
        sample: &MessageSample,
        rec: &Recognizers,
        channel: ChannelId,
        roles: &Vec<RoleId>,
        default_scoping: Option<&Scoping>,
    ) -> (r: FilterResult)
        ensures
            result_view(r) == message_filter_outcome(*self, sample@, *rec, channel, roles@, deref_opt(default_scoping)),
    {
        if !in_scope_exec(self.scoping.as_ref(), default_scoping, channel, roles) {
            return FilterResult::Clean;
        }
        self.evaluate_rules(sample, rec)
    }

    /// Runs this filter's rules on a message, wherever it was posted.
    pub fn evaluate_rules(&self, sample: &MessageSample, rec: &Recognizers) -> (r: FilterResult)
        ensures
            result_view(r) == first_hit(self.rules@, message_rule_check(sample@, *rec)),
    {
        let ghost f = message_rule_check(sample@, *rec);
        for i in 0..self.rules.len()
            invariant
                f == message_rule_check(sample@, *rec),
                forall|j: int| 0 <= j < i ==> f(#[trigger] self.rules@[j]) is None,
        {
            match self.rules[i].matches(sample, rec) {
                Some(reason) => {
                    proof {
                        lemma_first_hit(self.rules@, f, i as int);
                    }
                    return FilterResult::Violated { rule_index: i, reason };
                },
                None => {},
            }
        }
        proof {
            lemma_first_hit(self.rules@, f, self.rules@.len() as int);
        }
        FilterResult::Clean
    }
}

impl ReactionFilter {
    /// Evaluates this filter on a reaction in `channel` from an author with
    /// `roles`; `default_scoping` is the guild's.
    pub fn evaluate(
        &self,
        emoji: &ReactionEmoji,
        channel: ChannelId,
        roles: &Vec<RoleId>,
        default_scoping: Option<&Scoping>,
    ) -> (r: FilterResult)
        ensures
            result_view(r) == reaction_filter_outcome(*self, *emoji, channel, roles@, deref_opt(default_scoping)),
    {
        if !in_scope_exec(self.scoping.as_ref(), default_scoping, channel, roles) {
            return FilterResult::Clean;
        }
        let ghost f = reaction_rule_check(*emoji);
        for i in 0..self.rules.len()
            invariant
                f == reaction_rule_check(*emoji),
                in_scope(scope_of(self.scoping, deref_opt(default_scoping)), channel, roles@),
                forall|j: int| 0 <= j < i ==> f(#[trigger] self.rules@[j]) is None,
        {
            match self.rules[i].matches(emoji) {
                Some(reason) => {
                    proof {
                        lemma_first_hit(self.rules@, f, i as int);
                    }
                    return FilterResult::Violated { rule_index: i, reason };
                },
                None => {},
            }
        }
        proof {
            lemma_first_hit(self.rules@, f, self.rules@.len() as int);
        }
        FilterResult::Clean
    }
}

impl UsernameFilter {
    /// Evaluates this filter on a name.
    pub fn evaluate(&self, name: &str) -> (r: FilterResult)
        ensures
            result_view(r) == username_filter_outcome(*self, name@),
    {
        let ghost f = username_rule_check(name@);
        for i in 0..self.rules.len()
            invariant
                f == username_rule_check(name@),
                forall|j: int| 0 <= j < i ==> f(#[trigger] self.rules@[j]) is None,
        {
            match self.rules[i].matches(name) {
                Some(reason) => {
                    proof {
                        lemma_first_hit(self.rules@, f, i as int);
                    }
                    return FilterResult::Violated { rule_index: i, reason };
                },
                None => {},
            }
        }
        proof {
            lemma_first_hit(self.rules@, f, self.rules@.len() as int);
        }
        FilterResult::Clean
    }
}

pub open spec fn outcome_reason(o: Option<(nat, ReasonView)>) -> Option<ReasonView> {
    match o {
        Some((_, r)) => Some(r),
        None => None,
    }
}

pub open spec fn message_filter_check(
    sample: SampleView,
    rec: Recognizers,
    channel: ChannelId,
    roles: Seq<RoleId>,
    default: Option<Scoping>,
) -> spec_fn(MessageFilter) -> Option<ReasonView> {
    |f: MessageFilter| outcome_reason(message_filter_outcome(f, sample, rec, channel, roles, default))
}

pub open spec fn reaction_filter_check(
    emoji: ReactionEmoji,
    channel: ChannelId,
    roles: Seq<RoleId>,
    default: Option<Scoping>,
) -> spec_fn(ReactionFilter) -> Option<ReasonView> {
    |f: ReactionFilter| outcome_reason(reaction_filter_outcome(f, emoji, channel, roles, default))
}

pub open spec fn opt_hit(r: Option<(usize, Reason)>) -> Option<(nat, ReasonView)> {
    match r {
        Some((i, reason)) => Some((i as nat, reason@)),
        None => None,
    }
}

/// The first message filter of the list that the message violates, with
/// the reason; later filters are not evaluated.
pub fn first_violated_message_filter(
    filters: &Vec<MessageFilter>,
    sample: &MessageSample,
    rec: &Recognizers,
    channel: ChannelId,
    roles: &Vec<RoleId>,
    default_scoping: Option<&Scoping>,
) -> (r: Option<(usize, Reason)>)
    ensures
        opt_hit(r) == first_hit(filters@, message_filter_check(sample@, *rec, channel, roles@, deref_opt(default_scoping))),
{
    let ghost f = message_filter_check(sample@, *rec, channel, roles@, deref_opt(default_scoping));
    for i in 0..filters.len()
        invariant
            f == message_filter_check(sample@, *rec, channel, roles@, deref_opt(default_scoping)),
            forall|j: int| 0 <= j < i ==> f(#[trigger] filters@[j]) is None,
    {
        match filters[i].evaluate(sample, rec, channel, roles, default_scoping) {
            FilterResult::Violated { reason, .. } => {
                proof {
                    lemma_first_hit(filters@, f, i as int);
                }
                return Some((i, reason));
            },
            FilterResult::Clean => {},
        }
    }
    proof {
        lemma_first_hit(filters@, f, filters@.len() as int);
    }
    None
}

/// The first reaction filter of the list that the reaction violates.
pub fn first_violated_reaction_filter(
    filters: &Vec<ReactionFilter>,
    emoji: &ReactionEmoji,
    channel: ChannelId,
    roles: &Vec<RoleId>,
    default_scoping: Option<&Scoping>,
) -> (r: Option<(usize, Reason)>)
    ensures
        opt_hit(r) == first_hit(filters@, reaction_filter_check(*emoji, channel, roles@, deref_opt(default_scoping))),
{
    let ghost f = reaction_filter_check(*emoji, channel, roles@, deref_opt(default_scoping));
    for i in 0..filters.len()
        invariant
            f == reaction_filter_check(*emoji, channel, roles@, deref_opt(default_scoping)),
            forall|j: int| 0 <= j < i ==> f(#[trigger] filters@[j]) is None,
    {
        match filters[i].evaluate(emoji, channel, roles, default_scoping) {
            FilterResult::Violated { reason, .. } => {
                proof {
                    lemma_first_hit(filters@, f, i as int);
                }
                return Some((i, reason));
            },
            FilterResult::Clean => {},
        }
    }
    proof {
        lemma_first_hit(filters@, f, filters@.len() as int);
    }
    None
}

} // verus!
