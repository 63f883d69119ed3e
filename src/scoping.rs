//! Which channels and authors a filter applies to.

use vstd::prelude::*;
use crate::config::{ChannelId, RoleId, Scoping};

verus! {

/// Whether the channel lists of `s` let `channel` through: an include list
/// admits only its channels, else an exclude list admits all but its
/// channels, else every channel is admitted.
pub open spec fn channel_admitted(s: Scoping, channel: ChannelId) -> bool {
    match s.include_channels {
        Some(inc) => inc@.contains(channel),
        None => match s.exclude_channels {
            Some(exc) => !exc@.contains(channel),
            None => true,
        },
    }
}

/// Whether one of the author's roles is excluded by `s`.
pub open spec fn role_excluded(s: Scoping, roles: Seq<RoleId>) -> bool {
    s.exclude_roles matches Some(ex) && exists|i: int| 0 <= i < roles.len() && ex@.contains(#[trigger] roles[i])
}

/// Whether `s` applies to content in `channel` from an author with `roles`.
pub open spec fn scoping_applies(s: Scoping, channel: ChannelId, roles: Seq<RoleId>) -> bool {
    channel_admitted(s, channel) && !role_excluded(s, roles)
}

/// Whether an optional scoping applies: no scoping applies everywhere.
pub open spec fn opt_scoping_applies(s: Option<&Scoping>, channel: ChannelId, roles: Seq<RoleId>) -> bool {
    match s {
        Some(s) => scoping_applies(*s, channel, roles),
        None => true,
    }
}

pub(crate) fn vec_contains(v: &Vec<u64>, x: u64) -> (r: bool)
    ensures
        r == v@.contains(x),
{
    for i in 0..v.len()
        invariant
            forall|j: int| 0 <= j < i ==> v@[j] != x,
    {
        if v[i] == x {
            return true;
        }
    }
    false
}

impl Scoping {
    /// Whether this scoping applies to content in `channel` from an author
    /// with `roles`.
    pub fn applies(&self, channel: ChannelId, roles: &Vec<RoleId>) -> (r: bool)
        ensures
            r == scoping_applies(*self, channel, roles@),
    {
        let admitted = match &self.include_channels {
            Some(inc) => vec_contains(inc, channel),
            None => match &self.exclude_channels {
                Some(exc) => !vec_contains(exc, channel),
                None => true,
            },
        };
        if !admitted {
            return false;
        }
        match &self.exclude_roles {
            Some(ex) => {
                for i in 0..roles.len()
                    invariant
                        self.exclude_roles == Some(*ex),
                        channel_admitted(*self, channel),
                        forall|j: int| 0 <= j < i ==> !ex@.contains(#[trigger] roles@[j]),
                {
                    if vec_contains(ex, roles[i]) {
                        assert(0 <= i < roles@.len() && ex@.contains(roles@[i as int]));
                        assert(role_excluded(*self, roles@));
                        return false;
                    }
                }
                true
            },
            None => true,
        }
    }
}

/// Whether an optional scoping applies; no scoping applies everywhere.
pub fn applies(scoping: Option<&Scoping>, channel: ChannelId, roles: &Vec<RoleId>) -> (r: bool)
    ensures
        r == opt_scoping_applies(scoping, channel, roles@),
{
    match scoping {
        Some(s) => s.applies(channel, roles),
        None => true,
    }
}

} // verus!
