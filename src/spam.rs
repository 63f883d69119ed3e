//! Sliding-window spam detection, per guild and author.

use vstd::prelude::*;
use crate::config::{GuildId, SpamFilter};

verus! {

/// A kind of signal that counts towards spam.
#[derive(PartialEq, Eq, Structural, Clone, Copy, Debug)]
pub enum SpamSignal {
    Emoji,
    Duplicate,
    Link,
    Attachment,
    Spoiler,
    Mention,
}

/// One signal seen from an author, at a time in seconds.
#[derive(PartialEq, Eq, Structural, Clone, Copy, Debug)]
pub struct SpamEntry {
    pub guild: GuildId,
    pub author: u64,
    pub signal: SpamSignal,
    pub at: u64,
}

/// A threshold that was met: which signal, and how many were counted.
#[derive(PartialEq, Eq, Structural, Clone, Copy, Debug)]
pub struct SpamViolation {
    pub signal: SpamSignal,
    pub count: usize,
}

/// An author's most recent message.
pub struct LastMessage {
    pub guild: GuildId,
    pub author: u64,
    pub at: u64,
    pub content: String,
}

pub ghost struct LastMessageView {
    pub guild: GuildId,
    pub author: u64,
    pub at: u64,
    pub content: Seq<char>,
}

impl View for LastMessage {
    type V = LastMessageView;

    open spec fn view(&self) -> LastMessageView {
        LastMessageView { guild: self.guild, author: self.author, at: self.at, content: self.content@ }
    }
}

/// The signals seen, oldest first, and each author's most recent message.
pub ghost struct SpamState {
    pub entries: Seq<SpamEntry>,
    pub last: Seq<LastMessageView>,
}

pub struct SpamDetector {
    entries: Vec<SpamEntry>,
    last: Vec<LastMessage>,
}

impl View for SpamDetector {
    type V = SpamState;

    closed spec fn view(&self) -> SpamState {
        SpamState { entries: self.entries@, last: self.last@.map_values(|m: LastMessage| m@) }
    }
}

/// Whether a time `at` lies more than `interval` seconds before `now`.
pub open spec fn expired(at: u64, now: u64, interval: u16) -> bool {
    at + interval < now
}

pub open spec fn keyed(e: SpamEntry, guild: GuildId, author: u64) -> bool {
    e.guild == guild && e.author == author
}

/// `s` without the expired entries of one guild and author.
pub open spec fn evicted(s: Seq<SpamEntry>, guild: GuildId, author: u64, now: u64, interval: u16) -> Seq<SpamEntry>
    decreases s.len(),
{
    if s.len() == 0 {
        seq![]
    } else {
        let rest = evicted(s.drop_last(), guild, author, now, interval);
        if keyed(s.last(), guild, author) && expired(s.last().at, now, interval) {
            rest
        } else {
            rest.push(s.last())
        }
    }
}

/// How many entries of `s` are `signal` from one guild and author.
pub open spec fn count_of(s: Seq<SpamEntry>, guild: GuildId, author: u64, signal: SpamSignal) -> nat
    decreases s.len(),
{
    if s.len() == 0 {
        0
    } else {
        count_of(s.drop_last(), guild, author, signal) + if keyed(s.last(), guild, author)
            && s.last().signal == signal {
            1nat
        } else {
            0nat
        }
    }
}

/// The threshold that a spam filter sets for a signal.
pub open spec fn threshold(f: SpamFilter, signal: SpamSignal) -> Option<u8> {
    match signal {
        SpamSignal::Emoji => f.emoji,
        SpamSignal::Duplicate => f.duplicates,
        SpamSignal::Link => f.links,
        SpamSignal::Attachment => f.attachments,
        SpamSignal::Spoiler => f.spoilers,
        SpamSignal::Mention => f.mentions,
    }
}

/// The entries after a signal is recorded: the author's expired entries
/// go, and the new one is added last.
pub open spec fn recorded(s: Seq<SpamEntry>, guild: GuildId, author: u64, signal: SpamSignal, now: u64, interval: u16) -> Seq<SpamEntry> {
    evicted(s, guild, author, now, interval).push(SpamEntry { guild, author, signal, at: now })
}

/// What recording a signal reports: a violation where the signal has a
/// threshold and the count of that signal, after recording, meets it.
pub open spec fn verdict(count: nat, signal: SpamSignal, f: SpamFilter) -> Option<SpamViolation> {
    match threshold(f, signal) {
        Some(t) => if count >= t {
            Some(SpamViolation { signal, count: count as usize })
        } else {
            None
        },
        None => None,
    }
}

/// The content of the most recent message of one guild and author.
pub open spec fn last_of(s: Seq<LastMessageView>, guild: GuildId, author: u64) -> Option<LastMessageView>
    decreases s.len(),
{
    if s.len() == 0 {
        None
    } else if s[0].guild == guild && s[0].author == author {
        Some(s[0])
    } else {
        last_of(s.drop_first(), guild, author)
    }
}

/// Whether a message duplicates the author's most recent message, where that
/// one is still within the interval.
pub open spec fn duplicates(last: Option<LastMessageView>, content: Seq<char>, now: u64, interval: u16) -> bool {
    last matches Some(m) && m.content == content && !expired(m.at, now, interval)
}

/// After eviction, every entry of the guild and author lies within the
/// interval of `now`, and every other entry is kept.
pub proof fn lemma_evicted_fresh(s: Seq<SpamEntry>, guild: GuildId, author: u64, now: u64, interval: u16)
    ensures
        forall|i: int|
            0 <= i < evicted(s, guild, author, now, interval).len() && keyed(
                #[trigger] evicted(s, guild, author, now, interval)[i],
                guild,
                author,
            ) ==> !expired(evicted(s, guild, author, now, interval)[i].at, now, interval),
        forall|e: SpamEntry| s.contains(e) && !keyed(e, guild, author) ==> #[trigger] evicted(s, guild, author, now, interval).contains(e),
    decreases s.len(),
{
    if s.len() > 0 {
        let p = s.drop_last();
        let l = s.last();
        lemma_evicted_fresh(p, guild, author, now, interval);
        let rest = evicted(p, guild, author, now, interval);
        assert(s =~= p.push(l));
        assert forall|e: SpamEntry| s.contains(e) && !keyed(e, guild, author) implies #[trigger] evicted(s, guild, author, now, interval).contains(e) by {
            let k = choose|k: int| 0 <= k < s.len() && s[k] == e;
            if k < s.len() - 1 {
                assert(p[k] == e);
                assert(p.contains(e));
                assert(rest.contains(e));
                let j = choose|j: int| 0 <= j < rest.len() && rest[j] == e;
                if !(keyed(l, guild, author) && expired(l.at, now, interval)) {
                    assert(rest.push(l)[j] == e);
                }
            } else {
                assert(rest.push(l)[rest.len() as int] == e);
            }
        }
        let ev = evicted(s, guild, author, now, interval);
        assert forall|i: int| 0 <= i < ev.len() && keyed(#[trigger] ev[i], guild, author) implies !expired(ev[i].at, now, interval) by {
            if i < rest.len() {
                assert(ev[i] == rest[i]);
            }
        }
    }
}

/// After a signal is recorded, the window of the guild and author holds only
/// entries within the interval of `now`.
pub proof fn lemma_recorded_window_fresh(
    s: Seq<SpamEntry>,
    guild: GuildId,
    author: u64,
    signal: SpamSignal,
    now: u64,
    interval: u16,
)
    ensures
        forall|i: int|
            0 <= i < recorded(s, guild, author, signal, now, interval).len() && keyed(
                #[trigger] recorded(s, guild, author, signal, now, interval)[i],
                guild,
                author,
            ) ==> !expired(recorded(s, guild, author, signal, now, interval)[i].at, now, interval),
{
    lemma_evicted_fresh(s, guild, author, now, interval);
    let ev = evicted(s, guild, author, now, interval);
    assert forall|i: int|
        0 <= i < recorded(s, guild, author, signal, now, interval).len() && keyed(
            #[trigger] recorded(s, guild, author, signal, now, interval)[i],
            guild,
            author,
        ) implies !expired(recorded(s, guild, author, signal, now, interval)[i].at, now, interval) by {
        if i < ev.len() {
            assert(recorded(s, guild, author, signal, now, interval)[i] == ev[i]);
        }
    }
}

proof fn lemma_count_bounded(s: Seq<SpamEntry>, guild: GuildId, author: u64, signal: SpamSignal)
    ensures
        count_of(s, guild, author, signal) <= s.len(),
    decreases s.len(),
{
    if s.len() > 0 {
        lemma_count_bounded(s.drop_last(), guild, author, signal);
    }
}

proof fn lemma_last_of_update(s: Seq<LastMessageView>, i: int, m: LastMessageView, guild: GuildId, author: u64)
    requires
        0 <= i < s.len(),
        s[i].guild == m.guild && s[i].author == m.author,
        forall|j: int| 0 <= j < i ==> !(s[j].guild == m.guild && s[j].author == m.author),
    ensures
        last_of(s.update(i, m), guild, author) == if guild == m.guild && author == m.author {
            Some(m)
        } else {
            last_of(s, guild, author)
        },
    decreases i,
{
    let u = s.update(i, m);
    if i > 0 {
        assert(u.drop_first() =~= s.drop_first().update(i - 1, m));
        assert(u[0] == s[0]);
        assert forall|j: int| 0 <= j < i - 1 implies !(#[trigger] s.drop_first()[j].guild == m.guild && s.drop_first()[j].author == m.author) by {
            assert(s.drop_first()[j] == s[j + 1]);
        }
        lemma_last_of_update(s.drop_first(), i - 1, m, guild, author);
    } else {
        assert(u[0] == m);
        assert(u.drop_first() =~= s.drop_first());
    }
}

proof fn lemma_last_of_push(s: Seq<LastMessageView>, m: LastMessageView, guild: GuildId, author: u64)
    requires
        last_of(s, m.guild, m.author) is None,
    ensures
        last_of(s.push(m), guild, author) == if guild == m.guild && author == m.author {
            Some(m)
        } else {
            last_of(s, guild, author)
        },
    decreases s.len(),
{
    if s.len() > 0 {
        assert(s.push(m).drop_first() =~= s.drop_first().push(m));
        assert(s.push(m)[0] == s[0]);
        lemma_last_of_push(s.drop_first(), m, guild, author);
    } else {
        assert(s.push(m)[0] == m);
        assert(s.push(m).drop_first() =~= s);
    }
}

proof fn lemma_last_of_none(s: Seq<LastMessageView>, guild: GuildId, author: u64)
    requires
        forall|j: int| 0 <= j < s.len() ==> !(s[j].guild == guild && s[j].author == author),
    ensures
        last_of(s, guild, author) is None,
    decreases s.len(),
{
    if s.len() > 0 {
        lemma_last_of_none(s.drop_first(), guild, author);
    }
}

proof fn lemma_last_of_at(s: Seq<LastMessageView>, i: int, guild: GuildId, author: u64)
    requires
        0 <= i < s.len(),
        s[i].guild == guild && s[i].author == author,
        forall|j: int| 0 <= j < i ==> !(s[j].guild == guild && s[j].author == author),
    ensures
        last_of(s, guild, author) == Some(s[i]),
    decreases i,
{
    if i > 0 {
        lemma_last_of_at(s.drop_first(), i - 1, guild, author);
    }
}

impl SpamDetector {
    /// A detector that has seen nothing.
    pub fn new() -> (r: SpamDetector)
        ensures
            r@.entries == Seq::<SpamEntry>::empty(),
            r@.last == Seq::<LastMessageView>::empty(),
    {
        let r = SpamDetector { entries: Vec::new(), last: Vec::new() };
        assert(r@.last =~= Seq::<LastMessageView>::empty());
        r
    }

    /// How many `signal` entries of one guild and author the window holds.
    pub fn count(&self, guild: GuildId, author: u64, signal: SpamSignal) -> (r: usize)
        ensures
            r == count_of(self@.entries, guild, author, signal),
    {
        let mut n: usize = 0;
        assert(self.entries@.take(0) =~= Seq::<SpamEntry>::empty());
        for i in 0..self.entries.len()
            invariant
                n == count_of(self.entries@.take(i as int), guild, author, signal),
        {
            assert(self.entries@.take(i + 1).drop_last() =~= self.entries@.take(i as int));
            proof {
                lemma_count_bounded(self.entries@.take(i as int), guild, author, signal);
            }
            let e = self.entries[i];
            if e.guild == guild && e.author == author && e.signal == signal {
                n = n + 1;
            }
        }
        assert(self.entries@.take(self.entries.len() as int) =~= self.entries@);
        n
    }

    fn evict(&self, guild: GuildId, author: u64, now: u64, interval: u16) -> (r: Vec<SpamEntry>)
        ensures
            r@ == evicted(self@.entries, guild, author, now, interval),
    {
        let ghost old_entries = self.entries@;
        let mut kept: Vec<SpamEntry> = Vec::new();
        assert(old_entries.take(0) =~= Seq::<SpamEntry>::empty());
        for i in 0..self.entries.len()
            invariant
                self.entries@ == old_entries,
                kept@ == evicted(old_entries.take(i as int), guild, author, now, interval),
        {
            assert(old_entries.take(i + 1).drop_last() =~= old_entries.take(i as int));
            let e = self.entries[i];
            let stale = e.guild == guild && e.author == author && e.at < now && now - e.at > interval as u64;
            if !stale {
                kept.push(e);
            }
        }
        assert(old_entries.take(old_entries.len() as int) =~= old_entries);
        kept
    }

    /// Records a signal from an author at time `now`, evicts that author's
    /// entries older than the filter's interval, and reports a violation
    /// where the signal's threshold is met. The window is kept either way.
    pub fn record_and_check(
        &mut self,
        guild: GuildId,
        author: u64,
        signal: SpamSignal,
        now: u64,
        filter: &SpamFilter,
    ) -> (r: Option<SpamViolation>)
        ensures
            final(self)@.entries == recorded(old(self)@.entries, guild, author, signal, now, filter.interval),
            final(self)@.last == old(self)@.last,
            r == verdict(count_of(final(self)@.entries, guild, author, signal), signal, *filter),
    {
        let mut kept = self.evict(guild, author, now, filter.interval);
        kept.push(SpamEntry { guild, author, signal, at: now });
        self.entries = kept;
        self.check_signal(guild, author, signal, filter)
    }

    /// Notes an author's message and tells whether it duplicates the
    /// author's most recent message within the interval.
    pub fn note_message(&mut self, guild: GuildId, author: u64, content: &String, now: u64, interval: u16) -> (dup: bool)
        ensures
            dup == duplicates(last_of(old(self)@.last, guild, author), content@, now, interval),
            final(self)@.entries == old(self)@.entries,
            forall|g: GuildId, a: u64|
                #[trigger] last_of(final(self)@.last, g, a) == if g == guild && a == author {
                    Some(LastMessageView { guild, author, at: now, content: content@ })
                } else {
                    last_of(old(self)@.last, g, a)
                },
    {
        let ghost old_last = self@.last;
        let m = LastMessage { guild, author, at: now, content: content.clone() };
        let ghost mv = m@;
        let mut i: usize = 0;
        while i < self.last.len()
            invariant
                self@.last == old_last,
                self@.entries == old(self)@.entries,
                mv == m@,
                old_last == old(self)@.last,
                mv == (LastMessageView { guild, author, at: now, content: content@ }),
                old_last.len() == self.last.len(),
                0 <= i <= self.last.len(),
                forall|j: int| 0 <= j < i ==> !(old_last[j].guild == guild && old_last[j].author == author),
            decreases self.last.len() - i,
        {
            assert(old_last[i as int] == self.last@[i as int]@);
            if self.last[i].guild == guild && self.last[i].author == author {
                proof {
                    lemma_last_of_at(old_last, i as int, guild, author);
                }
                let prev = &self.last[i];
                let dup = prev.content == *content && !(prev.at < now && now - prev.at > interval as u64);
                assert(old_last[i as int] == prev@);
                self.last.set(i, m);
                proof {
                    assert forall|j: int| 0 <= j < old_last.len() implies #[trigger] self@.last[j] == old_last.update(i as int, mv)[j] by {
                        assert(self@.last[j] == self.last@[j]@);
                    }
                    assert(self@.last =~= old_last.update(i as int, mv));
                    assert forall|g: GuildId, a: u64|
                        #[trigger] last_of(self@.last, g, a) == if g == guild && a == author {
                            Some(mv)
                        } else {
                            last_of(old_last, g, a)
                        } by {
                        lemma_last_of_update(old_last, i as int, mv, g, a);
                    }
                }
                return dup;
            }
            i = i + 1;
        }
        proof {
            lemma_last_of_none(old_last, guild, author);
        }
        self.last.push(m);
        proof {
            assert forall|j: int| 0 <= j < self.last.len() implies #[trigger] self@.last[j] == old_last.push(mv)[j] by {
                assert(self@.last[j] == self.last@[j]@);
            }
            assert(self@.last =~= old_last.push(mv));
            assert forall|g: GuildId, a: u64|
                #[trigger] last_of(self@.last, g, a) == if g == guild && a == author {
                    Some(mv)
                } else {
                    last_of(old_last, g, a)
                } by {
                lemma_last_of_push(old_last, mv, g, a);
            }
        }
        false
    }

    /// Records what one message signals: its emoji, a duplicate where it
    /// repeats the author's most recent message within the interval, its
    /// links, attachments, spoilers and mentions. The author's expired
    /// entries go first. Reports the first signal, in that order, whose
    /// threshold the counts after recording meet.
    pub fn record_message(
        &mut self,
        guild: GuildId,
        author: u64,
        content: &String,
        counts: &SignalCounts,
        now: u64,
        filter: &SpamFilter,
    ) -> (r: Option<SpamViolation>)
        ensures
            final(self)@.entries == message_recorded(
                old(self)@.entries,
                guild,
                author,
                *counts,
                duplicates(last_of(old(self)@.last, guild, author), content@, now, filter.interval),
                now,
                filter.interval,
            ),
            last_of(final(self)@.last, guild, author) == Some(
                LastMessageView { guild, author, at: now, content: content@ },
            ),
            r == message_verdict(final(self)@.entries, guild, author, *filter),
    {
        let dup = self.note_message(guild, author, content, now, filter.interval);
        let mut kept = self.evict(guild, author, now, filter.interval);
        push_n(&mut kept, SpamEntry { guild, author, signal: SpamSignal::Emoji, at: now }, counts.emoji);
        push_n(&mut kept, SpamEntry { guild, author, signal: SpamSignal::Duplicate, at: now }, if dup { 1 } else { 0 });
        push_n(&mut kept, SpamEntry { guild, author, signal: SpamSignal::Link, at: now }, counts.links);
        push_n(&mut kept, SpamEntry { guild, author, signal: SpamSignal::Attachment, at: now }, counts.attachments);
        push_n(&mut kept, SpamEntry { guild, author, signal: SpamSignal::Spoiler, at: now }, counts.spoilers);
        push_n(&mut kept, SpamEntry { guild, author, signal: SpamSignal::Mention, at: now }, counts.mentions);
        self.entries = kept;
        let v0 = self.check_signal(guild, author, SpamSignal::Emoji, filter);
        if v0.is_some() {
            return v0;
        }
        let v1 = self.check_signal(guild, author, SpamSignal::Duplicate, filter);
        if v1.is_some() {
            return v1;
        }
        let v2 = self.check_signal(guild, author, SpamSignal::Link, filter);
        if v2.is_some() {
            return v2;
        }
        let v3 = self.check_signal(guild, author, SpamSignal::Attachment, filter);
        if v3.is_some() {
            return v3;
        }
        let v4 = self.check_signal(guild, author, SpamSignal::Spoiler, filter);
        if v4.is_some() {
            return v4;
        }
        self.check_signal(guild, author, SpamSignal::Mention, filter)
    }

    fn check_signal(&self, guild: GuildId, author: u64, signal: SpamSignal, filter: &SpamFilter) -> (r: Option<SpamViolation>)
        ensures
            r == verdict(count_of(self@.entries, guild, author, signal), signal, *filter),
    {
        let n = self.count(guild, author, signal);
        let t = match signal {
            SpamSignal::Emoji => filter.emoji,
            SpamSignal::Duplicate => filter.duplicates,
            SpamSignal::Link => filter.links,
            SpamSignal::Attachment => filter.attachments,
            SpamSignal::Spoiler => filter.spoilers,
            SpamSignal::Mention => filter.mentions,
        };
        match t {
            Some(t) => if n >= t as usize {
                Some(SpamViolation { signal, count: n })
            } else {
                None
            },
            None => None,
        }
    }
}

/// How many of each signal one message carries, duplicates aside.
pub struct SignalCounts {
    pub emoji: usize,
    pub links: usize,
    pub attachments: usize,
    pub spoilers: usize,
    pub mentions: usize,
}

/// `n` copies of an entry.
pub open spec fn copies(e: SpamEntry, n: nat) -> Seq<SpamEntry> {
    Seq::new(n, |i: int| e)
}

fn push_n(v: &mut Vec<SpamEntry>, e: SpamEntry, n: usize)
    ensures
        final(v)@ == old(v)@ + copies(e, n as nat),
{
    let ghost start = v@;
    for i in 0..n
        invariant
            v@ == start + copies(e, i as nat),
    {
        v.push(e);
        assert(start + copies(e, (i + 1) as nat) =~= (start + copies(e, i as nat)).push(e));
    }
}

/// The entries after a message is recorded.
pub open spec fn message_recorded(
    s: Seq<SpamEntry>,
    guild: GuildId,
    author: u64,
    c: SignalCounts,
    dup: bool,
    now: u64,
    interval: u16,
) -> Seq<SpamEntry> {
    evicted(s, guild, author, now, interval)
        + copies(SpamEntry { guild, author, signal: SpamSignal::Emoji, at: now }, c.emoji as nat)
        + copies(SpamEntry { guild, author, signal: SpamSignal::Duplicate, at: now }, if dup { 1 } else { 0 })
        + copies(SpamEntry { guild, author, signal: SpamSignal::Link, at: now }, c.links as nat)
        + copies(SpamEntry { guild, author, signal: SpamSignal::Attachment, at: now }, c.attachments as nat)
        + copies(SpamEntry { guild, author, signal: SpamSignal::Spoiler, at: now }, c.spoilers as nat)
        + copies(SpamEntry { guild, author, signal: SpamSignal::Mention, at: now }, c.mentions as nat)
}

pub open spec fn or_else(a: Option<SpamViolation>, b: Option<SpamViolation>) -> Option<SpamViolation> {
    match a {
        Some(v) => Some(v),
        None => b,
    }
}

/// The first signal, in a fixed order, whose threshold the entries meet.
pub open spec fn message_verdict(s: Seq<SpamEntry>, guild: GuildId, author: u64, f: SpamFilter) -> Option<SpamViolation> {
    or_else(
        verdict(count_of(s, guild, author, SpamSignal::Emoji), SpamSignal::Emoji, f),
        or_else(
            verdict(count_of(s, guild, author, SpamSignal::Duplicate), SpamSignal::Duplicate, f),
            or_else(
                verdict(count_of(s, guild, author, SpamSignal::Link), SpamSignal::Link, f),
                or_else(
                    verdict(count_of(s, guild, author, SpamSignal::Attachment), SpamSignal::Attachment, f),
                    or_else(
                        verdict(count_of(s, guild, author, SpamSignal::Spoiler), SpamSignal::Spoiler, f),
                        verdict(count_of(s, guild, author, SpamSignal::Mention), SpamSignal::Mention, f),
                    ),
                ),
            ),
        ),
    )
}

} // verus!
