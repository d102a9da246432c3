//! What reports of services over mDNS say about what came before them.

use vstd::prelude::*;
use crate::discovery::mdns::{expired_names, is_expired, is_promoted, is_removal, lemma_filtered,
    promoted_names, reported_services_are_known, services_are_missed_before_they_are_gone,
    services_settle_before_they_are_reported, MdnsDiscovery, PendingAdd, ResolvedService,
    ADD_SETTLE_NS, REMOVAL_GRACE_NS};
use crate::discovery::{DiscoveredDevice, DiscoveryEvent};
use crate::engine::process::time_since;

verus! {

/// Something that happens to the services, and when.
pub ghost enum Happening {
    /// A service was resolved.
    Resolved(ResolvedService, u64),
    /// A service is missed.
    Missed(Seq<char>, u64),
    /// There was a look at the services, with what was reported.
    Looked(u64, Seq<DiscoveryEvent>),
}

/// Whether a service was resolved.
pub open spec fn resolves(h: Happening, name: Seq<char>) -> bool {
    h matches Happening::Resolved(s, _) && s.fullname@ == name
}

/// Whether a service is missed.
pub open spec fn misses(h: Happening, name: Seq<char>) -> bool {
    h matches Happening::Missed(k, _) && k == name
}

/// When something happened.
pub open spec fn time_of(h: Happening) -> u64 {
    match h {
        Happening::Resolved(_, t) => t,
        Happening::Missed(_, t) => t,
        Happening::Looked(t, _) => t,
    }
}

/// Whether a service is reported as found.
pub open spec fn reports_found(h: Happening, name: Seq<char>) -> bool {
    h matches Happening::Looked(_, events) && exists|i: int|
        0 <= i < events.len() && (#[trigger] events[i] matches DiscoveryEvent::Added(d)
            && d.source_id@ == name)
}

/// Whether a service is reported as gone.
pub open spec fn reports_gone(h: Happening, name: Seq<char>) -> bool {
    h matches Happening::Looked(_, events) && exists|i: int|
        0 <= i < events.len() && is_removal(#[trigger] events[i], name)
}

/// Whether a service counts as found after the first `n` of what happened: the last report about it
/// says so.
pub open spec fn counts_as_found(hs: Seq<Happening>, n: int, name: Seq<char>) -> bool
    decreases n,
{
    if n <= 0 {
        false
    } else if reports_gone(hs[n - 1], name) {
        false
    } else {
        reports_found(hs[n - 1], name) || counts_as_found(hs, n - 1, name)
    }
}

/// Whether one state comes out of another by something that happens.
pub open spec fn follows(before: MdnsDiscovery, h: Happening, after: MdnsDiscovery) -> bool {
    match h {
        Happening::Resolved(s, t) => before.is_resolved(s, t, after),
        Happening::Missed(name, t) => before.is_missed(name, t, after),
        Happening::Looked(t, events) => before.is_settled(t, after, events),
    }
}

/// Whether states come one out of the other by what happened, the first one being without services.
pub open spec fn is_history(states: Seq<MdnsDiscovery>, hs: Seq<Happening>) -> bool {
    &&& states.len() == hs.len() + 1
    &&& states[0].known_services@ == Map::<Seq<char>, DiscoveredDevice>::empty()
    &&& states[0].pending_adds@ == Map::<Seq<char>, PendingAdd>::empty()
    &&& states[0].pending_removals@ == Map::<Seq<char>, u64>::empty()
    &&& forall|i: int| 0 <= i < hs.len() ==> follows(states[i], #[trigger] hs[i], states[i + 1])
}

/// Whether a service was resolved as the `m`th thing, and not missed since, up to the `n`th.
pub open spec fn seen_since(hs: Seq<Happening>, m: int, n: int, name: Seq<char>) -> bool {
    &&& 0 <= m < n
    &&& resolves(hs[m], name)
    &&& forall|k: int| m < k < n ==> !misses(#[trigger] hs[k], name)
}

/// Whether a service was missed as the `m`th thing, and not resolved since, up to the `n`th.
pub open spec fn missed_since(hs: Seq<Happening>, m: int, n: int, name: Seq<char>) -> bool {
    &&& 0 <= m < n
    &&& misses(hs[m], name)
    &&& forall|k: int| m < k < n ==> !resolves(#[trigger] hs[k], name)
}

/// Whether a service was resolved and not missed since, up to the `n`th thing.
pub open spec fn was_seen(hs: Seq<Happening>, n: int, name: Seq<char>) -> bool {
    exists|m: int| seen_since(hs, m, n, name)
}

/// Whether a service was missed at a time and not resolved since, up to the `n`th thing.
pub open spec fn was_missed_at(hs: Seq<Happening>, n: int, name: Seq<char>, t: u64) -> bool {
    exists|m: int| missed_since(hs, m, n, name) && time_of(hs[m]) == t
}

/// Whether a state fits what happened to a service before it.
spec fn fits(d: MdnsDiscovery, hs: Seq<Happening>, n: int, name: Seq<char>) -> bool {
    &&& d.known_services@.contains_key(name) <==> counts_as_found(hs, n, name)
    &&& d.pending_adds@.contains_key(name) ==> {
        &&& exists|m: int|
            0 <= m < n && #[trigger] resolves(hs[m], name) && time_of(hs[m])
                == d.pending_adds@[name].first_seen_ns
        &&& !d.pending_adds@[name].removed ==> was_seen(hs, n, name)
    }
    &&& d.pending_removals@.contains_key(name) ==> was_missed_at(
        hs,
        n,
        name,
        d.pending_removals@[name],
    )
}

proof fn lemma_reports(d: MdnsDiscovery, t: u64, after: MdnsDiscovery, events: Seq<DiscoveryEvent>, name: Seq<char>)
    requires
        d.wf(),
        d.is_settled(t, after, events),
    ensures
        reports_found(Happening::Looked(t, events), name) <==> promoted_names(d, t).contains(name),
        reports_gone(Happening::Looked(t, events), name) <==> expired_names(d, t).contains(name),
        promoted_names(d, t).contains(name) ==> d.pending_adds@.contains_key(name),
        expired_names(d, t).contains(name) ==> d.pending_removals@.contains_key(name),
{
    let h = Happening::Looked(t, events);
    let promoted = promoted_names(d, t);
    let expired = expired_names(d, t);
    lemma_filtered(d.pending_adds.names(), is_promoted(d.pending_adds@, t));
    lemma_filtered(d.pending_removals.names(), is_expired(d.pending_removals@, t));
    if promoted.contains(name) {
        let i = promoted.index_of(name);
        assert(d.pending_adds.names().contains(name));
        assert(d.pending_adds@.contains_key(name));
        assert(events[i] == DiscoveryEvent::Added(d.pending_adds@[promoted[i]].discovered));
        assert(reports_found(h, name));
    }
    if reports_found(h, name) {
        let i = choose|i: int|
            0 <= i < events.len() && (#[trigger] events[i] matches DiscoveryEvent::Added(x)
                && x.source_id@ == name);
        if i >= promoted.len() {
            assert(is_removal(events[promoted.len() + (i - promoted.len())], expired[i - promoted.len()]));
        }
        assert(events[i] == DiscoveryEvent::Added(d.pending_adds@[promoted[i]].discovered));
        assert(promoted.contains(promoted[i]));
        assert(d.pending_adds@.contains_key(promoted[i]));
    }
    if expired.contains(name) {
        let j = expired.index_of(name);
        assert(d.pending_removals.names().contains(name));
        assert(d.pending_removals@.contains_key(name));
        assert(is_removal(events[promoted.len() + j], expired[j]));
        assert(reports_gone(h, name));
    }
    if reports_gone(h, name) {
        let i = choose|i: int| 0 <= i < events.len() && is_removal(#[trigger] events[i], name);
        if i < promoted.len() {
            assert(events[i] == DiscoveryEvent::Added(d.pending_adds@[promoted[i]].discovered));
        }
        let j = i - promoted.len();
        assert(is_removal(events[promoted.len() + j], expired[j]));
        assert(expired.contains(expired[j]));
    }
}

proof fn lemma_still_seen(hs: Seq<Happening>, n: int, name: Seq<char>)
    requires
        0 <= n < hs.len(),
        was_seen(hs, n, name),
        !misses(hs[n], name),
    ensures
        was_seen(hs, n + 1, name),
{
    let r = choose|r: int| seen_since(hs, r, n, name);
    assert(seen_since(hs, r, n + 1, name));
}

proof fn lemma_still_missed(hs: Seq<Happening>, n: int, name: Seq<char>, t: u64)
    requires
        0 <= n < hs.len(),
        was_missed_at(hs, n, name, t),
        !resolves(hs[n], name),
    ensures
        was_missed_at(hs, n + 1, name, t),
{
    let m = choose|m: int| missed_since(hs, m, n, name) && time_of(hs[m]) == t;
    assert(missed_since(hs, m, n + 1, name));
}

proof fn lemma_step(before: MdnsDiscovery, after: MdnsDiscovery, hs: Seq<Happening>, n: int, name: Seq<char>)
    requires
        0 <= n < hs.len(),
        before.wf(),
        follows(before, hs[n], after),
        fits(before, hs, n, name),
    ensures
        fits(after, hs, n + 1, name),
{
    if before.pending_adds@.contains_key(name) && !before.pending_adds@[name].removed && !misses(
        hs[n],
        name,
    ) {
        lemma_still_seen(hs, n, name);
    }
    if before.pending_removals@.contains_key(name) && !resolves(hs[n], name) {
        lemma_still_missed(hs, n, name, before.pending_removals@[name]);
    }
    match hs[n] {
        Happening::Resolved(s, t) => {
            assert(counts_as_found(hs, n + 1, name) == counts_as_found(hs, n, name));
            if s.fullname@ == name {
                assert(resolves(hs[n], name));
                assert(seen_since(hs, n, n + 1, name));
            }
        },
        Happening::Missed(k, t) => {
            assert(counts_as_found(hs, n + 1, name) == counts_as_found(hs, n, name));
            if k == name {
                assert(missed_since(hs, n, n + 1, name));
            }
        },
        Happening::Looked(t, events) => {
            lemma_reports(before, t, after, events, name);
            reported_services_are_known(before, t, after, events, name);
        },
    }
}

proof fn lemma_keeps_wf(before: MdnsDiscovery, h: Happening, after: MdnsDiscovery)
    requires
        before.wf(),
        follows(before, h, after),
    ensures
        after.wf(),
{
    if let Happening::Looked(t, events) = h {
        assert forall|k: Seq<char>| #[trigger] after.pending_removals@.contains_key(k) implies
            after.known_services@.contains_key(k) by {
            assert(before.pending_removals@.contains_key(k));
            reported_services_are_known(before, t, after, events, k);
        }
        assert forall|k: Seq<char>| #[trigger] after.pending_adds@.contains_key(k) implies
            !after.known_services@.contains_key(k) && after.pending_adds@[k].discovered.source_id@
            == k by {
            assert(before.pending_adds@.contains_key(k));
            reported_services_are_known(before, t, after, events, k);
        }
    }
}

proof fn lemma_history(states: Seq<MdnsDiscovery>, hs: Seq<Happening>, n: int, name: Seq<char>)
    requires
        is_history(states, hs),
        0 <= n <= hs.len(),
    ensures
        states[n].wf(),
        fits(states[n], hs, n, name),
    decreases n,
{
    if n > 0 {
        lemma_history(states, hs, n - 1, name);
        assert(follows(states[n - 1], hs[n - 1], states[n]));
        lemma_keeps_wf(states[n - 1], hs[n - 1], states[n]);
        lemma_step(states[n - 1], states[n], hs, n - 1, name);
    }
}

/// A service is reported as found only where it was resolved at least two seconds ago, where it was
/// resolved again if it was missed, and where it does not count as found already.
pub proof fn found_services_were_there(states: Seq<MdnsDiscovery>, hs: Seq<Happening>, n: int, name: Seq<char>)
    requires
        is_history(states, hs),
        0 <= n < hs.len(),
        reports_found(hs[n], name),
    ensures
        exists|m: int|
            0 <= m < n && #[trigger] resolves(hs[m], name) && time_since(
                time_of(hs[n]),
                time_of(hs[m]),
            ) >= ADD_SETTLE_NS,
        was_seen(hs, n, name),
        !counts_as_found(hs, n, name),
{
    lemma_history(states, hs, n, name);
    let d = states[n];
    assert(follows(d, hs[n], states[n + 1]));
    if let Happening::Looked(t, events) = hs[n] {
        let i = choose|i: int|
            0 <= i < events.len() && (#[trigger] events[i] matches DiscoveryEvent::Added(x)
                && x.source_id@ == name);
        services_settle_before_they_are_reported(d, t, states[n + 1], events, i);
    }
}

/// A service is reported as gone only where it counts as found, was missed at least five seconds ago
/// and was not resolved since.
pub proof fn gone_services_were_missed(states: Seq<MdnsDiscovery>, hs: Seq<Happening>, n: int, name: Seq<char>)
    requires
        is_history(states, hs),
        0 <= n < hs.len(),
        reports_gone(hs[n], name),
    ensures
        counts_as_found(hs, n, name),
        exists|m: int|
            missed_since(hs, m, n, name) && time_since(time_of(hs[n]), #[trigger] time_of(hs[m]))
                >= REMOVAL_GRACE_NS,
{
    lemma_history(states, hs, n, name);
    let d = states[n];
    assert(follows(d, hs[n], states[n + 1]));
    if let Happening::Looked(t, events) = hs[n] {
        let i = choose|i: int| 0 <= i < events.len() && is_removal(#[trigger] events[i], name);
        services_are_missed_before_they_are_gone(d, t, states[n + 1], events, i);
        let m = choose|m: int|
            missed_since(hs, m, n, name) && time_of(hs[m]) == d.pending_removals@[name];
        assert(missed_since(hs, m, n, name));
    }
}

/// A service counts as found only where it was reported as found before.
pub proof fn only_reported_services_count(hs: Seq<Happening>, n: int, name: Seq<char>)
    requires
        0 <= n <= hs.len(),
        counts_as_found(hs, n, name),
    ensures
        exists|k: int| 0 <= k < n && #[trigger] reports_found(hs[k], name),
    decreases n,
{
    if n > 0 && !reports_found(hs[n - 1], name) {
        only_reported_services_count(hs, n - 1, name);
    }
}

/// A service that vanishes for less than five seconds yields no report: not while it is missed, and
/// not after it was resolved again, until it is missed anew. The service counts as found and was
/// seen since it was last missed when it vanishes as the `a`th thing; it is back as the `b`th.
pub proof fn short_absences_are_not_reported(
    states: Seq<MdnsDiscovery>,
    hs: Seq<Happening>,
    a: int,
    b: int,
    n: int,
    name: Seq<char>,
)
    requires
        is_history(states, hs),
        forall|i: int, j: int|
            0 <= i <= j < hs.len() ==> time_of(#[trigger] hs[i]) <= time_of(#[trigger] hs[j]),
        0 <= a < b < hs.len(),
        misses(hs[a], name),
        resolves(hs[b], name),
        time_of(hs[b]) - time_of(hs[a]) < REMOVAL_GRACE_NS,
        counts_as_found(hs, a, name),
        was_seen(hs, a, name),
        a <= n < hs.len(),
        forall|k: int| b < k < n ==> !misses(#[trigger] hs[k], name),
    ensures
        counts_as_found(hs, n, name),
        !reports_found(hs[n], name),
        !reports_gone(hs[n], name),
    decreases n,
{
    if n > a {
        short_absences_are_not_reported(states, hs, a, b, n - 1, name);
    }
    if reports_found(hs[n], name) {
        found_services_were_there(states, hs, n, name);
    }
    if reports_gone(hs[n], name) {
        gone_services_were_missed(states, hs, n, name);
        let m = choose|m: int|
            missed_since(hs, m, n, name) && time_since(time_of(hs[n]), time_of(hs[m]))
                >= REMOVAL_GRACE_NS;
        let r = choose|r: int| seen_since(hs, r, a, name);
        assert(resolves(hs[r], name));
        if m < r {
            assert(!resolves(hs[r], name));
        }
        assert(m != r);
        if m < a {
            assert(!misses(hs[m], name));
        }
        if n > b {
            if m < b {
                assert(!resolves(hs[b], name));
            } else if m > b {
                assert(!misses(hs[m], name));
            }
        }
        assert(time_of(hs[a]) <= time_of(hs[m]));
        assert(time_of(hs[n]) <= time_of(hs[b]));
    }
}

} // verus!
