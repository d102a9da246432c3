//! Devices that announce themselves over mDNS.
//!
//! A service counts as there once it has been seen for a while, and as gone once it has been missed
//! for a while.

use vstd::prelude::*;
use crate::discovery::{DiscoveredDevice, DiscoveryEvent};
use crate::engine::process::time_since;
use crate::name_map::NameMap;
use crate::registry::{DeviceEntry, Registry};
use crate::seqs::{first_where, lemma_filter_from, lemma_filter_none, lemma_filter_step,
    lemma_filter_whole, lemma_first_is, lemma_first_is_none, lemma_pushed, repeats_are_left_out,
    without_repeats};
use crate::text::{decimal, decimal_text, ends_with, has_suffix, is_among, maybe_text, owned,
    parse_number, parsed_number, str_eq, texts, trim_end_char, without_trailing};

verus! {

/// How long a service must be seen before it is reported.
pub const ADD_SETTLE_NS: u64 = 2_000_000_000;

/// How long a service must be missed before it is reported as gone.
pub const REMOVAL_GRACE_NS: u64 = 5_000_000_000;

/// A service that was resolved.
#[derive(Debug)]
pub struct ResolvedService {
    pub fullname: String,
    pub service_type: String,
    /// The property `data_port`, if it has one.
    pub data_port: Option<String>,
    pub port: u16,
    /// One of its addresses, if it has any.
    pub ip: Option<String>,
}

/// A service that is not reported yet.
#[derive(Debug)]
pub struct PendingAdd {
    pub discovered: DiscoveredDevice,
    pub first_seen_ns: u64,
    /// Whether it was missed since it was last resolved.
    pub removed: bool,
}

/// The services of registered devices.
pub struct MdnsDiscovery {
    pub registry: Registry,
    /// Services that are reported, by their full names.
    pub known_services: NameMap<DiscoveredDevice>,
    /// Services that are not reported yet.
    pub pending_adds: NameMap<PendingAdd>,
    /// Services that are missed, and since when.
    pub pending_removals: NameMap<u64>,
}

/// A service type with its domain: `.local.` where it has none.
pub open spec fn normalized(st: Seq<char>) -> Seq<char> {
    if has_suffix(st, ".local."@) {
        st
    } else if has_suffix(st, "."@) {
        st + "local."@
    } else {
        st + ".local."@
    }
}

/// Adds the domain to a service type that has none.
pub fn normalize_service_type(st: &str) -> (r: String)
    ensures
        r@ == normalized(st@),
{
    let mut s: String = owned(st);
    if !ends_with(st, ".local.") {
        if ends_with(st, ".") {
            s.append("local.");
        } else {
            s.append(".local.");
        }
    }
    s
}

/// A normalized service type ends with the domain, and normalizing it again changes nothing.
pub proof fn normalizing_twice_changes_nothing(st: Seq<char>)
    ensures
        has_suffix(normalized(st), ".local."@),
        normalized(normalized(st)) == normalized(st),
{
    reveal_strlit(".local.");
    reveal_strlit("local.");
    reveal_strlit(".");
    let n = normalized(st);
    if has_suffix(st, ".local."@) {
    } else if has_suffix(st, "."@) {
        assert(st.len() >= 1);
        assert(st.subrange(st.len() - 1, st.len() as int)[0] == st.last());
        assert(st.last() == '.');
        assert(n.subrange(n.len() - 7, n.len() as int) =~= ".local."@);
    } else {
        assert(n.subrange(n.len() - 7, n.len() as int) =~= ".local."@);
    }
}

/// The predicate of entries with a service type to look for.
pub open spec fn is_mdns_entry() -> spec_fn(DeviceEntry) -> bool {
    |e: DeviceEntry| e.backend@ == "mdns"@ && e.service_type@.len() > 0
}

/// The normalized service types of entries.
pub open spec fn types_of(entries: Seq<DeviceEntry>) -> Seq<Seq<char>> {
    entries.map_values(|e: DeviceEntry| normalized(e.service_type@))
}

/// The service types that are registered, each once.
pub open spec fn registered_types(entries: Seq<DeviceEntry>) -> Seq<Seq<char>> {
    without_repeats(types_of(entries.filter(is_mdns_entry())))
}

/// The predicate of entries that a service of that type belongs to. Dots at the end do not count.
pub open spec fn offers(service_type: Seq<char>) -> spec_fn(DeviceEntry) -> bool {
    |e: DeviceEntry|
        is_mdns_entry()(e) && without_trailing(normalized(e.service_type@), '.') == without_trailing(
            service_type,
            '.',
        )
}

/// The address of a service: that of its data port, if it tells one, or else of its own port.
pub open spec fn service_address(s: ResolvedService) -> Option<Seq<char>> {
    match s.ip {
        Some(ip) => Some(ip@ + ":"@ + decimal_text(data_port_of(s))),
        None => None,
    }
}

/// The port on which a service publishes its data.
pub open spec fn data_port_of(s: ResolvedService) -> nat {
    match s.data_port {
        Some(text) => match parsed_number(text@, 65535) {
            Some(port) => port,
            None => s.port as nat,
        },
        None => s.port as nat,
    }
}

/// Whether a device is that of a service.
pub open spec fn is_device_of(d: DiscoveredDevice, s: ResolvedService, entry: DeviceEntry) -> bool {
    &&& d.source_id@ == s.fullname@
    &&& d.device_name@ == entry.name@
    &&& d.entry == entry
    &&& maybe_text(d.address) == service_address(s)
}

/// The predicate of services that have been seen for long enough, and were not missed.
pub open spec fn is_promoted(adds: Map<Seq<char>, PendingAdd>, now_ns: u64) -> spec_fn(Seq<char>) -> bool {
    |k: Seq<char>| time_since(now_ns, adds[k].first_seen_ns) >= ADD_SETTLE_NS && !adds[k].removed
}

/// The predicate of services that have been seen for long enough, but were missed.
pub open spec fn is_discarded(adds: Map<Seq<char>, PendingAdd>, now_ns: u64) -> spec_fn(Seq<char>) -> bool {
    |k: Seq<char>| time_since(now_ns, adds[k].first_seen_ns) >= ADD_SETTLE_NS && adds[k].removed
}

/// The predicate of services that have been missed for long enough.
pub open spec fn is_expired(removals: Map<Seq<char>, u64>, now_ns: u64) -> spec_fn(Seq<char>) -> bool {
    |k: Seq<char>| time_since(now_ns, removals[k]) >= REMOVAL_GRACE_NS
}

/// The known services together with newly reported ones.
pub open spec fn with_promoted(
    known: Map<Seq<char>, DiscoveredDevice>,
    adds: Map<Seq<char>, PendingAdd>,
    promoted: Seq<Seq<char>>,
) -> Map<Seq<char>, DiscoveredDevice> {
    Map::new(
        |k: Seq<char>| known.contains_key(k) || promoted.contains(k),
        |k: Seq<char>| if promoted.contains(k) {
            adds[k].discovered
        } else {
            known[k]
        },
    )
}

impl MdnsDiscovery {
    /// A service that is missed is a known one, and one that waits to be reported is not. What waits
    /// stands under its own name.
    pub open spec fn wf(self) -> bool {
        &&& forall|k: Seq<char>| #[trigger]
            self.pending_removals@.contains_key(k) ==> self.known_services@.contains_key(k)
        &&& forall|k: Seq<char>| #[trigger]
            self.pending_adds@.contains_key(k) ==> !self.known_services@.contains_key(k)
                && self.pending_adds@[k].discovered.source_id@ == k
    }

    /// No services.
    pub fn new(registry: Registry) -> (r: Self)
        ensures
            r.wf(),
            r.registry == registry,
            r.known_services@ == Map::<Seq<char>, DiscoveredDevice>::empty(),
            r.pending_adds@ == Map::<Seq<char>, PendingAdd>::empty(),
            r.pending_removals@ == Map::<Seq<char>, u64>::empty(),
    {
        MdnsDiscovery {
            registry,
            known_services: NameMap::new(),
            pending_adds: NameMap::new(),
            pending_removals: NameMap::new(),
        }
    }

    /// The service types to look for, each once, in the order in which they were first registered.
    pub fn service_types(&self) -> (r: Vec<String>)
        ensures
            texts(r@) == registered_types(self.registry.devices@),
    {
        let ghost p = is_mdns_entry();
        let ghost all = self.registry.devices@;
        let n: usize = self.registry.devices.len();
        let mut out: Vec<String> = Vec::new();
        let mut i: usize = 0;
        proof {
            lemma_filter_none(all, p);
            assert(types_of(all.take(0).filter(p)) =~= seq![]);
            assert(texts(out@) =~= seq![]);
        }
        while i < n
            invariant
                n == all.len(),
                i <= n,
                all == self.registry.devices@,
                p == is_mdns_entry(),
                texts(out@) == registered_types(all.take(i as int)),
            decreases n - i,
        {
            let entry: &DeviceEntry = &self.registry.devices[i];
            let ghost kept = all.take(i as int).filter(p);
            let ghost before = out@;
            proof {
                lemma_filter_step(all, p, i as int);
            }
            if str_eq(entry.backend.as_str(), "mdns") && entry.service_type.as_str().unicode_len() > 0 {
                let st: String = normalize_service_type(entry.service_type.as_str());
                proof {
                    let now = types_of(kept.push(*entry));
                    assert(now =~= types_of(kept).push(st@));
                    assert(now.drop_last() =~= types_of(kept));
                }
                if !is_among(out.as_slice(), st.as_str()) {
                    out.push(st);
                    assert(texts(out@) =~= texts(before).push(st@));
                }
            }
            i = i + 1;
        }
        assert(all.take(n as int) =~= all);
        out
    }

    /// Finds the entry that a service of a type belongs to.
    pub fn find_mdns_match(&self, service_type: &str) -> (r: Option<&DeviceEntry>)
        ensures
            match first_where(self.registry.devices@, offers(service_type@)) {
                Some(i) => r matches Some(e) && *e == self.registry.devices@[i],
                None => r is None,
            },
    {
        let wanted: String = trim_end_char(service_type, '.');
        let n: usize = self.registry.devices.len();
        let mut i: usize = 0;
        while i < n
            invariant
                n == self.registry.devices@.len(),
                i <= n,
                wanted@ == without_trailing(service_type@, '.'),
                forall|k: int|
                    0 <= k < i ==> !offers(service_type@)(#[trigger] self.registry.devices@[k]),
            decreases n - i,
        {
            let e: &DeviceEntry = &self.registry.devices[i];
            if str_eq(e.backend.as_str(), "mdns") && e.service_type.as_str().unicode_len() > 0 {
                let own: String = normalize_service_type(e.service_type.as_str());
                if str_eq(trim_end_char(own.as_str(), '.').as_str(), wanted.as_str()) {
                    proof {
                        lemma_first_is(
                            self.registry.devices@,
                            offers(service_type@),
                            i as int,
                        );
                    }
                    return Some(e);
                }
            }
            i = i + 1;
        }
        proof {
            lemma_first_is_none(self.registry.devices@, offers(service_type@));
        }
        None
    }

    /// Whether `after` is what becomes of services when one is resolved. One that was missed is no
    /// longer; one that is known stays so; one that waits is not missed; any other one waits, if it
    /// belongs to a registered device.
    pub open spec fn is_resolved(self, s: ResolvedService, now_ns: u64, after: MdnsDiscovery) -> bool {
        let name = s.fullname@;
        if self.pending_removals@.contains_key(name) {
            &&& after.pending_removals@ == self.pending_removals@.remove(name)
            &&& after == MdnsDiscovery { pending_removals: after.pending_removals, ..self }
        } else if self.known_services@.contains_key(name) {
            after == self
        } else if self.pending_adds@.contains_key(name) {
            &&& after.pending_adds@ == self.pending_adds@.insert(
                name,
                PendingAdd { removed: false, ..self.pending_adds@[name] },
            )
            &&& after == MdnsDiscovery { pending_adds: after.pending_adds, ..self }
        } else {
            match first_where(self.registry.devices@, offers(s.service_type@)) {
                Some(i) => {
                    let added = after.pending_adds@[name];
                    &&& after.pending_adds@ == self.pending_adds@.insert(name, added)
                    &&& is_device_of(added.discovered, s, self.registry.devices@[i])
                    &&& added.first_seen_ns == now_ns
                    &&& !added.removed
                    &&& after == MdnsDiscovery { pending_adds: after.pending_adds, ..self }
                },
                None => after == self,
            }
        }
    }

    /// Takes note of a service that was resolved.
    pub fn service_resolved(&mut self, s: &ResolvedService, now_ns: u64)
        ensures
            old(self).is_resolved(*s, now_ns, *final(self)),
            old(self).wf() ==> final(self).wf(),
    {
        let name: &str = s.fullname.as_str();
        if self.pending_removals.contains_key(name) {
            self.pending_removals.remove(name);
            return;
        }
        if self.known_services.contains_key(name) {
            return;
        }
        if self.pending_adds.contains_key(name) {
            if let Some(waiting) = self.pending_adds.remove(name) {
                let ghost start = *old(self);
                self.pending_adds.insert(
                    s.fullname.clone(),
                    PendingAdd {
                        discovered: waiting.discovered,
                        first_seen_ns: waiting.first_seen_ns,
                        removed: false,
                    },
                );
                assert(self.pending_adds@ =~= start.pending_adds@.insert(
                    s.fullname@,
                    PendingAdd { removed: false, ..start.pending_adds@[s.fullname@] },
                ));
            }
            return;
        }
        let found: Option<DeviceEntry> = match self.find_mdns_match(s.service_type.as_str()) {
            Some(e) => Some(e.clone()),
            None => None,
        };
        if let Some(entry) = found {
            let own_port: u64 = s.port as u64;
            let port: u64 = match &s.data_port {
                Some(text) => match parse_number(text.as_str(), 65535) {
                    Some(p) => p,
                    None => own_port,
                },
                None => own_port,
            };
            let address: Option<String> = match &s.ip {
                Some(ip) => {
                    let mut a: String = ip.clone();
                    a.append(":");
                    a.append(decimal(port).as_str());
                    Some(a)
                },
                None => None,
            };
            let device_name: String = entry.name.clone();
            self.pending_adds.insert(
                s.fullname.clone(),
                PendingAdd {
                    discovered: DiscoveredDevice {
                        source_id: s.fullname.clone(),
                        device_name,
                        entry,
                        address,
                    },
                    first_seen_ns: now_ns,
                    removed: false,
                },
            );
        }
    }

    /// Whether `after` is what becomes of services when one is missed: one that waits is marked, a
    /// known one is missed from now on, unless it already is.
    pub open spec fn is_missed(self, name: Seq<char>, now_ns: u64, after: MdnsDiscovery) -> bool {
        if self.pending_adds@.contains_key(name) {
            &&& after.pending_adds@ == self.pending_adds@.insert(
                name,
                PendingAdd { removed: true, ..self.pending_adds@[name] },
            )
            &&& after == MdnsDiscovery { pending_adds: after.pending_adds, ..self }
        } else if self.known_services@.contains_key(name) && !self.pending_removals@.contains_key(
            name,
        ) {
            &&& after.pending_removals@ == self.pending_removals@.insert(name, now_ns)
            &&& after == MdnsDiscovery { pending_removals: after.pending_removals, ..self }
        } else {
            after == self
        }
    }

    /// Takes note of a service that is missed.
    pub fn service_removed(&mut self, fullname: &str, now_ns: u64)
        ensures
            old(self).is_missed(fullname@, now_ns, *final(self)),
            old(self).wf() ==> final(self).wf(),
    {
        if self.pending_adds.contains_key(fullname) {
            if let Some(waiting) = self.pending_adds.remove(fullname) {
                let ghost start = *old(self);
                self.pending_adds.insert(
                    owned(fullname),
                    PendingAdd {
                        discovered: waiting.discovered,
                        first_seen_ns: waiting.first_seen_ns,
                        removed: true,
                    },
                );
                assert(self.pending_adds@ =~= start.pending_adds@.insert(
                    fullname@,
                    PendingAdd { removed: true, ..start.pending_adds@[fullname@] },
                ));
            }
            return;
        }
        if self.known_services.contains_key(fullname) && !self.pending_removals.contains_key(fullname) {
            self.pending_removals.insert(owned(fullname), now_ns);
        }
    }

    /// Tests whether a service is there, or only missed for a short while.
    pub fn device_still_exists(&self, source_id: &str) -> (r: bool)
        ensures
            r == (self.known_services@.contains_key(source_id@)
                || self.pending_removals@.contains_key(source_id@)),
    {
        self.known_services.contains_key(source_id) || self.pending_removals.contains_key(source_id)
    }
}

// ── Time ────────────────────────────────────────────────────────────

fn names_where_settled(adds: &NameMap<PendingAdd>, now_ns: u64, removed: bool) -> (r: Vec<String>)
    ensures
        texts(r@) == (if removed {
            adds.names().filter(is_discarded(adds@, now_ns))
        } else {
            adds.names().filter(is_promoted(adds@, now_ns))
        }),
{
    let ghost names = adds.names();
    let ghost p = if removed {
        is_discarded(adds@, now_ns)
    } else {
        is_promoted(adds@, now_ns)
    };
    let n: usize = adds.len();
    let mut out: Vec<String> = Vec::new();
    let mut i: usize = 0;
    proof {
        lemma_filter_none(names, p);
        assert(texts(out@) =~= names.take(0).filter(p));
    }
    while i < n
        invariant
            n == names.len(),
            i <= n,
            names == adds.names(),
            p == (if removed {
                is_discarded(adds@, now_ns)
            } else {
                is_promoted(adds@, now_ns)
            }),
            texts(out@) == names.take(i as int).filter(p),
        decreases n - i,
    {
        let ghost before = out@;
        proof {
            lemma_filter_step(names, p, i as int);
        }
        let waiting: &PendingAdd = adds.value_at(i);
        if now_ns.saturating_sub(waiting.first_seen_ns) >= ADD_SETTLE_NS && waiting.removed == removed {
            out.push(adds.name_at(i).clone());
            assert(texts(out@) =~= texts(before).push(names[i as int]));
        }
        i = i + 1;
    }
    proof {
        lemma_filter_whole(names, p);
    }
    out
}

fn names_where_expired(removals: &NameMap<u64>, now_ns: u64) -> (r: Vec<String>)
    ensures
        texts(r@) == removals.names().filter(is_expired(removals@, now_ns)),
{
    let ghost names = removals.names();
    let ghost p = is_expired(removals@, now_ns);
    let n: usize = removals.len();
    let mut out: Vec<String> = Vec::new();
    let mut i: usize = 0;
    proof {
        lemma_filter_none(names, p);
        assert(texts(out@) =~= names.take(0).filter(p));
    }
    while i < n
        invariant
            n == names.len(),
            i <= n,
            names == removals.names(),
            p == is_expired(removals@, now_ns),
            texts(out@) == names.take(i as int).filter(p),
        decreases n - i,
    {
        let ghost before = out@;
        proof {
            lemma_filter_step(names, p, i as int);
        }
        if now_ns.saturating_sub(*removals.value_at(i)) >= REMOVAL_GRACE_NS {
            out.push(removals.name_at(i).clone());
            assert(texts(out@) =~= texts(before).push(names[i as int]));
        }
        i = i + 1;
    }
    proof {
        lemma_filter_whole(names, p);
    }
    out
}

/// The services that are reported now.
pub open spec fn promoted_names(d: MdnsDiscovery, now_ns: u64) -> Seq<Seq<char>> {
    d.pending_adds.names().filter(is_promoted(d.pending_adds@, now_ns))
}

/// The services that are given up now without having been reported.
pub open spec fn discarded_names(d: MdnsDiscovery, now_ns: u64) -> Seq<Seq<char>> {
    d.pending_adds.names().filter(is_discarded(d.pending_adds@, now_ns))
}

/// The services that are reported as gone now.
pub open spec fn expired_names(d: MdnsDiscovery, now_ns: u64) -> Seq<Seq<char>> {
    d.pending_removals.names().filter(is_expired(d.pending_removals@, now_ns))
}

impl MdnsDiscovery {
    /// Whether `after` and `events` are what becomes of services in the course of time: those that
    /// have been seen for long enough are reported, or given up if they were missed since; those
    /// that have been missed for long enough are reported as gone.
    pub open spec fn is_settled(self, now_ns: u64, after: MdnsDiscovery, events: Seq<DiscoveryEvent>) -> bool {
        let promoted = promoted_names(self, now_ns);
        let discarded = discarded_names(self, now_ns);
        let expired = expired_names(self, now_ns);
        &&& after.registry == self.registry
        &&& after.pending_adds@ == self.pending_adds@.remove_keys(discarded.to_set()).remove_keys(
            promoted.to_set(),
        )
        &&& after.pending_removals@ == self.pending_removals@.remove_keys(expired.to_set())
        &&& after.known_services@ == with_promoted(
            self.known_services@,
            self.pending_adds@,
            promoted,
        ).remove_keys(expired.to_set())
        &&& events.len() == promoted.len() + expired.len()
        &&& forall|i: int|
            0 <= i < promoted.len() ==> #[trigger] events[i] == DiscoveryEvent::Added(
                self.pending_adds@[promoted[i]].discovered,
            )
        &&& forall|j: int|
            0 <= j < expired.len() ==> is_removal(#[trigger] events[promoted.len() + j], expired[j])
    }

    fn promote(&mut self, promoted: &Vec<String>, events: &mut Vec<DiscoveryEvent>)
        requires
            old(events)@.len() == 0,
            texts(promoted@).no_duplicates(),
            forall|i: int|
                0 <= i < promoted@.len() ==> old(self).pending_adds@.contains_key(
                    #[trigger] texts(promoted@)[i],
                ),
        ensures
            final(self).registry == old(self).registry,
            final(self).pending_removals == old(self).pending_removals,
            final(self).pending_adds@ == old(self).pending_adds@.remove_keys(
                texts(promoted@).to_set(),
            ),
            final(self).known_services@ == with_promoted(
                old(self).known_services@,
                old(self).pending_adds@,
                texts(promoted@),
            ),
            final(events)@.len() == promoted@.len(),
            forall|i: int|
                0 <= i < promoted@.len() ==> #[trigger] final(events)@[i] == DiscoveryEvent::Added(
                    old(self).pending_adds@[texts(promoted@)[i]].discovered,
                ),
    {
        let ghost start = *self;
        let ghost names = texts(promoted@);
        let n: usize = promoted.len();
        let mut i: usize = 0;
        proof {
            assert(start.pending_adds@.remove_keys(names.take(0).to_set()) =~= start.pending_adds@);
            assert(with_promoted(start.known_services@, start.pending_adds@, names.take(0))
                =~= start.known_services@);
        }
        while i < n
            invariant
                n == promoted@.len(),
                i <= n,
                names == texts(promoted@),
                names.no_duplicates(),
                forall|k: int| 0 <= k < n ==> start.pending_adds@.contains_key(#[trigger] names[k]),
                self.registry == start.registry,
                self.pending_removals == start.pending_removals,
                self.pending_adds@ == start.pending_adds@.remove_keys(names.take(i as int).to_set()),
                self.known_services@ == with_promoted(
                    start.known_services@,
                    start.pending_adds@,
                    names.take(i as int),
                ),
                events@.len() == i,
                forall|k: int|
                    0 <= k < i ==> #[trigger] events@[k] == DiscoveryEvent::Added(
                        start.pending_adds@[names[k]].discovered,
                    ),
            decreases n - i,
        {
            let ghost done = names.take(i as int);
            let ghost s = names[i as int];
            proof {
                assert(promoted@[i as int]@ == s);
                assert(names.take(i as int + 1) =~= done.push(s));
                lemma_pushed(done, s);
                assert(!done.contains(s)) by {
                    if done.contains(s) {
                        let j = done.index_of(s);
                        assert(names[j] == names[i as int]);
                    }
                }
            }
            if let Some(waiting) = self.pending_adds.remove(promoted[i].as_str()) {
                self.known_services.insert(promoted[i].clone(), waiting.discovered.clone());
                events.push(DiscoveryEvent::Added(waiting.discovered));
            }
            proof {
                assert(self.pending_adds@ =~= start.pending_adds@.remove_keys(done.push(s).to_set()));
                assert(self.known_services@ =~= with_promoted(
                    start.known_services@,
                    start.pending_adds@,
                    done.push(s),
                ));
            }
            i = i + 1;
        }
        assert(names.take(n as int) =~= names);
    }

    fn discard(&mut self, discarded: &Vec<String>)
        ensures
            *final(self) == (MdnsDiscovery { pending_adds: final(self).pending_adds, ..*old(self) }),
            final(self).pending_adds@ == old(self).pending_adds@.remove_keys(
                texts(discarded@).to_set(),
            ),
    {
        let ghost start = *self;
        let ghost names = texts(discarded@);
        let n: usize = discarded.len();
        let mut i: usize = 0;
        assert(start.pending_adds@.remove_keys(names.take(0).to_set()) =~= start.pending_adds@);
        while i < n
            invariant
                n == discarded@.len(),
                i <= n,
                names == texts(discarded@),
                *self == (MdnsDiscovery { pending_adds: self.pending_adds, ..start }),
                self.pending_adds@ == start.pending_adds@.remove_keys(names.take(i as int).to_set()),
            decreases n - i,
        {
            self.pending_adds.remove(discarded[i].as_str());
            proof {
                let done = names.take(i as int);
                let s = names[i as int];
                assert(names.take(i as int + 1) =~= done.push(s));
                lemma_pushed(done, s);
                assert(self.pending_adds@ =~= start.pending_adds@.remove_keys(done.push(s).to_set()));
            }
            i = i + 1;
        }
        assert(names.take(n as int) =~= names);
    }

    fn expire(&mut self, expired: &Vec<String>, events: &mut Vec<DiscoveryEvent>)
        requires
            texts(expired@).no_duplicates(),
            forall|i: int|
                0 <= i < expired@.len() ==> old(self).known_services@.contains_key(
                    #[trigger] texts(expired@)[i],
                ),
        ensures
            final(self).registry == old(self).registry,
            final(self).pending_adds == old(self).pending_adds,
            final(self).pending_removals@ == old(self).pending_removals@.remove_keys(
                texts(expired@).to_set(),
            ),
            final(self).known_services@ == old(self).known_services@.remove_keys(
                texts(expired@).to_set(),
            ),
            final(events)@.len() == old(events)@.len() + expired@.len(),
            final(events)@.take(old(events)@.len() as int) == old(events)@,
            forall|j: int|
                0 <= j < expired@.len() ==> is_removal(
                    #[trigger] final(events)@[old(events)@.len() + j],
                    texts(expired@)[j],
                ),
    {
        let ghost start = *self;
        let ghost told = events@;
        let ghost names = texts(expired@);
        let n: usize = expired.len();
        let mut i: usize = 0;
        proof {
            assert(start.pending_removals@.remove_keys(names.take(0).to_set())
                =~= start.pending_removals@);
            assert(start.known_services@.remove_keys(names.take(0).to_set()) =~= start.known_services@);
            assert(told.take(told.len() as int) =~= told);
        }
        while i < n
            invariant
                n == expired@.len(),
                i <= n,
                names == texts(expired@),
                names.no_duplicates(),
                forall|k: int| 0 <= k < n ==> start.known_services@.contains_key(#[trigger] names[k]),
                self.registry == start.registry,
                self.pending_adds == start.pending_adds,
                self.pending_removals@ == start.pending_removals@.remove_keys(
                    names.take(i as int).to_set(),
                ),
                self.known_services@ == start.known_services@.remove_keys(
                    names.take(i as int).to_set(),
                ),
                events@.len() == told.len() + i,
                events@.take(told.len() as int) == told,
                forall|j: int|
                    0 <= j < i ==> is_removal(#[trigger] events@[told.len() + j], names[j]),
            decreases n - i,
        {
            let ghost done = names.take(i as int);
            let ghost s = names[i as int];
            let ghost before = events@;
            proof {
                assert(expired@[i as int]@ == s);
                assert(names.take(i as int + 1) =~= done.push(s));
                lemma_pushed(done, s);
                assert(!done.contains(s)) by {
                    if done.contains(s) {
                        let j = done.index_of(s);
                        assert(names[j] == names[i as int]);
                    }
                }
            }
            self.pending_removals.remove(expired[i].as_str());
            if self.known_services.remove(expired[i].as_str()).is_some() {
                events.push(DiscoveryEvent::Removed { source_id: expired[i].clone() });
            }
            proof {
                assert(self.pending_removals@ =~= start.pending_removals@.remove_keys(
                    done.push(s).to_set(),
                ));
                assert(self.known_services@ =~= start.known_services@.remove_keys(
                    done.push(s).to_set(),
                ));
                assert(events@.take(told.len() as int) =~= before.take(told.len() as int));
                assert forall|j: int| 0 <= j < i + 1 implies is_removal(
                    #[trigger] events@[told.len() + j],
                    names[j],
                ) by {
                    if j < i {
                        assert(events@[told.len() + j] == before[told.len() + j]);
                    }
                }
            }
            i = i + 1;
        }
        assert(names.take(n as int) =~= names);
    }

    /// Lets time pass: reports the services that have been seen, or missed, for long enough.
    pub fn poll(&mut self, now_ns: u64) -> (r: Vec<DiscoveryEvent>)
        requires
            old(self).wf(),
        ensures
            final(self).wf(),
            old(self).is_settled(now_ns, *final(self), r@),
    {
        let ghost start = *self;
        let discarded: Vec<String> = names_where_settled(&self.pending_adds, now_ns, true);
        let promoted: Vec<String> = names_where_settled(&self.pending_adds, now_ns, false);
        let expired: Vec<String> = names_where_expired(&self.pending_removals, now_ns);
        proof {
            use_type_invariant(&self.pending_adds);
            use_type_invariant(&self.pending_removals);
            start.pending_adds.names_differ();
            start.pending_removals.names_differ();
            lemma_filtered(start.pending_adds.names(), is_promoted(start.pending_adds@, now_ns));
            lemma_filtered(start.pending_adds.names(), is_discarded(start.pending_adds@, now_ns));
            lemma_filtered(start.pending_removals.names(), is_expired(start.pending_removals@, now_ns));
            lemma_differ(start.pending_adds.names(), is_promoted(start.pending_adds@, now_ns));
            lemma_differ(start.pending_removals.names(), is_expired(start.pending_removals@, now_ns));
        }
        let mut events: Vec<DiscoveryEvent> = Vec::new();
        self.discard(&discarded);
        let ghost middle = *self;
        proof {
            assert forall|i: int| 0 <= i < promoted@.len() implies middle.pending_adds@.contains_key(
                #[trigger] texts(promoted@)[i],
            ) && middle.pending_adds@[texts(promoted@)[i]] == start.pending_adds@[texts(promoted@)[i]] by {
                let k = texts(promoted@)[i];
                assert(promoted_names(start, now_ns).contains(k));
                assert(start.pending_adds.names().contains(k));
                assert(start.pending_adds@.contains_key(k));
                assert(is_promoted(start.pending_adds@, now_ns)(k));
                if discarded_names(start, now_ns).contains(k) {
                    assert(is_discarded(start.pending_adds@, now_ns)(k));
                }
            }
        }
        self.promote(&promoted, &mut events);
        let ghost third = *self;
        let ghost told = events@;
        proof {
            assert(with_promoted(start.known_services@, middle.pending_adds@, texts(promoted@))
                =~= with_promoted(start.known_services@, start.pending_adds@, texts(promoted@))) by {
                assert forall|k: Seq<char>| texts(promoted@).contains(k) implies
                    middle.pending_adds@[k] == start.pending_adds@[k] by {
                    let i = texts(promoted@).index_of(k);
                    assert(texts(promoted@)[i] == k);
                }
            }
            assert forall|j: int| 0 <= j < expired@.len() implies third.known_services@.contains_key(
                #[trigger] texts(expired@)[j],
            ) by {
                let k = texts(expired@)[j];
                assert(expired_names(start, now_ns).contains(k));
                assert(start.pending_removals.names().contains(k));
                assert(start.pending_removals@.contains_key(k));
            }
        }
        self.expire(&expired, &mut events);
        proof {
            let p = texts(promoted@);
            assert forall|i: int| 0 <= i < p.len() implies #[trigger] events@[i]
                == DiscoveryEvent::Added(start.pending_adds@[p[i]].discovered) by {
                assert(events@.take(told.len() as int)[i] == told[i]);
                assert(middle.pending_adds@[texts(promoted@)[i]] == start.pending_adds@[texts(
                    promoted@,
                )[i]]);
            }
            assert forall|k: Seq<char>| #[trigger]
                self.pending_removals@.contains_key(k) implies self.known_services@.contains_key(k) by {
                assert(start.pending_removals@.contains_key(k));
                assert(start.known_services@.contains_key(k));
            }
            assert forall|k: Seq<char>| #[trigger]
                self.pending_adds@.contains_key(k) implies !self.known_services@.contains_key(k)
                && self.pending_adds@[k].discovered.source_id@ == k by {
                assert(start.pending_adds@.contains_key(k));
                assert(!start.known_services@.contains_key(k));
            }
        }
        events
    }
}

/// Whether an event tells that a service is gone.
pub open spec fn is_removal(e: DiscoveryEvent, name: Seq<char>) -> bool {
    e matches DiscoveryEvent::Removed { source_id } && source_id@ == name
}

pub(crate) proof fn lemma_filtered<T>(s: Seq<T>, p: spec_fn(T) -> bool)
    ensures
        forall|x: T| #[trigger] s.filter(p).contains(x) ==> s.contains(x) && p(x),
    decreases s.len(),
{
    reveal(Seq::filter);
    if s.len() > 0 {
        let init = s.drop_last();
        lemma_filtered(init, p);
        assert forall|x: T| #[trigger] s.filter(p).contains(x) implies s.contains(x) && p(x) by {
            let k = s.filter(p).index_of(x);
            assert(s.filter(p)[k] == x);
            if p(s.last()) && k == s.filter(p).len() - 1 {
                assert(s[s.len() - 1] == x);
            } else {
                assert(init.filter(p)[k] == x);
                assert(init.filter(p).contains(x));
                let j = init.index_of(x);
                assert(s[j] == x);
            }
        }
    }
}

proof fn lemma_differ<T>(s: Seq<T>, p: spec_fn(T) -> bool)
    requires
        s.no_duplicates(),
    ensures
        s.filter(p).no_duplicates(),
    decreases s.len(),
{
    reveal(Seq::filter);
    if s.len() > 0 {
        let init = s.drop_last();
        lemma_differ(init, p);
        if p(s.last()) {
            let kept = init.filter(p);
            lemma_filtered(init, p);
            assert(!kept.contains(s.last())) by {
                if kept.contains(s.last()) {
                    let j = init.index_of(s.last());
                    assert(s[j] == s[s.len() - 1]);
                }
            }
            assert forall|a: int, b: int|
                0 <= a < s.filter(p).len() && 0 <= b < s.filter(p).len() && a != b implies s.filter(
                p,
            )[a] != s.filter(p)[b] by {
                let last = kept.len() as int;
                if a == last {
                    assert(kept[b] == s.filter(p)[b]);
                } else if b == last {
                    assert(kept[a] == s.filter(p)[a]);
                } else {
                    assert(kept[a] != kept[b]);
                }
            }
        }
    }
}

// ── What holds of reports ───────────────────────────────────────────

/// A service is reported only once it has been seen for two seconds without having been missed
/// since, and only while it is not known.
pub proof fn services_settle_before_they_are_reported(
    d: MdnsDiscovery,
    now_ns: u64,
    after: MdnsDiscovery,
    events: Seq<DiscoveryEvent>,
    i: int,
)
    requires
        d.wf(),
        d.is_settled(now_ns, after, events),
        0 <= i < events.len(),
        events[i] is Added,
    ensures
        ({
            let k = events[i]->Added_0.source_id@;
            &&& d.pending_adds@.contains_key(k)
            &&& events[i]->Added_0 == d.pending_adds@[k].discovered
            &&& time_since(now_ns, d.pending_adds@[k].first_seen_ns) >= ADD_SETTLE_NS
            &&& !d.pending_adds@[k].removed
            &&& !d.known_services@.contains_key(k)
        }),
{
    let promoted = promoted_names(d, now_ns);
    if i >= promoted.len() {
        assert(is_removal(
            events[promoted.len() + (i - promoted.len())],
            expired_names(d, now_ns)[i - promoted.len()],
        ));
    }
    lemma_filtered(d.pending_adds.names(), is_promoted(d.pending_adds@, now_ns));
    assert(promoted.contains(promoted[i]));
    assert(d.pending_adds.names().contains(promoted[i]));
    assert(d.pending_adds@.contains_key(promoted[i]));
}

/// A service is reported as gone only once it has been missed for five seconds.
pub proof fn services_are_missed_before_they_are_gone(
    d: MdnsDiscovery,
    now_ns: u64,
    after: MdnsDiscovery,
    events: Seq<DiscoveryEvent>,
    i: int,
)
    requires
        d.wf(),
        d.is_settled(now_ns, after, events),
        0 <= i < events.len(),
        events[i] is Removed,
    ensures
        ({
            let k = events[i]->Removed_source_id@;
            &&& d.pending_removals@.contains_key(k)
            &&& d.known_services@.contains_key(k)
            &&& time_since(now_ns, d.pending_removals@[k]) >= REMOVAL_GRACE_NS
        }),
{
    let promoted = promoted_names(d, now_ns);
    let expired = expired_names(d, now_ns);
    if i < promoted.len() {
        assert(events[i] == DiscoveryEvent::Added(d.pending_adds@[promoted[i]].discovered));
    }
    let j = i - promoted.len();
    assert(is_removal(events[promoted.len() + j], expired[j]));
    lemma_filtered(d.pending_removals.names(), is_expired(d.pending_removals@, now_ns));
    assert(expired.contains(expired[j]));
    assert(d.pending_removals.names().contains(expired[j]));
    assert(d.pending_removals@.contains_key(expired[j]));
}

/// A known service that is missed and comes back in time stays known: no later look reports it as
/// gone, unless it is missed again.
pub proof fn services_that_come_back_stay(
    d: MdnsDiscovery,
    s: ResolvedService,
    back_ns: u64,
    middle: MdnsDiscovery,
    now_ns: u64,
    after: MdnsDiscovery,
    events: Seq<DiscoveryEvent>,
    i: int,
)
    requires
        d.wf(),
        d.pending_removals@.contains_key(s.fullname@),
        d.is_resolved(s, back_ns, middle),
        middle.wf(),
        middle.is_settled(now_ns, after, events),
        0 <= i < events.len(),
    ensures
        middle.known_services@.contains_key(s.fullname@),
        !is_removal(events[i], s.fullname@),
{
    if is_removal(events[i], s.fullname@) {
        services_are_missed_before_they_are_gone(middle, now_ns, after, events, i);
    }
}

/// What was reported is known, until it is reported as gone.
pub proof fn reported_services_are_known(
    d: MdnsDiscovery,
    now_ns: u64,
    after: MdnsDiscovery,
    events: Seq<DiscoveryEvent>,
    k: Seq<char>,
)
    requires
        d.is_settled(now_ns, after, events),
    ensures
        after.known_services@.contains_key(k) <==> (d.known_services@.contains_key(k)
            || promoted_names(d, now_ns).contains(k)) && !expired_names(d, now_ns).contains(k),
{
}

/// Services are reported after two seconds, and reported as gone after five.
pub proof fn services_wait_for_seconds(
    adds: Map<Seq<char>, PendingAdd>,
    removals: Map<Seq<char>, u64>,
    k: Seq<char>,
    now_ns: u64,
)
    ensures
        adds[k].first_seen_ns <= now_ns ==> {
            let seen = now_ns - adds[k].first_seen_ns >= 2 * 1000 * 1000 * 1000;
            &&& is_promoted(adds, now_ns)(k) <==> seen && !adds[k].removed
            &&& is_discarded(adds, now_ns)(k) <==> seen && adds[k].removed
        },
        removals[k] <= now_ns ==> (is_expired(removals, now_ns)(k) <==> now_ns - removals[k] >= 5 * 1000
            * 1000 * 1000),
{
}

/// A service that has waited for long enough is reported and known, and waits no longer; if it was
/// missed since, it is given up without a word.
pub proof fn services_that_waited_are_reported(
    d: MdnsDiscovery,
    now_ns: u64,
    after: MdnsDiscovery,
    events: Seq<DiscoveryEvent>,
    i: int,
)
    requires
        d.wf(),
        d.is_settled(now_ns, after, events),
        0 <= i < d.pending_adds.names().len(),
        d.pending_adds@.contains_key(d.pending_adds.names()[i]),
    ensures
        ({
            let k = d.pending_adds.names()[i];
            let waiting = d.pending_adds@[k];
            let seen = time_since(now_ns, waiting.first_seen_ns) >= 2 * 1000 * 1000 * 1000;
            &&& seen ==> !after.pending_adds@.contains_key(k)
            &&& seen && !waiting.removed ==> events.contains(DiscoveryEvent::Added(waiting.discovered))
            &&& seen && !waiting.removed ==> after.known_services@.contains_key(k)
                && after.known_services@[k] == waiting.discovered
            &&& seen && waiting.removed ==> !after.known_services@.contains_key(k)
            &&& !seen ==> after.pending_adds@.contains_key(k) && after.pending_adds@[k] == waiting
                && !after.known_services@.contains_key(k)
        }),
{
    let names = d.pending_adds.names();
    let k = names[i];
    let p = is_promoted(d.pending_adds@, now_ns);
    let q = is_discarded(d.pending_adds@, now_ns);
    let promoted = promoted_names(d, now_ns);
    let discarded = discarded_names(d, now_ns);
    let expired = expired_names(d, now_ns);
    lemma_filtered(names, p);
    lemma_filtered(names, q);
    lemma_filtered(d.pending_removals.names(), is_expired(d.pending_removals@, now_ns));
    if p(k) {
        names.lemma_filter_contains(p, i);
        assert(promoted.contains(k));
        let j = promoted.index_of(k);
        assert(events[j] == DiscoveryEvent::Added(d.pending_adds@[promoted[j]].discovered));
    }
    if q(k) {
        names.lemma_filter_contains(q, i);
        assert(discarded.contains(k));
    }
    assert(promoted.contains(k) ==> p(k));
    assert(discarded.contains(k) ==> q(k));
    if expired.contains(k) {
        assert(d.pending_removals.names().contains(k));
        assert(d.pending_removals@.contains_key(k));
    }
    assert(promoted.to_set().contains(k) <==> promoted.contains(k));
    assert(discarded.to_set().contains(k) <==> discarded.contains(k));
    assert(expired.to_set().contains(k) <==> expired.contains(k));
}

/// A service that was missed for long enough is reported as gone and no longer known; until then it
/// is missed, and known.
pub proof fn services_that_were_missed_are_gone(
    d: MdnsDiscovery,
    now_ns: u64,
    after: MdnsDiscovery,
    events: Seq<DiscoveryEvent>,
    i: int,
) -> (e: int)
    requires
        d.wf(),
        d.is_settled(now_ns, after, events),
        0 <= i < d.pending_removals.names().len(),
        d.pending_removals@.contains_key(d.pending_removals.names()[i]),
    ensures
        ({
            let k = d.pending_removals.names()[i];
            let gone = time_since(now_ns, d.pending_removals@[k]) >= 5 * 1000 * 1000 * 1000;
            &&& gone ==> !after.known_services@.contains_key(k)
            &&& gone ==> !after.pending_removals@.contains_key(k)
            &&& gone ==> 0 <= e < events.len() && is_removal(events[e], k)
            &&& !gone ==> after.known_services@.contains_key(k)
                && after.pending_removals@.contains_key(k) && after.pending_removals@[k]
                == d.pending_removals@[k]
        }),
{
    let names = d.pending_removals.names();
    let k = names[i];
    let p = is_expired(d.pending_removals@, now_ns);
    let promoted = promoted_names(d, now_ns);
    let expired = expired_names(d, now_ns);
    lemma_filtered(names, p);
    assert(expired.contains(k) ==> p(k));
    assert(expired.to_set().contains(k) <==> expired.contains(k));
    if p(k) {
        names.lemma_filter_contains(p, i);
        let j = expired.index_of(k);
        assert(is_removal(events[promoted.len() + j], expired[j]));
        promoted.len() + j
    } else {
        0
    }
}

/// A service type is completed with the domain, of which it keeps what it has.
pub proof fn service_types_are_completed(st: Seq<char>)
    ensures
        has_suffix(st, ".local."@) ==> normalized(st) == st,
        has_suffix(st, "."@) && !has_suffix(st, ".local."@) ==> normalized(st) == st + "local."@,
        !has_suffix(st, "."@) ==> normalized(st) == st + ".local."@,
{
    reveal_strlit(".local.");
    reveal_strlit(".");
    if has_suffix(st, ".local."@) {
        assert(st.subrange(st.len() - 7, st.len() as int)[6] == st.last());
        assert(st.subrange(st.len() - 1, st.len() as int) =~= "."@);
    }
}

/// A service belongs to an entry for mDNS with its type; whether the entry's type names the domain,
/// and dots at the end of the service's type, do not matter.
pub proof fn services_belong_to_their_type(e: DeviceEntry, service_type: Seq<char>)
    ensures
        offers(service_type)(e) <==> e.backend@ == "mdns"@ && e.service_type@.len() > 0
            && without_trailing(normalized(e.service_type@), '.') == without_trailing(
            service_type,
            '.',
        ),
        e.backend@ == "mdns"@ && e.service_type@.len() > 0 ==> offers(normalized(e.service_type@))(e),
        offers(service_type)(e) ==> offers(service_type.push('.'))(e),
{
    assert(service_type.push('.').drop_last() =~= service_type);
}

/// The types of all entries for mDNS are looked for, each once.
pub proof fn registered_types_are_looked_for(entries: Seq<DeviceEntry>, i: int)
    requires
        0 <= i < entries.len(),
    ensures
        entries[i].backend@ == "mdns"@ && entries[i].service_type@.len() > 0 ==> registered_types(
            entries,
        ).contains(normalized(entries[i].service_type@)),
        registered_types(entries).no_duplicates(),
{
    let p = is_mdns_entry();
    let kept = entries.filter(p);
    repeats_are_left_out(types_of(kept));
    if entries[i].backend@ == "mdns"@ && entries[i].service_type@.len() > 0 {
        entries.lemma_filter_contains(p, i);
        let j = kept.index_of(entries[i]);
        assert(types_of(kept)[j] == normalized(entries[i].service_type@));
        assert(types_of(kept).contains(normalized(entries[i].service_type@)));
    }
}

/// Nothing is looked for but the types of entries for mDNS.
pub proof fn only_registered_types_are_looked_for(entries: Seq<DeviceEntry>, t: Seq<char>) -> (i: int)
    requires
        registered_types(entries).contains(t),
    ensures
        0 <= i < entries.len(),
        entries[i].backend@ == "mdns"@,
        entries[i].service_type@.len() > 0,
        normalized(entries[i].service_type@) == t,
{
    let p = is_mdns_entry();
    let kept = entries.filter(p);
    repeats_are_left_out(types_of(kept));
    let j = types_of(kept).index_of(t);
    lemma_filter_from(entries, p, j);
    entries.index_of(kept[j])
}

/// A service is reached at its address, on its data port where it tells one that is a port number,
/// and else on its own port; without an address it has none.
pub proof fn services_are_reached_on_their_data_port(s: ResolvedService, ip: Seq<char>, port: nat)
    ensures
        s.ip is None ==> service_address(s) is None,
        s.ip matches Some(a) ==> service_address(s) == Some(a@ + ":"@ + decimal_text(data_port_of(s))),
        s.data_port is None ==> data_port_of(s) == s.port,
        s.data_port matches Some(t) ==> (parsed_number(t@, 65535) == Some(port) ==> data_port_of(s)
            == port),
        s.data_port matches Some(t) ==> (parsed_number(t@, 65535) is None ==> data_port_of(s)
            == s.port),
{
}

/// A service that is new and belongs to a registered device waits from now on, as that device.
pub proof fn new_services_wait(d: MdnsDiscovery, s: ResolvedService, now_ns: u64, after: MdnsDiscovery, i: int)
    requires
        d.is_resolved(s, now_ns, after),
        !d.known_services@.contains_key(s.fullname@),
        !d.pending_adds@.contains_key(s.fullname@),
        !d.pending_removals@.contains_key(s.fullname@),
    ensures
        after.known_services == d.known_services,
        after.pending_removals == d.pending_removals,
        0 <= i < d.registry.devices@.len() && offers(s.service_type@)(d.registry.devices@[i]) && (
        forall|k: int|
            0 <= k < i ==> !offers(s.service_type@)(#[trigger] d.registry.devices@[k])) ==> {
            let waiting = after.pending_adds@[s.fullname@];
            &&& after.pending_adds@.contains_key(s.fullname@)
            &&& waiting.first_seen_ns == now_ns
            &&& !waiting.removed
            &&& waiting.discovered.source_id@ == s.fullname@
            &&& waiting.discovered.device_name@ == d.registry.devices@[i].name@
            &&& waiting.discovered.entry == d.registry.devices@[i]
            &&& maybe_text(waiting.discovered.address) == service_address(s)
        },
        (forall|k: int|
            0 <= k < d.registry.devices@.len() ==> !offers(s.service_type@)(
                #[trigger] d.registry.devices@[k],
            )) ==> after == d,
{
    let p = offers(s.service_type@);
    if 0 <= i < d.registry.devices@.len() && p(d.registry.devices@[i]) && (forall|k: int|
        0 <= k < i ==> !p(#[trigger] d.registry.devices@[k])) {
        lemma_first_is(d.registry.devices@, p, i);
    }
    if forall|k: int| 0 <= k < d.registry.devices@.len() ==> !p(#[trigger] d.registry.devices@[k]) {
        lemma_first_is_none(d.registry.devices@, p);
    }
}

/// A service that is seen again is no longer missed, and otherwise stays as it is: known, or waiting
/// since it was first seen.
pub proof fn services_that_are_seen_again_are_not_missed(
    d: MdnsDiscovery,
    s: ResolvedService,
    now_ns: u64,
    after: MdnsDiscovery,
)
    requires
        d.wf(),
        d.is_resolved(s, now_ns, after),
    ensures
        d.known_services@.contains_key(s.fullname@) ==> after.known_services == d.known_services
            && after.pending_adds == d.pending_adds && after.pending_removals@
            =~= d.pending_removals@.remove(s.fullname@),
        d.pending_adds@.contains_key(s.fullname@) ==> {
            let waiting = after.pending_adds@[s.fullname@];
            &&& after.pending_adds@.contains_key(s.fullname@)
            &&& !waiting.removed
            &&& waiting.first_seen_ns == d.pending_adds@[s.fullname@].first_seen_ns
            &&& waiting.discovered == d.pending_adds@[s.fullname@].discovered
        },
        after.registry == d.registry,
{
}

/// A service that is missed is marked where it waits, and missed from then on where it is known; any
/// other changes nothing.
pub proof fn missed_services_are_noted(
    d: MdnsDiscovery,
    name: Seq<char>,
    now_ns: u64,
    after: MdnsDiscovery,
)
    requires
        d.wf(),
        d.is_missed(name, now_ns, after),
    ensures
        d.pending_adds@.contains_key(name) ==> after.pending_adds@.contains_key(name)
            && after.pending_adds@[name].removed && after.pending_adds@[name].first_seen_ns
            == d.pending_adds@[name].first_seen_ns && after.pending_adds@[name].discovered
            == d.pending_adds@[name].discovered && after.pending_removals == d.pending_removals,
        d.known_services@.contains_key(name) ==> after.pending_removals@.contains_key(name)
            && after.pending_removals@[name] == (if d.pending_removals@.contains_key(name) {
            d.pending_removals@[name]
        } else {
            now_ns
        }),
        !d.pending_adds@.contains_key(name) && !d.known_services@.contains_key(name) ==> after == d,
        after.known_services == d.known_services,
        after.registry == d.registry,
{
}

/// A service is still there while it is known, also while it is missed.
pub proof fn missed_services_are_still_there(d: &MdnsDiscovery, source_id: &str, r: bool)
    requires
        call_ensures(MdnsDiscovery::device_still_exists, (d, source_id), r),
        d.wf(),
    ensures
        r <==> d.known_services@.contains_key(source_id@),
{
}

} // verus!
