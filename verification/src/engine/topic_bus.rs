//! The bus on which messages are published by topic: what goes over it, and how often.

use vstd::prelude::*;
use crate::engine::process::time_since;
use crate::json::{field_of, has_key, JsonNumber, JsonTree, JsonValue};
use crate::seqs::{lemma_filter_from, lemma_filter_none, lemma_filter_step, lemma_filter_whole, lemma_first_is};
use crate::text::owned;

verus! {

/// The rate of a topic is taken over this time.
pub const RATE_WINDOW_NS: u64 = 5_000_000_000;

/// A rate over less than this time is not given.
pub const SHORTEST_WINDOW_NS: u64 = 1_000_000;

/// The topic of the heartbeat of the bus.
pub const HEARTBEAT_TOPIC: &'static str = "/heartbeat";

/// The topic on which all topics are listed.
pub const CATALOG_TOPIC: &'static str = "/topics/list";

/// What is sent over the bus.
#[derive(Debug)]
pub enum TopicBusMessage {
    Data { topic: String, payload: Vec<u8> },
    Shutdown,
}

/// How often a topic is published.
#[derive(Debug)]
pub struct TopicStats {
    /// Messages so far.
    pub count: u64,
    /// When the messages of the last seconds came.
    pub timestamps: Vec<u64>,
}

/// The predicate of moments that count at `now_ns`.
pub open spec fn is_recent(now_ns: u64) -> spec_fn(u64) -> bool {
    |t: u64| t + RATE_WINDOW_NS >= now_ns
}

fn keep_recent(timestamps: &Vec<u64>, now_ns: u64) -> (r: Vec<u64>)
    ensures
        r@ == timestamps@.filter(is_recent(now_ns)),
{
    let cutoff: u64 = now_ns.saturating_sub(RATE_WINDOW_NS);
    let n: usize = timestamps.len();
    let mut out: Vec<u64> = Vec::new();
    let mut i: usize = 0;
    proof {
        lemma_filter_none(timestamps@, is_recent(now_ns));
    }
    while i < n
        invariant
            n == timestamps@.len(),
            i <= n,
            cutoff == time_since(now_ns, RATE_WINDOW_NS),
            out@ == timestamps@.take(i as int).filter(is_recent(now_ns)),
        decreases n - i,
    {
        proof {
            lemma_filter_step(timestamps@, is_recent(now_ns), i as int);
        }
        if timestamps[i] >= cutoff {
            out.push(timestamps[i]);
        }
        i = i + 1;
    }
    proof {
        lemma_filter_whole(timestamps@, is_recent(now_ns));
    }
    out
}

impl TopicStats {
    /// A topic without messages.
    pub fn new() -> (r: Self)
        ensures
            r.count == 0,
            r.timestamps@ == Seq::<u64>::empty(),
    {
        TopicStats { count: 0, timestamps: Vec::new() }
    }

    /// Counts a message. Moments that lie too far back are forgotten.
    pub fn record(&mut self, now_ns: u64)
        ensures
            final(self).count == (if old(self).count == u64::MAX {
                0
            } else {
                old(self).count + 1
            }),
            final(self).timestamps@ == old(self).timestamps@.push(now_ns).filter(is_recent(now_ns)),
    {
        self.count = self.count.wrapping_add(1);
        self.timestamps.push(now_ns);
        self.timestamps = keep_recent(&self.timestamps, now_ns);
    }

    /// The rate of the topic: so many messages in so many nanoseconds, since the first recent one.
    /// There is none with fewer than two recent messages, or over too short a time.
    pub open spec fn rate_at(self, now_ns: u64) -> Option<(int, int)> {
        let recent = self.timestamps@.filter(is_recent(now_ns));
        if recent.len() < 2 || time_since(now_ns, recent[0]) < SHORTEST_WINDOW_NS {
            None
        } else {
            Some((recent.len() as int, time_since(now_ns, recent[0])))
        }
    }

    /// The rate of the topic.
    pub fn rate(&self, now_ns: u64) -> (r: Option<(u64, u64)>)
        ensures
            r is Some <==> self.rate_at(now_ns) is Some,
            r matches Some(x) ==> self.rate_at(now_ns) == Some((x.0 as int, x.1 as int)),
    {
        let recent: Vec<u64> = keep_recent(&self.timestamps, now_ns);
        if recent.len() < 2 {
            return None;
        }
        let window: u64 = now_ns.saturating_sub(recent[0]);
        if window < SHORTEST_WINDOW_NS {
            return None;
        }
        Some((recent.len() as u64, window))
    }
}

/// Every message that is remembered after one was counted is recent.
pub proof fn remembered_messages_are_recent(before: Seq<u64>, now_ns: u64, i: int)
    requires
        0 <= i < before.push(now_ns).filter(is_recent(now_ns)).len(),
    ensures
        before.push(now_ns).filter(is_recent(now_ns))[i] + RATE_WINDOW_NS >= now_ns,
        before.push(now_ns).filter(is_recent(now_ns)).last() == now_ns,
{
    let all = before.push(now_ns);
    all.lemma_filter_pred(is_recent(now_ns), i);
    reveal(Seq::filter);
    assert(is_recent(now_ns)(now_ns));
    assert(all.last() == now_ns);
}

/// The JSON value of a heartbeat of the bus.
pub open spec fn heartbeat_tree(timestamp_bits: u64, uptime_bits: u64, pid: u32) -> JsonTree {
    JsonTree::Object(
        seq![
            ("timestamp"@, JsonTree::Number(JsonNumber::Float(timestamp_bits))),
            ("uptime_secs"@, JsonTree::Number(JsonNumber::Float(uptime_bits))),
            ("pid"@, JsonTree::Number(JsonNumber::Unsigned(pid as u64))),
        ],
    )
}

/// The JSON value of a heartbeat of the bus. The seconds are given as the bits of doubles.
pub fn heartbeat_event(timestamp_bits: u64, uptime_bits: u64, pid: u32) -> (r: JsonValue)
    ensures
        r@ == heartbeat_tree(timestamp_bits, uptime_bits, pid),
{
    let mut out: Vec<(String, JsonValue)> = Vec::new();
    out.push((owned("timestamp"), JsonValue::Number(JsonNumber::Float(timestamp_bits))));
    out.push((owned("uptime_secs"), JsonValue::Number(JsonNumber::Float(uptime_bits))));
    out.push((owned("pid"), JsonValue::Number(JsonNumber::Unsigned(pid as u64))));
    let r: JsonValue = JsonValue::Object(out);
    proof {
        reveal_with_fuel(JsonValue::view, 2);
    }
    assert(r@->Object_0 =~= heartbeat_tree(timestamp_bits, uptime_bits, pid)->Object_0);
    r
}

/// The JSON value of a topic in the list of all topics.
pub open spec fn topic_tree(name: Seq<char>, count: u64, hz_bits: u64) -> JsonTree {
    JsonTree::Object(
        seq![
            ("name"@, JsonTree::Text(name)),
            ("count"@, JsonTree::Number(JsonNumber::Unsigned(count))),
            ("hz"@, JsonTree::Number(JsonNumber::Float(hz_bits))),
        ],
    )
}

/// The JSON value of a topic in the list of all topics. Its rate is given as the bits of a double.
pub fn topic_event(name: &str, count: u64, hz_bits: u64) -> (r: JsonValue)
    ensures
        r@ == topic_tree(name@, count, hz_bits),
{
    let mut out: Vec<(String, JsonValue)> = Vec::new();
    out.push((owned("name"), JsonValue::Text(owned(name))));
    out.push((owned("count"), JsonValue::Number(JsonNumber::Unsigned(count))));
    out.push((owned("hz"), JsonValue::Number(JsonNumber::Float(hz_bits))));
    let r: JsonValue = JsonValue::Object(out);
    proof {
        reveal_with_fuel(JsonValue::view, 2);
    }
    assert(r@->Object_0 =~= topic_tree(name@, count, hz_bits)->Object_0);
    r
}

/// A message counts towards the rate for five seconds.
pub proof fn messages_count_for_five_seconds(t: u64, now_ns: u64)
    ensures
        t <= now_ns ==> (is_recent(now_ns)(t) <==> now_ns - t <= 5 * 1000 * 1000 * 1000),
        t > now_ns ==> is_recent(now_ns)(t),
{
}

/// The rate counts all recent messages over the time since the first of them; it is given for two
/// messages or more over at least a millisecond.
pub proof fn rates_count_recent_messages(stats: TopicStats, now_ns: u64)
    requires
        forall|i: int| 0 <= i < stats.timestamps@.len() ==> #[trigger] stats.timestamps@[i] <= now_ns,
    ensures
        ({
            let recent = stats.timestamps@.filter(|t: u64| now_ns - t <= 5 * 1000 * 1000 * 1000);
            &&& stats.rate_at(now_ns) is Some <==> recent.len() >= 2 && now_ns - recent[0] >= 1000
                * 1000
            &&& stats.rate_at(now_ns) matches Some(r) ==> r.0 == recent.len() && r.1 == now_ns
                - recent[0]
        }),
{
    let p = is_recent(now_ns);
    let q = |t: u64| now_ns - t <= 5 * 1000 * 1000 * 1000;
    lemma_same_recent(stats.timestamps@, now_ns);
    let recent = stats.timestamps@.filter(q);
    if recent.len() > 0 {
        lemma_filter_from(stats.timestamps@, q, 0);
        let k = stats.timestamps@.index_of(recent[0]);
        assert(stats.timestamps@[k] == recent[0]);
    }
}

proof fn lemma_same_recent(s: Seq<u64>, now_ns: u64)
    ensures
        s.filter(is_recent(now_ns)) == s.filter(|t: u64| now_ns - t <= 5 * 1000 * 1000 * 1000),
    decreases s.len(),
{
    reveal(Seq::filter);
    if s.len() > 0 {
        lemma_same_recent(s.drop_last(), now_ns);
    }
}

/// A heartbeat of the bus tells its time, how long the bus has been up, and the process.
pub proof fn bus_heartbeats_tell_their_process(timestamp_bits: u64, uptime_bits: u64, pid: u32)
    ensures
        ({
            let tree = heartbeat_tree(timestamp_bits, uptime_bits, pid);
            &&& field_of(tree, "timestamp"@) == Some(
                JsonTree::Number(JsonNumber::Float(timestamp_bits)),
            )
            &&& field_of(tree, "uptime_secs"@) == Some(
                JsonTree::Number(JsonNumber::Float(uptime_bits)),
            )
            &&& field_of(tree, "pid"@) == Some(JsonTree::Number(JsonNumber::Unsigned(pid as u64)))
            &&& tree->Object_0.len() == 3
        }),
{
    reveal_strlit("timestamp");
    reveal_strlit("uptime_secs");
    reveal_strlit("pid");
    assert("timestamp"@.len() == 9 && "uptime_secs"@.len() == 11 && "pid"@.len() == 3);
    let fields = heartbeat_tree(timestamp_bits, uptime_bits, pid)->Object_0;
    lemma_first_is(fields, has_key("timestamp"@), 0);
    lemma_first_is(fields, has_key("uptime_secs"@), 1);
    lemma_first_is(fields, has_key("pid"@), 2);
}

/// A topic in the list tells its name, how many messages it had, and its rate.
pub proof fn listed_topics_tell_their_rate(name: Seq<char>, count: u64, hz_bits: u64)
    ensures
        ({
            let tree = topic_tree(name, count, hz_bits);
            &&& field_of(tree, "name"@) == Some(JsonTree::Text(name))
            &&& field_of(tree, "count"@) == Some(JsonTree::Number(JsonNumber::Unsigned(count)))
            &&& field_of(tree, "hz"@) == Some(JsonTree::Number(JsonNumber::Float(hz_bits)))
            &&& tree->Object_0.len() == 3
        }),
{
    reveal_strlit("name");
    reveal_strlit("count");
    reveal_strlit("hz");
    assert("name"@.len() == 4 && "count"@.len() == 5 && "hz"@.len() == 2);
    let fields = topic_tree(name, count, hz_bits)->Object_0;
    lemma_first_is(fields, has_key("name"@), 0);
    lemma_first_is(fields, has_key("count"@), 1);
    lemma_first_is(fields, has_key("hz"@), 2);
}

/// The bus keeps two topics for itself.
pub proof fn the_bus_has_topics_of_its_own()
    ensures
        HEARTBEAT_TOPIC@ == "/heartbeat"@,
        CATALOG_TOPIC@ == "/topics/list"@,
{
}

/// A message is counted, and remembered together with those of the last five seconds.
pub proof fn messages_are_counted_and_remembered(stats: &mut TopicStats, now_ns: u64)
    requires
        call_ensures(TopicStats::record, (stats, now_ns), ()),
        old(stats).count < u64::MAX,
    ensures
        final(stats).count == old(stats).count + 1,
        final(stats).timestamps@ == old(stats).timestamps@.push(now_ns).filter(is_recent(now_ns)),
{
}

} // verus!
