//! Replays: what an MCAP file holds, and where its replay stands.

use vstd::prelude::*;
use crate::engine::command::{ReplayState, ReplayStatusInfo, Share};
use crate::engine::mcap_file::{file_messages, read_messages};
use crate::json::{field_of, has_key, json_bytes, write_json, JsonNumber, JsonTree, JsonValue};
use crate::seqs::{lemma_first_is, option_deref};
use crate::text::{maybe_text, owned};

verus! {

/// The bits of the double 1.0.
pub const SPEED_NORMAL_BITS: u64 = 0x3ff0_0000_0000_0000;

/// The bits of the double 0.1.
pub const SPEED_MIN_BITS: u64 = 0x3fb9_9999_9999_999a;

/// The bits of the double 10.0.
pub const SPEED_MAX_BITS: u64 = 0x4024_0000_0000_0000;

/// Shorter pauses between messages are left out.
pub const SHORTEST_PAUSE_NS: u64 = 1000;

/// The topic on which the start and the end of a replay are told.
pub const STATUS_TOPIC: &'static str = "/replay/status";

/// A message of a recording.
#[derive(Debug)]
pub struct ReplayMessage {
    pub log_time: u64,
    pub topic: String,
    pub payload: Vec<u8>,
}

/// What a message of a recording stands for.
pub ghost struct MessageModel {
    pub log_time: u64,
    pub topic: Seq<char>,
    pub payload: Seq<u8>,
}

impl ReplayMessage {
    /// What this message stands for.
    pub open spec fn view(&self) -> MessageModel {
        MessageModel { log_time: self.log_time, topic: self.topic@, payload: self.payload@ }
    }
}

/// Messages as models.
pub open spec fn models(v: Seq<ReplayMessage>) -> Seq<MessageModel> {
    v.map_values(|m: ReplayMessage| m@)
}

/// The time from the first message to the last, or nothing where the last is not the later one.
pub open spec fn span_of(messages: Seq<MessageModel>) -> int {
    if messages.len() > 0 && messages.first().log_time <= messages.last().log_time {
        messages.last().log_time - messages.first().log_time
    } else {
        0
    }
}

/// The time that messages span, and how many they are.
pub fn summary_of(messages: &Vec<ReplayMessage>) -> (r: (u64, u64))
    ensures
        r.0 == span_of(models(messages@)),
        r.1 == messages@.len(),
{
    let n: usize = messages.len();
    if n == 0 {
        return (0, 0);
    }
    assert(models(messages@).first() == messages@[0]@);
    assert(models(messages@).last() == messages@[n - 1]@);
    (messages[n - 1].log_time.saturating_sub(messages[0].log_time), n as u64)
}

/// The time in nanoseconds that the messages of an MCAP file span, and how many they are. Of a file
/// that cannot be read to its end, the messages up to there count.
pub fn read_mcap_summary(data: &[u8]) -> (r: (u64, u64))
    ensures
        r.0 == span_of(file_messages(data@)),
        r.1 == file_messages(data@).len(),
{
    let messages: Vec<ReplayMessage> = read_messages(data);
    assert(models(messages@).len() == messages@.len());
    summary_of(&messages)
}

/// The messages of an MCAP file that can be read.
pub fn load_messages(data: &[u8]) -> (r: Vec<ReplayMessage>)
    ensures
        models(r@) == file_messages(data@),
{
    read_messages(data)
}

// ── The course of a replay ──────────────────────────────────────────

/// Whether a speed, given as the bits of a double, is one that a replay can have: from 0.1 to 10.0.
pub open spec fn is_replay_speed(bits: u64) -> bool {
    SPEED_MIN_BITS <= bits <= SPEED_MAX_BITS
}

/// What comes next in a replay.
#[derive(Debug, Clone, Copy, PartialEq, Eq, Structural)]
pub enum ReplayStep {
    /// Send the message, behind a pause of so many nanoseconds at normal speed.
    Send { pause_ns: u64 },
    /// The replay was stopped.
    Cancelled,
    /// All messages were sent.
    Finished,
}

/// The time between a message and the one before it.
pub open spec fn pause_before(messages: Seq<MessageModel>, i: int) -> int {
    if i > 0 && messages[i - 1].log_time <= messages[i].log_time {
        messages[i].log_time - messages[i - 1].log_time
    } else {
        0
    }
}

/// What comes next once `i` messages were sent.
pub fn next_step(messages: &Vec<ReplayMessage>, i: usize, cancel: bool) -> (r: ReplayStep)
    ensures
        r == (if i >= messages@.len() {
            ReplayStep::Finished
        } else if cancel {
            ReplayStep::Cancelled
        } else {
            ReplayStep::Send { pause_ns: pause_before(models(messages@), i as int) as u64 }
        }),
{
    if i >= messages.len() {
        return ReplayStep::Finished;
    }
    if cancel {
        return ReplayStep::Cancelled;
    }
    let pause_ns: u64 = if i > 0 {
        messages[i].log_time.saturating_sub(messages[i - 1].log_time)
    } else {
        0
    };
    ReplayStep::Send { pause_ns }
}

/// Whether a pause is long enough to be kept.
pub fn is_worth_waiting(pause_ns: u64) -> (r: bool)
    ensures
        r == (pause_ns > SHORTEST_PAUSE_NS),
{
    pause_ns > SHORTEST_PAUSE_NS
}

/// How far a replay is once message `i` was sent: the time up to it, of the time of all messages.
pub open spec fn share_at(messages: Seq<MessageModel>, i: int) -> Share {
    if span_of(messages) > 0 {
        Share {
            part: if messages.first().log_time <= messages[i].log_time {
                (messages[i].log_time - messages.first().log_time) as u64
            } else {
                0
            },
            whole: span_of(messages) as u64,
        }
    } else {
        Share { part: 1, whole: 1 }
    }
}

/// How far a replay is once message `i` was sent.
pub fn progress_at(messages: &Vec<ReplayMessage>, i: usize) -> (r: Share)
    requires
        i < messages@.len(),
    ensures
        r == share_at(models(messages@), i as int),
{
    let (span, _) = summary_of(messages);
    assert(models(messages@).first() == messages@[0]@);
    if span > 0 {
        Share { part: messages[i].log_time.saturating_sub(messages[0].log_time), whole: span }
    } else {
        Share { part: 1, whole: 1 }
    }
}

/// A replay is complete once its last message was sent.
pub proof fn last_message_completes(messages: Seq<MessageModel>)
    requires
        messages.len() > 0,
    ensures
        share_at(messages, messages.len() - 1).part == share_at(messages, messages.len() - 1).whole,
        share_at(messages, messages.len() - 1).whole > 0,
{
}

/// Where a recording is in the order of time, the pauses of a replay add up to its whole time.
pub open spec fn pauses_up_to(messages: Seq<MessageModel>, i: int) -> int
    decreases i,
{
    if i <= 0 {
        0
    } else {
        pauses_up_to(messages, i - 1) + pause_before(messages, i)
    }
}

/// A replay at normal speed takes as long as the recording: where messages are in the order of
/// time, the pauses up to a message are the time from the first message to it.
pub proof fn replay_keeps_the_time(messages: Seq<MessageModel>, i: int)
    requires
        0 <= i < messages.len(),
        forall|a: int, b: int|
            0 <= a <= b < messages.len() ==> (#[trigger] messages[a]).log_time <= (
            #[trigger] messages[b]).log_time,
    ensures
        pauses_up_to(messages, i) == messages[i].log_time - messages[0].log_time,
    decreases i,
{
    if i > 0 {
        replay_keeps_the_time(messages, i - 1);
        assert(messages[i - 1].log_time <= messages[i].log_time);
    }
}

/// A replay, or none.
pub struct ReplayManager {
    pub state: ReplayState,
    pub session_id: Option<String>,
    pub progress: Share,
    pub elapsed_ns: u64,
    pub total_ns: u64,
    pub speed_bits: u64,
    pub error: Option<String>,
    pub cancel: bool,
}

impl ReplayManager {
    /// Whether a replay is under way: starting or running.
    pub open spec fn active(self) -> bool {
        self.state == ReplayState::Starting || self.state == ReplayState::Running
    }

    /// No replay.
    pub fn new() -> (r: Self)
        ensures
            r.state == ReplayState::Idle,
            r.session_id is None,
            r.progress == (Share { part: 0, whole: 1 }),
            r.elapsed_ns == 0,
            r.total_ns == 0,
            r.speed_bits == SPEED_NORMAL_BITS,
            r.error is None,
            !r.cancel,
    {
        ReplayManager {
            state: ReplayState::Idle,
            session_id: None,
            progress: Share { part: 0, whole: 1 },
            elapsed_ns: 0,
            total_ns: 0,
            speed_bits: SPEED_NORMAL_BITS,
            error: None,
            cancel: false,
        }
    }

    /// Tests whether a replay is under way.
    pub fn is_active(&self) -> (r: bool)
        ensures
            r == self.active(),
    {
        matches!(self.state, ReplayState::Starting | ReplayState::Running)
    }

    /// The session of the current or the last replay, if there is one.
    pub fn current_session_id(&self) -> (r: Option<String>)
        ensures
            maybe_text(r) == maybe_text(self.session_id),
    {
        match &self.session_id {
            Some(s) => Some(s.clone()),
            None => None,
        }
    }

    /// Begins the replay of a file that spans `total_ns`, unless one is under way.
    pub fn begin(&mut self, session_id: String, speed_bits: u64, total_ns: u64) -> (r: Result<
        (),
        String,
    >)
        ensures
            r is Ok <==> !old(self).active(),
            r is Ok ==> *final(self) == (ReplayManager {
                state: ReplayState::Starting,
                session_id: Some(session_id),
                progress: Share { part: 0, whole: 1 },
                elapsed_ns: 0,
                total_ns,
                speed_bits,
                error: None,
                cancel: false,
            }),
            r matches Err(e) ==> *final(self) == *old(self) && e@
                == "another replay is already active, stop it first"@,
    {
        if self.is_active() {
            return Err(owned("another replay is already active, stop it first"));
        }
        self.state = ReplayState::Starting;
        self.session_id = Some(session_id);
        self.progress = Share { part: 0, whole: 1 };
        self.elapsed_ns = 0;
        self.total_ns = total_ns;
        self.speed_bits = speed_bits;
        self.error = None;
        self.cancel = false;
        Ok(())
    }

    /// Begins the replay of an MCAP file that was read, or could not be, unless one is under way.
    /// Gives the time that the file spans and how many messages it holds.
    pub fn start(
        &mut self,
        file: &Result<Vec<u8>, String>,
        session_id: String,
        speed_bits: u64,
    ) -> (r: Result<(u64, u64), String>)
        ensures
            r is Ok <==> !old(self).active() && *file is Ok,
            r matches Ok(found) ==> {
                &&& found.0 == span_of(file_messages(file->Ok_0@))
                &&& found.1 == file_messages(file->Ok_0@).len()
                &&& *final(self) == (ReplayManager {
                    state: ReplayState::Starting,
                    session_id: Some(session_id),
                    progress: Share { part: 0, whole: 1 },
                    elapsed_ns: 0,
                    total_ns: found.0,
                    speed_bits,
                    error: None,
                    cancel: false,
                })
            },
            r matches Err(e) ==> *final(self) == *old(self) && e@ == (if old(self).active() {
                "another replay is already active, stop it first"@
            } else {
                "read mcap file: "@ + file->Err_0@
            }),
    {
        if self.is_active() {
            return Err(owned("another replay is already active, stop it first"));
        }
        let data: &Vec<u8> = match file {
            Ok(data) => data,
            Err(e) => {
                let mut text: String = owned("read mcap file: ");
                text.append(e.as_str());
                return Err(text);
            },
        };
        let found: (u64, u64) = read_mcap_summary(data.as_slice());
        match self.begin(session_id, speed_bits, found.0) {
            Ok(()) => Ok(found),
            Err(e) => Err(e),
        }
    }

    /// This manager once it was asked to stop: a replay under way is stopping, and of any other one
    /// nothing is left.
    pub open spec fn asked_to_stop(self) -> ReplayManager {
        if self.active() {
            ReplayManager { state: ReplayState::Stopping, cancel: true, ..self }
        } else {
            ReplayManager { state: ReplayState::Idle, session_id: None, ..self }
        }
    }

    /// This manager once its replay has stopped.
    pub open spec fn at_rest(self) -> ReplayManager {
        ReplayManager {
            state: ReplayState::Idle,
            session_id: None,
            progress: Share { part: 0, whole: 1 },
            elapsed_ns: 0,
            total_ns: 0,
            speed_bits: self.speed_bits,
            error: None,
            cancel: false,
        }
    }

    /// Asks a replay to stop and gives the session that was replayed. Without a replay under way,
    /// what is left of the last one is cleared.
    pub fn stop(&mut self) -> (r: Option<Option<String>>)
        ensures
            r is Some <==> old(self).active(),
            r matches Some(session_id) ==> maybe_text(session_id) == maybe_text(old(self).session_id),
            *final(self) == old(self).asked_to_stop(),
    {
        if !self.is_active() {
            self.state = ReplayState::Idle;
            self.session_id = None;
            return None;
        }
        let session_id: Option<String> = match &self.session_id {
            Some(s) => Some(s.clone()),
            None => None,
        };
        self.state = ReplayState::Stopping;
        self.cancel = true;
        Some(session_id)
    }

    /// Notes that a replay that was asked to stop has stopped.
    pub fn stopped(&mut self)
        ensures
            *final(self) == old(self).at_rest(),
    {
        self.state = ReplayState::Idle;
        self.session_id = None;
        self.progress = Share { part: 0, whole: 1 };
        self.elapsed_ns = 0;
        self.total_ns = 0;
        self.error = None;
        self.cancel = false;
    }

    /// Notes what the messages of the file turned out to be: a replay without messages is complete
    /// at once, one of a file that cannot be read has failed, and any other one runs.
    pub fn loaded(&mut self, messages: Result<usize, String>)
        ensures
            match messages {
                Err(e) => final(self).error matches Some(text) && text@ == "mcap parse failed: "@ + e@
                    && *final(self) == (ReplayManager {
                    state: ReplayState::Error,
                    error: final(self).error,
                    ..*old(self)
                }),
                Ok(0) => *final(self) == (ReplayManager {
                    state: ReplayState::Completed,
                    progress: Share { part: 1, whole: 1 },
                    ..*old(self)
                }),
                Ok(_) => *final(self) == (ReplayManager { state: ReplayState::Running, ..*old(self) }),
            },
    {
        match messages {
            Err(e) => {
                let mut text: String = owned("mcap parse failed: ");
                text.append(e.as_str());
                self.state = ReplayState::Error;
                self.error = Some(text);
            },
            Ok(n) => {
                if n == 0 {
                    self.state = ReplayState::Completed;
                    self.progress = Share { part: 1, whole: 1 };
                } else {
                    self.state = ReplayState::Running;
                }
            },
        }
    }

    /// Notes that a message was sent.
    pub fn advance(&mut self, elapsed_ns: u64, progress: Share)
        ensures
            *final(self) == (ReplayManager { elapsed_ns, progress, ..*old(self) }),
    {
        self.elapsed_ns = elapsed_ns;
        self.progress = progress;
    }

    /// Notes that all messages were sent.
    pub fn completed(&mut self)
        ensures
            *final(self) == (ReplayManager {
                state: ReplayState::Completed,
                progress: Share { part: 1, whole: 1 },
                ..*old(self)
            }),
    {
        self.state = ReplayState::Completed;
        self.progress = Share { part: 1, whole: 1 };
    }

    /// Where the replay stands.
    pub fn status(&self) -> (r: ReplayStatusInfo)
        ensures
            r.active == self.active(),
            r.state == self.state,
            maybe_text(r.session_id) == maybe_text(self.session_id),
            r.progress == self.progress,
            r.elapsed_ns == self.elapsed_ns,
            r.total_ns == self.total_ns,
            r.speed_bits == self.speed_bits,
            maybe_text(r.error) == maybe_text(self.error),
    {
        ReplayStatusInfo {
            active: self.is_active(),
            state: self.state,
            session_id: match &self.session_id {
                Some(s) => Some(s.clone()),
                None => None,
            },
            progress: self.progress,
            elapsed_ns: self.elapsed_ns,
            total_ns: self.total_ns,
            speed_bits: self.speed_bits,
            error: match &self.error {
                Some(e) => Some(e.clone()),
                None => None,
            },
        }
    }
}

/// A replay that was stopped is at rest, whatever it was before, and to stop it again changes
/// nothing.
pub proof fn stopping_again_changes_nothing(manager: ReplayManager)
    ensures
        ({
            let stopped = if manager.active() {
                manager.asked_to_stop().at_rest()
            } else {
                manager.asked_to_stop()
            };
            &&& !stopped.active()
            &&& stopped.state == ReplayState::Idle
            &&& stopped.session_id is None
            &&& stopped.asked_to_stop() == stopped
        }),
{
}

/// The JSON value that tells the start of a replay.
pub open spec fn start_tree(
    session_id: Seq<char>,
    total_secs_bits: u64,
    message_count: u64,
    speed_bits: u64,
) -> JsonTree {
    JsonTree::Object(
        seq![
            ("event"@, JsonTree::Text("start"@)),
            ("session_id"@, JsonTree::Text(session_id)),
            ("total_secs"@, JsonTree::Number(JsonNumber::Float(total_secs_bits))),
            ("message_count"@, JsonTree::Number(JsonNumber::Unsigned(message_count))),
            ("speed"@, JsonTree::Number(JsonNumber::Float(speed_bits))),
        ],
    )
}

/// The JSON value that tells the end of a replay.
pub open spec fn stop_tree(session_id: Option<Seq<char>>) -> JsonTree {
    JsonTree::Object(
        seq![
            ("event"@, JsonTree::Text("stop"@)),
            (
                "session_id"@,
                match session_id {
                    Some(s) => JsonTree::Text(s),
                    None => JsonTree::Null,
                },
            ),
        ],
    )
}

/// The JSON value that tells the start of a replay. The time and the speed are given as the bits of
/// doubles.
pub fn start_event(session_id: &str, total_secs_bits: u64, message_count: u64, speed_bits: u64) -> (r:
    JsonValue)
    ensures
        r@ == start_tree(session_id@, total_secs_bits, message_count, speed_bits),
{
    let mut out: Vec<(String, JsonValue)> = Vec::new();
    out.push((owned("event"), JsonValue::Text(owned("start"))));
    out.push((owned("session_id"), JsonValue::Text(owned(session_id))));
    out.push((owned("total_secs"), JsonValue::Number(JsonNumber::Float(total_secs_bits))));
    out.push((owned("message_count"), JsonValue::Number(JsonNumber::Unsigned(message_count))));
    out.push((owned("speed"), JsonValue::Number(JsonNumber::Float(speed_bits))));
    let r: JsonValue = JsonValue::Object(out);
    proof {
        reveal_with_fuel(JsonValue::view, 2);
    }
    assert(r@->Object_0 =~= start_tree(
        session_id@,
        total_secs_bits,
        message_count,
        speed_bits,
    )->Object_0);
    r
}

/// The JSON value that tells the end of a replay.
pub fn stop_event(session_id: Option<&String>) -> (r: JsonValue)
    ensures
        r@ == stop_tree(maybe_text(option_deref(session_id))),
{
    let mut out: Vec<(String, JsonValue)> = Vec::new();
    out.push((owned("event"), JsonValue::Text(owned("stop"))));
    let id: JsonValue = match session_id {
        Some(s) => JsonValue::Text(s.clone()),
        None => JsonValue::Null,
    };
    out.push((owned("session_id"), id));
    let r: JsonValue = JsonValue::Object(out);
    proof {
        reveal_with_fuel(JsonValue::view, 2);
    }
    assert(r@->Object_0 =~= stop_tree(maybe_text(option_deref(session_id)))->Object_0);
    r
}

/// The bytes of an event, as they are sent.
pub fn event_payload(event: &JsonValue) -> (r: Result<Vec<u8>, String>)
    ensures
        match r {
            Ok(bytes) => json_bytes(event@) == Ok::<Seq<u8>, Seq<char>>(bytes@),
            Err(e) => json_bytes(event@) == Err::<Seq<u8>, Seq<char>>(e@),
        },
{
    write_json(event)
}

/// Where messages are in the order of time and span some of it, the progress of a replay is the time
/// from the first message to the one that was sent, out of the time from the first to the last.
pub proof fn progress_is_the_share_of_the_time(messages: Seq<MessageModel>, i: int)
    requires
        0 <= i < messages.len(),
        forall|a: int, b: int|
            0 <= a <= b < messages.len() ==> (#[trigger] messages[a]).log_time <= (
            #[trigger] messages[b]).log_time,
        messages[0].log_time < messages[messages.len() - 1].log_time,
    ensures
        share_at(messages, i).part == messages[i].log_time - messages[0].log_time,
        share_at(messages, i).whole == messages[messages.len() - 1].log_time
            - messages[0].log_time,
        share_at(messages, 0).part == 0,
{
}

/// A later message is never behind an earlier one in progress, and is ahead of it where its time is
/// later; the whole stays the same.
pub proof fn progress_grows_with_the_time(messages: Seq<MessageModel>, i: int, j: int)
    requires
        0 <= i < messages.len(),
        0 <= j < messages.len(),
        messages[0].log_time < messages[messages.len() - 1].log_time,
        messages[0].log_time <= messages[i].log_time < messages[j].log_time,
    ensures
        share_at(messages, j).part - share_at(messages, i).part == messages[j].log_time
            - messages[i].log_time,
        share_at(messages, i).whole == share_at(messages, j).whole,
{
}

/// A message from before the first one counts as the very beginning. A recording that spans no time
/// is complete with every message.
pub proof fn progress_of_other_recordings(messages: Seq<MessageModel>, i: int)
    requires
        0 <= i < messages.len(),
    ensures
        messages[i].log_time <= messages[0].log_time < messages[messages.len() - 1].log_time
            ==> share_at(messages, i).part == 0 && share_at(messages, i).whole > 0,
        messages[messages.len() - 1].log_time <= messages[0].log_time ==> share_at(
            messages,
            i,
        ).part == share_at(messages, i).whole && share_at(messages, i).whole > 0,
{
}

/// Where messages are in the order of time, no two of them lie further apart than they span, and the
/// first and the last do.
pub proof fn no_messages_are_further_apart(messages: Seq<MessageModel>, i: int, j: int)
    requires
        0 <= i <= j < messages.len(),
        forall|a: int, b: int|
            0 <= a <= b < messages.len() ==> (#[trigger] messages[a]).log_time <= (
            #[trigger] messages[b]).log_time,
    ensures
        messages[j].log_time - messages[i].log_time <= span_of(messages),
        messages[0].log_time + span_of(messages) == messages[messages.len() - 1].log_time,
{
}

/// Messages that end before they began, and no messages at all, span no time.
pub proof fn some_messages_span_no_time(messages: Seq<MessageModel>)
    requires
        messages.len() > 0 ==> messages[messages.len() - 1].log_time <= messages[0].log_time,
    ensures
        span_of(messages) == 0,
{
}

/// Before the first message there is no pause, nor before a message that is not later than the one
/// before it; before any other one, the pause is the time between the two.
pub proof fn pauses_are_the_time_between_messages(messages: Seq<MessageModel>, i: int)
    requires
        0 <= i < messages.len(),
    ensures
        i == 0 ==> pause_before(messages, i) == 0,
        i > 0 && messages[i].log_time <= messages[i - 1].log_time ==> pause_before(messages, i) == 0,
        i > 0 && messages[i - 1].log_time <= messages[i].log_time ==> messages[i - 1].log_time
            + pause_before(messages, i) == messages[i].log_time,
{
}

/// A replay can have the speeds 0.1 and 10.0 and every one in between, and neither the next smaller
/// nor the next greater one.
pub proof fn speeds_are_from_a_tenth_to_ten(slow: u64, between: u64, fast: u64)
    requires
        is_replay_speed(slow),
        is_replay_speed(fast),
        slow <= between <= fast,
    ensures
        is_replay_speed(between),
        is_replay_speed(0x3fb9_9999_9999_999a),
        !is_replay_speed(0x3fb9_9999_9999_9999),
        is_replay_speed(0x4024_0000_0000_0000),
        !is_replay_speed(0x4024_0000_0000_0001),
        0x3fb9_9999_9999_999a <= between <= 0x4024_0000_0000_0000,
{
}

/// A replay is under way from when it is begun until it is stopped, is complete or fails.
pub proof fn replays_under_way_start_or_run(manager: ReplayManager)
    ensures
        manager.state == ReplayState::Starting ==> manager.active(),
        manager.state == ReplayState::Running ==> manager.active(),
        manager.state == ReplayState::Idle ==> !manager.active(),
        manager.state == ReplayState::Stopping ==> !manager.active(),
        manager.state == ReplayState::Completed ==> !manager.active(),
        manager.state == ReplayState::Error ==> !manager.active(),
{
}

/// A replay that is asked to stop is told so and keeps its session and its progress until it has
/// stopped; then nothing of it is left but its speed. What is left of a replay that has ended is
/// cleared at once.
pub proof fn stopped_replays_leave_nothing(manager: ReplayManager)
    ensures
        manager.active() ==> {
            let asked = manager.asked_to_stop();
            &&& asked.state == ReplayState::Stopping
            &&& asked.cancel
            &&& asked.session_id == manager.session_id
            &&& asked.progress == manager.progress
            &&& asked.elapsed_ns == manager.elapsed_ns
            &&& asked.total_ns == manager.total_ns
            &&& asked.speed_bits == manager.speed_bits
            &&& asked.error == manager.error
        },
        !manager.active() ==> {
            let asked = manager.asked_to_stop();
            &&& asked.state == ReplayState::Idle
            &&& asked.session_id is None
            &&& asked.cancel == manager.cancel
            &&& asked.progress == manager.progress
            &&& asked.elapsed_ns == manager.elapsed_ns
            &&& asked.total_ns == manager.total_ns
            &&& asked.speed_bits == manager.speed_bits
            &&& asked.error == manager.error
        },
        manager.at_rest().state == ReplayState::Idle,
        manager.at_rest().session_id is None,
        manager.at_rest().progress.part == 0,
        manager.at_rest().progress.whole == 1,
        manager.at_rest().elapsed_ns == 0,
        manager.at_rest().total_ns == 0,
        manager.at_rest().speed_bits == manager.speed_bits,
        manager.at_rest().error is None,
        !manager.at_rest().cancel,
{
}

/// Whoever reads the event that tells the start of a replay finds its session, its length, its
/// number of messages and its speed in it.
pub proof fn start_events_tell_all(
    session_id: Seq<char>,
    total_secs_bits: u64,
    message_count: u64,
    speed_bits: u64,
)
    ensures
        ({
            let event = start_tree(session_id, total_secs_bits, message_count, speed_bits);
            &&& field_of(event, "event"@) == Some(JsonTree::Text("start"@))
            &&& field_of(event, "session_id"@) == Some(JsonTree::Text(session_id))
            &&& field_of(event, "total_secs"@) == Some(
                JsonTree::Number(JsonNumber::Float(total_secs_bits)),
            )
            &&& field_of(event, "message_count"@) == Some(
                JsonTree::Number(JsonNumber::Unsigned(message_count)),
            )
            &&& field_of(event, "speed"@) == Some(JsonTree::Number(JsonNumber::Float(speed_bits)))
        }),
{
    reveal_strlit("event");
    reveal_strlit("session_id");
    reveal_strlit("total_secs");
    reveal_strlit("message_count");
    reveal_strlit("speed");
    let fields = start_tree(session_id, total_secs_bits, message_count, speed_bits)->Object_0;
    assert("event"@.len() == 5 && "speed"@.len() == 5 && "message_count"@.len() == 13);
    assert("session_id"@.len() == 10 && "total_secs"@.len() == 10);
    assert("event"@[0] == 'e' && "speed"@[0] == 's');
    assert("session_id"@[0] == 's' && "total_secs"@[0] == 't');
    lemma_first_is(fields, has_key("event"@), 0);
    lemma_first_is(fields, has_key("session_id"@), 1);
    lemma_first_is(fields, has_key("total_secs"@), 2);
    lemma_first_is(fields, has_key("message_count"@), 3);
    lemma_first_is(fields, has_key("speed"@), 4);
}

/// Whoever reads the event that tells the end of a replay finds its session in it, or `null`.
pub proof fn stop_events_tell_the_session(session_id: Option<Seq<char>>)
    ensures
        field_of(stop_tree(session_id), "event"@) == Some(JsonTree::Text("stop"@)),
        session_id matches Some(s) ==> field_of(stop_tree(session_id), "session_id"@) == Some(
            JsonTree::Text(s),
        ),
        session_id is None ==> field_of(stop_tree(session_id), "session_id"@) == Some(
            JsonTree::Null,
        ),
{
    reveal_strlit("event");
    reveal_strlit("session_id");
    assert("event"@.len() == 5 && "session_id"@.len() == 10);
    let fields = stop_tree(session_id)->Object_0;
    lemma_first_is(fields, has_key("event"@), 0);
    lemma_first_is(fields, has_key("session_id"@), 1);
}

/// What is told of a replay at a message is the time from the first message to it, out of the time
/// from the first message to the last.
pub proof fn told_progress_is_the_share_of_the_time(messages: &Vec<ReplayMessage>, i: usize, r: Share)
    requires
        i < messages@.len(),
        call_ensures(progress_at, (messages, i), r),
        messages@[0].log_time <= messages@[i as int].log_time <= messages@.last().log_time,
        messages@[0].log_time < messages@.last().log_time,
    ensures
        r.part == messages@[i as int].log_time - messages@[0].log_time,
        r.whole == messages@.last().log_time - messages@[0].log_time,
        i == 0 ==> r.part == 0,
{
    let all = models(messages@);
    assert(all[0] == messages@[0]@);
    assert(all[i as int] == messages@[i as int]@);
    assert(all.last() == messages@.last()@);
    assert(all.first() == all[0]);
}

/// Pauses of more than a microsecond are waited for, and shorter ones are not.
pub proof fn short_pauses_are_passed_over(pause_ns: u64, r: bool)
    requires
        call_ensures(is_worth_waiting, (pause_ns,), r),
    ensures
        r <==> pause_ns > 1000,
        STATUS_TOPIC@ == "/replay/status"@,
{
}

/// A replay sends its messages one after the other, each after its pause, until it is cancelled or
/// there are no more.
pub proof fn replays_go_on_to_the_end(messages: &Vec<ReplayMessage>, i: usize, cancel: bool, r: ReplayStep)
    requires
        call_ensures(next_step, (messages, i, cancel), r),
    ensures
        i >= messages@.len() ==> r == ReplayStep::Finished,
        i < messages@.len() && cancel ==> r == ReplayStep::Cancelled,
        i < messages@.len() && !cancel && i > 0 && messages@[i - 1].log_time
            <= messages@[i as int].log_time ==> r == (ReplayStep::Send {
            pause_ns: (messages@[i as int].log_time - messages@[i - 1].log_time) as u64,
        }),
        !cancel && messages@.len() > 0 && i == 0 ==> r == (ReplayStep::Send { pause_ns: 0 }),
{
    let all = models(messages@);
    if i < messages@.len() {
        assert(all[i as int] == messages@[i as int]@);
        if i > 0 {
            assert(all[i - 1] == messages@[i - 1]@);
        }
    }
}

/// A replay begins with nothing of it over, for the session and at the speed that were asked for;
/// while another is active it is refused, and that one goes on.
pub proof fn replays_begin_one_at_a_time(
    replay: &mut ReplayManager,
    session_id: String,
    speed_bits: u64,
    total_ns: u64,
    r: Result<(), String>,
)
    requires
        call_ensures(ReplayManager::begin, (replay, session_id, speed_bits, total_ns), r),
    ensures
        old(replay).active() ==> (r matches Err(e) && e@
            == "another replay is already active, stop it first"@) && *final(replay) == *old(replay),
        !old(replay).active() ==> r is Ok && final(replay).state == ReplayState::Starting
            && final(replay).session_id == Some(session_id) && final(replay).progress.part == 0
            && final(replay).elapsed_ns == 0 && final(replay).total_ns == total_ns
            && final(replay).speed_bits == speed_bits && final(replay).error is None
            && !final(replay).cancel,
{
}

/// A replay starts where its file can be read and no other is active, with the time and the number of
/// the file's messages.
pub proof fn replays_start_with_their_file(
    replay: &mut ReplayManager,
    file: &Result<Vec<u8>, String>,
    session_id: String,
    speed_bits: u64,
    r: Result<(u64, u64), String>,
)
    requires
        call_ensures(ReplayManager::start, (replay, file, session_id, speed_bits), r),
    ensures
        old(replay).active() ==> r is Err && *final(replay) == *old(replay),
        !old(replay).active() ==> (*file matches Err(e) ==> (r matches Err(t) && t@
            == "read mcap file: "@ + e@) && *final(replay) == *old(replay)),
        !old(replay).active() ==> (*file matches Ok(data) ==> (r matches Ok(found) && found.1
            == file_messages(data@).len() && found.0 == span_of(file_messages(data@))
            && final(replay).total_ns == found.0) && final(replay).state == ReplayState::Starting
            && final(replay).session_id == Some(session_id) && final(replay).speed_bits == speed_bits),
{
}

/// Once its messages are loaded a replay runs; without messages it is complete, and where they cannot
/// be read it ends with an error that says why.
pub proof fn loaded_replays_run(replay: &mut ReplayManager, messages: Result<usize, String>)
    requires
        call_ensures(ReplayManager::loaded, (replay, messages), ()),
    ensures
        messages matches Err(e) ==> final(replay).state == ReplayState::Error && maybe_text(
            final(replay).error,
        ) == Some("mcap parse failed: "@ + e@),
        messages matches Ok(n) ==> (n == 0 ==> final(replay).state == ReplayState::Completed
            && final(replay).progress == (Share { part: 1, whole: 1 })),
        messages matches Ok(n) ==> (n > 0 ==> final(replay).state == ReplayState::Running
            && final(replay).progress == old(replay).progress),
        final(replay).session_id == old(replay).session_id,
        final(replay).total_ns == old(replay).total_ns,
        final(replay).speed_bits == old(replay).speed_bits,
{
}

/// A completed replay is over as a whole, and what is told of it on the way is what it was told.
pub proof fn replays_are_followed(
    running: &mut ReplayManager,
    elapsed_ns: u64,
    progress: Share,
    ending: &mut ReplayManager,
)
    requires
        call_ensures(ReplayManager::advance, (running, elapsed_ns, progress), ()),
        call_ensures(ReplayManager::completed, (ending,), ()),
    ensures
        final(running).elapsed_ns == elapsed_ns,
        final(running).progress == progress,
        final(running).state == old(running).state,
        final(ending).state == ReplayState::Completed,
        final(ending).progress == (Share { part: 1, whole: 1 }),
        final(ending).elapsed_ns == old(ending).elapsed_ns,
{
}

/// At first there is no replay: nothing of one is over, and another may begin.
pub proof fn at_first_nothing_is_replayed(r: ReplayManager)
    requires
        call_ensures(ReplayManager::new, (), r),
    ensures
        !r.active(),
        r.state == ReplayState::Idle,
        r.session_id is None,
        r.progress.part == 0,
        r.progress.whole == 1,
        r.elapsed_ns == 0,
        r.total_ns == 0,
        r.speed_bits == 0x3ff0_0000_0000_0000,
        r.error is None,
        !r.cancel,
{
}

} // verus!
