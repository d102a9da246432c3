//! Recorded files: listed, deleted and replayed.

use vstd::prelude::*;
use crate::engine::command::{is_error_with, BatchDeleteFailure, EngineResponse};
use crate::engine::recorder::mcap_writer::recording_file_name;
use crate::engine::replay::{is_replay_speed, SPEED_MAX_BITS, SPEED_MIN_BITS, SPEED_NORMAL_BITS};
use crate::engine::state::Engine;
use crate::seqs::{first_where, first_where_finds, lemma_first_is, lemma_first_is_none};
use crate::text::{ascii_is_one_byte_each, byte_len, char_width, chars_of, maybe_text, owned, str_eq,
    utf8_len};

verus! {

/// The longest name of a session, in bytes.
pub const SESSION_ID_MAX: usize = 64;

/// Whether a character may stand in the name of a session.
pub open spec fn is_id_char(c: char) -> bool {
    'a' <= c <= 'z' || 'A' <= c <= 'Z' || '0' <= c <= '9' || c == '-'
}

/// Whether a text may be the name of a session: letters, digits and hyphens of ASCII, from one to
/// sixty-four of them.
pub open spec fn is_session_id(s: Seq<char>) -> bool {
    1 <= byte_len(s) <= SESSION_ID_MAX && forall|i: int| 0 <= i < s.len() ==> is_id_char(#[trigger] s[i])
}

/// Why a text may not be the name of a session.
pub open spec fn session_id_error(s: Seq<char>) -> Option<Seq<char>> {
    if !(1 <= byte_len(s) <= SESSION_ID_MAX) {
        Some("session_id must be 1-64 characters"@)
    } else if !is_session_id(s) {
        Some("session_id must contain only alphanumeric characters and hyphens"@)
    } else {
        None
    }
}

/// The name of a session leads to no other directory: it holds neither `/` nor `.`.
pub proof fn session_ids_stay_in_their_directory(s: Seq<char>)
    requires
        is_session_id(s),
    ensures
        !s.contains('/'),
        !s.contains('.'),
        1 <= s.len() <= SESSION_ID_MAX,
{
    ascii_is_one_byte_each(s);
    assert(forall|i: int| 0 <= i < s.len() ==> is_id_char(#[trigger] s[i]));
}

/// A recorded file as it is found on disk.
pub struct RecordedFile {
    /// Its name without the extension.
    pub session_id: String,
    pub filename: String,
    pub size_bytes: u64,
    /// When it was made, in seconds since 1970.
    pub created_secs: Option<i64>,
    /// The time that its messages span and how many they are, if it could be read.
    pub summary: Option<(u64, u64)>,
}

/// What to do about a recording that is to be deleted, or replayed.
pub enum FilePlan {
    /// Answer this.
    Refuse(EngineResponse),
    /// Take the file at this place of the list.
    Take(usize),
}

/// The predicate of names of the file of a session.
pub open spec fn is_file_of(session_id: Seq<char>) -> spec_fn(String) -> bool {
    |f: String| f@ == session_id + ".mcap"@
}

/// Finds the file of a session among the names of files.
pub fn find_mcap_file(files: &Vec<String>, session_id: &str) -> (r: Option<usize>)
    ensures
        match r {
            Some(i) => first_where(files@, is_file_of(session_id@)) == Some(i as int) && i
                < files@.len(),
            None => first_where(files@, is_file_of(session_id@)) == None::<int>,
        },
{
    let wanted: String = recording_file_name(session_id);
    let n: usize = files.len();
    let mut i: usize = 0;
    while i < n
        invariant
            n == files@.len(),
            i <= n,
            wanted@ == session_id@ + ".mcap"@,
            forall|k: int| 0 <= k < i ==> !is_file_of(session_id@)(#[trigger] files@[k]),
        decreases n - i,
    {
        if str_eq(files[i].as_str(), wanted.as_str()) {
            proof {
                lemma_first_is(files@, is_file_of(session_id@), i as int);
            }
            return Some(i);
        }
        i = i + 1;
    }
    proof {
        lemma_first_is_none(files@, is_file_of(session_id@));
    }
    None
}

fn all_id_chars(s: &Vec<char>) -> (r: bool)
    ensures
        r == forall|i: int| 0 <= i < s@.len() ==> is_id_char(#[trigger] s@[i]),
{
    let n: usize = s.len();
    let mut i: usize = 0;
    while i < n
        invariant
            n == s@.len(),
            i <= n,
            forall|k: int| 0 <= k < i ==> is_id_char(#[trigger] s@[k]),
        decreases n - i,
    {
        let c: char = s[i];
        let ok: bool = ('a' <= c && c <= 'z') || ('A' <= c && c <= 'Z') || ('0' <= c && c <= '9') || c
            == '-';
        if !ok {
            assert(!is_id_char(s@[i as int]));
            return false;
        }
        i = i + 1;
    }
    true
}

impl Engine {
    /// Tests whether a text may be the name of a session: letters, digits and hyphens, at most
    /// sixty-four of them.
    pub fn validate_session_id(session_id: &str) -> (r: Result<(), String>)
        ensures
            r is Ok <==> is_session_id(session_id@),
            r matches Err(e) ==> session_id_error(session_id@) == Some(e@),
    {
        let chars: Vec<char> = chars_of(session_id);
        proof {
            ascii_is_one_byte_each(session_id@);
        }
        if chars.len() == 0 || chars.len() > SESSION_ID_MAX || utf8_len(&chars) > SESSION_ID_MAX {
            return Err(owned("session_id must be 1-64 characters"));
        }
        if !all_id_chars(&chars) {
            return Err(
                owned("session_id must contain only alphanumeric characters and hyphens"),
            );
        }
        Ok(())
    }

    /// Whether a session is being recorded.
    pub open spec fn records(self, session_id: Seq<char>) -> bool {
        self.recording matches Some(r) && r.state.is_under_way() && r.session_id@ == session_id
    }

    /// Whether a session is being replayed.
    pub open spec fn replays(self, session_id: Seq<char>) -> bool {
        self.replay.active() && maybe_text(self.replay.session_id) == Some(session_id)
    }

    /// Whether a recording is under way.
    pub open spec fn is_recording(self) -> bool {
        self.recording matches Some(r) && r.state.is_under_way()
    }

    /// Tests whether a recording is under way.
    pub fn recording_under_way(&self) -> (r: bool)
        ensures
            r == self.is_recording(),
    {
        match &self.recording {
            Some(session) => session.state.under_way(),
            None => false,
        }
    }

    /// Tests whether a session is being recorded.
    pub fn is_recording_session(&self, session_id: &str) -> (r: bool)
        ensures
            r == self.records(session_id@),
    {
        match &self.recording {
            Some(session) => session.state.under_way() && str_eq(
                session.session_id.as_str(),
                session_id,
            ),
            None => false,
        }
    }

    /// Tests whether a session is being replayed.
    pub fn is_replay_session(&self, session_id: &str) -> (r: bool)
        ensures
            r == self.replays(session_id@),
    {
        self.replay.is_active() && match self.replay.current_session_id() {
            Some(current) => str_eq(current.as_str(), session_id),
            None => false,
        }
    }

    /// The HTTP status and the message with which the deletion of a recording is refused, where
    /// `found` tells whether there is a file.
    pub open spec fn delete_refusal(self, session_id: Seq<char>, found: bool) -> Option<
        (u16, Seq<char>),
    > {
        if session_id_error(session_id) is Some {
            Some((400u16, session_id_error(session_id)->0))
        } else if self.records(session_id) {
            Some((409u16, "cannot delete: recording in progress"@))
        } else if self.replays(session_id) {
            Some((409u16, "cannot delete: replay in progress"@))
        } else if !found {
            Some((404u16, "recording not found"@))
        } else {
            None
        }
    }

    /// Decides about the deletion of a recording, given the names of all files.
    pub fn cmd_delete_recording(&self, session_id: &str, files: &Vec<String>) -> (r: FilePlan)
        ensures
            ({
                let file = first_where(files@, is_file_of(session_id@));
                match self.delete_refusal(session_id@, file is Some) {
                    Some((status, message)) => r matches FilePlan::Refuse(answer) && is_error_with(
                        answer,
                        status,
                        message,
                    ),
                    None => r matches FilePlan::Take(i) && file == Some(i as int) && i < files@.len(),
                }
            }),
    {
        if let Err(message) = Self::validate_session_id(session_id) {
            return FilePlan::Refuse(EngineResponse::ErrorWithStatus { status: 400, message });
        }
        if self.is_recording_session(session_id) {
            return FilePlan::Refuse(
                EngineResponse::ErrorWithStatus {
                    status: 409,
                    message: owned("cannot delete: recording in progress"),
                },
            );
        }
        if self.is_replay_session(session_id) {
            return FilePlan::Refuse(
                EngineResponse::ErrorWithStatus {
                    status: 409,
                    message: owned("cannot delete: replay in progress"),
                },
            );
        }
        match find_mcap_file(files, session_id) {
            Some(i) => FilePlan::Take(i),
            None => FilePlan::Refuse(
                EngineResponse::ErrorWithStatus {
                    status: 404,
                    message: owned("recording not found"),
                },
            ),
        }
    }

    /// The HTTP status and the message with which a replay is refused.
    pub open spec fn replay_refusal(self, session_id: Seq<char>, speed_bits: u64, found: bool) -> Option<
        (u16, Seq<char>),
    > {
        if session_id_error(session_id) is Some {
            Some((400u16, session_id_error(session_id)->0))
        } else if !is_replay_speed(speed_bits) {
            Some((400u16, "speed must be between 0.1 and 10.0"@))
        } else if self.is_recording() {
            Some((409u16, "cannot replay while recording is active"@))
        } else if self.replay.active() {
            Some((409u16, "another replay is already active, stop it first"@))
        } else if !found {
            Some((404u16, "recording not found"@))
        } else {
            None
        }
    }

    /// Decides about the replay of a recording at a speed, given the names of all files.
    pub fn cmd_start_replay(&self, session_id: &str, speed_bits: u64, files: &Vec<String>) -> (r:
        FilePlan)
        ensures
            ({
                let file = first_where(files@, is_file_of(session_id@));
                match self.replay_refusal(session_id@, speed_bits, file is Some) {
                    Some((status, message)) => r matches FilePlan::Refuse(answer) && is_error_with(
                        answer,
                        status,
                        message,
                    ),
                    None => r matches FilePlan::Take(i) && file == Some(i as int) && i < files@.len(),
                }
            }),
    {
        if let Err(message) = Self::validate_session_id(session_id) {
            return FilePlan::Refuse(EngineResponse::ErrorWithStatus { status: 400, message });
        }
        if speed_bits < SPEED_MIN_BITS || speed_bits > SPEED_MAX_BITS {
            return FilePlan::Refuse(
                EngineResponse::ErrorWithStatus {
                    status: 400,
                    message: owned("speed must be between 0.1 and 10.0"),
                },
            );
        }
        if self.recording_under_way() {
            return FilePlan::Refuse(
                EngineResponse::ErrorWithStatus {
                    status: 409,
                    message: owned("cannot replay while recording is active"),
                },
            );
        }
        if self.replay.is_active() {
            return FilePlan::Refuse(
                EngineResponse::ErrorWithStatus {
                    status: 409,
                    message: owned("another replay is already active, stop it first"),
                },
            );
        }
        match find_mcap_file(files, session_id) {
            Some(i) => FilePlan::Take(i),
            None => FilePlan::Refuse(
                EngineResponse::ErrorWithStatus {
                    status: 404,
                    message: owned("recording not found"),
                },
            ),
        }
    }
}

/// The speed of a replay, as the bits of a double: normal speed where none is asked for.
pub fn replay_speed(asked_bits: Option<u64>) -> (r: u64)
    ensures
        r == (match asked_bits {
            Some(bits) => bits,
            None => SPEED_NORMAL_BITS,
        }),
{
    match asked_bits {
        Some(bits) => bits,
        None => SPEED_NORMAL_BITS,
    }
}

/// The answer to a deletion that was tried.
pub fn delete_answer(session_id: String, removed: Result<(), String>) -> (r: EngineResponse)
    ensures
        match removed {
            Ok(_) => r == EngineResponse::Deleted(session_id),
            Err(e) => is_error_with(r, 500, "failed to delete file: "@ + e@),
        },
{
    match removed {
        Ok(()) => EngineResponse::Deleted(session_id),
        Err(e) => {
            let mut message: String = owned("failed to delete file: ");
            message.append(e.as_str());
            EngineResponse::ErrorWithStatus { status: 500, message }
        },
    }
}

/// The answer to a replay that was tried: what was found in the file, or why it cannot be replayed.
pub fn replay_answer(session_id: String, started: Result<(u64, u64), String>) -> (r: EngineResponse)
    ensures
        match started {
            Ok(found) => r == (EngineResponse::ReplayStarted {
                session_id,
                total_ns: found.0,
                message_count: found.1,
            }),
            Err(e) => is_error_with(r, 500, "replay start failed: "@ + e@),
        },
{
    match started {
        Ok(found) => EngineResponse::ReplayStarted {
            session_id,
            total_ns: found.0,
            message_count: found.1,
        },
        Err(e) => {
            let mut message: String = owned("replay start failed: ");
            message.append(e.as_str());
            EngineResponse::ErrorWithStatus { status: 500, message }
        },
    }
}

// ── Deletion of many recordings ─────────────────────────────────────

/// The deletion of many recordings.
pub struct BatchDelete {
    pub deleted: Vec<String>,
    pub failed: Vec<BatchDeleteFailure>,
}

/// What is to be done about one recording of many.
pub enum BatchStep {
    /// It was refused, or there is no such file: go on.
    Next,
    /// Remove the file at this place of the list, and tell how that went.
    Remove(usize),
}

/// Whether `f` tells that a recording was not deleted, and why.
pub open spec fn is_failure(f: BatchDeleteFailure, session_id: Seq<char>, error: Seq<char>) -> bool {
    f.session_id@ == session_id && f.error@ == error
}

impl BatchDelete {
    /// Begins to delete recordings. There must be some.
    pub fn begin(session_ids: &Vec<String>) -> (r: Result<Self, EngineResponse>)
        ensures
            r is Ok <==> session_ids@.len() > 0,
            r matches Ok(b) ==> b.deleted@ == Seq::<String>::empty() && b.failed@ == Seq::<
                BatchDeleteFailure,
            >::empty(),
            r matches Err(answer) ==> is_error_with(
                answer,
                400,
                "session_ids is required and must not be empty"@,
            ),
    {
        if session_ids.len() == 0 {
            return Err(
                EngineResponse::ErrorWithStatus {
                    status: 400,
                    message: owned("session_ids is required and must not be empty"),
                },
            );
        }
        Ok(BatchDelete { deleted: Vec::new(), failed: Vec::new() })
    }

    /// Decides about one recording, given the names of all files. One without a file is passed over
    /// in silence.
    pub fn next(&mut self, engine: &Engine, session_id: &String, files: &Vec<String>) -> (r: BatchStep)
        ensures
            final(self).deleted == old(self).deleted,
            ({
                let file = first_where(files@, is_file_of(session_id@));
                match engine.delete_refusal(session_id@, file is Some) {
                    Some((status, message)) => r is Next && if status == 404 {
                        final(self).failed@ == old(self).failed@
                    } else {
                        &&& final(self).failed@.len() == old(self).failed@.len() + 1
                        &&& final(self).failed@.drop_last() == old(self).failed@
                        &&& is_failure(final(self).failed@.last(), session_id@, message)
                    },
                    None => r matches BatchStep::Remove(i) && file == Some(i as int) && i
                        < files@.len() && final(self).failed@ == old(self).failed@,
                }
            }),
    {
        let ghost before = self.failed@;
        match engine.cmd_delete_recording(session_id.as_str(), files) {
            FilePlan::Take(i) => BatchStep::Remove(i),
            FilePlan::Refuse(EngineResponse::ErrorWithStatus { status, message }) => {
                if status != 404 {
                    self.failed.push(
                        BatchDeleteFailure { session_id: session_id.clone(), error: message },
                    );
                    assert(self.failed@.drop_last() =~= before);
                }
                BatchStep::Next
            },
            FilePlan::Refuse(_) => BatchStep::Next,
        }
    }

    /// Notes how the removal of a file went.
    pub fn removed(&mut self, session_id: &String, removed: Result<(), String>)
        ensures
            removed is Ok ==> final(self).deleted@ == old(self).deleted@.push(*session_id) && final(
                self).failed == old(self).failed,
            removed matches Err(e) ==> {
                &&& final(self).deleted == old(self).deleted
                &&& final(self).failed@.len() == old(self).failed@.len() + 1
                &&& final(self).failed@.drop_last() == old(self).failed@
                &&& is_failure(
                    final(self).failed@.last(),
                    session_id@,
                    "failed to delete: "@ + e@,
                )
            },
    {
        let ghost before = self.failed@;
        match removed {
            Ok(()) => {
                self.deleted.push(session_id.clone());
            },
            Err(e) => {
                let mut error: String = owned("failed to delete: ");
                error.append(e.as_str());
                self.failed.push(BatchDeleteFailure { session_id: session_id.clone(), error });
                assert(self.failed@.drop_last() =~= before);
            },
        }
    }

    /// The answer once all recordings were gone through.
    pub fn answer(self) -> (r: EngineResponse)
        ensures
            r == (EngineResponse::BatchDeleteResult { deleted: self.deleted, failed: self.failed }),
    {
        EngineResponse::BatchDeleteResult { deleted: self.deleted, failed: self.failed }
    }
}

/// What is being recorded or replayed is not deleted, whatever files there are.
pub proof fn recordings_in_use_are_not_deleted(engine: Engine, session_id: Seq<char>, found: bool)
    requires
        engine.records(session_id) || engine.replays(session_id),
    ensures
        engine.delete_refusal(session_id, found) is Some,
        is_session_id(session_id) ==> (engine.delete_refusal(session_id, found)->0).0 == 409,
{
}

/// A recording that is not in use and has a file can be deleted.
pub proof fn other_recordings_are_deleted(engine: Engine, session_id: Seq<char>)
    requires
        is_session_id(session_id),
        !engine.records(session_id),
        !engine.replays(session_id),
    ensures
        engine.delete_refusal(session_id, true) is None,
{
}

/// No replay begins while a recording or another replay is under way, and with neither one begins
/// at any speed from 0.1 to 10.0.
pub proof fn replays_wait_for_recordings(
    engine: Engine,
    session_id: Seq<char>,
    speed_bits: u64,
    found: bool,
)
    requires
        is_session_id(session_id),
        is_replay_speed(speed_bits),
    ensures
        engine.is_recording() || engine.replay.active() ==> engine.replay_refusal(
            session_id,
            speed_bits,
            found,
        ) is Some && (engine.replay_refusal(session_id, speed_bits, found)->0).0 == 409,
        !engine.is_recording() && !engine.replay.active() && found ==> engine.replay_refusal(
            session_id,
            speed_bits,
            found,
        ) is None,
{
}

/// The names of sessions are made of letters, digits and hyphens of ASCII, from one to sixty-four of
/// them.
pub proof fn session_ids_are_letters_digits_and_hyphens(s: Seq<char>)
    ensures
        is_session_id(s) <==> 1 <= s.len() <= 64 && forall|i: int|
            0 <= i < s.len() ==> (97 <= #[trigger] s[i] as int <= 122 || 65 <= s[i] as int <= 90 || 48
                <= s[i] as int <= 57 || s[i] as int == 45),
{
    if forall|i: int| 0 <= i < s.len() ==> is_id_char(#[trigger] s[i]) {
        assert forall|i: int| 0 <= i < s.len() implies char_width(#[trigger] s[i]) == 1 by {
            assert(is_id_char(s[i]));
        }
        ascii_is_one_byte_each(s);
    }
    assert forall|i: int| 0 <= i < s.len() implies (is_id_char(#[trigger] s[i]) <==> 97 <= s[i] as int
        <= 122 || 65 <= s[i] as int <= 90 || 48 <= s[i] as int <= 57 || s[i] as int == 45) by {}
}

/// What is wrong with the name of a session is told: its length first, then its characters. With a
/// right name nothing is.
pub proof fn wrong_session_ids_are_explained(s: Seq<char>)
    ensures
        is_session_id(s) <==> session_id_error(s) is None,
        s.len() == 0 || s.len() > 64 ==> session_id_error(s) == Some(
            "session_id must be 1-64 characters"@,
        ),
        1 <= byte_len(s) <= 64 && !is_session_id(s) ==> session_id_error(s) == Some(
            "session_id must contain only alphanumeric characters and hyphens"@,
        ),
{
    ascii_is_one_byte_each(s);
}

/// The file of a session is named after it, and that of no other session is.
pub proof fn files_are_named_after_their_session(file: String, a: Seq<char>, b: Seq<char>)
    ensures
        is_file_of(a)(file) <==> file@ == a + ".mcap"@,
        is_file_of(a)(file) && is_file_of(b)(file) ==> a == b,
{
    if is_file_of(a)(file) && is_file_of(b)(file) {
        assert(file@.len() == a.len() + ".mcap"@.len());
        assert(file@.len() == b.len() + ".mcap"@.len());
        assert((a + ".mcap"@).take(a.len() as int) =~= a);
        assert((b + ".mcap"@).take(b.len() as int) =~= b);
    }
}

/// A session is recorded, or replayed, where it is the one under way.
pub proof fn sessions_in_use_are_those_under_way(engine: Engine, session_id: Seq<char>)
    ensures
        engine.records(session_id) <==> engine.is_recording() && engine.recording->0.session_id@
            == session_id,
        engine.is_recording() <==> engine.recording is Some && (engine.recording->0.state is Starting
            || engine.recording->0.state is Recording),
        engine.replays(session_id) <==> engine.replay.active() && engine.replay.session_id is Some
            && engine.replay.session_id->0@ == session_id,
{
}

/// A deletion is refused as a bad request for a wrong name, as a conflict for a session in use and
/// as not found without a file, and for nothing else.
pub proof fn deletions_are_refused_for_a_reason(engine: Engine, session_id: Seq<char>, found: bool)
    ensures
        !is_session_id(session_id) ==> engine.delete_refusal(session_id, found) == Some(
            (400u16, session_id_error(session_id)->0),
        ),
        is_session_id(session_id) && engine.records(session_id) ==> engine.delete_refusal(
            session_id,
            found,
        ) == Some((409u16, "cannot delete: recording in progress"@)),
        is_session_id(session_id) && !engine.records(session_id) && engine.replays(session_id)
            ==> engine.delete_refusal(session_id, found) == Some(
            (409u16, "cannot delete: replay in progress"@),
        ),
        is_session_id(session_id) && !engine.records(session_id) && !engine.replays(session_id)
            ==> engine.delete_refusal(session_id, false) == Some((404u16, "recording not found"@))
            && engine.delete_refusal(session_id, true) is None,
{
    wrong_session_ids_are_explained(session_id);
}

/// A replay is refused as a bad request for a wrong name or speed, as a conflict during a recording
/// or another replay and as not found without a file, and for nothing else.
pub proof fn replays_are_refused_for_a_reason(
    engine: Engine,
    session_id: Seq<char>,
    speed_bits: u64,
    found: bool,
)
    ensures
        ({
            let refusal = engine.replay_refusal(session_id, speed_bits, found);
            let asked_well = is_session_id(session_id) && is_replay_speed(speed_bits);
            &&& !is_session_id(session_id) ==> refusal == Some(
                (400u16, session_id_error(session_id)->0),
            )
            &&& is_session_id(session_id) && !is_replay_speed(speed_bits) ==> refusal == Some(
                (400u16, "speed must be between 0.1 and 10.0"@),
            )
            &&& asked_well && engine.is_recording() ==> refusal == Some(
                (409u16, "cannot replay while recording is active"@),
            )
            &&& asked_well && !engine.is_recording() && engine.replay.active() ==> refusal == Some(
                (409u16, "another replay is already active, stop it first"@),
            )
            &&& asked_well && !engine.is_recording() && !engine.replay.active() && !found
                ==> refusal == Some((404u16, "recording not found"@))
            &&& asked_well && !engine.is_recording() && !engine.replay.active() && found
                ==> refusal is None
        }),
{
    wrong_session_ids_are_explained(session_id);
}

/// A failed deletion names its session and says why.
pub proof fn failures_name_their_session(f: BatchDeleteFailure, session_id: Seq<char>, error: Seq<char>)
    ensures
        is_failure(f, session_id, error) <==> f.session_id@ == session_id && f.error@ == error,
{
}

/// A replay runs at the speed that is asked for, and at normal speed where none is.
pub proof fn replays_run_at_the_asked_speed(asked: Option<u64>, r: u64)
    requires
        call_ensures(replay_speed, (asked,), r),
    ensures
        asked matches Some(bits) ==> r == bits,
        asked is None ==> r == 0x3ff0_0000_0000_0000,
{
}

/// A deletion that went well is answered with its session, and a failed one as an internal error with
/// its cause; so is the start of a replay.
pub proof fn tried_deletions_and_replays_are_answered(
    session_id: String,
    removed: Result<(), String>,
    started: Result<(u64, u64), String>,
    deletion: EngineResponse,
    replay: EngineResponse,
)
    requires
        call_ensures(delete_answer, (session_id, removed), deletion),
        call_ensures(replay_answer, (session_id, started), replay),
    ensures
        removed is Ok ==> deletion == EngineResponse::Deleted(session_id),
        removed matches Err(e) ==> is_error_with(deletion, 500, "failed to delete file: "@ + e@),
        started matches Ok(found) ==> replay == (EngineResponse::ReplayStarted {
            session_id,
            total_ns: found.0,
            message_count: found.1,
        }),
        started matches Err(e) ==> is_error_with(replay, 500, "replay start failed: "@ + e@),
{
}

/// The name of a session is accepted exactly where it is one, and what is wrong with it is told.
pub proof fn tested_session_ids_are_session_ids(session_id: &str, r: Result<(), String>)
    requires
        call_ensures(Engine::validate_session_id, (session_id,), r),
    ensures
        r is Ok <==> is_session_id(session_id@),
        r matches Err(e) ==> session_id_error(session_id@) == Some(e@),
{
}

/// A recording is deleted, or replayed, from its own file, where nothing keeps it from that.
pub proof fn recordings_are_taken_from_their_file(
    engine: &Engine,
    session_id: &str,
    speed_bits: u64,
    files: &Vec<String>,
    deletion: FilePlan,
    replay: FilePlan,
)
    requires
        call_ensures(Engine::cmd_delete_recording, (engine, session_id, files), deletion),
        call_ensures(Engine::cmd_start_replay, (engine, session_id, speed_bits, files), replay),
    ensures
        deletion matches FilePlan::Take(i) ==> i < files@.len() && files@[i as int]@ == session_id@
            + ".mcap"@ && !engine.records(session_id@) && !engine.replays(session_id@),
        replay matches FilePlan::Take(i) ==> i < files@.len() && files@[i as int]@ == session_id@
            + ".mcap"@ && !engine.is_recording() && !engine.replay.active() && is_replay_speed(
            speed_bits,
        ),
{
    first_where_finds(files@, is_file_of(session_id@));
}

/// Of a batch, a recording that was removed is among the deleted ones, and one that was not is among
/// the failed ones, with its cause; a batch without names is refused.
pub proof fn batches_note_each_recording(
    session_ids: &Vec<String>,
    begun: Result<BatchDelete, EngineResponse>,
    batch: &mut BatchDelete,
    session_id: &String,
    removed: Result<(), String>,
)
    requires
        call_ensures(BatchDelete::begin, (session_ids,), begun),
        call_ensures(BatchDelete::removed, (batch, session_id, removed), ()),
    ensures
        session_ids@.len() > 0 <==> begun is Ok,
        begun matches Err(answer) ==> is_error_with(
            answer,
            400,
            "session_ids is required and must not be empty"@,
        ),
        removed is Ok ==> final(batch).deleted@ == old(batch).deleted@.push(*session_id)
            && final(batch).failed == old(batch).failed,
        removed matches Err(e) ==> final(batch).deleted == old(batch).deleted
            && final(batch).failed@.last().session_id@ == session_id@
            && final(batch).failed@.last().error@ == "failed to delete: "@ + e@,
{
}

/// A batch is answered with the recordings that were deleted and those that were not.
pub proof fn batches_are_answered(batch: BatchDelete, r: EngineResponse)
    requires
        call_ensures(BatchDelete::answer, (batch,), r),
    ensures
        r matches EngineResponse::BatchDeleteResult { deleted, failed } && deleted == batch.deleted
            && failed == batch.failed,
{
}

} // verus!
