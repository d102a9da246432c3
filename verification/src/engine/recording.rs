//! Recording sessions: one command per device when a recording starts, one when it stops.

use vstd::prelude::*;
use crate::name_map::NameMap;
use crate::registry::DeviceEntry;
use crate::seqs::option_deref;
use crate::text::{maybe_text, owned, signed_decimal, signed_text};

verus! {

/// Where a recording session stands.
#[derive(Debug, PartialEq)]
pub enum RecordingState {
    Starting,
    Recording,
    Stopping,
    Stopped,
    Failed(String),
}

impl Clone for RecordingState {
    fn clone(&self) -> (r: Self)
        ensures
            r == *self,
    {
        match self {
            RecordingState::Starting => RecordingState::Starting,
            RecordingState::Recording => RecordingState::Recording,
            RecordingState::Stopping => RecordingState::Stopping,
            RecordingState::Stopped => RecordingState::Stopped,
            RecordingState::Failed(e) => RecordingState::Failed(e.clone()),
        }
    }
}

impl RecordingState {
    /// The name of the state.
    pub open spec fn text(self) -> Seq<char> {
        match self {
            RecordingState::Starting => "starting"@,
            RecordingState::Recording => "recording"@,
            RecordingState::Stopping => "stopping"@,
            RecordingState::Stopped => "stopped"@,
            RecordingState::Failed(_) => "failed"@,
        }
    }

    /// Whether the session is under way: starting or recording.
    pub open spec fn is_under_way(self) -> bool {
        self is Starting || self is Recording
    }

    /// The name of the state.
    pub fn as_str(&self) -> (r: &str)
        ensures
            r@ == self.text(),
    {
        match self {
            RecordingState::Starting => "starting",
            RecordingState::Recording => "recording",
            RecordingState::Stopping => "stopping",
            RecordingState::Stopped => "stopped",
            RecordingState::Failed(_) => "failed",
        }
    }

    /// Tests whether the session is under way.
    pub fn under_way(&self) -> (r: bool)
        ensures
            r == self.is_under_way(),
    {
        matches!(self, RecordingState::Starting | RecordingState::Recording)
    }
}

/// Where the command of a device stands. A running command is known by the id of its process.
#[derive(Debug)]
pub enum DeviceRecordState {
    Pending,
    Running(u32),
    Done,
    Failed(String),
}

impl Clone for DeviceRecordState {
    fn clone(&self) -> (r: Self)
        ensures
            r == *self,
    {
        match self {
            DeviceRecordState::Pending => DeviceRecordState::Pending,
            DeviceRecordState::Running(pid) => DeviceRecordState::Running(*pid),
            DeviceRecordState::Done => DeviceRecordState::Done,
            DeviceRecordState::Failed(e) => DeviceRecordState::Failed(e.clone()),
        }
    }
}

impl DeviceRecordState {
    /// The name of the state.
    pub open spec fn text(self) -> Seq<char> {
        match self {
            DeviceRecordState::Pending => "pending"@,
            DeviceRecordState::Running(_) => "running"@,
            DeviceRecordState::Done => "done"@,
            DeviceRecordState::Failed(_) => "failed"@,
        }
    }

    /// Whether the command has come to its end.
    pub open spec fn is_settled(self) -> bool {
        self is Done || self is Failed
    }

    /// The name of the state.
    pub fn as_str(&self) -> (r: &str)
        ensures
            r@ == self.text(),
    {
        match self {
            DeviceRecordState::Pending => "pending",
            DeviceRecordState::Running(_) => "running",
            DeviceRecordState::Done => "done",
            DeviceRecordState::Failed(_) => "failed",
        }
    }
}

/// What a look at a running command shows.
#[derive(Debug)]
pub enum CommandOutcome {
    /// It has ended: with success or not, and with an exit code unless a signal ended it.
    Exited { success: bool, code: Option<i32> },
    StillRunning,
    /// Nothing can be learnt of it.
    Lost(String),
}

/// A command to run for a device, with what it is told in its environment.
#[derive(Debug)]
pub struct RecordCommand {
    pub command: String,
    pub session_id: String,
    pub output_dir: String,
    pub device_name: String,
    pub address: Option<String>,
}

/// A recording session.
pub struct RecordingSession {
    pub session_id: String,
    pub state: RecordingState,
    pub output_dir: String,
    pub created_at_ns: u64,
    pub device_states: NameMap<DeviceRecordState>,
}

/// Whether a look at a command changes its state.
pub open spec fn ends_now(state: DeviceRecordState, outcome: Option<CommandOutcome>) -> bool {
    state is Running && outcome is Some && !(outcome->0 is StillRunning)
}

/// Whether `new` is the state of a command after a look at it. Only a running command changes: one
/// that ended is done or has failed with its exit code, one that got lost has failed.
pub open spec fn is_progress(
    state: DeviceRecordState,
    outcome: Option<CommandOutcome>,
    new: DeviceRecordState,
) -> bool {
    if ends_now(state, outcome) {
        match outcome->0 {
            CommandOutcome::Exited { success, code } => if success {
                new is Done
            } else {
                new matches DeviceRecordState::Failed(e) && e@ == "exit code "@ + signed_text(
                    match code {
                        Some(c) => c as int,
                        None => -1,
                    },
                )
            },
            CommandOutcome::StillRunning => new == state,
            CommandOutcome::Lost(error) => new matches DeviceRecordState::Failed(e) && e@ == error@,
        }
    } else {
        new == state
    }
}

/// Whether all commands have come to their ends.
pub open spec fn all_settled(states: Map<Seq<char>, DeviceRecordState>) -> bool {
    forall|k: Seq<char>| #[trigger] states.contains_key(k) ==> states[k].is_settled()
}

/// Whether a command has failed.
pub open spec fn some_failed(states: Map<Seq<char>, DeviceRecordState>) -> bool {
    exists|k: Seq<char>| #[trigger] states.contains_key(k) && states[k] is Failed
}

/// What is looked up in a map.
pub open spec fn looked_up<V>(m: Map<Seq<char>, V>, k: Seq<char>) -> Option<V> {
    if m.contains_key(k) {
        Some(m[k])
    } else {
        None
    }
}

/// Whether `new` follows a session's state once all of its commands have come to their ends: a
/// session that was starting is recording, or has failed if a command has; one that was stopping
/// has stopped.
pub open spec fn follows(state: RecordingState, failed: bool, new: RecordingState) -> bool {
    match state {
        RecordingState::Starting => if failed {
            new matches RecordingState::Failed(e) && e@ == "some devices failed to start"@
        } else {
            new is Recording
        },
        RecordingState::Stopping => new is Stopped,
        _ => new == state,
    }
}

fn progress(state: &DeviceRecordState, outcome: Option<&CommandOutcome>) -> (r: (
    DeviceRecordState,
    bool,
))
    ensures
        is_progress(*state, option_deref(outcome), r.0),
        r.1 == ends_now(*state, option_deref(outcome)),
{
    match (state, outcome) {
        (DeviceRecordState::Running(_), Some(CommandOutcome::Exited { success, code })) => {
            if *success {
                (DeviceRecordState::Done, true)
            } else {
                let shown: i32 = match code {
                    Some(c) => *c,
                    None => -1,
                };
                let mut e: String = owned("exit code ");
                e.append(signed_decimal(shown as i64).as_str());
                (DeviceRecordState::Failed(e), true)
            }
        },
        (DeviceRecordState::Running(_), Some(CommandOutcome::Lost(error))) => {
            (DeviceRecordState::Failed(error.clone()), true)
        },
        _ => (state.clone(), false),
    }
}

impl RecordingSession {
    /// A session that starts.
    pub fn new(session_id: String, output_dir: String, now_ns: u64) -> (r: Self)
        ensures
            r.session_id == session_id,
            r.state is Starting,
            r.output_dir == output_dir,
            r.created_at_ns == now_ns,
            r.device_states@ == Map::<Seq<char>, DeviceRecordState>::empty(),
            r.device_states.names() == Seq::<Seq<char>>::empty(),
    {
        RecordingSession {
            session_id,
            state: RecordingState::Starting,
            output_dir,
            created_at_ns: now_ns,
            device_states: NameMap::new(),
        }
    }

    /// Whether a command is the given one, for a device of this session.
    pub open spec fn is_command(
        self,
        c: RecordCommand,
        command: Seq<char>,
        device_name: Seq<char>,
        address: Option<Seq<char>>,
    ) -> bool {
        &&& c.command@ == command
        &&& c.session_id@ == self.session_id@
        &&& c.output_dir@ == self.output_dir@
        &&& c.device_name@ == device_name
        &&& maybe_text(c.address) == address
    }

    fn begin(&mut self, command: &String, device_name: &str, address: Option<&String>) -> (r: Option<
        RecordCommand,
    >)
        ensures
            final(self).session_id == old(self).session_id,
            final(self).state == old(self).state,
            final(self).output_dir == old(self).output_dir,
            final(self).created_at_ns == old(self).created_at_ns,
            r is None <==> command@.len() == 0,
            r is None ==> final(self).device_states@ == old(self).device_states@.insert(
                device_name@,
                DeviceRecordState::Done,
            ),
            r matches Some(c) ==> final(self).device_states == old(self).device_states && old(
                self,
            ).is_command(c, command@, device_name@, maybe_text(option_deref(address))),
    {
        if command.as_str().unicode_len() == 0 {
            self.device_states.insert(owned(device_name), DeviceRecordState::Done);
            return None;
        }
        Some(
            RecordCommand {
                command: command.clone(),
                session_id: self.session_id.clone(),
                output_dir: self.output_dir.clone(),
                device_name: owned(device_name),
                address: match address {
                    Some(a) => Some(a.clone()),
                    None => None,
                },
            },
        )
    }

    /// Begins a recording on a device: gives the command to run, or marks the device as done where
    /// it has none.
    pub fn start_device(&mut self, device_name: &str, entry: &DeviceEntry, address: Option<&String>) -> (r:
        Option<RecordCommand>)
        ensures
            final(self).session_id == old(self).session_id,
            final(self).state == old(self).state,
            final(self).output_dir == old(self).output_dir,
            final(self).created_at_ns == old(self).created_at_ns,
            r is None <==> entry.on_record_start@.len() == 0,
            r is None ==> final(self).device_states@ == old(self).device_states@.insert(
                device_name@,
                DeviceRecordState::Done,
            ),
            r matches Some(c) ==> final(self).device_states == old(self).device_states && old(
                self,
            ).is_command(
                c,
                entry.on_record_start@,
                device_name@,
                maybe_text(option_deref(address)),
            ),
    {
        self.begin(&entry.on_record_start, device_name, address)
    }

    /// Ends a recording on a device: gives the command to run, or marks the device as done where it
    /// has none.
    pub fn stop_device(&mut self, device_name: &str, entry: &DeviceEntry, address: Option<&String>) -> (r:
        Option<RecordCommand>)
        ensures
            final(self).session_id == old(self).session_id,
            final(self).state == old(self).state,
            final(self).output_dir == old(self).output_dir,
            final(self).created_at_ns == old(self).created_at_ns,
            r is None <==> entry.on_record_stop@.len() == 0,
            r is None ==> final(self).device_states@ == old(self).device_states@.insert(
                device_name@,
                DeviceRecordState::Done,
            ),
            r matches Some(c) ==> final(self).device_states == old(self).device_states && old(
                self,
            ).is_command(
                c,
                entry.on_record_stop@,
                device_name@,
                maybe_text(option_deref(address)),
            ),
    {
        self.begin(&entry.on_record_stop, device_name, address)
    }

    /// Notes whether the command of a device could be started.
    pub fn command_started(&mut self, device_name: &str, started: Result<u32, String>)
        ensures
            final(self).session_id == old(self).session_id,
            final(self).state == old(self).state,
            final(self).output_dir == old(self).output_dir,
            final(self).created_at_ns == old(self).created_at_ns,
            final(self).device_states@ == old(self).device_states@.insert(
                device_name@,
                match started {
                    Ok(pid) => DeviceRecordState::Running(pid),
                    Err(e) => DeviceRecordState::Failed(e),
                },
            ),
    {
        let state: DeviceRecordState = match started {
            Ok(pid) => DeviceRecordState::Running(pid),
            Err(e) => DeviceRecordState::Failed(e),
        };
        self.device_states.insert(owned(device_name), state);
    }

    /// Whether a look at the commands changes the state of one.
    pub open spec fn advances(self, outcomes: Map<Seq<char>, CommandOutcome>) -> bool {
        exists|k: Seq<char>| #[trigger]
            self.device_states@.contains_key(k) && ends_now(
                self.device_states@[k],
                looked_up(outcomes, k),
            )
    }

    /// Whether `after` is this session after a look at its commands. The session itself moves on
    /// where a command has come to its end and all others have, too.
    pub open spec fn is_followed_by(self, after: RecordingSession, outcomes: Map<
        Seq<char>,
        CommandOutcome,
    >) -> bool {
        &&& after.session_id == self.session_id
        &&& after.output_dir == self.output_dir
        &&& after.created_at_ns == self.created_at_ns
        &&& after.device_states.names() == self.device_states.names()
        &&& after.device_states@.dom() == self.device_states@.dom()
        &&& forall|k: Seq<char>| #[trigger]
            self.device_states@.contains_key(k) ==> is_progress(
                self.device_states@[k],
                looked_up(outcomes, k),
                after.device_states@[k],
            )
        &&& if self.advances(outcomes) && all_settled(after.device_states@) {
            follows(self.state, some_failed(after.device_states@), after.state)
        } else {
            after.state == self.state
        }
    }

    /// Looks at all running commands and advances the session. Returns whether the state of a
    /// command has changed.
    pub fn check_progress(&mut self, outcomes: &NameMap<CommandOutcome>) -> (r: bool)
        ensures
            old(self).is_followed_by(*final(self), outcomes@),
            r == old(self).advances(outcomes@),
    {
        let n: usize = self.device_states.len();
        let ghost names = self.device_states.names();
        let ghost before = self.device_states@;
        let mut states: NameMap<DeviceRecordState> = NameMap::new();
        let mut changed: bool = false;
        let mut all_done: bool = true;
        let mut any_failed: bool = false;
        let mut i: usize = 0;
        while i < n
            invariant
                n == names.len(),
                i <= n,
                forall|a: int, b: int| 0 <= a < b < n ==> #[trigger] names[a] != #[trigger] names[b],
                names == self.device_states.names(),
                before == self.device_states@,
                self.session_id == old(self).session_id,
                self.output_dir == old(self).output_dir,
                self.created_at_ns == old(self).created_at_ns,
                self.state == old(self).state,
                states.names() == names.take(i as int),
                forall|k: Seq<char>| #[trigger] states@.contains_key(k) ==> before.contains_key(k)
                    && is_progress(before[k], looked_up(outcomes@, k), states@[k]),
                changed == exists|k: Seq<char>| #[trigger]
                    states@.contains_key(k) && ends_now(before[k], looked_up(outcomes@, k)),
                all_done == all_settled(states@),
                any_failed == some_failed(states@),
            decreases n - i,
        {
            let name: String = self.device_states.name_at(i).clone();
            let outcome: Option<&CommandOutcome> = outcomes.get(name.as_str());
            let ghost was = states@;
            let (new, ended) = progress(self.device_states.value_at(i), outcome);
            let settled: bool = matches!(new, DeviceRecordState::Done | DeviceRecordState::Failed(_));
            let failed: bool = matches!(new, DeviceRecordState::Failed(_));
            let ghost k0 = names[i as int];
            proof {
                if names.take(i as int).contains(k0) {
                    let j = names.take(i as int).index_of(k0);
                    assert(names[j] == names[i as int]);
                }
                assert(!was.contains_key(k0));
            }
            states.insert(name, new);
            proof {
                let now = states@;
                assert(now == was.insert(k0, new));
                assert(now.contains_key(k0));
                assert(names.take(i as int + 1) =~= names.take(i as int).push(k0));
                if changed {
                    let k = choose|k: Seq<char>| #[trigger]
                        was.contains_key(k) && ends_now(before[k], looked_up(outcomes@, k));
                    assert(now.contains_key(k));
                }
                if all_settled(now) {
                    assert forall|k: Seq<char>| #[trigger] was.contains_key(k) implies was[k].is_settled() by {
                        assert(now.contains_key(k));
                    }
                }
                if some_failed(was) {
                    let k = choose|k: Seq<char>| #[trigger] was.contains_key(k) && was[k] is Failed;
                    assert(now.contains_key(k));
                }
                if some_failed(now) {
                    let k = choose|k: Seq<char>| #[trigger] now.contains_key(k) && now[k] is Failed;
                    if k != k0 {
                        assert(was.contains_key(k));
                    }
                }
            }
            if ended {
                changed = true;
            }
            if !settled {
                all_done = false;
            }
            if failed {
                any_failed = true;
            }
            i = i + 1;
        }
        assert(names.take(n as int) =~= names);
        assert(states.names() == names);
        assert(states@.dom() =~= before.dom());
        self.device_states = states;
        proof {
            if changed {
                let k = choose|k: Seq<char>| #[trigger]
                    self.device_states@.contains_key(k) && ends_now(before[k], looked_up(outcomes@, k));
                assert(before.contains_key(k));
            }
            assert forall|k: Seq<char>| #[trigger] before.contains_key(k) implies is_progress(
                before[k],
                looked_up(outcomes@, k),
                self.device_states@[k],
            ) by {
                assert(self.device_states@.contains_key(k));
            }
        }
        if !changed {
            return false;
        }
        if all_done {
            match self.state {
                RecordingState::Starting => {
                    if any_failed {
                        self.state = RecordingState::Failed(owned("some devices failed to start"));
                    } else {
                        self.state = RecordingState::Recording;
                    }
                },
                RecordingState::Stopping => {
                    self.state = RecordingState::Stopped;
                },
                _ => {},
            }
        }
        true
    }

    /// The names of the states of all devices.
    pub fn device_state_strings(&self) -> (r: NameMap<String>)
        ensures
            r.names() == self.device_states.names(),
            forall|k: Seq<char>| #[trigger]
                self.device_states@.contains_key(k) ==> r@.contains_key(k) && r@[k]@
                    == self.device_states@[k].text(),
    {
        let n: usize = self.device_states.len();
        let ghost names = self.device_states.names();
        let mut out: NameMap<String> = NameMap::new();
        let mut i: usize = 0;
        while i < n
            invariant
                n == names.len(),
                i <= n,
                forall|a: int, b: int| 0 <= a < b < n ==> #[trigger] names[a] != #[trigger] names[b],
                names == self.device_states.names(),
                out.names() == names.take(i as int),
                forall|k: Seq<char>| #[trigger] out@.contains_key(k) ==> out@[k]@
                    == self.device_states@[k].text(),
            decreases n - i,
        {
            let name: String = self.device_states.name_at(i).clone();
            let text: String = owned(self.device_states.value_at(i).as_str());
            let ghost k0 = names[i as int];
            proof {
                if names.take(i as int).contains(k0) {
                    let j = names.take(i as int).index_of(k0);
                    assert(names[j] == names[i as int]);
                }
            }
            out.insert(name, text);
            assert(names.take(i as int + 1) =~= names.take(i as int).push(k0));
            i = i + 1;
        }
        assert(names.take(n as int) =~= names);
        out
    }
}

/// A session that has left the states in which it is under way does not come back to them on its
/// own, and one that stops does not record again.
pub proof fn progress_goes_one_way(state: RecordingState, failed: bool, new: RecordingState)
    requires
        follows(state, failed, new),
    ensures
        !state.is_under_way() ==> !new.is_under_way(),
        state is Recording ==> new is Recording,
        state is Stopped ==> new is Stopped,
        state is Failed ==> new == state,
        !(new is Starting) && !(new is Stopping),
{
}

/// A running command that has ended is done or has failed, which is told by its exit code; one that
/// got lost has failed, which is told by what went wrong.
pub proof fn ended_commands_are_settled(pid: u32, outcome: CommandOutcome, new: DeviceRecordState)
    requires
        is_progress(DeviceRecordState::Running(pid), Some(outcome), new),
    ensures
        match outcome {
            CommandOutcome::Exited { success: true, .. } => new is Done,
            CommandOutcome::Exited { success: false, code: Some(c) } => new
                matches DeviceRecordState::Failed(e) && e@ == "exit code "@ + signed_text(c as int),
            CommandOutcome::Exited { success: false, code: None } => new
                matches DeviceRecordState::Failed(e) && e@ == "exit code "@ + signed_text(-1),
            CommandOutcome::StillRunning => new == DeviceRecordState::Running(pid),
            CommandOutcome::Lost(error) => new matches DeviceRecordState::Failed(e) && e@ == error@,
        },
        ends_now(DeviceRecordState::Running(pid), Some(outcome)) <==> new.is_settled(),
{
}

/// A command that does not run stays as it is, whatever is seen of it, and so does one of which
/// nothing is seen.
pub proof fn other_commands_stay(
    state: DeviceRecordState,
    outcome: Option<CommandOutcome>,
    new: DeviceRecordState,
)
    requires
        is_progress(state, outcome, new),
        !(state is Running) || outcome is None,
    ensures
        new == state,
        !ends_now(state, outcome),
{
}

/// Once its commands have ended, a session that was starting is recording if all went well and has
/// failed otherwise; one that was stopping has stopped, even if a command has failed. Any other
/// session stays as it is.
pub proof fn sessions_move_on(state: RecordingState, failed: bool, new: RecordingState)
    requires
        follows(state, failed, new),
    ensures
        state is Starting && !failed ==> new is Recording,
        state is Starting && failed ==> (new matches RecordingState::Failed(e) && e@
            == "some devices failed to start"@),
        state is Stopping ==> new is Stopped,
        !(state is Starting) && !(state is Stopping) ==> new == state,
{
}

/// A starting session whose commands all end well while they are looked at is recording.
pub proof fn sessions_record_once_all_went_well(
    before: RecordingSession,
    after: RecordingSession,
    outcomes: Map<Seq<char>, CommandOutcome>,
    name: Seq<char>,
)
    requires
        before.is_followed_by(after, outcomes),
        before.state is Starting,
        before.device_states@.contains_key(name),
        before.device_states@[name] is Running,
        forall|k: Seq<char>| #[trigger]
            before.device_states@.contains_key(k) ==> before.device_states@[k] is Done || (
            before.device_states@[k] is Running && outcomes.contains_key(k) && (outcomes[k]
                matches CommandOutcome::Exited { success, .. } && success)),
    ensures
        after.state is Recording,
        after.device_states@[name] is Done,
{
    assert(ends_now(before.device_states@[name], looked_up(outcomes, name)));
    assert forall|k: Seq<char>| #[trigger] after.device_states@.contains_key(k) implies after.device_states@[k] is Done by {
        assert(before.device_states@.contains_key(k));
    }
}

/// A starting session of which a command fails, with the others at their ends, has failed.
pub proof fn sessions_fail_with_a_command(
    before: RecordingSession,
    after: RecordingSession,
    outcomes: Map<Seq<char>, CommandOutcome>,
    name: Seq<char>,
)
    requires
        before.is_followed_by(after, outcomes),
        before.state is Starting,
        before.device_states@.contains_key(name),
        before.device_states@[name] is Running,
        outcomes.contains_key(name),
        outcomes[name] matches CommandOutcome::Exited { success, .. } && !success,
        forall|k: Seq<char>| #[trigger]
            before.device_states@.contains_key(k) && k != name ==> before.device_states@[k] is Done
                || before.device_states@[k] is Failed,
    ensures
        after.state is Failed,
        after.device_states@[name] is Failed,
{
    assert(ends_now(before.device_states@[name], looked_up(outcomes, name)));
    assert(after.device_states@.contains_key(name));
    assert forall|k: Seq<char>| #[trigger] after.device_states@.contains_key(k) implies after.device_states@[k].is_settled() by {
        assert(before.device_states@.contains_key(k));
    }
}

/// While a command runs on, its session stays where it is, and so does one without a command that
/// has ended.
pub proof fn sessions_wait_for_their_commands(
    before: RecordingSession,
    after: RecordingSession,
    outcomes: Map<Seq<char>, CommandOutcome>,
    name: Seq<char>,
)
    requires
        before.is_followed_by(after, outcomes),
        before.device_states@.contains_key(name),
        before.device_states@[name] is Running,
        outcomes.contains_key(name) ==> outcomes[name] is StillRunning,
    ensures
        after.state == before.state,
        after.device_states@[name] == before.device_states@[name],
{
    assert(after.device_states@.contains_key(name));
}

/// A look at the commands keeps what a session is and which devices it is for.
pub proof fn sessions_keep_what_they_are(
    before: RecordingSession,
    after: RecordingSession,
    outcomes: Map<Seq<char>, CommandOutcome>,
)
    requires
        before.is_followed_by(after, outcomes),
    ensures
        after.session_id@ == before.session_id@,
        after.output_dir@ == before.output_dir@,
        after.created_at_ns == before.created_at_ns,
        after.device_states.names() == before.device_states.names(),
        (forall|k: Seq<char>| #[trigger]
            before.device_states@.contains_key(k) ==> !(before.device_states@[k] is Running))
            ==> after.state == before.state && after.device_states@ =~= before.device_states@,
{
    if forall|k: Seq<char>| #[trigger]
        before.device_states@.contains_key(k) ==> !(before.device_states@[k] is Running) {
        assert forall|k: Seq<char>| #[trigger]
            before.device_states@.contains_key(k) implies after.device_states@[k]
            == before.device_states@[k] by {}
    }
}

/// A command is told the session, its directory, the device and its address, each as it is.
pub proof fn commands_are_told_their_session(
    session: RecordingSession,
    c: RecordCommand,
    command: Seq<char>,
    device_name: Seq<char>,
    address: Option<String>,
)
    requires
        session.is_command(c, command, device_name, maybe_text(address)),
    ensures
        c.command@ == command,
        c.session_id@ == session.session_id@,
        c.output_dir@ == session.output_dir@,
        c.device_name@ == device_name,
        address matches Some(a) ==> c.address is Some && c.address->0@ == a@,
        address is None ==> c.address is None,
{
}

/// Sessions are under way while they start and while they record, and in no other state.
pub proof fn sessions_are_under_way_until_they_stop(state: RecordingState)
    ensures
        state.is_under_way() <==> (match state {
            RecordingState::Starting => true,
            RecordingState::Recording => true,
            RecordingState::Stopping => false,
            RecordingState::Stopped => false,
            RecordingState::Failed(_) => false,
        }),
{
}

/// Commands are settled once they are done or have failed, and not before.
pub proof fn commands_are_settled_at_their_end(state: DeviceRecordState)
    ensures
        state.is_settled() <==> (match state {
            DeviceRecordState::Pending => false,
            DeviceRecordState::Running(_) => false,
            DeviceRecordState::Done => true,
            DeviceRecordState::Failed(_) => true,
        }),
{
}

/// Each state of a session is shown by a name of its own, and so is each state of a command.
pub proof fn states_have_their_names(e: String, pid: u32)
    ensures
        RecordingState::Starting.text() == "starting"@,
        RecordingState::Recording.text() == "recording"@,
        RecordingState::Stopping.text() == "stopping"@,
        RecordingState::Stopped.text() == "stopped"@,
        RecordingState::Failed(e).text() == "failed"@,
        DeviceRecordState::Pending.text() == "pending"@,
        DeviceRecordState::Running(pid).text() == "running"@,
        DeviceRecordState::Done.text() == "done"@,
        DeviceRecordState::Failed(e).text() == "failed"@,
{
}

/// What is looked up is what the map holds, and nothing where it holds nothing.
pub proof fn lookups_find_what_is_there<V>(m: Map<Seq<char>, V>, k: Seq<char>, v: V)
    ensures
        looked_up(m.insert(k, v), k) == Some(v),
        looked_up(m.remove(k), k) is None,
{
}

/// A device without a command is done at once; any other gets its own command for the start of a
/// recording, and the one for the end when it ends.
pub proof fn devices_get_their_own_commands(
    start: &mut RecordingSession,
    stop: &mut RecordingSession,
    device_name: &str,
    entry: &DeviceEntry,
    address: Option<&String>,
    first: Option<RecordCommand>,
    last: Option<RecordCommand>,
)
    requires
        call_ensures(RecordingSession::start_device, (start, device_name, entry, address), first),
        call_ensures(RecordingSession::stop_device, (stop, device_name, entry, address), last),
    ensures
        entry.on_record_start@.len() == 0 ==> first is None && final(start).device_states@.contains_key(device_name@) && final(start).device_states@[device_name@] is Done,
        entry.on_record_start@.len() > 0 ==> (first matches Some(c) && c.command@
            == entry.on_record_start@ && c.device_name@ == device_name@ && c.session_id@ == old(start).session_id@ && c.output_dir@ == old(start).output_dir@),
        entry.on_record_stop@.len() == 0 ==> last is None && final(stop).device_states@[device_name@] is Done,
        entry.on_record_stop@.len() > 0 ==> (last matches Some(c) && c.command@
            == entry.on_record_stop@ && c.device_name@ == device_name@ && c.session_id@ == old(stop).session_id@),
{
}

/// A command that was started runs under its process, and one that was not has failed.
pub proof fn started_commands_run(
    session: &mut RecordingSession,
    device_name: &str,
    started: Result<u32, String>,
)
    requires
        call_ensures(RecordingSession::command_started, (session, device_name, started), ()),
    ensures
        final(session).device_states@.contains_key(device_name@),
        started matches Ok(pid) ==> final(session).device_states@[device_name@]
            == DeviceRecordState::Running(pid),
        started matches Err(e) ==> final(session).device_states@[device_name@]
            == DeviceRecordState::Failed(e),
        final(session).state == old(session).state,
{
}

} // verus!
