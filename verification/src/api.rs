//! What the HTTP interface answers.

use vstd::prelude::*;
use crate::engine::command::{DeviceStatus, EngineResponse};
use crate::engine::masks::available_devices;
use crate::engine::status::{device_available, is_available};
use crate::name_map::NameMap;
use crate::registry::DeviceEntry;
use crate::seqs::{count_where, lemma_filter_len, lemma_filter_none, lemma_filter_step,
    lemma_filter_whole};
use crate::text::owned;

verus! {

/// An answer over HTTP.
#[derive(Debug)]
pub enum Reply {
    /// 200, with what the engine answered.
    Data,
    /// 200, without anything else to tell.
    Accepted,
    /// A status, and the error as JSON.
    Failure { status: u16, message: String },
}

/// What a request asks for.
#[derive(Debug, Clone, Copy, PartialEq, Eq, Structural)]
pub enum Query {
    Status,
    Devices,
    Device,
    Registry,
    Mask,
    RecordingStatus,
    Recordings,
    Deletion,
    BatchDeletion,
    Replay,
    ReplayStatus,
}

/// An HTTP status that there is: 500 in place of one that there is not.
pub open spec fn http_status(status: u16) -> u16 {
    if 100 <= status <= 999 {
        status
    } else {
        500
    }
}

/// Whether a reply is the given failure.
pub open spec fn is_failure(r: Reply, status: u16, message: Seq<char>) -> bool {
    r matches Reply::Failure { status: s, message: m } && s == status && m@ == message
}

/// What is told of a response that is not what was asked for: the text of an error, where it is one.
pub open spec fn failure_text(response: Option<&EngineResponse>) -> Seq<char> {
    match response {
        None => "no response from the engine"@,
        Some(EngineResponse::Error(e)) => e@,
        Some(EngineResponse::ErrorWithStatus { message, .. }) => message@,
        _ => "unexpected response from the engine"@,
    }
}

/// The failure for a response that is not what was asked for.
fn failure(response: Option<&EngineResponse>) -> (r: Reply)
    ensures
        is_failure(r, 500, failure_text(response)),
{
    let message: String = match response {
        None => owned("no response from the engine"),
        Some(EngineResponse::Error(e)) => e.clone(),
        Some(EngineResponse::ErrorWithStatus { message, .. }) => message.clone(),
        _ => owned("unexpected response from the engine"),
    };
    Reply::Failure { status: 500, message }
}

/// Whether a response is what a request asks for.
pub open spec fn responds_to(query: Query, response: EngineResponse) -> bool {
    match query {
        Query::Status => response is Status,
        Query::Devices => response is Devices,
        Query::Device => response matches EngineResponse::Device(Some(_)),
        Query::Registry => response is Registry,
        Query::Mask => response is Mask,
        Query::RecordingStatus => response is RecordingStatus,
        Query::Recordings => response is RecordingsList,
        Query::Deletion => response is Deleted,
        Query::BatchDeletion => response is BatchDeleteResult,
        Query::Replay => response is ReplayStarted,
        Query::ReplayStatus => response is ReplayStatus,
    }
}

/// Whether a request is about recorded files, and an error tells its own status.
pub open spec fn is_about_files(query: Query) -> bool {
    query == Query::Recordings || query == Query::Deletion || query == Query::BatchDeletion || query
        == Query::Replay
}

fn hold_status(status: u16) -> (r: u16)
    ensures
        r == http_status(status),
{
    if 100 <= status && status <= 999 {
        status
    } else {
        500
    }
}

/// The reply to a command, where an error without a status of its own gets `error_status`. Without
/// a response, or with one that does not fit, it is 500.
pub fn reply_to_command(response: Option<&EngineResponse>, error_status: u16) -> (r: Reply)
    ensures
        match response {
            Some(EngineResponse::Done) => r is Accepted,
            Some(EngineResponse::Error(e)) => is_failure(r, error_status, e@),
            Some(EngineResponse::ErrorWithStatus { status, message }) => is_failure(
                r,
                http_status(*status),
                message@,
            ),
            _ => is_failure(r, 500, failure_text(response)),
        },
{
    match response {
        Some(EngineResponse::Done) => Reply::Accepted,
        Some(EngineResponse::Error(e)) => Reply::Failure {
            status: error_status,
            message: e.clone(),
        },
        Some(EngineResponse::ErrorWithStatus { status, message }) => Reply::Failure {
            status: hold_status(*status),
            message: message.clone(),
        },
        _ => failure(response),
    }
}

/// The reply to a request for something. What is not there, or does not fit, is answered with an
/// error and its text.
pub fn reply_to_query(query: Query, response: Option<&EngineResponse>) -> (r: Reply)
    ensures
        match response {
            None => is_failure(r, 500, failure_text(response)),
            Some(answer) => if responds_to(query, *answer) {
                r is Data
            } else if query == Query::Device && *answer is Device {
                is_failure(r, 404, "device not found"@)
            } else if is_about_files(query) && *answer is ErrorWithStatus {
                answer matches EngineResponse::ErrorWithStatus { status, message } && is_failure(
                    r,
                    http_status(*status),
                    message@,
                )
            } else {
                is_failure(r, 500, failure_text(response))
            },
        },
{
    let Some(answer) = response else {
        return failure(response);
    };
    let fits: bool = match (query, answer) {
        (Query::Status, EngineResponse::Status(_)) => true,
        (Query::Devices, EngineResponse::Devices(_)) => true,
        (Query::Device, EngineResponse::Device(Some(_))) => true,
        (Query::Registry, EngineResponse::Registry(_)) => true,
        (Query::Mask, EngineResponse::Mask { .. }) => true,
        (Query::RecordingStatus, EngineResponse::RecordingStatus(_)) => true,
        (Query::Recordings, EngineResponse::RecordingsList { .. }) => true,
        (Query::Deletion, EngineResponse::Deleted(_)) => true,
        (Query::BatchDeletion, EngineResponse::BatchDeleteResult { .. }) => true,
        (Query::Replay, EngineResponse::ReplayStarted { .. }) => true,
        (Query::ReplayStatus, EngineResponse::ReplayStatus(_)) => true,
        _ => false,
    };
    if fits {
        return Reply::Data;
    }
    match (query, answer) {
        (Query::Device, EngineResponse::Device(None)) => Reply::Failure {
            status: 404,
            message: owned("device not found"),
        },
        (
            Query::Recordings | Query::Deletion | Query::BatchDeletion | Query::Replay,
            EngineResponse::ErrorWithStatus { status, message },
        ) => Reply::Failure { status: hold_status(*status), message: message.clone() },
        _ => failure(response),
    }
}

/// The reply to a request to stop the replay.
pub fn reply_to_stop(response: Option<&EngineResponse>) -> (r: Reply)
    ensures
        match response {
            Some(EngineResponse::Done) => r is Accepted,
            _ => is_failure(r, 500, failure_text(response)),
        },
{
    match response {
        Some(EngineResponse::Done) => Reply::Accepted,
        _ => failure(response),
    }
}

/// Tests whether a batch of recordings to delete was named.
pub fn check_batch(session_ids: Option<Vec<String>>) -> (r: Result<Vec<String>, Reply>)
    ensures
        match session_ids {
            Some(ids) => if ids@.len() > 0 {
                r == Ok::<Vec<String>, Reply>(ids)
            } else {
                r is Err
            },
            None => r is Err,
        },
        r matches Err(reply) ==> is_failure(
            reply,
            400,
            "session_ids is required and must not be empty"@,
        ),
{
    match session_ids {
        Some(ids) => {
            if ids.len() > 0 {
                return Ok(ids);
            }
        },
        None => {},
    }
    Err(
        Reply::Failure {
            status: 400,
            message: owned("session_ids is required and must not be empty"),
        },
    )
}

// ── Readiness ───────────────────────────────────────────────────────

/// Whether all devices can be used, and why not.
pub struct Readiness {
    pub ready: bool,
    pub online: usize,
    pub total: usize,
    pub reasons: NameMap<String>,
}

/// Why a device cannot be used.
pub open spec fn reason_text(d: DeviceStatus) -> Seq<char> {
    match d.state_reason {
        Some(r) => r@,
        None => "unavailable"@,
    }
}

/// The reasons why devices cannot be used, by their names. Of devices of the same name, the last
/// one counts.
pub open spec fn reasons_of(devices: Seq<DeviceStatus>) -> Map<Seq<char>, Seq<char>>
    decreases devices.len(),
{
    if devices.len() == 0 {
        Map::empty()
    } else if is_available(devices.last()) {
        reasons_of(devices.drop_last())
    } else {
        reasons_of(devices.drop_last()).insert(devices.last().name@, reason_text(devices.last()))
    }
}

/// Whether all devices can be used: there must be some.
pub fn readiness(devices: &Vec<DeviceStatus>) -> (r: Readiness)
    ensures
        r.total == devices@.len(),
        r.online == count_where(devices@, available_devices()),
        r.ready == (devices@.len() > 0 && forall|i: int|
            0 <= i < devices@.len() ==> is_available(#[trigger] devices@[i])),
        r.reasons@.dom() == reasons_of(devices@).dom(),
        forall|k: Seq<char>| #[trigger]
            reasons_of(devices@).contains_key(k) ==> r.reasons@[k]@ == reasons_of(devices@)[k],
{
    let ghost p = available_devices();
    let n: usize = devices.len();
    let mut online: usize = 0;
    let mut reasons: NameMap<String> = NameMap::new();
    let mut i: usize = 0;
    proof {
        lemma_filter_none(devices@, p);
        assert(reasons@.dom() =~= reasons_of(devices@.take(0)).dom());
    }
    while i < n
        invariant
            n == devices@.len(),
            i <= n,
            p == available_devices(),
            online == devices@.take(i as int).filter(p).len(),
            online <= i,
            reasons@.dom() == reasons_of(devices@.take(i as int)).dom(),
            forall|k: Seq<char>| #[trigger]
                reasons_of(devices@.take(i as int)).contains_key(k) ==> reasons@[k]@ == reasons_of(
                    devices@.take(i as int),
                )[k],
        decreases n - i,
    {
        let ghost before = reasons@;
        let ghost was = reasons_of(devices@.take(i as int));
        proof {
            lemma_filter_step(devices@, p, i as int);
            assert(devices@.take(i as int + 1).drop_last() =~= devices@.take(i as int));
            assert(devices@.take(i as int + 1).last() == devices@[i as int]);
        }
        let d: &DeviceStatus = &devices[i];
        if device_available(d) {
            online = online + 1;
        } else {
            let reason: String = match &d.state_reason {
                Some(r) => r.clone(),
                None => owned("unavailable"),
            };
            reasons.insert(d.name.clone(), reason);
            proof {
                let now = reasons_of(devices@.take(i as int + 1));
                assert(reasons@.dom() =~= now.dom());
                assert forall|k: Seq<char>| #[trigger] now.contains_key(k) implies reasons@[k]@
                    == now[k] by {
                    if k != d.name@ {
                        assert(was.contains_key(k));
                    }
                }
            }
        }
        i = i + 1;
    }
    proof {
        lemma_filter_whole(devices@, p);
        lemma_filter_len(devices@, p);
        assert(devices@.take(n as int) =~= devices@);
        assert((forall|k: int| 0 <= k < devices@.len() ==> p(#[trigger] devices@[k])) <==> forall|k: int|
            0 <= k < devices@.len() ==> is_available(#[trigger] devices@[k])) by {
            if forall|k: int| 0 <= k < devices@.len() ==> p(#[trigger] devices@[k]) {
                assert forall|k: int| 0 <= k < devices@.len() implies is_available(
                    #[trigger] devices@[k],
                ) by {
                    assert(p(devices@[k]));
                }
            }
        }
    }
    Readiness { ready: n > 0 && online == n, online, total: n, reasons }
}

/// All devices can be used exactly where no reason is given why one cannot.
pub proof fn ready_devices_need_no_reason(devices: Seq<DeviceStatus>)
    ensures
        reasons_of(devices).dom() =~= Set::<Seq<char>>::empty() <==> forall|i: int|
            0 <= i < devices.len() ==> is_available(#[trigger] devices[i]),
    decreases devices.len(),
{
    if devices.len() > 0 {
        let init = devices.drop_last();
        ready_devices_need_no_reason(init);
        assert(forall|i: int| 0 <= i < init.len() ==> #[trigger] init[i] == devices[i]);
        if is_available(devices.last()) {
            if forall|i: int| 0 <= i < init.len() ==> is_available(#[trigger] init[i]) {
                assert forall|i: int| 0 <= i < devices.len() implies is_available(
                    #[trigger] devices[i],
                ) by {
                    if i < init.len() {
                        assert(is_available(init[i]));
                    }
                }
            } else {
                let k = choose|k: int| 0 <= k < init.len() && !is_available(#[trigger] init[k]);
                assert(!is_available(devices[k]));
            }
        } else {
            assert(reasons_of(devices).dom().contains(devices.last().name@));
            assert(!is_available(devices[devices.len() - 1]));
        }
    }
}

// ── Registration over HTTP ──────────────────────────────────────────

/// A request to register a device.
pub struct AddDeviceRequest {
    pub name: String,
    pub backend: Option<String>,
    pub vid: Option<String>,
    pub pid: Option<String>,
    pub serial: Option<String>,
    pub service_type: Option<String>,
    pub on_attach: Option<String>,
    pub on_detach: Option<String>,
    pub on_record_start: Option<String>,
    pub on_record_stop: Option<String>,
    pub sensor_type: Option<String>,
}

/// The text that was given, or another one.
pub open spec fn given_or(given: Option<String>, other: Seq<char>) -> Seq<char> {
    match given {
        Some(s) => s@,
        None => other,
    }
}

fn take_or(given: Option<String>, other: &str) -> (r: String)
    ensures
        r@ == given_or(given, other@),
{
    match given {
        Some(s) => s,
        None => owned(other),
    }
}

/// The entry that a request asks for: a USB device unless it says otherwise, and without whatever
/// it leaves out.
pub fn requested_entry(req: AddDeviceRequest) -> (r: DeviceEntry)
    ensures
        r.name == req.name,
        r.backend@ == given_or(req.backend, "usb"@),
        r.vid@ == given_or(req.vid, ""@),
        r.pid@ == given_or(req.pid, ""@),
        r.serial@ == given_or(req.serial, ""@),
        r.service_type@ == given_or(req.service_type, ""@),
        r.on_attach@ == given_or(req.on_attach, ""@),
        r.on_detach@ == given_or(req.on_detach, ""@),
        r.on_record_start@ == given_or(req.on_record_start, ""@),
        r.on_record_stop@ == given_or(req.on_record_stop, ""@),
        r.sensor_type@ == given_or(req.sensor_type, ""@),
{
    DeviceEntry {
        name: req.name,
        backend: take_or(req.backend, "usb"),
        vid: take_or(req.vid, ""),
        pid: take_or(req.pid, ""),
        serial: take_or(req.serial, ""),
        service_type: take_or(req.service_type, ""),
        on_attach: take_or(req.on_attach, ""),
        on_detach: take_or(req.on_detach, ""),
        on_record_start: take_or(req.on_record_start, ""),
        on_record_stop: take_or(req.on_record_stop, ""),
        sensor_type: take_or(req.sensor_type, ""),
    }
}

/// Statuses of three digits are answered as they are, and any other as an internal error.
pub proof fn statuses_have_three_digits(status: u16)
    ensures
        100 <= status <= 999 ==> http_status(status) == status,
        status < 100 || status > 999 ==> http_status(status) == 500,
{
}

/// A failure has the status and the text that it was given, and no other.
pub proof fn failures_have_one_status(r: Reply, a: u16, b: u16, s: Seq<char>, t: Seq<char>)
    ensures
        is_failure(r, a, s) && is_failure(r, b, t) ==> a == b && s == t,
        is_failure(r, a, s) ==> r is Failure,
        r matches Reply::Failure { status, message } ==> is_failure(r, status, message@),
{
}

/// What went wrong is told in the words of the error, or else as a missing or unexpected response.
pub proof fn failures_are_explained(response: EngineResponse)
    ensures
        response matches EngineResponse::Error(e) ==> failure_text(Some(&response)) == e@,
        response matches EngineResponse::ErrorWithStatus { status, message } ==> failure_text(
            Some(&response),
        ) == message@,
        !(response is Error) && !(response is ErrorWithStatus) ==> failure_text(Some(&response))
            == "unexpected response from the engine"@,
        failure_text(None) == "no response from the engine"@,
{
}

/// No response answers two questions, and no error answers any.
pub proof fn responses_answer_one_question(a: Query, b: Query, response: EngineResponse)
    ensures
        responds_to(a, response) && responds_to(b, response) ==> a == b,
        response is Error || response is ErrorWithStatus || response is Done ==> !responds_to(
            a,
            response,
        ),
        response == EngineResponse::Device(None) ==> !responds_to(a, response),
{
}

/// Each question is answered by the response that was made for it.
pub proof fn questions_have_their_answers(response: EngineResponse)
    ensures
        response is Status ==> responds_to(Query::Status, response),
        response is Devices ==> responds_to(Query::Devices, response),
        response is Device && response->Device_0 is Some ==> responds_to(Query::Device, response),
        response is Registry ==> responds_to(Query::Registry, response),
        response is Mask ==> responds_to(Query::Mask, response),
        response is RecordingStatus ==> responds_to(Query::RecordingStatus, response),
        response is RecordingsList ==> responds_to(Query::Recordings, response),
        response is Deleted ==> responds_to(Query::Deletion, response),
        response is BatchDeleteResult ==> responds_to(Query::BatchDeletion, response),
        response is ReplayStarted ==> responds_to(Query::Replay, response),
        response is ReplayStatus ==> responds_to(Query::ReplayStatus, response),
{
}

/// Errors about recorded files tell their own status: where they are listed, deleted and replayed.
pub proof fn file_requests_tell_their_status(query: Query)
    ensures
        is_about_files(query) <==> (match query {
            Query::Recordings => true,
            Query::Deletion => true,
            Query::BatchDeletion => true,
            Query::Replay => true,
            Query::Status => false,
            Query::Devices => false,
            Query::Device => false,
            Query::Registry => false,
            Query::Mask => false,
            Query::RecordingStatus => false,
            Query::ReplayStatus => false,
        }),
{
}

/// Of each device that cannot be used the reason is given, where its name is its own: what is known of
/// it, or that it is unavailable. Of a device that can be used none is.
pub proof fn reasons_are_given_by_name(devices: Seq<DeviceStatus>, i: int)
    requires
        0 <= i < devices.len(),
        forall|j: int, k: int|
            0 <= j < k < devices.len() ==> (#[trigger] devices[j]).name@ != (#[trigger] devices[k]).name@,
    ensures
        !is_available(devices[i]) <==> reasons_of(devices).contains_key(devices[i].name@),
        !is_available(devices[i]) ==> (devices[i].state_reason matches Some(r) ==> reasons_of(
            devices,
        )[devices[i].name@] == r@),
        !is_available(devices[i]) && devices[i].state_reason is None ==> reasons_of(
            devices,
        )[devices[i].name@] == "unavailable"@,
    decreases devices.len(),
{
    let init = devices.drop_last();
    assert forall|j: int, k: int| 0 <= j < k < init.len() implies (#[trigger] init[j]).name@ != (
    #[trigger] init[k]).name@ by {
        assert(devices[j].name@ != devices[k].name@);
    }
    if i < init.len() {
        reasons_are_given_by_name(init, i);
        assert(init[i] == devices[i]);
        assert(devices[i].name@ != devices[devices.len() - 1].name@);
    } else {
        assert forall|j: int| 0 <= j < init.len() implies (#[trigger] init[j]).name@
            != devices[i].name@ by {
            assert(devices[j].name@ != devices[i].name@);
        }
        lemma_no_reason(init, devices[i].name@);
    }
}

proof fn lemma_no_reason(devices: Seq<DeviceStatus>, name: Seq<char>)
    requires
        forall|j: int| 0 <= j < devices.len() ==> (#[trigger] devices[j]).name@ != name,
    ensures
        !reasons_of(devices).contains_key(name),
    decreases devices.len(),
{
    if devices.len() > 0 {
        let init = devices.drop_last();
        assert forall|j: int| 0 <= j < init.len() implies (#[trigger] init[j]).name@ != name by {
            assert(devices[j].name@ != name);
        }
        lemma_no_reason(init, name);
        assert(devices[devices.len() - 1].name@ != name);
    }
}

/// What was given counts, and what was left out is replaced.
pub proof fn given_texts_count(given: String, other: Seq<char>)
    ensures
        given_or(Some(given), other) == given@,
        given_or(None, other) == other,
{
}

/// A command that was done is accepted; an error is answered with its own status where it has one, and
/// with the given one else.
pub proof fn commands_are_replied_to(response: EngineResponse, error_status: u16, r: Reply)
    requires
        call_ensures(reply_to_command, (Some(&response), error_status), r),
    ensures
        response is Done ==> r is Accepted,
        response matches EngineResponse::Error(e) ==> is_failure(r, error_status, e@),
        response matches EngineResponse::ErrorWithStatus { status, message } ==> is_failure(
            r,
            http_status(status),
            message@,
        ),
        !(response is Done) && !(response is Error) && !(response is ErrorWithStatus) ==> is_failure(
            r,
            500,
            "unexpected response from the engine"@,
        ),
{
}

/// A question is replied to with what it asks for, with 404 where there is no such device, and else
/// with an error.
pub proof fn questions_are_replied_to(query: Query, response: EngineResponse, r: Reply)
    requires
        call_ensures(reply_to_query, (query, Some(&response)), r),
    ensures
        responds_to(query, response) <==> r is Data,
        query == Query::Device && response == EngineResponse::Device(None) ==> is_failure(
            r,
            404,
            "device not found"@,
        ),
        is_about_files(query) ==> (response matches EngineResponse::ErrorWithStatus {
            status,
            message,
        } ==> is_failure(r, http_status(status), message@)),
        !is_about_files(query) ==> (response matches EngineResponse::ErrorWithStatus {
            status,
            message,
        } ==> is_failure(r, 500, message@)),
        response matches EngineResponse::Error(e) ==> is_failure(r, 500, e@),
{
}

/// The request to stop a replay is accepted where that was done, and an internal error else.
pub proof fn stops_are_replied_to(response: EngineResponse, r: Reply)
    requires
        call_ensures(reply_to_stop, (Some(&response),), r),
    ensures
        response is Done <==> r is Accepted,
        response matches EngineResponse::Error(e) ==> is_failure(r, 500, e@),
{
}

/// A batch of recordings is accepted where some are named.
pub proof fn batches_name_recordings(session_ids: Option<Vec<String>>, r: Result<Vec<String>, Reply>)
    requires
        call_ensures(check_batch, (session_ids,), r),
    ensures
        session_ids matches Some(ids) ==> (ids@.len() > 0 ==> r == Ok::<Vec<String>, Reply>(ids)),
        session_ids matches Some(ids) ==> (ids@.len() == 0 ==> r is Err),
        session_ids is None ==> r is Err,
        r matches Err(reply) ==> is_failure(
            reply,
            400,
            "session_ids is required and must not be empty"@,
        ),
{
}

/// All devices are ready where there are some and each can be used.
pub proof fn readiness_is_that_of_all_devices(devices: &Vec<DeviceStatus>, r: Readiness)
    requires
        call_ensures(readiness, (devices,), r),
    ensures
        r.total == devices@.len(),
        r.online == devices@.filter(|d: DeviceStatus| is_available(d)).len(),
        r.ready <==> devices@.len() > 0 && forall|i: int|
            0 <= i < devices@.len() ==> is_available(#[trigger] devices@[i]),
{
    assert(available_devices() =~= (|d: DeviceStatus| is_available(d)));
}

/// A device is registered under what was given, as a USB device unless another backend was.
pub proof fn requested_devices_are_registered(req: AddDeviceRequest, r: DeviceEntry)
    requires
        call_ensures(requested_entry, (req,), r),
    ensures
        r.name@ == req.name@,
        req.backend matches Some(b) ==> r.backend@ == b@,
        req.backend is None ==> r.backend@ == "usb"@,
        req.vid matches Some(t) ==> r.vid@ == t@,
        req.pid matches Some(t) ==> r.pid@ == t@,
        req.serial matches Some(t) ==> r.serial@ == t@,
        req.service_type matches Some(t) ==> r.service_type@ == t@,
        req.on_attach matches Some(t) ==> r.on_attach@ == t@,
        req.on_detach matches Some(t) ==> r.on_detach@ == t@,
        req.on_record_start matches Some(t) ==> r.on_record_start@ == t@,
        req.on_record_stop matches Some(t) ==> r.on_record_stop@ == t@,
        req.sensor_type matches Some(t) ==> r.sensor_type@ == t@,
        req.vid is None ==> r.vid@ == ""@,
        req.on_attach is None ==> r.on_attach@ == ""@,
{
}

} // verus!
