//! What is asked and told on the command line.

use vstd::prelude::*;
use crate::registry::{entry_named, DeviceEntry, Registry, UsbIdentity};
use crate::seqs::{lemma_filter_none, lemma_filter_step, lemma_filter_whole};
use crate::text::{after_last, align_left, align_right, decimal, decimal_text, is_among, is_white,
    last_part, left_aligned, owned, parse_number, parsed_number, right_aligned, str_eq, texts, trim,
    trim_end, trim_start, trimmed};

verus! {

/// A kind of discovery.
#[derive(Debug, Clone, Copy, PartialEq, Eq, Structural)]
pub enum SourceKind {
    Usb,
    Mdns,
}

/// Whether a device is discovered by a backend.
pub open spec fn some_backend(devices: Seq<DeviceEntry>, backend: Seq<char>) -> bool {
    exists|i: int| 0 <= i < devices.len() && (#[trigger] devices[i]).backend@ == backend
}

fn any_backend(registry: &Registry, backend: &str) -> (r: bool)
    ensures
        r == some_backend(registry.devices@, backend@),
{
    let n: usize = registry.devices.len();
    let mut i: usize = 0;
    while i < n
        invariant
            n == registry.devices@.len(),
            i <= n,
            forall|k: int| 0 <= k < i ==> (#[trigger] registry.devices@[k]).backend@ != backend@,
        decreases n - i,
    {
        if str_eq(registry.devices[i].backend.as_str(), backend) {
            assert(registry.devices@[i as int].backend@ == backend@);
            return true;
        }
        i = i + 1;
    }
    false
}

/// The kinds of discovery that the registered devices need.
pub fn build_discovery_sources(registry: &Registry) -> (r: Vec<SourceKind>)
    ensures
        r@ == (if some_backend(registry.devices@, "usb"@) {
            seq![SourceKind::Usb]
        } else {
            seq![]
        }) + (if some_backend(registry.devices@, "mdns"@) {
            seq![SourceKind::Mdns]
        } else {
            seq![]
        }),
{
    let mut out: Vec<SourceKind> = Vec::new();
    if any_backend(registry, "usb") {
        out.push(SourceKind::Usb);
    }
    if any_backend(registry, "mdns") {
        out.push(SourceKind::Mdns);
    }
    out
}

/// Reads the port out of an address of the form `host:port`.
pub fn parse_port_from_bind(bind: &str) -> (r: Option<u16>)
    ensures
        r is Some <==> parsed_number(after_last(bind@, ':'), 65535) is Some,
        r matches Some(port) ==> parsed_number(after_last(bind@, ':'), 65535) == Some(port as nat),
{
    match parse_number(last_part(bind, ':').as_str(), 65535) {
        Some(port) => Some(port as u16),
        None => None,
    }
}

// ── Tables ──────────────────────────────────────────────────────────

/// A row of the table of devices.
pub open spec fn device_row(
    name: Seq<char>,
    backend: Seq<char>,
    model: Seq<char>,
    service: Seq<char>,
    sensor: Seq<char>,
    attach: Seq<char>,
    detach: Seq<char>,
) -> Seq<char> {
    left_aligned(name, 20) + " "@ + left_aligned(backend, 8) + " "@ + left_aligned(model, 10) + " "@
        + left_aligned(service, 20) + " "@ + left_aligned(sensor, 8) + " "@ + left_aligned(attach, 30)
        + " "@ + detach
}

/// A text, or another one in place of an empty one.
pub open spec fn or_else(s: Seq<char>, other: Seq<char>) -> Seq<char> {
    if s.len() == 0 {
        other
    } else {
        s
    }
}

/// Vendor and product as they are shown; `-` where a device has neither.
pub open spec fn model_text(entry: DeviceEntry) -> Seq<char> {
    if entry.vid@.len() == 0 && entry.pid@.len() == 0 {
        "-"@
    } else {
        entry.vid@ + ":"@ + entry.pid@
    }
}

fn or_text(s: &String, other: &str) -> (r: String)
    ensures
        r@ == or_else(s@, other@),
{
    if s.as_str().unicode_len() == 0 {
        owned(other)
    } else {
        s.clone()
    }
}

fn write_row(
    name: &str,
    backend: &str,
    model: &str,
    service: &str,
    sensor: &str,
    attach: &str,
    detach: &str,
) -> (r: String)
    ensures
        r@ == device_row(name@, backend@, model@, service@, sensor@, attach@, detach@),
{
    let mut row: String = align_left(name, 20);
    row.append(" ");
    row.append(align_left(backend, 8).as_str());
    row.append(" ");
    row.append(align_left(model, 10).as_str());
    row.append(" ");
    row.append(align_left(service, 20).as_str());
    row.append(" ");
    row.append(align_left(sensor, 8).as_str());
    row.append(" ");
    row.append(align_left(attach, 30).as_str());
    row.append(" ");
    row.append(detach);
    row
}

/// The head of the table of devices.
pub fn list_head() -> (r: String)
    ensures
        r@ == device_row(
            "NAME"@,
            "BACKEND"@,
            "VID:PID"@,
            "SERVICE_TYPE"@,
            "SENSOR"@,
            "ON_ATTACH"@,
            "ON_DETACH"@,
        ),
{
    write_row("NAME", "BACKEND", "VID:PID", "SERVICE_TYPE", "SENSOR", "ON_ATTACH", "ON_DETACH")
}

/// The row of a device.
pub open spec fn entry_row(entry: DeviceEntry) -> Seq<char> {
    device_row(
        entry.name@,
        entry.backend@,
        model_text(entry),
        or_else(entry.service_type@, "-"@),
        or_else(entry.sensor_type@, "-"@),
        entry.on_attach@,
        or_else(entry.on_detach@, "(none)"@),
    )
}

/// Writes the row of a device.
pub fn list_row(entry: &DeviceEntry) -> (r: String)
    ensures
        r@ == entry_row(*entry),
{
    let model: String = if entry.vid.as_str().unicode_len() == 0 && entry.pid.as_str().unicode_len()
        == 0 {
        owned("-")
    } else {
        let mut m: String = entry.vid.clone();
        m.append(":");
        m.append(entry.pid.as_str());
        m
    };
    write_row(
        entry.name.as_str(),
        entry.backend.as_str(),
        model.as_str(),
        or_text(&entry.service_type, "-").as_str(),
        or_text(&entry.sensor_type, "-").as_str(),
        entry.on_attach.as_str(),
        or_text(&entry.on_detach, "(none)").as_str(),
    )
}

/// The row of a bit in the table of a layout.
pub open spec fn layout_row(bit: nat, name: Seq<char>, registered: bool) -> Seq<char> {
    "["@ + right_aligned(decimal_text(bit), 2, ' ') + "] "@ + left_aligned(name, 20) + " "@ + (
    if registered {
        "registered"@
    } else {
        "NOT IN REGISTRY"@
    })
}

/// Writes the row of a bit.
pub fn write_layout_row(bit: usize, name: &str, device_names: &Vec<String>) -> (r: String)
    ensures
        r@ == layout_row(bit as nat, name@, texts(device_names@).contains(name@)),
{
    let mut row: String = owned("[");
    row.append(align_right(decimal(bit as u64).as_str(), 2, ' ').as_str());
    row.append("] ");
    row.append(align_left(name, 20).as_str());
    row.append(" ");
    if is_among(device_names.as_slice(), name) {
        row.append("registered");
    } else {
        row.append("NOT IN REGISTRY");
    }
    row
}

/// The predicate of names that are not in a list.
pub open spec fn is_missing_from(order: Seq<Seq<char>>) -> spec_fn(Seq<char>) -> bool {
    |n: Seq<char>| !order.contains(n)
}

/// The devices that are registered but have no bit.
pub fn missing_from_layout(device_names: &Vec<String>, order: &Vec<String>) -> (r: Vec<String>)
    ensures
        texts(r@) == texts(device_names@).filter(is_missing_from(texts(order@))),
{
    let ghost names = texts(device_names@);
    let ghost p = is_missing_from(texts(order@));
    let n: usize = device_names.len();
    let mut out: Vec<String> = Vec::new();
    let mut i: usize = 0;
    proof {
        lemma_filter_none(names, p);
        assert(texts(out@) =~= names.take(0).filter(p));
    }
    while i < n
        invariant
            n == device_names@.len(),
            i <= n,
            names == texts(device_names@),
            p == is_missing_from(texts(order@)),
            texts(out@) == names.take(i as int).filter(p),
        decreases n - i,
    {
        let ghost before = out@;
        proof {
            lemma_filter_step(names, p, i as int);
        }
        if !is_among(order.as_slice(), device_names[i].as_str()) {
            out.push(device_names[i].clone());
            assert(texts(out@) =~= texts(before).push(names[i as int]));
        }
        i = i + 1;
    }
    proof {
        lemma_filter_whole(names, p);
    }
    out
}

/// The last lines of a log.
pub fn last_lines(lines: &Vec<String>, count: usize) -> (r: Vec<String>)
    ensures
        r@ == (if count >= lines@.len() {
            lines@
        } else {
            lines@.skip(lines@.len() - count)
        }),
{
    let n: usize = lines.len();
    let start: usize = n.saturating_sub(count);
    let mut out: Vec<String> = Vec::new();
    let mut i: usize = start;
    while i < n
        invariant
            n == lines@.len(),
            start <= i <= n,
            out@ == lines@.subrange(start as int, i as int),
        decreases n - i,
    {
        out.push(lines[i].clone());
        assert(out@ =~= lines@.subrange(start as int, i as int + 1));
        i = i + 1;
    }
    assert(lines@.subrange(start as int, n as int) =~= lines@.skip(start as int));
    assert(lines@.skip(0) =~= lines@);
    out
}

/// How long a log is now, if something was written behind a position in it.
pub fn new_output(position: u64, len: u64) -> (r: Option<u64>)
    ensures
        r == (if len > position {
            Some(len)
        } else {
            None::<u64>
        }),
{
    if len > position {
        Some(len)
    } else {
        None
    }
}

// ── Registration ────────────────────────────────────────────────────

/// Reads the choice of a backend: USB for nothing and `1`, mDNS for `2`.
pub fn choose_backend(line: &str) -> (r: Option<SourceKind>)
    ensures
        r == (if trimmed(line@) == ""@ || trimmed(line@) == "1"@ {
            Some(SourceKind::Usb)
        } else if trimmed(line@) == "2"@ {
            Some(SourceKind::Mdns)
        } else {
            None
        }),
{
    let choice: String = trim(line);
    if str_eq(choice.as_str(), "") || str_eq(choice.as_str(), "1") {
        Some(SourceKind::Usb)
    } else if str_eq(choice.as_str(), "2") {
        Some(SourceKind::Mdns)
    } else {
        None
    }
}

/// Whether an answer is a yes.
pub open spec fn is_yes(line: Seq<char>) -> bool {
    trimmed(line) == "y"@ || trimmed(line) == "Y"@
}

fn says_yes(line: Option<&str>) -> (r: bool)
    ensures
        r == (line matches Some(l) && is_yes(l@)),
{
    match line {
        Some(l) => {
            let answer: String = trim(l);
            str_eq(answer.as_str(), "y") || str_eq(answer.as_str(), "Y")
        },
        None => false,
    }
}

/// What is asked for next.
#[derive(Debug, Clone, Copy, PartialEq, Eq, Structural)]
pub enum Question {
    Device,
    Name,
    ServiceType,
    OnAttach,
    OnDetach,
    Serial,
    Symlink,
    OnRecordStart,
    OnRecordStop,
    SensorType,
}

/// The registration of a device: what was answered so far, and what is asked for next.
#[derive(Debug)]
pub struct Registration {
    pub kind: SourceKind,
    pub question: Question,
    /// Serial number of the chosen USB device.
    pub found_serial: String,
    pub entry: DeviceEntry,
}

/// What comes of an answer.
#[derive(Debug)]
pub enum Progress {
    /// Ask the next question.
    Ask,
    /// Give up, with a message if there is one.
    Abort(Option<String>),
    /// Register the device, and make a symbolic link if that is wanted.
    Finish { symlink: bool },
}

/// Whether `p` gives up without a message.
pub open spec fn gives_up(p: Progress) -> bool {
    p matches Progress::Abort(None)
}

/// Whether `p` gives up with a message.
pub open spec fn gives_up_with(p: Progress, message: Seq<char>) -> bool {
    p matches Progress::Abort(Some(m)) && m@ == message
}

/// The text of an answer; empty where there is none.
pub open spec fn answer_text(line: Option<&str>) -> Seq<char> {
    match line {
        Some(l) => trimmed(l@),
        None => seq![],
    }
}

fn read_answer(line: Option<&str>) -> (r: String)
    ensures
        r@ == answer_text(line),
{
    match line {
        Some(l) => trim(l),
        None => {
            let empty: String = String::new();
            assert(empty@ =~= seq![]);
            empty
        },
    }
}

/// An entry without contents, of a backend.
pub fn blank_entry(kind: SourceKind) -> (r: DeviceEntry)
    ensures
        is_blank_entry(r, kind),
{
    DeviceEntry {
        name: String::new(),
        backend: match kind {
            SourceKind::Usb => owned("usb"),
            SourceKind::Mdns => owned("mdns"),
        },
        vid: String::new(),
        pid: String::new(),
        serial: String::new(),
        service_type: String::new(),
        on_attach: String::new(),
        on_detach: String::new(),
        on_record_start: String::new(),
        on_record_stop: String::new(),
        sensor_type: String::new(),
    }
}

/// Whether an entry has no contents but its backend.
pub open spec fn is_blank_entry(e: DeviceEntry, kind: SourceKind) -> bool {
    &&& e.backend@ == (match kind {
        SourceKind::Usb => "usb"@,
        SourceKind::Mdns => "mdns"@,
    })
    &&& e.name@.len() == 0
    &&& e.vid@.len() == 0
    &&& e.pid@.len() == 0
    &&& e.serial@.len() == 0
    &&& e.service_type@.len() == 0
    &&& e.on_attach@.len() == 0
    &&& e.on_detach@.len() == 0
    &&& e.on_record_start@.len() == 0
    &&& e.on_record_stop@.len() == 0
    &&& e.sensor_type@.len() == 0
}

impl Registration {
    /// Begins to register a device.
    pub fn new(kind: SourceKind) -> (r: Self)
        ensures
            r.kind == kind,
            r.question == (match kind {
                SourceKind::Usb => Question::Device,
                SourceKind::Mdns => Question::Name,
            }),
            r.found_serial@.len() == 0,
            is_blank_entry(r.entry, kind),
    {
        Registration {
            kind,
            question: match kind {
                SourceKind::Usb => Question::Device,
                SourceKind::Mdns => Question::Name,
            },
            found_serial: String::new(),
            entry: blank_entry(kind),
        }
    }

    /// The text with which a question is asked.
    pub open spec fn prompt_text(self) -> Seq<char> {
        match self.question {
            Question::Device => "\nSelect device number: "@,
            Question::Name => "Enter a name for this device: "@,
            Question::ServiceType => "Enter mDNS service type (e.g. _iphonevio._tcp.local.): "@,
            Question::OnAttach => "Enter on_attach command: "@,
            Question::OnDetach => "Enter on_detach command (optional, press Enter to skip): "@,
            Question::Serial => "Use serial '"@ + self.found_serial@ + "' for exact matching? (y/N): "@,
            Question::Symlink => "Create udev symlink /dev/"@ + self.entry.name@ + "? (y/N): "@,
            Question::OnRecordStart => "Enter on_record_start command (optional): "@,
            Question::OnRecordStop => "Enter on_record_stop command (optional): "@,
            Question::SensorType =>
                "Sensor type for MCAP recording (motor/video/gopro, or empty to skip): "@,
        }
    }

    /// The text with which the next question is asked.
    pub fn prompt(&self) -> (r: String)
        ensures
            r@ == self.prompt_text(),
    {
        match self.question {
            Question::Device => owned("\nSelect device number: "),
            Question::Name => owned("Enter a name for this device: "),
            Question::ServiceType => owned("Enter mDNS service type (e.g. _iphonevio._tcp.local.): "),
            Question::OnAttach => owned("Enter on_attach command: "),
            Question::OnDetach => owned("Enter on_detach command (optional, press Enter to skip): "),
            Question::Serial => {
                let mut p: String = owned("Use serial '");
                p.append(self.found_serial.as_str());
                p.append("' for exact matching? (y/N): ");
                p
            },
            Question::Symlink => {
                let mut p: String = owned("Create udev symlink /dev/");
                p.append(self.entry.name.as_str());
                p.append("? (y/N): ");
                p
            },
            Question::OnRecordStart => owned("Enter on_record_start command (optional): "),
            Question::OnRecordStop => owned("Enter on_record_stop command (optional): "),
            Question::SensorType => owned(
                "Sensor type for MCAP recording (motor/video/gopro, or empty to skip): ",
            ),
        }
    }

    /// Whether `after` and `p` are what comes of an answer. Without an answer to a question that
    /// needs one, or with one that cannot be, the registration is given up.
    pub open spec fn is_answered(
        self,
        line: Option<&str>,
        entries: Seq<DeviceEntry>,
        identities: Seq<UsbIdentity>,
        after: Registration,
        p: Progress,
    ) -> bool {
        let text = answer_text(line);
        match self.question {
            Question::Device => {
                let chosen = parsed_number(text, usize::MAX as nat);
                if line is None {
                    gives_up(p) && after == self
                } else if chosen is Some && chosen->0 < identities.len() {
                    let id = identities[chosen->0 as int];
                    &&& p is Ask
                    &&& after.question == Question::Name
                    &&& after.found_serial == id.serial
                    &&& after.entry == DeviceEntry { vid: id.vid, pid: id.pid, ..self.entry }
                    &&& after.kind == self.kind
                } else {
                    gives_up_with(p, "Invalid selection."@) && after == self
                }
            },
            Question::Name => if line is None {
                gives_up(p) && after == self
            } else if text.len() == 0 {
                gives_up_with(p, "Name cannot be empty."@) && after == self
            } else if entry_named(entries, text) is Some {
                gives_up_with(p, "Name '"@ + text + "' already exists in registry."@) && after == self
            } else {
                &&& p is Ask
                &&& after.entry.name@ == text
                &&& after == Registration {
                    question: if self.kind == SourceKind::Usb {
                        Question::OnAttach
                    } else {
                        Question::ServiceType
                    },
                    entry: DeviceEntry { name: after.entry.name, ..self.entry },
                    ..self
                }
            },
            Question::ServiceType => if line is None {
                gives_up(p) && after == self
            } else if text.len() == 0 {
                gives_up_with(p, "Service type cannot be empty."@) && after == self
            } else {
                &&& p is Ask
                &&& after.entry.service_type@ == text
                &&& after == Registration {
                    question: Question::OnAttach,
                    entry: DeviceEntry { service_type: after.entry.service_type, ..self.entry },
                    ..self
                }
            },
            Question::OnAttach => if line is None {
                gives_up(p) && after == self
            } else if text.len() == 0 {
                gives_up_with(p, "on_attach command cannot be empty."@) && after == self
            } else {
                &&& p is Ask
                &&& after.entry.on_attach@ == text
                &&& after == Registration {
                    question: Question::OnDetach,
                    entry: DeviceEntry { on_attach: after.entry.on_attach, ..self.entry },
                    ..self
                }
            },
            Question::OnDetach => {
                &&& p is Ask
                &&& after.entry.on_detach@ == text
                &&& after == Registration {
                    question: if self.kind == SourceKind::Mdns {
                        Question::OnRecordStart
                    } else if self.found_serial@.len() > 0 {
                        Question::Serial
                    } else {
                        Question::Symlink
                    },
                    entry: DeviceEntry { on_detach: after.entry.on_detach, ..self.entry },
                    ..self
                }
            },
            Question::Serial => {
                &&& p is Ask
                &&& after.entry.serial@ == (if line matches Some(l) && is_yes(l@) {
                    self.found_serial@
                } else {
                    seq![]
                })
                &&& after == Registration {
                    question: Question::Symlink,
                    entry: DeviceEntry { serial: after.entry.serial, ..self.entry },
                    ..self
                }
            },
            Question::Symlink => p == (Progress::Finish {
                symlink: line matches Some(l) && is_yes(l@),
            }) && after == self,
            Question::OnRecordStart => {
                &&& p is Ask
                &&& after.entry.on_record_start@ == text
                &&& after == Registration {
                    question: Question::OnRecordStop,
                    entry: DeviceEntry { on_record_start: after.entry.on_record_start, ..self.entry },
                    ..self
                }
            },
            Question::OnRecordStop => {
                &&& p is Ask
                &&& after.entry.on_record_stop@ == text
                &&& after == Registration {
                    question: Question::SensorType,
                    entry: DeviceEntry { on_record_stop: after.entry.on_record_stop, ..self.entry },
                    ..self
                }
            },
            Question::SensorType => {
                &&& p == (Progress::Finish { symlink: false })
                &&& after.entry.sensor_type@ == text
                &&& after == Registration {
                    entry: DeviceEntry { sensor_type: after.entry.sensor_type, ..self.entry },
                    ..self
                }
            },
        }
    }

    fn answer_device(&mut self, line: Option<&str>, entries: &Registry, identities: &Vec<UsbIdentity>) -> (r:
        Progress)
        requires
            old(self).question == Question::Device,
        ensures
            old(self).is_answered(line, entries.devices@, identities@, *final(self), r),
    {
        if line.is_none() {
            return Progress::Abort(None);
        }
        let text: String = read_answer(line);
        match parse_number(text.as_str(), usize::MAX as u64) {
            Some(n) => {
                let i: usize = n as usize;
                if i < identities.len() {
                    self.entry.vid = identities[i].vid.clone();
                    self.entry.pid = identities[i].pid.clone();
                    self.found_serial = identities[i].serial.clone();
                    self.question = Question::Name;
                    return Progress::Ask;
                }
                Progress::Abort(Some(owned("Invalid selection.")))
            },
            None => Progress::Abort(Some(owned("Invalid selection."))),
        }
    }

    /// Takes the answer to a question.
    pub fn answer(&mut self, line: Option<&str>, registry: &Registry, identities: &Vec<UsbIdentity>) -> (r:
        Progress)
        ensures
            old(self).is_answered(line, registry.devices@, identities@, *final(self), r),
    {
        match self.question {
            Question::Device => {
                return self.answer_device(line, registry, identities);
            },
            Question::Name | Question::ServiceType | Question::OnAttach => {
                if line.is_none() {
                    return Progress::Abort(None);
                }
            },
            _ => {},
        }
        let text: String = read_answer(line);
        match self.question {
            Question::Device => Progress::Abort(None),
            Question::Name => {
                if text.as_str().unicode_len() == 0 {
                    return Progress::Abort(Some(owned("Name cannot be empty.")));
                }
                if registry.find(text.as_str()).is_some() {
                    let mut m: String = owned("Name '");
                    m.append(text.as_str());
                    m.append("' already exists in registry.");
                    return Progress::Abort(Some(m));
                }
                self.entry.name = text;
                self.question = match self.kind {
                    SourceKind::Usb => Question::OnAttach,
                    SourceKind::Mdns => Question::ServiceType,
                };
                Progress::Ask
            },
            Question::ServiceType => {
                if text.as_str().unicode_len() == 0 {
                    return Progress::Abort(Some(owned("Service type cannot be empty.")));
                }
                self.entry.service_type = text;
                self.question = Question::OnAttach;
                Progress::Ask
            },
            Question::OnAttach => {
                if text.as_str().unicode_len() == 0 {
                    return Progress::Abort(Some(owned("on_attach command cannot be empty.")));
                }
                self.entry.on_attach = text;
                self.question = Question::OnDetach;
                Progress::Ask
            },
            Question::OnDetach => {
                self.entry.on_detach = text;
                self.question = match self.kind {
                    SourceKind::Mdns => Question::OnRecordStart,
                    SourceKind::Usb => if self.found_serial.as_str().unicode_len() > 0 {
                        Question::Serial
                    } else {
                        Question::Symlink
                    },
                };
                Progress::Ask
            },
            Question::Serial => {
                self.entry.serial = if says_yes(line) {
                    self.found_serial.clone()
                } else {
                    String::new()
                };
                assert(""@ =~= seq![]) by {
                    reveal_strlit("");
                }
                self.question = Question::Symlink;
                Progress::Ask
            },
            Question::Symlink => Progress::Finish { symlink: says_yes(line) },
            Question::OnRecordStart => {
                self.entry.on_record_start = text;
                self.question = Question::OnRecordStop;
                Progress::Ask
            },
            Question::OnRecordStop => {
                self.entry.on_record_stop = text;
                self.question = Question::SensorType;
                Progress::Ask
            },
            Question::SensorType => {
                self.entry.sensor_type = text;
                Progress::Finish { symlink: false }
            },
        }
    }

    /// Whether the name was asked for already.
    pub open spec fn is_past_name(self) -> bool {
        self.question != Question::Device && self.question != Question::Name
    }

    /// Whether the command was asked for already.
    pub open spec fn is_past_command(self) -> bool {
        self.is_past_name() && self.question != Question::ServiceType && self.question
            != Question::OnAttach
    }

    /// What was answered so far can be registered: a name that is new, a service type for an mDNS
    /// device, and a command.
    pub open spec fn is_sound(self, entries: Seq<DeviceEntry>) -> bool {
        &&& self.is_past_name() ==> self.entry.name@.len() > 0 && entry_named(
            entries,
            self.entry.name@,
        ) is None
        &&& self.is_past_name() && self.question != Question::ServiceType && self.kind
            == SourceKind::Mdns ==> self.entry.service_type@.len() > 0
        &&& self.is_past_command() ==> self.entry.on_attach@.len() > 0
        &&& self.entry.backend@ == (match self.kind {
            SourceKind::Usb => "usb"@,
            SourceKind::Mdns => "mdns"@,
        })
    }
}

/// Whatever is answered, a registration stays sound; so what is registered in the end has a name
/// that is new and a command.
pub proof fn registrations_stay_sound(
    start: Registration,
    line: Option<&str>,
    entries: Seq<DeviceEntry>,
    identities: Seq<UsbIdentity>,
    end: Registration,
    p: Progress,
)
    requires
        start.is_sound(entries),
        start.is_answered(line, entries, identities, end, p),
    ensures
        !(p is Abort) ==> end.is_sound(entries),
        p is Finish ==> end.entry.name@.len() > 0 && entry_named(entries, end.entry.name@) is None
            && end.entry.on_attach@.len() > 0,
{
}

/// The line that shows a USB device to choose from.
pub open spec fn usb_line(i: nat, id: UsbIdentity, vendor: Seq<char>, product: Seq<char>) -> Seq<char> {
    "  ["@ + decimal_text(i) + "] "@ + id.vid@ + ":"@ + id.pid@ + " "@ + vendor + " / "@ + product
        + "  serial='"@ + id.serial@ + "'"@
}

/// Writes the line that shows a USB device to choose from. A vendor or product that is not known is
/// shown as `N/A`.
pub fn write_usb_line(i: usize, id: &UsbIdentity, vendor: Option<&str>, product: Option<&str>) -> (r:
    String)
    ensures
        r@ == usb_line(
            i as nat,
            *id,
            match vendor {
                Some(v) => v@,
                None => "N/A"@,
            },
            match product {
                Some(v) => v@,
                None => "N/A"@,
            },
        ),
{
    let mut line: String = owned("  [");
    line.append(decimal(i as u64).as_str());
    line.append("] ");
    line.append(id.vid.as_str());
    line.append(":");
    line.append(id.pid.as_str());
    line.append(" ");
    line.append(match vendor {
        Some(v) => v,
        None => "N/A",
    });
    line.append(" / ");
    line.append(match product {
        Some(v) => v,
        None => "N/A",
    });
    line.append("  serial='");
    line.append(id.serial.as_str());
    line.append("'");
    line
}

// ── What is shown and answered ──────────────────────────────────────

/// Texts that fit stand in their columns of the table of devices.
pub proof fn rows_have_columns(
    name: Seq<char>,
    backend: Seq<char>,
    model: Seq<char>,
    service: Seq<char>,
    sensor: Seq<char>,
    attach: Seq<char>,
    detach: Seq<char>,
)
    requires
        name.len() <= 20,
        backend.len() <= 8,
        model.len() <= 10,
        service.len() <= 20,
        sensor.len() <= 8,
        attach.len() <= 30,
    ensures
        ({
            let row = device_row(name, backend, model, service, sensor, attach, detach);
            &&& row.subrange(0, name.len() as int) == name
            &&& row.subrange(21, 21 + backend.len() as int) == backend
            &&& row.subrange(30, 30 + model.len() as int) == model
            &&& row.subrange(41, 41 + service.len() as int) == service
            &&& row.subrange(62, 62 + sensor.len() as int) == sensor
            &&& row.subrange(71, 71 + attach.len() as int) == attach
            &&& row.skip(102) == detach
        }),
{
    reveal_strlit(" ");
    let a = left_aligned(name, 20) + " "@;
    let b = a + left_aligned(backend, 8) + " "@;
    let c = b + left_aligned(model, 10) + " "@;
    let d = c + left_aligned(service, 20) + " "@;
    let e = d + left_aligned(sensor, 8) + " "@;
    let f = e + left_aligned(attach, 30) + " "@;
    let row = device_row(name, backend, model, service, sensor, attach, detach);
    assert(row =~= f + detach);
    assert(a.len() == 21 && b.len() == 30 && c.len() == 41 && d.len() == 62 && e.len() == 71 && f.len()
        == 102);
    assert(row.subrange(0, name.len() as int) =~= name);
    assert(row.subrange(21, 21 + backend.len() as int) =~= backend);
    assert(row.subrange(30, 30 + model.len() as int) =~= model);
    assert(row.subrange(41, 41 + service.len() as int) =~= service);
    assert(row.subrange(62, 62 + sensor.len() as int) =~= sensor);
    assert(row.subrange(71, 71 + attach.len() as int) =~= attach);
    assert(row.skip(102) =~= detach);
}

/// A device is shown by its name, backend, model, service, sensor and commands, with a dash where it
/// has no model, service or sensor, and with a note where it has no second command.
pub proof fn devices_are_shown_in_rows(entry: DeviceEntry)
    ensures
        ({
            let service = if entry.service_type@.len() > 0 {
                entry.service_type@
            } else {
                "-"@
            };
            let sensor = if entry.sensor_type@.len() > 0 {
                entry.sensor_type@
            } else {
                "-"@
            };
            let detach = if entry.on_detach@.len() > 0 {
                entry.on_detach@
            } else {
                "(none)"@
            };
            entry_row(entry) == device_row(
                entry.name@,
                entry.backend@,
                model_text(entry),
                service,
                sensor,
                entry.on_attach@,
                detach,
            )
        }),
        entry.vid@.len() == 0 && entry.pid@.len() == 0 ==> model_text(entry) == "-"@,
        entry.vid@.len() > 0 || entry.pid@.len() > 0 ==> model_text(entry) == entry.vid@ + ":"@
            + entry.pid@,
{
}

/// A bit of a layout is shown in brackets in front of its device, and whether that is registered
/// behind it.
pub proof fn bits_are_shown_in_rows(bit: nat, name: Seq<char>)
    ensures
        layout_row(bit, name, true) == "["@ + right_aligned(decimal_text(bit), 2, ' ') + "] "@
            + left_aligned(name, 20) + " registered"@,
        layout_row(bit, name, false) == "["@ + right_aligned(decimal_text(bit), 2, ' ') + "] "@
            + left_aligned(name, 20) + " NOT IN REGISTRY"@,
{
    reveal_strlit(" ");
    reveal_strlit("registered");
    reveal_strlit("NOT IN REGISTRY");
    reveal_strlit(" registered");
    reveal_strlit(" NOT IN REGISTRY");
    assert(" "@ + "registered"@ =~= " registered"@);
    assert(" "@ + "NOT IN REGISTRY"@ =~= " NOT IN REGISTRY"@);
    let start = "["@ + right_aligned(decimal_text(bit), 2, ' ') + "] "@ + left_aligned(name, 20);
    assert(layout_row(bit, name, true) =~= start + (" "@ + "registered"@));
    assert(layout_row(bit, name, false) =~= start + (" "@ + "NOT IN REGISTRY"@));
}

/// A USB device is shown under its number with its model, vendor, product and serial number.
pub proof fn usb_devices_are_shown_in_lines(i: nat, id: UsbIdentity, vendor: Seq<char>, product: Seq<char>)
    ensures
        usb_line(i, id, vendor, product) == "  ["@ + decimal_text(i) + "] "@ + (id.vid@ + ":"@
            + id.pid@) + " "@ + vendor + " / "@ + product + "  serial='"@ + id.serial@ + "'"@,
{
    let start = "  ["@ + decimal_text(i) + "] "@;
    assert(start + id.vid@ + ":"@ + id.pid@ =~= start + (id.vid@ + ":"@ + id.pid@));
}

/// A backend is needed where a registered device has it.
pub proof fn backends_are_needed_by_devices(devices: Seq<DeviceEntry>, i: int, backend: Seq<char>)
    ensures
        0 <= i < devices.len() ==> some_backend(devices, devices[i].backend@),
        (forall|k: int| 0 <= k < devices.len() ==> (#[trigger] devices[k]).backend@ != backend)
            ==> !some_backend(devices, backend),
{
}

/// An answer is a yes where it is the letter, large or small, whatever whitespace is around it; no
/// answer is none.
pub proof fn yes_is_one_letter(line: Seq<char>, c: char)
    ensures
        is_yes(line) <==> trimmed(line).len() == 1 && (trimmed(line)[0] == 'y' || trimmed(line)[0]
            == 'Y'),
        is_yes("y"@),
        !is_yes(""@),
{
    reveal_strlit("y");
    reveal_strlit("Y");
    reveal_strlit("");
    if trimmed(line).len() == 1 && (trimmed(line)[0] == 'y' || trimmed(line)[0] == 'Y') {
        assert(trimmed(line) =~= "y"@ || trimmed(line) =~= "Y"@);
    }
    assert(!is_white('y'));
    assert(trim_start("y"@) == "y"@);
    assert(trim_end("y"@) == "y"@);
}

/// An answer counts without the whitespace around it, and no answer as an empty one.
pub proof fn answers_count_without_whitespace(line: &str)
    ensures
        answer_text(Some(line)) == trimmed(line@),
        answer_text(None).len() == 0,
{
}

/// Each question is asked in words of its own; those about the serial number and the link tell
/// which.
pub proof fn questions_are_asked_in_words(r: Registration)
    ensures
        match r.question {
            Question::Device => r.prompt_text() == "\nSelect device number: "@,
            Question::Name => r.prompt_text() == "Enter a name for this device: "@,
            Question::ServiceType => r.prompt_text()
                == "Enter mDNS service type (e.g. _iphonevio._tcp.local.): "@,
            Question::OnAttach => r.prompt_text() == "Enter on_attach command: "@,
            Question::OnDetach => r.prompt_text()
                == "Enter on_detach command (optional, press Enter to skip): "@,
            Question::Serial => r.prompt_text() == "Use serial '"@ + r.found_serial@
                + "' for exact matching? (y/N): "@,
            Question::Symlink => r.prompt_text() == "Create udev symlink /dev/"@ + r.entry.name@
                + "? (y/N): "@,
            Question::OnRecordStart => r.prompt_text() == "Enter on_record_start command (optional): "@,
            Question::OnRecordStop => r.prompt_text() == "Enter on_record_stop command (optional): "@,
            Question::SensorType => r.prompt_text()
                == "Sensor type for MCAP recording (motor/video/gopro, or empty to skip): "@,
        },
{
}

/// The chosen device gives its vendor, product and serial number; a number that stands for none ends
/// the registration.
pub proof fn chosen_devices_are_taken(
    start: Registration,
    line: &str,
    entries: Seq<DeviceEntry>,
    identities: Seq<UsbIdentity>,
    end: Registration,
    p: Progress,
    i: nat,
)
    requires
        start.is_answered(Some(line), entries, identities, end, p),
        start.question == Question::Device,
    ensures
        parsed_number(trimmed(line@), usize::MAX as nat) == Some(i) && i < identities.len() ==> p is Ask
            && end.question == Question::Name && end.entry.vid@ == identities[i as int].vid@
            && end.entry.pid@ == identities[i as int].pid@ && end.found_serial@
            == identities[i as int].serial@ && end.entry.name == start.entry.name,
        parsed_number(trimmed(line@), usize::MAX as nat) is None ==> gives_up_with(
            p,
            "Invalid selection."@,
        ) && end == start,
        parsed_number(trimmed(line@), usize::MAX as nat) == Some(i) && i >= identities.len()
            ==> gives_up_with(p, "Invalid selection."@) && end == start,
{
}

/// The name that is answered is the name of the device; an empty one and one that is taken end the
/// registration. A USB device is then asked for its command, any other for its service.
pub proof fn answered_names_are_taken(
    start: Registration,
    line: &str,
    entries: Seq<DeviceEntry>,
    identities: Seq<UsbIdentity>,
    end: Registration,
    p: Progress,
)
    requires
        start.is_answered(Some(line), entries, identities, end, p),
        start.question == Question::Name,
    ensures
        trimmed(line@).len() == 0 ==> gives_up_with(p, "Name cannot be empty."@) && end == start,
        trimmed(line@).len() > 0 && entry_named(entries, trimmed(line@)) is Some ==> gives_up_with(
            p,
            "Name '"@ + trimmed(line@) + "' already exists in registry."@,
        ) && end == start,
        trimmed(line@).len() > 0 && entry_named(entries, trimmed(line@)) is None ==> p is Ask
            && end.entry.name@ == trimmed(line@) && end.question == (match start.kind {
            SourceKind::Usb => Question::OnAttach,
            SourceKind::Mdns => Question::ServiceType,
        }) && end.entry.vid == start.entry.vid && end.entry.pid == start.entry.pid
            && end.entry.backend == start.entry.backend && end.found_serial == start.found_serial,
{
}

/// A service and a command must be answered; what is answered is kept, and the next question asked.
pub proof fn needed_answers_are_kept(
    start: Registration,
    line: &str,
    entries: Seq<DeviceEntry>,
    identities: Seq<UsbIdentity>,
    end: Registration,
    p: Progress,
)
    requires
        start.is_answered(Some(line), entries, identities, end, p),
    ensures
        start.question == Question::ServiceType && trimmed(line@).len() == 0 ==> gives_up_with(
            p,
            "Service type cannot be empty."@,
        ) && end == start,
        start.question == Question::ServiceType && trimmed(line@).len() > 0 ==> p is Ask
            && end.entry.service_type@ == trimmed(line@) && end.question == Question::OnAttach
            && end.entry.name == start.entry.name,
        start.question == Question::OnAttach && trimmed(line@).len() == 0 ==> gives_up_with(
            p,
            "on_attach command cannot be empty."@,
        ) && end == start,
        start.question == Question::OnAttach && trimmed(line@).len() > 0 ==> p is Ask
            && end.entry.on_attach@ == trimmed(line@) && end.question == Question::OnDetach
            && end.entry.name == start.entry.name && end.entry.service_type
            == start.entry.service_type,
{
}

/// Without an answer to a question that needs one, the registration ends without a word.
pub proof fn missing_answers_end_registrations(
    start: Registration,
    entries: Seq<DeviceEntry>,
    identities: Seq<UsbIdentity>,
    end: Registration,
    p: Progress,
)
    requires
        start.is_answered(None, entries, identities, end, p),
        start.question == Question::Device || start.question == Question::Name || start.question
            == Question::ServiceType || start.question == Question::OnAttach,
    ensures
        p == Progress::Abort(None),
        end == start,
{
}

/// The other answers may be empty and are kept as they are. A USB device is asked for its serial
/// number, where it has one, and for a link; any other for what a recording needs.
pub proof fn other_answers_are_kept(
    start: Registration,
    line: &str,
    entries: Seq<DeviceEntry>,
    identities: Seq<UsbIdentity>,
    end: Registration,
    p: Progress,
)
    requires
        start.is_answered(Some(line), entries, identities, end, p),
    ensures
        start.question == Question::OnDetach ==> p is Ask && end.entry.on_detach@ == trimmed(line@)
            && end.question == (if start.kind == SourceKind::Mdns {
            Question::OnRecordStart
        } else if start.found_serial@.len() > 0 {
            Question::Serial
        } else {
            Question::Symlink
        }),
        start.question == Question::Serial ==> p is Ask && end.question == Question::Symlink,
        start.question == Question::Serial && is_yes(line@) ==> end.entry.serial@
            == start.found_serial@,
        start.question == Question::Serial && !is_yes(line@) ==> end.entry.serial@.len() == 0,
        start.question == Question::Symlink && is_yes(line@) ==> p == (Progress::Finish {
            symlink: true,
        }),
        start.question == Question::Symlink && !is_yes(line@) ==> p == (Progress::Finish {
            symlink: false,
        }),
        start.question == Question::OnRecordStart ==> p is Ask && end.entry.on_record_start@ == trimmed(
            line@,
        ) && end.question == Question::OnRecordStop,
        start.question == Question::OnRecordStop ==> p is Ask && end.entry.on_record_stop@ == trimmed(
            line@,
        ) && end.question == Question::SensorType,
        start.question == Question::SensorType ==> p == (Progress::Finish { symlink: false })
            && end.entry.sensor_type@ == trimmed(line@),
{
}

/// No answer changes what is being registered, and once a name and a command were answered they stay.
pub proof fn answers_keep_what_was_answered(
    start: Registration,
    line: Option<&str>,
    entries: Seq<DeviceEntry>,
    identities: Seq<UsbIdentity>,
    end: Registration,
    p: Progress,
)
    requires
        start.is_answered(line, entries, identities, end, p),
    ensures
        end.kind == start.kind,
        end.entry.backend == start.entry.backend,
        start.question != Question::Name ==> end.entry.name == start.entry.name,
        start.question != Question::OnAttach ==> end.entry.on_attach == start.entry.on_attach,
        start.question != Question::OnDetach ==> end.entry.on_detach == start.entry.on_detach,
        start.question != Question::ServiceType ==> end.entry.service_type == start.entry.service_type,
        start.question != Question::Serial ==> end.entry.serial == start.entry.serial,
        start.question != Question::Device ==> end.entry.vid == start.entry.vid && end.entry.pid
            == start.entry.pid,
{
}

/// A registration begins with nothing but the backend.
pub proof fn registrations_begin_blank(e: DeviceEntry, kind: SourceKind)
    requires
        is_blank_entry(e, kind),
    ensures
        kind == SourceKind::Usb ==> e.backend@ == "usb"@,
        kind == SourceKind::Mdns ==> e.backend@ == "mdns"@,
        e.name@ == Seq::<char>::empty(),
        e.vid@ == Seq::<char>::empty(),
        e.pid@ == Seq::<char>::empty(),
        e.serial@ == Seq::<char>::empty(),
        e.service_type@ == Seq::<char>::empty(),
        e.on_attach@ == Seq::<char>::empty(),
        e.on_detach@ == Seq::<char>::empty(),
        e.on_record_start@ == Seq::<char>::empty(),
        e.on_record_stop@ == Seq::<char>::empty(),
        e.sensor_type@ == Seq::<char>::empty(),
{
}

/// A registration ends with its message, or without one.
pub proof fn registrations_end_with_their_message(p: Progress, message: Seq<char>)
    ensures
        gives_up_with(p, message) ==> p is Abort && !gives_up(p),
        p matches Progress::Abort(Some(m)) ==> gives_up_with(p, m@) && (gives_up_with(p, message)
            ==> m@ == message),
        gives_up(p) <==> p == Progress::Abort(None),
{
}

/// A registered device without a bit is missing from the layout, and no other is.
pub proof fn devices_without_bits_are_missing(order: Seq<Seq<char>>, name: Seq<char>)
    ensures
        is_missing_from(order)(name) <==> !order.contains(name),
{
}

/// The port stands behind the last colon of an address.
pub proof fn ports_stand_behind_the_last_colon(bind: &str, r: Option<u16>)
    requires
        call_ensures(parse_port_from_bind, (bind,), r),
    ensures
        match parsed_number(after_last(bind@, ':'), 65535) {
            Some(n) => r matches Some(port) && port == n,
            None => r is None,
        },
{
}

/// USB is chosen by nothing and by one, mDNS by two, and nothing else is a choice.
pub proof fn backends_are_chosen_by_number(line: &str, r: Option<SourceKind>)
    requires
        call_ensures(choose_backend, (line,), r),
    ensures
        trimmed(line@) == ""@ ==> r == Some(SourceKind::Usb),
        trimmed(line@) == "1"@ ==> r == Some(SourceKind::Usb),
        trimmed(line@) == "2"@ ==> r == Some(SourceKind::Mdns),
        trimmed(line@) != ""@ && trimmed(line@) != "1"@ && trimmed(line@) != "2"@ ==> r is None,
{
    reveal_strlit("");
    reveal_strlit("1");
    reveal_strlit("2");
    assert(""@.len() == 0 && "1"@[0] == '1' && "2"@[0] == '2');
}

/// The last lines of a log are its end, and as many as asked for, if there are so many; it has new
/// output where it has become longer.
pub proof fn logs_are_followed_at_their_end(
    lines: &Vec<String>,
    count: usize,
    last: Vec<String>,
    position: u64,
    len: u64,
    more: Option<u64>,
)
    requires
        call_ensures(last_lines, (lines, count), last),
        call_ensures(new_output, (position, len), more),
    ensures
        count <= lines@.len() ==> last@.len() == count && last@ == lines@.skip(lines@.len() - count),
        count > lines@.len() ==> last@ == lines@,
        more is Some <==> len > position,
        more matches Some(n) ==> n == len,
{
    assert(lines@.skip(0) =~= lines@);
}

/// Each backend that a device has is looked for, USB first.
pub proof fn needed_backends_are_looked_for(registry: &Registry, r: Vec<SourceKind>)
    requires
        call_ensures(build_discovery_sources, (registry,), r),
    ensures
        r@.contains(SourceKind::Usb) <==> some_backend(registry.devices@, "usb"@),
        r@.contains(SourceKind::Mdns) <==> some_backend(registry.devices@, "mdns"@),
        r@.len() <= 2,
        r@.len() == 2 ==> r@[0] == SourceKind::Usb,
{
    if some_backend(registry.devices@, "usb"@) {
        assert(r@[0] == SourceKind::Usb);
    }
    if some_backend(registry.devices@, "mdns"@) {
        assert(r@[r@.len() - 1] == SourceKind::Mdns);
    }
}

} // verus!
