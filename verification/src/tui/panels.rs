//! What the terminal interface shows.

use vstd::prelude::*;
use crate::engine::command::{DeviceStatus, RecordingInfo, ReplayState, ReplayStatusInfo};
use crate::engine::recordings::is_session_id;
use crate::engine::status::{device_available, is_available};
use crate::engine::masks::has_bit;
use crate::engine::process::time_since;
use crate::mask::debug::{hex16, hex8};
use crate::text::{align_left, align_right, ascii_can_be_cut, ascii_is_one_byte_each, base_value,
    byte_len, chars_of, cut, cut_at, decimal, decimal_text, in_base, left_aligned,
    numbers_are_written_in_their_base, owned, right_aligned, str_eq, texts, utf8_len, write_in_base,
    zeros_in_front_change_nothing};
use crate::tui::logs::LOG_RECENT_WINDOW_NS;
use crate::tui::{is_recording_now, is_replaying, recording_now, replaying, App, AppMode};

verus! {

/// A colour.
#[derive(Debug, Clone, Copy, PartialEq, Eq, Structural)]
pub enum Color {
    Red,
    Green,
    Yellow,
    Blue,
    Magenta,
    Cyan,
    White,
    DarkGray,
}

/// How a text is shown.
#[derive(Debug, Clone, Copy, PartialEq, Eq, Structural)]
pub struct Style {
    pub fg: Option<Color>,
    pub bg: Option<Color>,
    pub bold: bool,
}

/// The style of text that nothing sets apart.
pub open spec fn plain() -> Style {
    Style { fg: None, bg: None, bold: false }
}

/// The style of text of a colour.
pub open spec fn of_color(color: Color) -> Style {
    Style { fg: Some(color), bg: None, bold: false }
}

/// The style of bold text of a colour.
pub open spec fn bold(color: Color) -> Style {
    Style { fg: Some(color), bg: None, bold: true }
}

/// The style of white text on a colour.
pub open spec fn on_color(color: Color) -> Style {
    Style { fg: Some(Color::White), bg: Some(color), bold: false }
}

/// The style of a selected line.
pub open spec fn selected_style(selected: bool) -> Style {
    Style {
        fg: None,
        bg: if selected {
            Some(Color::DarkGray)
        } else {
            None
        },
        bold: false,
    }
}

/// A piece of a line.
#[derive(Debug, PartialEq, Eq)]
pub struct Piece {
    pub text: String,
    pub style: Style,
}

/// A piece of a line, as its characters.
pub struct PieceModel {
    pub text: Seq<char>,
    pub style: Style,
}

impl View for Piece {
    type V = PieceModel;

    open spec fn view(&self) -> PieceModel {
        PieceModel { text: self.text@, style: self.style }
    }
}

/// The pieces of a line.
pub open spec fn pieces(line: Seq<Piece>) -> Seq<PieceModel> {
    line.map_values(|p: Piece| p@)
}

/// A line.
#[derive(Debug, PartialEq, Eq)]
pub struct StyledLine {
    pub pieces: Vec<Piece>,
    /// How the whole line is shown.
    pub style: Style,
}

/// A line, as its pieces.
pub struct LineModel {
    pub pieces: Seq<PieceModel>,
    pub style: Style,
}

impl View for StyledLine {
    type V = LineModel;

    open spec fn view(&self) -> LineModel {
        LineModel { pieces: pieces(self.pieces@), style: self.style }
    }
}

/// Lines as their pieces.
pub open spec fn lines_of(lines: Seq<StyledLine>) -> Seq<LineModel> {
    lines.map_values(|l: StyledLine| l@)
}

/// The model of a piece.
pub open spec fn styled(text: Seq<char>, style: Style) -> PieceModel {
    PieceModel { text, style }
}

/// The model of a line of pieces that nothing sets apart.
pub open spec fn line_of(list: Seq<PieceModel>) -> LineModel {
    LineModel { pieces: list, style: plain() }
}

/// The model of a line of one piece.
pub open spec fn single(text: Seq<char>, style: Style) -> LineModel {
    line_of(seq![styled(text, style)])
}

fn style(fg: Option<Color>, bg: Option<Color>, bold: bool) -> (r: Style)
    ensures
        r == (Style { fg, bg, bold }),
{
    Style { fg, bg, bold }
}

fn colored(text: &str, color: Color) -> (r: Piece)
    ensures
        r@ == styled(text@, of_color(color)),
{
    Piece { text: owned(text), style: style(Some(color), None, false) }
}

fn raw(text: &str) -> (r: Piece)
    ensures
        r@ == styled(text@, plain()),
{
    Piece { text: owned(text), style: style(None, None, false) }
}

fn plain_line(list: Vec<Piece>) -> (r: StyledLine)
    ensures
        r@ == line_of(pieces(list@)),
{
    StyledLine { pieces: list, style: style(None, None, false) }
}

fn one_piece(piece: Piece) -> (r: StyledLine)
    ensures
        r@ == line_of(seq![piece@]),
{
    let mut list: Vec<Piece> = Vec::new();
    list.push(piece);
    assert(pieces(list@) =~= seq![piece@]);
    plain_line(list)
}

fn two_pieces(a: Piece, b: Piece) -> (r: StyledLine)
    ensures
        r@ == line_of(seq![a@, b@]),
{
    let mut list: Vec<Piece> = Vec::new();
    list.push(a);
    list.push(b);
    assert(pieces(list@) =~= seq![a@, b@]);
    plain_line(list)
}

fn push_piece(line: &mut Vec<Piece>, piece: Piece)
    ensures
        pieces(final(line)@) == pieces(old(line)@).push(piece@),
{
    line.push(piece);
    assert(pieces(line@) =~= pieces(old(line)@).push(piece@));
}

fn push_line(lines: &mut Vec<StyledLine>, line: StyledLine)
    ensures
        lines_of(final(lines)@) == lines_of(old(lines)@).push(line@),
{
    lines.push(line);
    assert(lines_of(lines@) =~= lines_of(old(lines)@).push(line@));
}

// ── Header and footer ───────────────────────────────────────────────

/// What stands for the session of a replay.
pub open spec fn replayed_session(status: ReplayStatusInfo) -> Seq<char> {
    match status.session_id {
        Some(id) => id@,
        None => "?"@,
    }
}

fn session_of(status: &ReplayStatusInfo) -> (r: &str)
    ensures
        r@ == replayed_session(*status),
{
    match &status.session_id {
        Some(id) => id.as_str(),
        None => "?",
    }
}

impl App {
    /// The piece that shows a recording that is under way.
    pub open spec fn recording_pieces(self) -> Seq<PieceModel> {
        if is_recording_now(self.recording) {
            seq![
                styled(" | "@, plain()),
                styled(" REC "@ + self.recording->0.session_id@ + " "@, on_color(Color::Red)),
            ]
        } else {
            seq![]
        }
    }

    /// The piece that shows a replay that is under way; none where the first bytes of its name end
    /// within a character.
    pub open spec fn replay_pieces(self) -> Option<Seq<PieceModel>> {
        if is_replaying(self.replay_status) {
            match cut_at(replayed_session(self.replay_status->0), 8) {
                Some(id) => Some(
                    seq![
                        styled(" | "@, plain()),
                        styled(" \u{25b6} REPLAY "@ + id + " "@, on_color(Color::Magenta)),
                    ],
                ),
                None => None,
            }
        } else {
            Some(seq![])
        }
    }

    /// The pieces of the header that are always there.
    pub open spec fn title_pieces(self, freq: Seq<char>) -> Seq<PieceModel> {
        seq![
            styled(" RAPID Hardware Mask Monitor "@, bold(Color::Cyan)),
            styled(" | Mask: "@, plain()),
            styled("0x"@ + right_aligned(in_base(self.current_mask as nat, 16), 8, '0'), of_color(Color::Yellow)),
            styled(
                if self.mask_enabled {
                    " | "@ + freq + " Hz"@
                } else {
                    ""@
                },
                plain(),
            ),
        ]
    }

    /// The header. The frequency comes as text.
    pub fn header(&self, freq: &str) -> (r: Option<Vec<Piece>>)
        ensures
            r is Some <==> self.replay_pieces() is Some,
            r matches Some(line) ==> pieces(line@) == self.title_pieces(freq@)
                + self.recording_pieces() + self.replay_pieces()->0,
    {
        let mut line: Vec<Piece> = Vec::new();
        line.push(
            Piece {
                text: owned(" RAPID Hardware Mask Monitor "),
                style: style(Some(Color::Cyan), None, true),
            },
        );
        line.push(raw(" | Mask: "));
        let mut mask: String = owned("0x");
        mask.append(align_right(write_in_base(self.current_mask, 16).as_str(), 8, '0').as_str());
        line.push(colored(mask.as_str(), Color::Yellow));
        let mut rate: String = owned("");
        if self.mask_enabled {
            rate = owned(" | ");
            rate.append(freq);
            rate.append(" Hz");
        }
        line.push(raw(rate.as_str()));
        assert(pieces(line@) =~= self.title_pieces(freq@));
        if recording_now(&self.recording) {
            if let Some(rec) = &self.recording {
                let mut text: String = owned(" REC ");
                text.append(rec.session_id.as_str());
                text.append(" ");
                push_piece(&mut line, raw(" | "));
                push_piece(
                    &mut line,
                    Piece { text, style: style(Some(Color::White), Some(Color::Red), false) },
                );
            }
        }
        assert(pieces(line@) =~= self.title_pieces(freq@) + self.recording_pieces());
        if replaying(&self.replay_status) {
            if let Some(status) = &self.replay_status {
                let id: String = match cut(session_of(status), 8) {
                    Some(id) => id,
                    None => {
                        return None;
                    },
                };
                let mut text: String = owned(" \u{25b6} REPLAY ");
                text.append(id.as_str());
                text.append(" ");
                push_piece(&mut line, raw(" | "));
                push_piece(
                    &mut line,
                    Piece { text, style: style(Some(Color::White), Some(Color::Magenta), false) },
                );
            }
        }
        assert(pieces(line@) =~= self.title_pieces(freq@) + self.recording_pieces()
            + self.replay_pieces()->0);
        Some(line)
    }

    /// What the keys do.
    pub open spec fn help_text(self) -> Seq<char> {
        match self.mode {
            AppMode::Monitor => "[q]uit [s/Enter]restart [r]eorder [e]xport [i]mport [R]ec [P]replay [↑↓]select"@,
            AppMode::Reorder => "[↑↓]move [Enter]save [Esc]cancel"@,
            AppMode::Export => "Enter path to export: "@,
            AppMode::Import => "Enter path to import: "@,
            AppMode::Replay => "[↑↓]select [Enter]start [Esc]back"@,
        }
    }

    /// What stands in the footer.
    pub open spec fn footer_text(self, now_ns: u64) -> Seq<char> {
        if self.mode == AppMode::Export || self.mode == AppMode::Import {
            self.help_text() + self.input_buffer@
        } else {
            match self.shown_status(now_ns) {
                Some(status) => self.help_text() + " | "@ + status,
                None => self.help_text(),
            }
        }
    }

    /// The footer.
    pub fn footer(&self, now_ns: u64) -> (r: String)
        ensures
            r@ == self.footer_text(now_ns),
    {
        let help: &str = match self.mode {
            AppMode::Monitor => "[q]uit [s/Enter]restart [r]eorder [e]xport [i]mport [R]ec [P]replay [↑↓]select",
            AppMode::Reorder => "[↑↓]move [Enter]save [Esc]cancel",
            AppMode::Export => "Enter path to export: ",
            AppMode::Import => "Enter path to import: ",
            AppMode::Replay => "[↑↓]select [Enter]start [Esc]back",
        };
        let mut text: String = owned(help);
        if matches!(self.mode, AppMode::Export | AppMode::Import) {
            text.append(self.input_buffer.as_str());
        } else if let Some(status) = self.get_status(now_ns) {
            text.append(" | ");
            text.append(status.as_str());
        }
        text
    }
}

// ── Devices ─────────────────────────────────────────────────────────

/// The mark of a device: full where it is available, half where it runs or was found.
pub open spec fn device_mark(device: DeviceStatus) -> PieceModel {
    if is_available(device) {
        styled("●"@, of_color(Color::Green))
    } else if device.process_running || device.discovered {
        styled("◐"@, of_color(Color::Yellow))
    } else {
        styled("○"@, of_color(Color::Red))
    }
}

/// The tag of the backend of a device.
pub open spec fn backend_tag(device: DeviceStatus) -> PieceModel {
    if device.backend@ == "mdns"@ {
        styled("[m]"@, of_color(Color::Magenta))
    } else {
        styled("[u]"@, of_color(Color::Blue))
    }
}

/// How the process of a device is shown.
pub open spec fn pid_text(pid: Option<u32>) -> Seq<char> {
    match pid {
        Some(p) => "PID:"@ + decimal_text(p as nat),
        None => "-"@,
    }
}

/// The line of a device.
pub open spec fn device_line(device: DeviceStatus, selected: bool) -> LineModel {
    LineModel {
        pieces: seq![
            styled("["@ + right_aligned(decimal_text(device.bit_index as nat), 2, ' ') + "] "@, plain()),
            device_mark(device),
            styled(" "@, plain()),
            backend_tag(device),
            styled(" "@ + left_aligned(device.name@, 14) + " "@, plain()),
            styled(pid_text(device.pid), of_color(Color::DarkGray)),
        ],
        style: selected_style(selected),
    }
}

fn write_device_line(device: &DeviceStatus, selected: bool) -> (r: StyledLine)
    ensures
        r@ == device_line(*device, selected),
{
    let mut list: Vec<Piece> = Vec::new();
    let mut bit: String = owned("[");
    bit.append(align_right(decimal(device.bit_index as u64).as_str(), 2, ' ').as_str());
    bit.append("] ");
    list.push(raw(bit.as_str()));
    list.push(
        if device_available(device) {
            colored("●", Color::Green)
        } else if device.process_running || device.discovered {
            colored("◐", Color::Yellow)
        } else {
            colored("○", Color::Red)
        },
    );
    list.push(raw(" "));
    list.push(
        if str_eq(device.backend.as_str(), "mdns") {
            colored("[m]", Color::Magenta)
        } else {
            colored("[u]", Color::Blue)
        },
    );
    let mut name: String = owned(" ");
    name.append(align_left(device.name.as_str(), 14).as_str());
    name.append(" ");
    list.push(raw(name.as_str()));
    let mut pid: String = owned("-");
    if let Some(p) = device.pid {
        pid = owned("PID:");
        pid.append(decimal(p as u64).as_str());
    }
    list.push(colored(pid.as_str(), Color::DarkGray));
    let line: StyledLine = StyledLine {
        pieces: list,
        style: style(
            None,
            if selected {
                Some(Color::DarkGray)
            } else {
                None
            },
            false,
        ),
    };
    assert(line@.pieces =~= device_line(*device, selected).pieces);
    line
}

impl App {
    /// The lines of the devices.
    pub open spec fn device_lines(self) -> Seq<LineModel> {
        Seq::new(
            self.devices@.len(),
            |i: int| device_line(self.devices@[i], i == self.selected),
        )
    }

    /// The list of devices.
    pub fn device_list(&self) -> (r: Vec<StyledLine>)
        ensures
            lines_of(r@) == self.device_lines(),
    {
        let n: usize = self.devices.len();
        let mut lines: Vec<StyledLine> = Vec::new();
        let mut i: usize = 0;
        while i < n
            invariant
                n == self.devices@.len(),
                i <= n,
                lines_of(lines@) == self.device_lines().take(i as int),
            decreases n - i,
        {
            push_line(&mut lines, write_device_line(&self.devices[i], i == self.selected));
            i = i + 1;
            assert(lines_of(lines@) =~= self.device_lines().take(i as int));
        }
        assert(self.device_lines().take(n as int) =~= self.device_lines());
        lines
    }

    /// The title of the list of devices, and the colour of its border.
    pub fn device_title(&self) -> (r: (&'static str, Option<Color>))
        ensures
            r.0@ == (if self.mode == AppMode::Reorder {
                " Devices (REORDER MODE) "@
            } else {
                " Devices "@
            }),
            r.1 == (if self.mode == AppMode::Reorder {
                Some(Color::Yellow)
            } else {
                None
            }),
    {
        match self.mode {
            AppMode::Reorder => (" Devices (REORDER MODE) ", Some(Color::Yellow)),
            _ => (" Devices ", None),
        }
    }
}

// ── Mask ────────────────────────────────────────────────────────────

/// The mark of a bit.
pub open spec fn bit_mark(mask: u64, bit: u64) -> PieceModel {
    if has_bit(mask, bit) {
        styled("■"@, of_color(Color::Green))
    } else {
        styled("□"@, of_color(Color::DarkGray))
    }
}

/// The marks of the first bits, with a space between each two.
pub open spec fn bit_marks(mask: u64, count: nat) -> Seq<PieceModel>
    decreases count,
{
    if count == 0 {
        seq![]
    } else if count == 1 {
        seq![bit_mark(mask, 0)]
    } else {
        bit_marks(mask, (count - 1) as nat) + seq![
            styled(" "@, plain()),
            bit_mark(mask, (count - 1) as u64),
        ]
    }
}

/// The numbers of the first bits, each with a space behind it.
pub open spec fn bit_numbers(count: nat) -> Seq<char>
    decreases count,
{
    if count == 0 {
        seq![]
    } else {
        bit_numbers((count - 1) as nat) + decimal_text((count - 1) as nat) + " "@
    }
}

impl App {
    /// How many bits have a mark of their own.
    pub open spec fn marked_bits(self) -> nat {
        if self.devices@.len() < 8 {
            self.devices@.len()
        } else {
            8
        }
    }

    /// The lines on the mask.
    pub open spec fn mask_lines(self, freq: Seq<char>) -> Seq<LineModel> {
        seq![
            line_of(
                seq![
                    styled(
                        "0b"@ + right_aligned(in_base((self.current_mask % 256) as nat, 2), 8, '0'),
                        of_color(Color::Yellow),
                    ),
                    styled("  "@, plain()),
                ] + bit_marks(self.current_mask, self.marked_bits()),
            ),
            single("           "@ + bit_numbers(self.marked_bits()), of_color(Color::DarkGray)),
            single(""@, plain()),
            single(
                "Hex: 0x"@ + right_aligned(in_base(self.current_mask as nat, 16), 16, '0'),
                plain(),
            ),
            single(
                "Seq: "@ + decimal_text(self.sequence as nat) + "  Freq: "@ + freq + " Hz"@,
                plain(),
            ),
        ]
    }

    /// The panel of the mask. The frequency comes as text.
    pub fn mask_display(&self, freq: &str) -> (r: Vec<StyledLine>)
        ensures
            lines_of(r@) == self.mask_lines(freq@),
    {
        let mask: u64 = self.current_mask;
        let n: usize = self.devices.len();
        let count: u64 = if n < 8 {
            n as u64
        } else {
            8
        };
        let low: u64 = mask % 256;
        let mut binary: String = owned("0b");
        binary.append(align_right(write_in_base(low, 2).as_str(), 8, '0').as_str());
        let mut marks: Vec<Piece> = Vec::new();
        marks.push(colored(binary.as_str(), Color::Yellow));
        marks.push(raw("  "));
        let ghost start = seq![
            styled("0b"@ + right_aligned(in_base(low as nat, 2), 8, '0'), of_color(Color::Yellow)),
            styled("  "@, plain()),
        ];
        let mut numbers: String = owned("           ");
        let mut i: u64 = 0;
        proof {
            assert(pieces(marks@) =~= start + bit_marks(mask, 0));
            assert(numbers@ =~= "           "@ + bit_numbers(0));
        }
        while i < count
            invariant
                count <= 8,
                i <= count,
                pieces(marks@) == start + bit_marks(mask, i as nat),
                numbers@ == "           "@ + bit_numbers(i as nat),
            decreases count - i,
        {
            let ghost before = pieces(marks@);
            let ghost numbers_before = numbers@;
            if i > 0 {
                push_piece(&mut marks, raw(" "));
            }
            let shifted: u64 = mask >> i;
            if shifted & 1 == 1 {
                push_piece(&mut marks, colored("■", Color::Green));
            } else {
                push_piece(&mut marks, colored("□", Color::DarkGray));
            }
            numbers.append(decimal(i).as_str());
            numbers.append(" ");
            i = i + 1;
            assert(pieces(marks@) =~= start + bit_marks(mask, i as nat));
            assert(numbers@ =~= "           "@ + bit_numbers(i as nat));
        }
        let mut lines: Vec<StyledLine> = Vec::new();
        lines.push(plain_line(marks));
        lines.push(one_piece(colored(numbers.as_str(), Color::DarkGray)));
        lines.push(one_piece(raw("")));
        let mut hex: String = owned("Hex: 0x");
        hex.append(align_right(write_in_base(mask, 16).as_str(), 16, '0').as_str());
        lines.push(one_piece(raw(hex.as_str())));
        let mut stats: String = owned("Seq: ");
        stats.append(decimal(self.sequence).as_str());
        stats.append("  Freq: ");
        stats.append(freq);
        stats.append(" Hz");
        lines.push(one_piece(raw(stats.as_str())));
        assert(lines_of(lines@) =~= self.mask_lines(freq@));
        lines
    }
}

// ── Log ─────────────────────────────────────────────────────────────

/// A line of a log as it is shown: a long one without its end. None where it would be cut within a
/// character.
pub open spec fn log_line(line: Seq<char>) -> Option<Seq<char>> {
    if byte_len(line) > 80 {
        match cut_at(line, 77) {
            Some(start) => Some(start + "..."@),
            None => None,
        }
    } else {
        Some(line)
    }
}

fn write_log_line(line: &String) -> (r: Option<String>)
    ensures
        match r {
            Some(t) => log_line(line@) == Some(t@),
            None => log_line(line@) is None,
        },
{
    let chars: Vec<char> = chars_of(line.as_str());
    proof {
        ascii_is_one_byte_each(line@);
    }
    if chars.len() > 80 || utf8_len(&chars) > 80 {
        match cut(line.as_str(), 77) {
            Some(start) => {
                let mut text: String = start;
                text.append("...");
                Some(text)
            },
            None => None,
        }
    } else {
        Some(line.clone())
    }
}

/// Whether every line can be shown.
pub open spec fn can_be_shown(log: Seq<Seq<char>>) -> bool {
    forall|i: int| 0 <= i < log.len() ==> log_line(#[trigger] log[i]) is Some
}

impl App {
    /// The device whose log is shown.
    pub open spec fn log_device(self) -> Seq<char> {
        if self.selected < self.devices@.len() {
            self.devices@[self.selected as int].name@
        } else {
            "(none)"@
        }
    }

    /// The name of the device whose log is shown.
    pub fn log_name(&self) -> (r: &str)
        ensures
            r@ == self.log_device(),
    {
        if self.selected < self.devices.len() {
            self.devices[self.selected].name.as_str()
        } else {
            "(none)"
        }
    }

    /// Whether the log that is shown changed a short time ago.
    pub open spec fn log_is_recent(self, now_ns: u64) -> bool {
        &&& self.log_last_change@.contains_key(self.log_device())
        &&& time_since(now_ns, self.log_last_change@[self.log_device()]) <= LOG_RECENT_WINDOW_NS
    }

    /// The lines of the log that is shown; none where one of them would be cut within a character.
    pub open spec fn log_lines(self, now_ns: u64) -> Option<Seq<LineModel>> {
        let log = self.cached_log(self.log_device());
        if log.len() == 0 {
            Some(seq![single("(no output)"@, of_color(Color::DarkGray))])
        } else if !self.log_is_recent(now_ns) {
            Some(seq![single("(no recent output)"@, of_color(Color::DarkGray))])
        } else if can_be_shown(log) {
            Some(log.map_values(|l: Seq<char>| single(log_line(l)->0, plain())))
        } else {
            None
        }
    }

    /// The panel of the log of the selected device.
    pub fn log_preview(&self, now_ns: u64) -> (r: Option<Vec<StyledLine>>)
        ensures
            match r {
                Some(lines) => self.log_lines(now_ns) == Some(lines_of(lines@)),
                None => self.log_lines(now_ns) is None,
            },
    {
        let name: &str = self.log_name();
        let mut lines: Vec<StyledLine> = Vec::new();
        let log: &Vec<String> = match self.log_cache.get(name) {
            Some(log) => log,
            None => {
                lines.push(one_piece(colored("(no output)", Color::DarkGray)));
                assert(lines_of(lines@) =~= seq![single("(no output)"@, of_color(Color::DarkGray))]);
                return Some(lines);
            },
        };
        if log.len() == 0 {
            lines.push(one_piece(colored("(no output)", Color::DarkGray)));
            assert(lines_of(lines@) =~= seq![single("(no output)"@, of_color(Color::DarkGray))]);
            return Some(lines);
        }
        let recent: bool = match self.log_last_change.get(name) {
            Some(t) => now_ns.saturating_sub(*t) <= LOG_RECENT_WINDOW_NS,
            None => false,
        };
        if !recent {
            lines.push(one_piece(colored("(no recent output)", Color::DarkGray)));
            assert(lines_of(lines@) =~= seq![
                single("(no recent output)"@, of_color(Color::DarkGray)),
            ]);
            return Some(lines);
        }
        let ghost whole = texts(log@);
        let ghost shown = whole.map_values(|l: Seq<char>| single(log_line(l)->0, plain()));
        let n: usize = log.len();
        let mut i: usize = 0;
        while i < n
            invariant
                n == log@.len(),
                i <= n,
                n > 0,
                whole == texts(log@),
                whole == self.cached_log(self.log_device()),
                self.log_is_recent(now_ns),
                shown == whole.map_values(|l: Seq<char>| single(log_line(l)->0, plain())),
                lines_of(lines@) == shown.take(i as int),
                forall|k: int| 0 <= k < i ==> log_line(#[trigger] whole[k]) is Some,
            decreases n - i,
        {
            match write_log_line(&log[i]) {
                Some(text) => {
                    push_line(&mut lines, one_piece(raw(text.as_str())));
                },
                None => {
                    assert(log_line(whole[i as int]) is None);
                    return None;
                },
            }
            i = i + 1;
            assert(lines_of(lines@) =~= shown.take(i as int));
        }
        assert(shown.take(n as int) =~= shown);
        Some(lines)
    }
}

// ── Recorder ────────────────────────────────────────────────────────

/// The mark of a recording, and its colour.
pub open spec fn state_mark(state: Seq<char>) -> (Seq<char>, Color) {
    if state == "recording"@ {
        ("●"@, Color::Green)
    } else if state == "starting"@ || state == "stopping"@ {
        ("◐"@, Color::Yellow)
    } else {
        ("○"@, Color::DarkGray)
    }
}

/// The mark of a device of a recording, and its colour. One that is done is full while the
/// recording is under way.
pub open spec fn device_state_mark(state: Seq<char>, active: bool) -> (Seq<char>, Color) {
    if state == "running"@ || (state == "done"@ && active) {
        ("●"@, Color::Green)
    } else if state == "pending"@ {
        ("◐"@, Color::Yellow)
    } else if state == "failed"@ {
        ("✕"@, Color::Red)
    } else {
        ("○"@, Color::DarkGray)
    }
}

/// The line of a device of a recording.
pub open spec fn recorded_device_line(name: Seq<char>, state: Seq<char>, active: bool) -> LineModel {
    let mark = device_state_mark(state, active);
    line_of(
        seq![
            styled("  "@ + mark.0 + " "@, of_color(mark.1)),
            styled(left_aligned(name, 14) + " "@, plain()),
            styled(state, of_color(mark.1)),
        ],
    )
}

/// The lines of the devices of a recording.
pub open spec fn recorded_device_lines(rec: RecordingInfo) -> Seq<LineModel> {
    Seq::new(
        rec.devices.names().len(),
        |i: int|
            recorded_device_line(
                rec.devices.names()[i],
                rec.devices@[rec.devices.names()[i]]@,
                is_recording_now(Some(rec)),
            ),
    )
}

/// The lines of a recording that has not ended, with the given short name.
pub open spec fn recording_lines(rec: RecordingInfo, id: Seq<char>, elapsed: Seq<char>) -> Seq<LineModel> {
    let mark = state_mark(rec.state@);
    seq![
        line_of(
            seq![
                styled(" "@ + mark.0 + " "@, of_color(mark.1)),
                styled(rec.state@, bold(mark.1)),
            ],
        ),
        single("  Session: "@ + id, plain()),
        single(
            "  Time: "@ + elapsed + "s  Msgs: "@ + decimal_text(
                match rec.mcap_message_count {
                    Some(n) => n as nat,
                    None => 0,
                },
            ),
            plain(),
        ),
        line_of(
            seq![styled("  Dir: "@, plain()), styled(rec.output_dir@, of_color(Color::DarkGray))],
        ),
        single("  ─────────────────────"@, of_color(Color::DarkGray)),
    ] + recorded_device_lines(rec)
}

fn mark_of_state(state: &str) -> (r: (&'static str, Color))
    ensures
        (r.0@, r.1) == state_mark(state@),
{
    if str_eq(state, "recording") {
        ("●", Color::Green)
    } else if str_eq(state, "starting") || str_eq(state, "stopping") {
        ("◐", Color::Yellow)
    } else {
        ("○", Color::DarkGray)
    }
}

fn mark_of_device_state(state: &str, active: bool) -> (r: (&'static str, Color))
    ensures
        (r.0@, r.1) == device_state_mark(state@, active),
{
    if str_eq(state, "running") || (str_eq(state, "done") && active) {
        ("●", Color::Green)
    } else if str_eq(state, "pending") {
        ("◐", Color::Yellow)
    } else if str_eq(state, "failed") {
        ("✕", Color::Red)
    } else {
        ("○", Color::DarkGray)
    }
}

fn write_recorded_device_line(name: &str, state: &str, active: bool) -> (r: StyledLine)
    ensures
        r@ == recorded_device_line(name@, state@, active),
{
    let (mark, color): (&'static str, Color) = mark_of_device_state(state, active);
    let mut first: String = owned("  ");
    first.append(mark);
    first.append(" ");
    let mut second: String = align_left(name, 14);
    second.append(" ");
    let mut list: Vec<Piece> = Vec::new();
    list.push(colored(first.as_str(), color));
    list.push(raw(second.as_str()));
    list.push(colored(state, color));
    assert(pieces(list@) =~= recorded_device_line(name@, state@, active).pieces);
    plain_line(list)
}

impl App {
    /// Whether there is a recording that has not ended.
    pub open spec fn shows_recording(self) -> bool {
        self.recording matches Some(rec) && rec.state@ != "stopped"@ && rec.state@ != "failed"@
    }

    /// The lines on the recording; none where the first bytes of its name end within a character.
    pub open spec fn recorder_lines(self, elapsed: Seq<char>) -> Option<Seq<LineModel>> {
        if self.shows_recording() {
            match cut_at(self.recording->0.session_id@, 8) {
                Some(id) => Some(recording_lines(self.recording->0, id, elapsed)),
                None => None,
            }
        } else {
            Some(seq![single("  (no active recording)"@, of_color(Color::DarkGray))])
        }
    }

    /// The panel of the recording. The seconds since its start come as text.
    pub fn recorder_panel(&self, elapsed: &str) -> (r: Option<Vec<StyledLine>>)
        ensures
            match r {
                Some(lines) => self.recorder_lines(elapsed@) == Some(lines_of(lines@)),
                None => self.recorder_lines(elapsed@) is None,
            },
    {
        let mut lines: Vec<StyledLine> = Vec::new();
        let rec: &RecordingInfo = match &self.recording {
            Some(rec) if !str_eq(rec.state.as_str(), "stopped") && !str_eq(
                rec.state.as_str(),
                "failed",
            ) => rec,
            _ => {
                lines.push(one_piece(colored("  (no active recording)", Color::DarkGray)));
                assert(lines_of(lines@) =~= seq![
                    single("  (no active recording)"@, of_color(Color::DarkGray)),
                ]);
                return Some(lines);
            },
        };
        let id: String = match cut(rec.session_id.as_str(), 8) {
            Some(id) => id,
            None => {
                return None;
            },
        };
        let (mark, color): (&'static str, Color) = mark_of_state(rec.state.as_str());
        let mut first: String = owned(" ");
        first.append(mark);
        first.append(" ");
        lines.push(
            two_pieces(
                colored(first.as_str(), color),
                Piece { text: rec.state.clone(), style: style(Some(color), None, true) },
            ),
        );
        let mut session: String = owned("  Session: ");
        session.append(id.as_str());
        lines.push(one_piece(raw(session.as_str())));
        let messages: u64 = match rec.mcap_message_count {
            Some(n) => n,
            None => 0,
        };
        let mut time: String = owned("  Time: ");
        time.append(elapsed);
        time.append("s  Msgs: ");
        time.append(decimal(messages).as_str());
        lines.push(one_piece(raw(time.as_str())));
        lines.push(two_pieces(raw("  Dir: "), colored(rec.output_dir.as_str(), Color::DarkGray)));
        lines.push(one_piece(colored("  ─────────────────────", Color::DarkGray)));
        let ghost device_lines = recorded_device_lines(*rec);
        let ghost head = recording_lines(*rec, id@, elapsed@).take(5);
        assert(lines_of(lines@) =~= head + device_lines.take(0));
        let active: bool = recording_now(&self.recording);
        let n: usize = rec.devices.len();
        let mut i: usize = 0;
        while i < n
            invariant
                n == rec.devices.names().len(),
                i <= n,
                active == is_recording_now(Some(*rec)),
                device_lines == recorded_device_lines(*rec),
                lines_of(lines@) == head + device_lines.take(i as int),
            decreases n - i,
        {
            push_line(
                &mut lines,
                write_recorded_device_line(
                    rec.devices.name_at(i).as_str(),
                    rec.devices.value_at(i).as_str(),
                    active,
                ),
            );
            i = i + 1;
            assert(lines_of(lines@) =~= head + device_lines.take(i as int));
        }
        assert(lines_of(lines@) =~= recording_lines(*rec, id@, elapsed@));
        Some(lines)
    }
}

// ── Replay ──────────────────────────────────────────────────────────

/// The panel of the replay.
pub struct ReplayPanel {
    pub title: &'static str,
    pub border: Option<Color>,
    pub lines: Vec<StyledLine>,
}

/// Texts that the panel of the replay shows.
pub struct ReplayTexts {
    /// For each recording its seconds, if they are known.
    pub durations: Vec<Option<String>>,
    /// How much of the replay is over, in hundredths.
    pub percent: String,
    /// The seconds that are over.
    pub elapsed: String,
    /// The seconds of the whole recording.
    pub total: String,
}

/// The first recording that is visible.
pub open spec fn first_visible(selected: nat, visible: nat) -> nat {
    if visible == 0 {
        selected
    } else if selected + 1 > visible {
        (selected + 1 - visible) as nat
    } else {
        0
    }
}

/// The line of a recording; none where the first bytes of its name end within a character.
pub open spec fn recording_choice(
    session_id: Seq<char>,
    duration: Option<String>,
    selected: bool,
) -> Option<LineModel> {
    match cut_at(session_id, 12) {
        Some(id) => Some(
            single(
                " "@ + id + " ("@ + (match duration {
                    Some(d) => d@ + "s"@,
                    None => "?"@,
                }) + ")"@,
                selected_style(selected),
            ),
        ),
        None => None,
    }
}

fn write_recording_choice(session_id: &str, duration: &Option<String>, selected: bool) -> (r: Option<
    StyledLine,
>)
    ensures
        match r {
            Some(line) => recording_choice(session_id@, *duration, selected) == Some(line@),
            None => recording_choice(session_id@, *duration, selected) is None,
        },
{
    let id: String = match cut(session_id, 12) {
        Some(id) => id,
        None => {
            return None;
        },
    };
    let mut seconds: String = owned("?");
    if let Some(d) = duration {
        seconds = d.clone();
        seconds.append("s");
    }
    let mut text: String = owned(" ");
    text.append(id.as_str());
    text.append(" (");
    text.append(seconds.as_str());
    text.append(")");
    Some(
        one_piece(
            Piece {
                text,
                style: style(
                    None,
                    if selected {
                        Some(Color::DarkGray)
                    } else {
                        None
                    },
                    false,
                ),
            },
        ),
    )
}

impl App {
    /// The line of the recording at a position.
    pub open spec fn choice_at(self, durations: Seq<Option<String>>, i: int) -> Option<LineModel> {
        recording_choice(
            self.replay_recordings@[i].session_id@,
            durations[i],
            i == self.replay_selected,
        )
    }

    /// How many recordings are visible where there is room for `room` lines.
    pub open spec fn visible_choices(self, room: nat) -> nat {
        let start = first_visible(self.replay_selected as nat, room);
        if start >= self.replay_recordings@.len() {
            0
        } else if self.replay_recordings@.len() - start < room {
            (self.replay_recordings@.len() - start) as nat
        } else {
            room
        }
    }

    /// Whether every visible recording can be shown.
    pub open spec fn choices_can_be_shown(self, room: nat, durations: Seq<Option<String>>) -> bool {
        let start = first_visible(self.replay_selected as nat, room) as int;
        forall|i: int|
            start <= i < start + self.visible_choices(room) ==> #[trigger] self.choice_at(
                durations,
                i,
            ) is Some
    }

    /// The lines of the visible recordings.
    pub open spec fn choices(self, room: nat, durations: Seq<Option<String>>) -> Seq<LineModel> {
        let start = first_visible(self.replay_selected as nat, room) as int;
        Seq::new(self.visible_choices(room), |k: int| self.choice_at(durations, start + k)->0)
    }

    /// The lines on the replay; none where a name would be cut within a character.
    pub open spec fn replay_lines(self, room: nat, shown: ReplayTexts) -> Option<Seq<LineModel>> {
        if self.mode == AppMode::Replay {
            if self.replay_recordings@.len() == 0 {
                Some(seq![single("  (no recordings found)"@, of_color(Color::DarkGray))])
            } else if self.choices_can_be_shown(room, shown.durations@) {
                Some(self.choices(room, shown.durations@))
            } else {
                None
            }
        } else if is_replaying(self.replay_status) {
            match cut_at(replayed_session(self.replay_status->0), 12) {
                Some(id) => Some(
                    seq![
                        line_of(
                            seq![
                                styled(" \u{25b6} "@, of_color(Color::Magenta)),
                                styled(
                                    if self.replay_status->0.state == ReplayState::Starting {
                                        "starting"@
                                    } else {
                                        "playing"@
                                    },
                                    bold(Color::Magenta),
                                ),
                            ],
                        ),
                        single("  Session: "@ + id, plain()),
                        single(
                            "  "@ + shown.percent@ + "% | "@ + shown.elapsed@ + "s / "@ + shown.total@
                                + "s"@,
                            plain(),
                        ),
                    ],
                ),
                None => None,
            }
        } else {
            Some(seq![single("  (idle)"@, of_color(Color::DarkGray))])
        }
    }

    fn write_choices(&self, room: usize, durations: &Vec<Option<String>>) -> (r: Option<
        Vec<StyledLine>,
    >)
        requires
            durations@.len() == self.replay_recordings@.len(),
        ensures
            match r {
                Some(lines) => self.choices_can_be_shown(room as nat, durations@) && lines_of(lines@)
                    == self.choices(room as nat, durations@),
                None => !self.choices_can_be_shown(room as nat, durations@),
            },
    {
        let n: usize = self.replay_recordings.len();
        let start: usize = self.replay_selected.saturating_sub(room.saturating_sub(1));
        assert(start == first_visible(self.replay_selected as nat, room as nat));
        let count: usize = if start >= n {
            0
        } else if n - start < room {
            n - start
        } else {
            room
        };
        let ghost all = self.choices(room as nat, durations@);
        let mut lines: Vec<StyledLine> = Vec::new();
        let mut k: usize = 0;
        assert(lines_of(lines@) =~= all.take(0));
        while k < count
            invariant
                n == self.replay_recordings@.len(),
                n == durations@.len(),
                k <= count,
                count == self.visible_choices(room as nat),
                start == first_visible(self.replay_selected as nat, room as nat),
                count == 0 || start + count <= n,
                all == self.choices(room as nat, durations@),
                lines_of(lines@) == all.take(k as int),
                forall|i: int|
                    start <= i < start + k ==> #[trigger] self.choice_at(durations@, i) is Some,
            decreases count - k,
        {
            let i: usize = start + k;
            match write_recording_choice(
                self.replay_recordings[i].session_id.as_str(),
                &durations[i],
                i == self.replay_selected,
            ) {
                Some(line) => {
                    assert(self.choice_at(durations@, i as int) == Some(line@));
                    push_line(&mut lines, line);
                },
                None => {
                    assert(self.choice_at(durations@, i as int) is None);
                    return None;
                },
            }
            k = k + 1;
            assert(lines_of(lines@) =~= all.take(k as int));
        }
        assert(all.take(count as int) =~= all);
        Some(lines)
    }

    /// The panel of the replay, with room for `room` lines.
    pub fn replay_panel(&self, room: usize, shown: &ReplayTexts) -> (r: Option<ReplayPanel>)
        requires
            shown.durations@.len() == self.replay_recordings@.len(),
        ensures
            match r {
                Some(panel) => {
                    &&& self.replay_lines(room as nat, *shown) == Some(lines_of(panel.lines@))
                    &&& panel.title@ == (if self.mode == AppMode::Replay {
                        " Replay (SELECT) "@
                    } else {
                        " Replay "@
                    })
                    &&& panel.border == (if self.mode == AppMode::Replay {
                        Some(Color::Magenta)
                    } else {
                        None
                    })
                },
                None => self.replay_lines(room as nat, *shown) is None,
            },
    {
        let mut lines: Vec<StyledLine> = Vec::new();
        if matches!(self.mode, AppMode::Replay) {
            if self.replay_recordings.len() == 0 {
                lines.push(one_piece(colored("  (no recordings found)", Color::DarkGray)));
                assert(lines_of(lines@) =~= seq![
                    single("  (no recordings found)"@, of_color(Color::DarkGray)),
                ]);
            } else {
                lines = match self.write_choices(room, &shown.durations) {
                    Some(lines) => lines,
                    None => {
                        return None;
                    },
                };
            }
            return Some(
                ReplayPanel { title: " Replay (SELECT) ", border: Some(Color::Magenta), lines },
            );
        }
        match &self.replay_status {
            Some(status) if replaying(&self.replay_status) => {
                let id: String = match cut(session_of(status), 12) {
                    Some(id) => id,
                    None => {
                        return None;
                    },
                };
                let state: &str = match status.state {
                    ReplayState::Starting => "starting",
                    _ => "playing",
                };
                lines.push(
                    two_pieces(
                        colored(" \u{25b6} ", Color::Magenta),
                        Piece { text: owned(state), style: style(Some(Color::Magenta), None, true) },
                    ),
                );
                let mut session: String = owned("  Session: ");
                session.append(id.as_str());
                lines.push(one_piece(raw(session.as_str())));
                let mut times: String = owned("  ");
                times.append(shown.percent.as_str());
                times.append("% | ");
                times.append(shown.elapsed.as_str());
                times.append("s / ");
                times.append(shown.total.as_str());
                times.append("s");
                lines.push(one_piece(raw(times.as_str())));
                assert(lines_of(lines@) =~= self.replay_lines(room as nat, *shown)->0);
            },
            _ => {
                lines.push(one_piece(colored("  (idle)", Color::DarkGray)));
                assert(lines_of(lines@) =~= seq![single("  (idle)"@, of_color(Color::DarkGray))]);
            },
        }
        Some(ReplayPanel { title: " Replay ", border: None, lines })
    }
}

/// The selected recording is always visible, where there is room for a line.
pub proof fn the_selection_is_visible(app: App, room: nat)
    requires
        room > 0,
        app.replay_selected < app.replay_recordings@.len(),
    ensures
        first_visible(app.replay_selected as nat, room) <= app.replay_selected < first_visible(
            app.replay_selected as nat,
            room,
        ) + app.visible_choices(room),
{
}

/// The names of sessions can always be cut, and so can be shown.
pub proof fn session_ids_can_be_shown(id: Seq<char>, bytes: nat)
    requires
        is_session_id(id),
    ensures
        cut_at(id, bytes) == Some(if id.len() <= bytes {
            id
        } else {
            id.take(bytes as int)
        }),
{
    ascii_can_be_cut(id, bytes);
}

// ── What stands where ───────────────────────────────────────────────

/// Lines and pieces stand for their texts and styles, one for one.
pub proof fn lines_stand_for_their_pieces(lines: Seq<StyledLine>, i: int, j: int)
    requires
        0 <= i < lines.len(),
    ensures
        lines_of(lines).len() == lines.len(),
        lines_of(lines)[i].style == lines[i].style,
        lines_of(lines)[i].pieces.len() == lines[i].pieces@.len(),
        0 <= j < lines[i].pieces@.len() ==> lines_of(lines)[i].pieces[j].text
            == lines[i].pieces@[j].text@ && lines_of(lines)[i].pieces[j].style
            == lines[i].pieces@[j].style,
{
}

/// The styles: without anything, in a colour, bold, in white on a colour, and selected.
pub proof fn styles_are_what_they_are_named(color: Color, text: Seq<char>, list: Seq<PieceModel>)
    ensures
        plain() == (Style { fg: None, bg: None, bold: false }),
        of_color(color) == (Style { fg: Some(color), bg: None, bold: false }),
        bold(color) == (Style { fg: Some(color), bg: None, bold: true }),
        on_color(color) == (Style { fg: Some(Color::White), bg: Some(color), bold: false }),
        selected_style(true) == (Style { fg: None, bg: Some(Color::DarkGray), bold: false }),
        selected_style(false) == plain(),
        styled(text, plain()).text == text,
        styled(text, bold(color)).style == bold(color),
        line_of(list).pieces == list,
        line_of(list).style == plain(),
        single(text, bold(color)).pieces == seq![styled(text, bold(color))],
        single(text, bold(color)).style == plain(),
{
}

/// The header names the interface and shows the mask in eight hexadecimal digits, and how often it is
/// published where it is.
pub proof fn headers_show_the_mask(app: App, freq: Seq<char>)
    ensures
        ({
            let title = app.title_pieces(freq);
            &&& title.len() == 4
            &&& title[0].text == " RAPID Hardware Mask Monitor "@
            &&& title[1].text == " | Mask: "@
            &&& title[2].text == hex8(app.current_mask as nat)
            &&& app.mask_enabled ==> title[3].text == " | "@ + freq + " Hz"@
            &&& !app.mask_enabled ==> title[3].text == ""@
        }),
{
}

/// The header shows the recording that is under way by its session, in white on red, and nothing
/// without one; the replay that is under way by the start of its session, in white on magenta.
pub proof fn headers_show_what_is_under_way(app: App)
    ensures
        !is_recording_now(app.recording) ==> app.recording_pieces().len() == 0,
        is_recording_now(app.recording) ==> app.recording_pieces().len() == 2
            && app.recording_pieces()[1].text == " REC "@ + app.recording->0.session_id@ + " "@
            && app.recording_pieces()[1].style == on_color(Color::Red),
        !is_replaying(app.replay_status) ==> app.replay_pieces() is Some && app.replay_pieces()->0.len()
            == 0,
        is_replaying(app.replay_status) ==> (cut_at(replayed_session(app.replay_status->0), 8)
            matches Some(id) ==> app.replay_pieces() is Some && app.replay_pieces()->0.len() == 2 && (
        app.replay_pieces()->0)[1].text == " \u{25b6} REPLAY "@ + id + " "@ && (
        app.replay_pieces()->0)[1].style == on_color(Color::Magenta)),
        app.replay_status matches Some(s) ==> (s.session_id matches Some(id) ==> replayed_session(s)
            == id@),
        app.replay_status matches Some(s) ==> (s.session_id is None ==> replayed_session(s) == "?"@),
{
}

/// The footer tells what the keys do, and behind it the path that is typed or the message that is
/// shown.
pub proof fn footers_tell_what_keys_do(app: App, now_ns: u64)
    ensures
        app.mode == AppMode::Monitor ==> app.help_text()
            == "[q]uit [s/Enter]restart [r]eorder [e]xport [i]mport [R]ec [P]replay [↑↓]select"@,
        app.mode == AppMode::Reorder ==> app.help_text() == "[↑↓]move [Enter]save [Esc]cancel"@,
        app.mode == AppMode::Export ==> app.help_text() == "Enter path to export: "@,
        app.mode == AppMode::Import ==> app.help_text() == "Enter path to import: "@,
        app.mode == AppMode::Replay ==> app.help_text() == "[↑↓]select [Enter]start [Esc]back"@,
        app.mode == AppMode::Export || app.mode == AppMode::Import ==> app.footer_text(now_ns)
            == app.help_text() + app.input_buffer@,
        app.mode != AppMode::Export && app.mode != AppMode::Import ==> (app.shown_status(now_ns)
            matches Some(s) ==> app.footer_text(now_ns) == app.help_text() + " | "@ + s),
        app.mode != AppMode::Export && app.mode != AppMode::Import && app.shown_status(now_ns) is None
            ==> app.footer_text(now_ns) == app.help_text(),
{
}

/// A device that can be used has a full green mark, one that runs or was found a half yellow one, and
/// any other an empty red one.
pub proof fn devices_are_marked(d: DeviceStatus)
    ensures
        is_available(d) ==> device_mark(d) == styled("●"@, of_color(Color::Green)),
        !is_available(d) && (d.process_running || d.discovered) ==> device_mark(d) == styled(
            "◐"@,
            of_color(Color::Yellow),
        ),
        !is_available(d) && !d.process_running && !d.discovered ==> device_mark(d) == styled(
            "○"@,
            of_color(Color::Red),
        ),
        d.backend@ == "mdns"@ ==> backend_tag(d) == styled("[m]"@, of_color(Color::Magenta)),
        d.backend@ != "mdns"@ ==> backend_tag(d) == styled("[u]"@, of_color(Color::Blue)),
        d.pid matches Some(p) ==> pid_text(d.pid) == "PID:"@ + decimal_text(p as nat),
        d.pid is None ==> pid_text(d.pid) == "-"@,
{
}

/// Each device has a line with its bit, mark, backend, name and process, in their order; that of the
/// selected one is set apart.
pub proof fn devices_have_their_lines(app: App, i: int)
    requires
        0 <= i < app.devices@.len(),
    ensures
        app.device_lines().len() == app.devices@.len(),
        ({
            let line = app.device_lines()[i];
            let d = app.devices@[i];
            &&& line.pieces.len() == 6
            &&& line.pieces[0].text == "["@ + right_aligned(decimal_text(d.bit_index as nat), 2, ' ')
                + "] "@
            &&& line.pieces[1] == device_mark(d)
            &&& line.pieces[3] == backend_tag(d)
            &&& line.pieces[4].text == " "@ + left_aligned(d.name@, 14) + " "@
            &&& line.pieces[5].text == pid_text(d.pid)
            &&& i == app.selected ==> line.style.bg == Some(Color::DarkGray)
            &&& i != app.selected ==> line.style == plain()
        }),
{
}

/// Each of the first bits has its mark, full and green where it is set, with a space between each
/// two.
pub proof fn bits_have_their_marks(mask: u64, count: nat, k: nat)
    requires
        k < count <= 64,
    ensures
        bit_marks(mask, count).len() == 2 * count - 1,
        has_bit(mask, k as u64) ==> bit_marks(mask, count)[2 * k as int] == styled(
            "■"@,
            of_color(Color::Green),
        ),
        !has_bit(mask, k as u64) ==> bit_marks(mask, count)[2 * k as int] == styled(
            "□"@,
            of_color(Color::DarkGray),
        ),
        bit_marks(mask, 0).len() == 0,
    decreases count,
{
    if count > 1 {
        let less = (count - 1) as nat;
        if k < less {
            bits_have_their_marks(mask, less, k);
        } else {
            bits_have_their_marks(mask, less, 0);
        }
    }
}

/// The numbers of the bits stand one behind the other, from zero on.
pub proof fn bits_are_numbered(count: nat)
    ensures
        bit_numbers(0).len() == 0,
        bit_numbers(count + 1) == bit_numbers(count) + decimal_text(count) + " "@,
{
}

/// The panel of the mask shows its lowest eight bits in binary, marks for up to eight devices, all
/// of it in sixteen hexadecimal digits, the sequence number, and how often it is published.
pub proof fn masks_are_shown_in_a_panel(app: App, freq: Seq<char>)
    ensures
        app.devices@.len() <= 8 ==> app.marked_bits() == app.devices@.len(),
        app.devices@.len() > 8 ==> app.marked_bits() == 8,
        ({
            let lines = app.mask_lines(freq);
            &&& lines.len() == 5
            &&& lines[0].pieces[0].text.take(2) == "0b"@
            &&& base_value(lines[0].pieces[0].text.skip(2), 2) == app.current_mask % 256
            &&& lines[0].pieces.skip(2) == bit_marks(app.current_mask, app.marked_bits())
            &&& lines[1].pieces[0].text == "           "@ + bit_numbers(app.marked_bits())
            &&& lines[2].pieces[0].text == ""@
            &&& lines[3].pieces[0].text == "Hex: "@ + hex16(app.current_mask as nat)
            &&& lines[4].pieces[0].text == "Seq: "@ + decimal_text(app.sequence as nat) + "  Freq: "@
                + freq + " Hz"@
        }),
{
    reveal_strlit("0b");
    reveal_strlit("0x");
    reveal_strlit("Hex: 0x");
    reveal_strlit("Hex: ");
    let low = (app.current_mask % 256) as nat;
    let lines = app.mask_lines(freq);
    let digits = right_aligned(in_base(low, 2), 8, '0');
    numbers_are_written_in_their_base(low, 2);
    zeros_in_front_change_nothing(in_base(low, 2), 8, 2);
    assert(lines[0].pieces[0].text == "0b"@ + digits);
    assert(("0b"@ + digits).skip(2) =~= digits);
    assert(("0b"@ + digits).take(2) =~= "0b"@);
    assert(lines[0].pieces.skip(2) =~= bit_marks(app.current_mask, app.marked_bits()));
    assert("Hex: "@ + "0x"@ =~= "Hex: 0x"@);
    assert(lines[3].pieces[0].text =~= "Hex: "@ + hex16(app.current_mask as nat));
}

/// A line of a log of up to eighty bytes is shown whole, and a longer one by its first seventy-seven
/// and three dots.
pub proof fn long_lines_are_cut(line: Seq<char>)
    ensures
        byte_len(line) <= 80 ==> log_line(line) == Some(line),
        byte_len(line) > 80 ==> (cut_at(line, 77) matches Some(start) ==> log_line(line) == Some(
            start + "..."@,
        )),
        byte_len(line) > 80 && cut_at(line, 77) is None ==> log_line(line) is None,
{
}

/// The log of the selected device is shown for twelve seconds after it has changed; else it is told
/// that there is none, or none of late.
pub proof fn logs_are_shown_while_recent(app: App, now_ns: u64, i: int)
    ensures
        app.selected < app.devices@.len() ==> app.log_device()
            == app.devices@[app.selected as int].name@,
        app.selected >= app.devices@.len() ==> app.log_device() == "(none)"@,
        ({
            let log = app.cached_log(app.log_device());
            let changed = app.log_last_change@;
            let name = app.log_device();
            &&& changed.contains_key(name) && changed[name] <= now_ns ==> (app.log_is_recent(now_ns)
                <==> now_ns - changed[name] <= 12 * 1000 * 1000 * 1000)
            &&& !changed.contains_key(name) ==> !app.log_is_recent(now_ns)
            &&& log.len() == 0 ==> app.log_lines(now_ns) == Some(
                seq![single("(no output)"@, of_color(Color::DarkGray))],
            )
            &&& log.len() > 0 && !app.log_is_recent(now_ns) ==> app.log_lines(now_ns) == Some(
                seq![single("(no recent output)"@, of_color(Color::DarkGray))],
            )
            &&& log.len() > 0 && app.log_is_recent(now_ns) && app.log_lines(now_ns) is Some && 0 <= i
                < log.len() ==> {
                let lines = app.log_lines(now_ns)->0;
                lines.len() == log.len() && Some(lines[i].pieces[0].text) == log_line(log[i])
            }
            &&& log.len() > 0 && app.log_is_recent(now_ns) && (forall|k: int|
                0 <= k < log.len() ==> log_line(#[trigger] log[k]) is Some) ==> app.log_lines(
                now_ns,
            ) is Some
        }),
{
}

/// A recording has a full green mark while it records, a half yellow one while it starts or stops,
/// and an empty one else.
pub proof fn recordings_are_marked(state: Seq<char>)
    ensures
        state_mark("recording"@) == ("●"@, Color::Green),
        state_mark("starting"@) == ("◐"@, Color::Yellow),
        state_mark("stopping"@) == ("◐"@, Color::Yellow),
        state != "recording"@ && state != "starting"@ && state != "stopping"@ ==> state_mark(state) == (
            "○"@,
            Color::DarkGray,
        ),
{
    reveal_strlit("recording");
    reveal_strlit("starting");
    reveal_strlit("stopping");
    assert("recording"@[0] == 'r' && "starting"@[0] == 's' && "stopping"@[0] == 's');
}

/// A device of a recording has a full mark while its command runs, and once it is done for as long as
/// the recording is under way; a half one before, a cross where it failed, and an empty one else.
pub proof fn recorded_devices_are_marked(state: Seq<char>, active: bool)
    ensures
        device_state_mark("running"@, active) == ("●"@, Color::Green),
        device_state_mark("done"@, true) == ("●"@, Color::Green),
        device_state_mark("done"@, false) == ("○"@, Color::DarkGray),
        device_state_mark("pending"@, active) == ("◐"@, Color::Yellow),
        device_state_mark("failed"@, active) == ("✕"@, Color::Red),
        state != "running"@ && state != "done"@ && state != "pending"@ && state != "failed"@
            ==> device_state_mark(state, active) == ("○"@, Color::DarkGray),
{
    reveal_strlit("running");
    reveal_strlit("done");
    reveal_strlit("pending");
    reveal_strlit("failed");
    assert("running"@[0] == 'r' && "done"@[0] == 'd' && "pending"@[0] == 'p' && "failed"@[0] == 'f');
}

/// A recording that has not ended is shown by its state, session, time, number of messages and
/// directory, and then by its devices, each by its name and state.
pub proof fn recordings_are_shown_in_a_panel(rec: RecordingInfo, id: Seq<char>, elapsed: Seq<char>, i: int)
    ensures
        ({
            let lines = recording_lines(rec, id, elapsed);
            let count = match rec.mcap_message_count {
                Some(n) => n as nat,
                None => 0nat,
            };
            &&& lines.len() == 5 + rec.devices.names().len()
            &&& lines[0].pieces[0].text == " "@ + state_mark(rec.state@).0 + " "@
            &&& lines[0].pieces[1].text == rec.state@
            &&& lines[1].pieces[0].text == "  Session: "@ + id
            &&& lines[2].pieces[0].text == "  Time: "@ + elapsed + "s  Msgs: "@ + decimal_text(count)
            &&& lines[3].pieces[0].text == "  Dir: "@
            &&& lines[3].pieces[1].text == rec.output_dir@
            &&& lines[4] == single("  ─────────────────────"@, of_color(Color::DarkGray))
            &&& 0 <= i < rec.devices.names().len() ==> {
                let name = rec.devices.names()[i];
                let state = rec.devices@[name]@;
                let mark = device_state_mark(state, is_recording_now(Some(rec)));
                &&& lines[5 + i].pieces[0].text == "  "@ + mark.0 + " "@
                &&& lines[5 + i].pieces[0].style == of_color(mark.1)
                &&& lines[5 + i].pieces[1].text == left_aligned(name, 14) + " "@
                &&& lines[5 + i].pieces[2].text == state
            }
        }),
{
}

/// A recording is shown by the first eight bytes of its session until it has stopped or failed; then
/// it is told that there is none.
pub proof fn ended_recordings_are_not_shown(app: App, elapsed: Seq<char>)
    ensures
        app.shows_recording() <==> app.recording is Some && app.recording->0.state@ != "stopped"@
            && app.recording->0.state@ != "failed"@,
        !app.shows_recording() ==> app.recorder_lines(elapsed) == Some(
            seq![single("  (no active recording)"@, of_color(Color::DarkGray))],
        ),
        app.shows_recording() ==> (cut_at(app.recording->0.session_id@, 8) matches Some(id)
            ==> app.recorder_lines(elapsed) == Some(
            recording_lines(app.recording->0, id, elapsed),
        )),
        app.shows_recording() && cut_at(app.recording->0.session_id@, 8) is None
            ==> app.recorder_lines(elapsed) is None,
{
}

/// The list of recordings is moved up just as far as the selected one asks for: it starts with the
/// first while the selected one is visible so, and else the selected one is the last visible.
pub proof fn lists_move_with_the_selection(selected: nat, visible: nat)
    ensures
        selected < visible ==> first_visible(selected, visible) == 0,
        0 < visible <= selected ==> first_visible(selected, visible) + visible == selected + 1,
{
}

/// A recording to choose is shown by the first twelve bytes of its session and its seconds, if they
/// are known; the selected one is set apart.
pub proof fn recordings_to_choose_are_shown(session_id: Seq<char>, duration: Option<String>, selected: bool)
    ensures
        cut_at(session_id, 12) matches Some(id) ==> {
            &&& recording_choice(session_id, duration, selected) matches Some(line)
            &&& line.pieces.len() == 1
            &&& line.pieces[0].style == selected_style(selected)
            &&& duration matches Some(d) ==> line.pieces[0].text == " "@ + id + " ("@ + (d@ + "s"@)
                + ")"@
            &&& duration is None ==> line.pieces[0].text == " "@ + id + " ("@ + "?"@ + ")"@
        },
        cut_at(session_id, 12) is None ==> recording_choice(session_id, duration, selected) is None,
{
}

/// As many recordings are visible as there is room for, as far as there are so many; each stands in
/// its line.
pub proof fn visible_recordings_fill_the_room(app: App, room: nat, durations: Seq<Option<String>>, k: int)
    requires
        app.replay_selected < app.replay_recordings@.len(),
        room > 0,
    ensures
        ({
            let start = first_visible(app.replay_selected as nat, room);
            let n = app.replay_recordings@.len();
            &&& n - start < room ==> app.visible_choices(room) == n - start
            &&& n - start >= room ==> app.visible_choices(room) == room
            &&& app.choices(room, durations).len() == app.visible_choices(room)
            &&& 0 <= k < app.visible_choices(room) ==> app.choices(room, durations)[k]
                == recording_choice(
                app.replay_recordings@[start + k].session_id@,
                durations[start + k],
                start + k == app.replay_selected,
            )->0
        }),
{
}

/// While a recording is chosen the recordings are shown; else the replay that is under way, by its
/// state, session and times, or that there is none.
pub proof fn replays_are_shown_in_a_panel(app: App, room: nat, shown: ReplayTexts)
    ensures
        app.mode == AppMode::Replay && app.replay_recordings@.len() == 0 ==> app.replay_lines(room, shown)
            == Some(seq![single("  (no recordings found)"@, of_color(Color::DarkGray))]),
        app.mode == AppMode::Replay && app.replay_recordings@.len() > 0 && app.replay_lines(room, shown)
            is Some ==> app.replay_lines(room, shown)->0 == app.choices(room, shown.durations@),
        app.mode != AppMode::Replay && !is_replaying(app.replay_status) ==> app.replay_lines(room, shown)
            == Some(seq![single("  (idle)"@, of_color(Color::DarkGray))]),
        app.mode != AppMode::Replay && is_replaying(app.replay_status) ==> (cut_at(
            replayed_session(app.replay_status->0),
            12,
        ) matches Some(id) ==> {
            &&& app.replay_lines(room, shown) matches Some(lines)
            &&& lines.len() == 3
            &&& lines[0].pieces[1].text == (if app.replay_status->0.state == ReplayState::Starting {
                "starting"@
            } else {
                "playing"@
            })
            &&& lines[1].pieces[0].text == "  Session: "@ + id
            &&& lines[2].pieces[0].text == "  "@ + shown.percent@ + "% | "@ + shown.elapsed@ + "s / "@
                + shown.total@ + "s"@
        }),
{
}

/// All recordings that are visible are shown where each can be, and otherwise none.
pub proof fn recordings_are_shown_together(app: App, room: nat, durations: Seq<Option<String>>)
    ensures
        (forall|i: int|
            0 <= i < app.replay_recordings@.len() ==> #[trigger] app.choice_at(durations, i) is Some)
            ==> app.choices_can_be_shown(room, durations),
{
}

/// The list of devices says whether they are being put in order.
pub proof fn device_lists_say_what_is_done(app: &App, r: (&'static str, Option<Color>))
    requires
        call_ensures(App::device_title, (app,), r),
    ensures
        app.mode == AppMode::Reorder ==> r.0@ == " Devices (REORDER MODE) "@ && r.1 == Some(
            Color::Yellow,
        ),
        app.mode != AppMode::Reorder ==> r.0@ == " Devices "@ && r.1 is None,
{
}

} // verus!
