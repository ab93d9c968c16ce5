//! Terminal escape sequences as the web snapshot and the pane renderer handle
//! them: the extent of an escape sequence, the bytes that repaint a pane
//! snapshot in the browser, and the status-line justification option.

use vstd::prelude::*;

use crate::bytes::{bytes_eq, push_all};
use crate::text::{decimal, push_decimal};

verus! {

broadcast use vstd::utf8::group_utf8_lib;

/// Whether a byte ends a control sequence (`@` through `~`).
pub open spec fn is_final_byte(b: u8) -> bool {
    0x40 <= b && b <= 0x7e
}

/// Where an operating-system command that starts at `start` ends: just past
/// the first BEL, or past the first ESC `\`, found from `start + 2`; or the
/// end of the line.
pub open spec fn spec_osc_end(line: Seq<u8>, from: int) -> int
    decreases line.len() - from,
{
    if from >= line.len() {
        line.len() as int
    } else if line[from] == 0x07 {
        from + 1
    } else if line[from] == 0x1b && from + 1 < line.len() && line[from + 1] == 0x5c {
        from + 2
    } else {
        spec_osc_end(line, from + 1)
    }
}

/// Where a control sequence's parameters end: just past the first final
/// byte from `from`, or the end of the line.
pub open spec fn spec_csi_end(line: Seq<u8>, from: int) -> int
    decreases line.len() - from,
{
    if from >= line.len() {
        line.len() as int
    } else if is_final_byte(line[from]) {
        from + 1
    } else {
        spec_csi_end(line, from + 1)
    }
}

/// Where the escape sequence that starts at `start` ends.
pub open spec fn spec_ansi_end(line: Seq<u8>, start: int) -> int {
    if start + 1 >= line.len() {
        line.len() as int
    } else if line[start + 1] == 0x5b {
        spec_csi_end(line, start + 2)
    } else if line[start + 1] == 0x5d {
        spec_osc_end(line, start + 2)
    } else {
        start + 2
    }
}

/// Finds the end of an operating-system command starting at `start`.
pub fn osc_sequence_end(line: &[u8], start: usize) -> (end: usize)
    ensures
        end == spec_osc_end(line@, start as int + 2),
{
    let n = line.len();
    if start > usize::MAX - 2 {
        proof {
            lemma_osc_end_past(line@, start as int + 2);
        }
        return line.len();
    }
    let mut index = start + 2;
    while index < line.len()
        invariant
            spec_osc_end(line@, start as int + 2) == spec_osc_end(line@, index as int),
            index >= start + 2,
        decreases line@.len() - index,
    {
        if line[index] == 0x07 {
            return index + 1;
        }
        if line[index] == 0x1b && index + 1 < line.len() && line[index + 1] == 0x5c {
            return index + 2;
        }
        index = index + 1;
    }
    line.len()
}

/// Past the end of the line, the command ends at the end.
proof fn lemma_osc_end_past(line: Seq<u8>, from: int)
    requires
        from >= line.len(),
    ensures
        spec_osc_end(line, from) == line.len(),
{
}

/// Finds the end of the escape sequence starting at `start`.
pub fn ansi_sequence_end(line: &[u8], start: usize) -> (end: usize)
    ensures
        end == spec_ansi_end(line@, start as int),
{
    if start >= line.len() || start + 1 >= line.len() {
        return line.len();
    }
    let kind = line[start + 1];
    if kind == 0x5b {
        let mut index = start + 2;
        while index < line.len()
            invariant
                spec_csi_end(line@, start as int + 2) == spec_csi_end(line@, index as int),
                spec_ansi_end(line@, start as int) == spec_csi_end(line@, start as int + 2),
                index >= start + 2,
            decreases line@.len() - index,
        {
            if 0x40 <= line[index] && line[index] <= 0x7e {
                return index + 1;
            }
            index = index + 1;
        }
        line.len()
    } else if kind == 0x5d {
        osc_sequence_end(line, start)
    } else {
        start + 2
    }
}

/// Resets attributes, hides the cursor, clears the screen and homes.
pub const SNAPSHOT_PREAMBLE: [u8; 17] = [
    0x1b, 0x5b, 0x30, 0x6d, 0x1b, 0x5b, 0x3f, 0x32, 0x35, 0x6c, 0x1b, 0x5b, 0x32, 0x4a, 0x1b, 0x5b,
    0x48,
];
/// Resets attributes.
pub const SGR_RESET: [u8; 4] = [0x1b, 0x5b, 0x30, 0x6d];
/// Carriage return and line feed.
pub const CRLF: [u8; 2] = [0x0d, 0x0a];
/// Shows the cursor.
pub const CURSOR_SHOW: [u8; 6] = [0x1b, 0x5b, 0x3f, 0x32, 0x35, 0x68];
/// Hides the cursor.
pub const CURSOR_HIDE: [u8; 6] = [0x1b, 0x5b, 0x3f, 0x32, 0x35, 0x6c];

/// A pane's contents as the browser first paints them.
#[derive(Debug, Clone, PartialEq, Eq)]
pub struct WebPaneSnapshot {
    pub cols: u16,
    pub rows: u16,
    pub output_sequence: u64,
    pub ansi_lines: Vec<Vec<u8>>,
    pub cursor_row: u16,
    pub cursor_col: u16,
    pub cursor_visible: bool,
}

/// The lines of a snapshot, each after an attribute reset, separated by
/// CR LF.
pub open spec fn snapshot_lines(lines: Seq<Seq<u8>>) -> Seq<u8>
    decreases lines.len(),
{
    if lines.len() == 0 {
        Seq::empty()
    } else if lines.len() == 1 {
        SGR_RESET@ + lines[0]
    } else {
        snapshot_lines(lines.drop_last()) + CRLF@ + SGR_RESET@ + lines.last()
    }
}

/// A cursor coordinate, 1-based, held within the extent.
pub open spec fn cursor_coordinate(pos: u16, extent: u16) -> nat {
    let last: u16 = if extent >= 1 {
        (extent - 1) as u16
    } else {
        0
    };
    (if pos <= last {
        pos
    } else {
        last
    }) as nat + 1
}

/// The bytes that repaint a snapshot: the preamble, the lines, then an
/// attribute reset, the cursor position (row and column held within the
/// pane) and the cursor's visibility.
pub open spec fn spec_snapshot_bytes(
    lines: Seq<Seq<u8>>,
    cols: u16,
    rows: u16,
    cursor_row: u16,
    cursor_col: u16,
    visible: bool,
) -> Seq<u8> {
    SNAPSHOT_PREAMBLE@ + snapshot_lines(lines) + SGR_RESET@ + seq![0x1bu8, 0x5bu8] + decimal(
        cursor_coordinate(cursor_row, rows),
    ) + seq![0x3bu8] + decimal(cursor_coordinate(cursor_col, cols)) + seq![0x48u8] + (if visible {
        CURSOR_SHOW@
    } else {
        CURSOR_HIDE@
    })
}

/// A view of the snapshot's lines.
pub open spec fn lines_view(lines: Seq<Vec<u8>>) -> Seq<Seq<u8>> {
    lines.map_values(|l: Vec<u8>| l@)
}

impl WebPaneSnapshot {
    /// The bytes that repaint this snapshot in the browser.
    pub fn ansi_bytes(&self) -> (out: Vec<u8>)
        ensures
            out@ == spec_snapshot_bytes(
                lines_view(self.ansi_lines@),
                self.cols,
                self.rows,
                self.cursor_row,
                self.cursor_col,
                self.cursor_visible,
            ),
    {
        let mut out: Vec<u8> = Vec::new();
        push_all(&mut out, &SNAPSHOT_PREAMBLE);
        let ghost start = out@;
        let mut index: usize = 0;
        while index < self.ansi_lines.len()
            invariant
                index <= self.ansi_lines@.len(),
                out@ == start + snapshot_lines(lines_view(self.ansi_lines@).subrange(0, index as int)),
                start == SNAPSHOT_PREAMBLE@,
            decreases self.ansi_lines@.len() - index,
        {
            let ghost before = out@;
            if index > 0 {
                push_all(&mut out, &CRLF);
            }
            push_all(&mut out, &SGR_RESET);
            push_all(&mut out, self.ansi_lines[index].as_slice());
            proof {
                let lv = lines_view(self.ansi_lines@);
                let next = lv.subrange(0, index as int + 1);
                assert(next.drop_last() =~= lv.subrange(0, index as int));
                assert(next.last() == self.ansi_lines@[index as int]@);
                if index == 0 {
                    assert(lv.subrange(0, 0) =~= Seq::<Seq<u8>>::empty());
                }
                assert(out@ =~= start + snapshot_lines(next));
            }
            index = index + 1;
        }
        assert(lines_view(self.ansi_lines@).subrange(0, self.ansi_lines@.len() as int) =~= lines_view(self.ansi_lines@));
        let last_row: u16 = self.rows.saturating_sub(1);
        let last_col: u16 = self.cols.saturating_sub(1);
        let row: u16 = (if self.cursor_row <= last_row { self.cursor_row } else { last_row }) + 1;
        let col: u16 = (if self.cursor_col <= last_col { self.cursor_col } else { last_col }) + 1;
        push_all(&mut out, &SGR_RESET);
        out.push(0x1b);
        out.push(0x5b);
        push_decimal(&mut out, row as u64);
        out.push(0x3b);
        push_decimal(&mut out, col as u64);
        out.push(0x48);
        if self.cursor_visible {
            push_all(&mut out, &CURSOR_SHOW);
        } else {
            push_all(&mut out, &CURSOR_HIDE);
        }
        assert(out@ =~= spec_snapshot_bytes(
            lines_view(self.ansi_lines@),
            self.cols,
            self.rows,
            self.cursor_row,
            self.cursor_col,
            self.cursor_visible,
        ));
        out
    }
}

/// How the status line's window list is justified.
#[derive(Debug, Clone, Copy, PartialEq, Eq, Structural)]
pub enum StatusJustify {
    Left,
    Centre,
    Right,
}

/// The justification an option value selects: `right`; `centre`, `center`
/// or `absolute-centre`; anything else (or nothing) is left.
pub open spec fn spec_status_justify(value: Option<Seq<char>>) -> StatusJustify {
    match value {
        Some(v) => if v == "right"@ {
            StatusJustify::Right
        } else if v == "centre"@ || v == "center"@ || v == "absolute-centre"@ {
            StatusJustify::Centre
        } else {
            StatusJustify::Left
        },
        None => StatusJustify::Left,
    }
}

/// Whether two strings are equal.
pub fn str_eq(a: &str, b: &str) -> (r: bool)
    ensures
        r == (a@ == b@),
{
    proof {
        vstd::utf8::encode_utf8_decode_utf8(a@);
        vstd::utf8::encode_utf8_decode_utf8(b@);
    }
    bytes_eq(a.as_bytes(), b.as_bytes())
}

/// Reads the justification option.
pub fn status_justify(value: Option<&str>) -> (j: StatusJustify)
    ensures
        j == spec_status_justify(match value {
            Some(v) => Some(v@),
            None => None,
        }),
{
    match value {
        Some(v) => if str_eq(v, "right") {
            StatusJustify::Right
        } else if str_eq(v, "centre") || str_eq(v, "center") || str_eq(v, "absolute-centre") {
            StatusJustify::Centre
        } else {
            StatusJustify::Left
        },
        None => StatusJustify::Left,
    }
}

/// The option value naming a justification.
pub open spec fn status_justify_value(j: StatusJustify) -> Seq<char> {
    match j {
        StatusJustify::Left => "left"@,
        StatusJustify::Centre => "centre"@,
        StatusJustify::Right => "right"@,
    }
}

/// Names a justification.
pub fn status_justify_name(j: StatusJustify) -> (s: &'static str)
    ensures
        s@ == status_justify_value(j),
{
    match j {
        StatusJustify::Left => "left",
        StatusJustify::Centre => "centre",
        StatusJustify::Right => "right",
    }
}

/// Naming a justification and reading the name back gives it again.
pub proof fn lemma_status_justify_round_trip(j: StatusJustify)
    ensures
        spec_status_justify(Some(status_justify_value(j))) == j,
{
    reveal_strlit("left");
    reveal_strlit("right");
    reveal_strlit("centre");
    reveal_strlit("center");
    reveal_strlit("absolute-centre");
    assert("left"@.len() == 4);
    assert("right"@.len() == 5);
    assert("centre"@.len() == 6);
    assert("center"@.len() == 6);
    assert("absolute-centre"@.len() == 15);
    assert("centre"@[4] != "center"@[4]);
}

} // verus!
