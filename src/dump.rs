use vstd::prelude::*;

use crate::hex::{hex_pad, push_hex};
use crate::printable::{printable_seq, to_printable_chars};
use crate::text::push_char;

verus! {

/// Bytes per row of the dump.
pub const ROW_LEN: usize = 16;

/// How many rows a buffer of `len` bytes is cut into; the last may be short.
pub open spec fn row_count(len: nat) -> nat {
    (len + 15) / 16
}

/// The bytes of row `k`: the sixteen-byte-aligned slice at offset `16 * k`,
/// cut short at the end of the buffer.
pub open spec fn row_of(buf: Seq<u8>, k: int) -> Seq<u8> {
    if 16 * k + 16 <= buf.len() {
        buf.subrange(16 * k, 16 * k + 16)
    } else {
        buf.subrange(16 * k, buf.len() as int)
    }
}

/// Row `k` repeats the row just before it, byte for byte and in length, and
/// so is not printed as data. The first row never is.
pub open spec fn is_elided(buf: Seq<u8>, k: int) -> bool {
    k > 0 && row_of(buf, k) == row_of(buf, k - 1)
}

/// What goes between two hex cells, before the cell at position `p` of a row.
pub open spec fn cell_sep(p: nat) -> Seq<char> {
    if p == 0 {
        Seq::empty()
    } else if p == 8 {
        seq![' ', ' ']
    } else {
        seq![' ']
    }
}

/// The hex cells of a row: two digits per byte, one space between cells
/// and two between the eighth and the ninth.
pub open spec fn hex_cells(row: Seq<u8>) -> Seq<char>
    decreases row.len(),
{
    if row.len() == 0 {
        Seq::empty()
    } else {
        hex_cells(row.drop_last()) + cell_sep((row.len() - 1) as nat) + hex_pad(
            row.last() as nat,
            2,
        )
    }
}

/// `n` spaces.
pub open spec fn spaces(n: nat) -> Seq<char> {
    Seq::new(n, |i: int| ' ')
}

/// The spaces after the hex cells of a row of `n` bytes: three per missing
/// cell, one more when the mid-row gap is missing too, and the two before
/// the printable column.
pub open spec fn pad_width(n: nat) -> nat {
    (3 * (16 - n) + (if n <= 8 { 1int } else { 0int }) + 2) as nat
}

/// The data line of a row that starts at `offset`.
pub open spec fn line_text(offset: nat, row: Seq<u8>) -> Seq<char> {
    hex_pad(offset, 8) + seq![' ', ' '] + hex_cells(row) + spaces(pad_width(row.len()))
        + seq!['|'] + printable_seq(row) + seq!['|']
}

/// The data line of row `k`.
pub open spec fn data_line(buf: Seq<u8>, k: int) -> Seq<char> {
    line_text((16 * k) as nat, row_of(buf, k))
}

/// The elision marker.
pub open spec fn star_line() -> Seq<char> {
    seq!['*']
}

/// The lines that row `k` adds: its data line, or a `*` when it opens a run
/// of repeated rows, or nothing when it continues one.
pub open spec fn row_lines(buf: Seq<u8>, k: int) -> Seq<Seq<char>> {
    if is_elided(buf, k) {
        if is_elided(buf, k - 1) {
            Seq::empty()
        } else {
            seq![star_line()]
        }
    } else {
        seq![data_line(buf, k)]
    }
}

/// The lines of the first `k` rows.
pub open spec fn rows_output(buf: Seq<u8>, k: nat) -> Seq<Seq<char>>
    decreases k,
{
    if k == 0 {
        Seq::empty()
    } else {
        rows_output(buf, (k - 1) as nat) + row_lines(buf, k - 1)
    }
}

/// The last line: the length of the buffer, as the offset where it ends.
pub open spec fn total_line(buf: Seq<u8>) -> Seq<char> {
    hex_pad(buf.len(), 8)
}

/// The whole dump of a buffer, line by line.
pub open spec fn dump_text(buf: Seq<u8>) -> Seq<Seq<char>> {
    rows_output(buf, row_count(buf.len())).push(total_line(buf))
}

/// The text of each line.
pub open spec fn lines_view(lines: Seq<String>) -> Seq<Seq<char>> {
    lines.map_values(|s: String| s@)
}

/// Whether the `n` bytes at `a` equal the `n` bytes at `b`.
fn same_bytes(buf: &[u8], a: usize, b: usize, n: usize) -> (r: bool)
    requires
        a + n <= buf@.len(),
        b + n <= buf@.len(),
    ensures
        r == (buf@.subrange(a as int, a + n) == buf@.subrange(b as int, b + n)),
{
    let len = buf.len();
    let mut i: usize = 0;
    while i < n
        invariant
            i <= n,
            len == buf@.len(),
            a + n <= buf@.len(),
            b + n <= buf@.len(),
            buf@.subrange(a as int, a + i) == buf@.subrange(b as int, b + i),
        decreases n - i,
    {
        if buf[a + i] != buf[b + i] {
            assert(buf@.subrange(a as int, a + n)[i as int] != buf@.subrange(b as int, b + n)[i as int]);
            return false;
        }
        assert(buf@.subrange(a as int, a + i + 1) =~= buf@.subrange(a as int, a + i).push(buf@[a + i]));
        assert(buf@.subrange(b as int, b + i + 1) =~= buf@.subrange(b as int, b + i).push(buf@[b + i]));
        i = i + 1;
    }
    true
}

/// Formats the data line of the row `buf[start..end]`.
fn format_data_line(buf: &[u8], start: usize, end: usize) -> (line: String)
    requires
        start < end <= buf@.len(),
        end - start <= 16,
    ensures
        line@ == line_text(start as nat, buf@.subrange(start as int, end as int)),
{
    let ghost row = buf@.subrange(start as int, end as int);
    let mut line = String::new();
    push_hex(&mut line, start as u64, 8);
    push_char(&mut line, ' ');
    push_char(&mut line, ' ');
    let ghost head = line@;
    let mut j: usize = start;
    while j < end
        invariant
            start <= j <= end <= buf@.len(),
            line@ == head + hex_cells(buf@.subrange(start as int, j as int)),
        decreases end - j,
    {
        if j > start {
            if j - start == 8 {
                push_char(&mut line, ' ');
            }
            push_char(&mut line, ' ');
        }
        push_hex(&mut line, buf[j] as u64, 2);
        proof {
            let cur = buf@.subrange(start as int, j + 1);
            assert(cur.drop_last() =~= buf@.subrange(start as int, j as int));
            assert(cur.last() == buf@[j as int]);
        }
        j = j + 1;
    }
    let ghost cells = line@;
    let pad: usize = 3 * (16 - (end - start)) + (if end - start <= 8 { 1 } else { 0 }) + 2;
    assert(pad == pad_width(row.len()));
    let mut k: usize = 0;
    while k < pad
        invariant
            k <= pad,
            line@ == cells + spaces(k as nat),
        decreases pad - k,
    {
        push_char(&mut line, ' ');
        k = k + 1;
        assert(spaces(k as nat) =~= spaces((k - 1) as nat).push(' '));
    }
    push_char(&mut line, '|');
    let shown = to_printable_chars(&buf[start..end]);
    line.append(shown.as_str());
    push_char(&mut line, '|');
    assert(line@ =~= line_text(start as nat, row));
    line
}

/// Formats a buffer as a hex dump: one line per row of sixteen bytes, a
/// single `*` for each run of rows that repeat the row before them, and a
/// last line with the length of the buffer. Rows repeat only when equal in
/// length too, so a short last row never folds into a full one. Lines carry
/// no line break.
pub fn dump(buffer: &[u8]) -> (lines: Vec<String>)
    ensures
        lines_view(lines@) == dump_text(buffer@),
{
    let len = buffer.len();
    let rows: usize = len / 16 + if len % 16 == 0 { 0 } else { 1 };
    assert(rows == row_count(len as nat));
    let mut lines: Vec<String> = Vec::new();
    let mut elided = false;
    let mut row: usize = 0;
    while row < rows
        invariant
            len == buffer@.len(),
            rows == row_count(len as nat),
            row <= rows,
            lines_view(lines@) == rows_output(buffer@, row as nat),
            elided == (row > 0 && is_elided(buffer@, row - 1)),
        decreases rows - row,
    {
        let start: usize = ROW_LEN * row;
        let end: usize = if len - start >= ROW_LEN { start + ROW_LEN } else { len };
        assert(buffer@.subrange(start as int, end as int) == row_of(buffer@, row as int));
        let same = row > 0 && end - start == ROW_LEN
            && same_bytes(buffer, start - ROW_LEN, start, ROW_LEN);
        proof {
            if row > 0 {
                assert(row_of(buffer@, row - 1) == buffer@.subrange(start - 16, start as int));
            }
            assert(same == is_elided(buffer@, row as int));
        }
        let ghost before = lines@;
        if same {
            if !elided {
                let marker = String::from_str("*");
                proof {
                    reveal_strlit("*");
                }
                assert(marker@ =~= star_line());
                lines.push(marker);
            }
            elided = true;
        } else {
            elided = false;
            lines.push(format_data_line(buffer, start, end));
        }
        assert(lines_view(lines@) =~= lines_view(before) + row_lines(buffer@, row as int));
        row = row + 1;
    }
    let mut total = String::new();
    push_hex(&mut total, len as u64, 8);
    lines.push(total);
    assert(lines_view(lines@) =~= dump_text(buffer@));
    lines
}

} // verus!
