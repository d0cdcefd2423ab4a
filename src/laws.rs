use vstd::prelude::*;

use crate::dump::{
    cell_sep, data_line, dump_text, hex_cells, is_elided, pad_width, row_count,
    row_lines, row_of, rows_output, spaces, star_line,
};
use crate::hex::{hex_pad, lemma_hex_pad_len, pow16};
use crate::printable::printable_seq;

verus! {

/// How many of the first `k` rows are printed as data.
pub open spec fn data_rows(buf: Seq<u8>, k: nat) -> nat
    decreases k,
{
    if k == 0 {
        0
    } else {
        data_rows(buf, (k - 1) as nat) + if is_elided(buf, k - 1) { 0nat } else { 1nat }
    }
}

/// How many runs of repeated rows start among the first `k` rows.
pub open spec fn elided_runs(buf: Seq<u8>, k: nat) -> nat
    decreases k,
{
    if k == 0 {
        0
    } else {
        elided_runs(buf, (k - 1) as nat) + if is_elided(buf, k - 1) && !is_elided(buf, k - 2) {
            1nat
        } else {
            0nat
        }
    }
}

proof fn lemma_rows_output_len(buf: Seq<u8>, k: nat)
    ensures
        rows_output(buf, k).len() == data_rows(buf, k) + elided_runs(buf, k),
    decreases k,
{
    if k > 0 {
        lemma_rows_output_len(buf, (k - 1) as nat);
    }
}

/// The dump has one line per row printed as data, one per run of repeated
/// rows, and one more at the end; that last line is the length of the
/// buffer in hex, eight digits wide whenever the length fits in them
/// (`00000000` for an empty buffer).
pub proof fn lemma_line_count(buf: Seq<u8>)
    ensures
        dump_text(buf).len() == data_rows(buf, row_count(buf.len())) + elided_runs(
            buf,
            row_count(buf.len()),
        ) + 1,
        dump_text(buf).last() == hex_pad(buf.len(), 8),
        buf.len() < pow16(8) ==> hex_pad(buf.len(), 8).len() == 8,
        buf.len() == 0 ==> dump_text(buf) == seq![hex_pad(0, 8)],
{
    lemma_rows_output_len(buf, row_count(buf.len()));
    if buf.len() < pow16(8) {
        lemma_hex_pad_len(buf.len(), 8);
    }
    if buf.len() == 0 {
        assert(row_count(0) == 0);
        assert(dump_text(buf) =~= seq![hex_pad(0, 8)]);
    }
}

/// The dump is a function of the bytes alone: equal buffers give equal
/// dumps, line for line.
pub proof fn lemma_dump_deterministic(a: Seq<u8>, b: Seq<u8>)
    requires
        a == b,
    ensures
        dump_text(a) == dump_text(b),
{
}

proof fn lemma_run_prefix(buf: Seq<u8>, s: nat, m: nat)
    requires
        1 <= m,
        s + m < row_count(buf.len()),
        forall|j: int| s <= j <= s + m ==> #[trigger] row_of(buf, j) == row_of(buf, s as int),
        s == 0 || row_of(buf, s - 1) != row_of(buf, s as int),
    ensures
        rows_output(buf, s + m + 1) == rows_output(buf, s) + seq![
            data_line(buf, s as int),
            star_line(),
        ],
    decreases m,
{
    assert(row_of(buf, s as int + 1) == row_of(buf, s as int));
    assert(!is_elided(buf, s as int));
    if m == 1 {
        assert(is_elided(buf, (s + 1) as int));
        assert(rows_output(buf, s + 1) == rows_output(buf, s) + row_lines(buf, s as int));
        assert(rows_output(buf, s + 2) == rows_output(buf, s + 1) + row_lines(buf, (s + 1) as int));
        assert(rows_output(buf, s + 2) =~= rows_output(buf, s) + seq![
            data_line(buf, s as int),
            star_line(),
        ]);
    } else {
        lemma_run_prefix(buf, s, (m - 1) as nat);
        assert(row_of(buf, s + m - 1) == row_of(buf, s as int));
        assert(row_of(buf, s + m as int) == row_of(buf, s as int));
        assert(is_elided(buf, (s + m) as int));
        assert(is_elided(buf, s + m - 1));
        assert(rows_output(buf, s + m + 1) =~= rows_output(buf, (s + m) as nat));
    }
}

/// A run of `n >= 2` equal rows starting at row `s`, between rows that
/// differ from it, prints as its first row, one `*` for all the repeats,
/// and then the row that follows.
pub proof fn lemma_run_elided_once(buf: Seq<u8>, s: nat, n: nat)
    requires
        n >= 2,
        s + n < row_count(buf.len()),
        forall|j: int| s <= j < s + n ==> #[trigger] row_of(buf, j) == row_of(buf, s as int),
        s == 0 || row_of(buf, s - 1) != row_of(buf, s as int),
        row_of(buf, (s + n) as int) != row_of(buf, s as int),
    ensures
        rows_output(buf, s + n + 1) == rows_output(buf, s) + seq![
            data_line(buf, s as int),
            star_line(),
            data_line(buf, (s + n) as int),
        ],
{
    lemma_run_prefix(buf, s, (n - 1) as nat);
    assert(row_of(buf, s + n - 1) == row_of(buf, s as int));
    assert(!is_elided(buf, (s + n) as int));
    assert(rows_output(buf, s + n + 1) =~= rows_output(buf, s) + seq![
        data_line(buf, s as int),
        star_line(),
        data_line(buf, (s + n) as int),
    ]);
}

/// Two neighbouring rows that differ in one byte, the last one included,
/// are never collapsed: the second is printed as data.
pub proof fn lemma_no_false_elision(buf: Seq<u8>, k: int, i: int)
    requires
        1 <= k < row_count(buf.len()),
        0 <= i < row_of(buf, k - 1).len(),
        i < row_of(buf, k).len(),
        row_of(buf, k - 1)[i] != row_of(buf, k)[i],
    ensures
        !is_elided(buf, k),
        row_lines(buf, k) == seq![data_line(buf, k)],
{
}

/// Control bytes show as `.` and printable ASCII as itself, one character
/// per byte.
pub proof fn lemma_printable_substitution(bytes: Seq<u8>)
    ensures
        printable_seq(bytes).len() == bytes.len(),
        forall|i: int|
            0 <= i < bytes.len() && (bytes[i] <= 0x1f || bytes[i] == 0x7f) ==> #[trigger] printable_seq(
                bytes,
            )[i] == '.',
        forall|i: int|
            0 <= i < bytes.len() && 0x20 <= bytes[i] <= 0x7e ==> #[trigger] printable_seq(bytes)[i]
                == bytes[i] as char,
{
}

proof fn lemma_hex_cells_len(row: Seq<u8>)
    requires
        1 <= row.len(),
    ensures
        hex_cells(row).len() == 3 * row.len() - 1 + (if row.len() > 8 { 1int } else { 0int }),
    decreases row.len(),
{
    assert(pow16(2) == 256) by {
        assert(pow16(0) == 1);
        assert(pow16(1) == 16);
    }
    lemma_hex_pad_len(row.last() as nat, 2);
    let n = row.len();
    assert(cell_sep((n - 1) as nat).len() == if n == 1 { 0int } else if n == 9 { 2int } else {
        1int
    });
    if n > 1 {
        lemma_hex_cells_len(row.drop_last());
    } else {
        assert(hex_cells(row.drop_last()).len() == 0);
    }
}

/// Every data line, a short last row included, opens its printable column
/// at the same place: 52 characters after the offset, which is column 60
/// while the offset fits in eight digits.
pub proof fn lemma_column_aligned(buf: Seq<u8>, k: int)
    requires
        0 <= k < row_count(buf.len()),
    ensures
        ({
            let col = hex_pad((16 * k) as nat, 8).len() + 52int;
            let row = row_of(buf, k);
            &&& data_line(buf, k)[col] == '|'
            &&& data_line(buf, k).subrange(col + 1, col + 1 + row.len()) == printable_seq(row)
            &&& data_line(buf, k).len() == col + 2 + row.len()
        }),
        16 * k < pow16(8) ==> hex_pad((16 * k) as nat, 8).len() == 8,
{
    let row = row_of(buf, k);
    let off = hex_pad((16 * k) as nat, 8);
    assert(1 <= row.len() <= 16);
    lemma_hex_cells_len(row);
    let head = off + seq![' ', ' '] + hex_cells(row) + spaces(pad_width(row.len()));
    let hl = head.len() as int;
    assert(hl == off.len() + 52);
    let line = data_line(buf, k);
    assert(line =~= head + seq!['|'] + printable_seq(row) + seq!['|']);
    assert(line.subrange(hl + 1, hl + 1 + row.len()) =~= printable_seq(row));
    if 16 * k < pow16(8) {
        lemma_hex_pad_len((16 * k) as nat, 8);
    }
}

} // verus!
