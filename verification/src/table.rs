//! The delimited table form of a count grid: one text line per row, the
//! counts in decimal, separated by commas. Reading a written table gives the
//! grid back unchanged.

use vstd::prelude::*;
use vstd::slice::slice_subrange;

verus! {

/// Whether every count of the grid is non-negative.
pub open spec fn nonneg_cells(grid: Seq<Seq<i32>>) -> bool {
    forall|r: int, c: int|
        0 <= r < grid.len() && 0 <= c < grid[r].len() ==> 0 <= #[trigger] grid[r][c]
}

/// Whether a byte is a decimal digit.
pub open spec fn is_digit(b: u8) -> bool {
    48 <= b <= 57
}

/// The decimal digits of a number, most significant first.
pub open spec fn dec_digits(n: nat) -> Seq<u8>
    decreases n,
{
    if n < 10 {
        seq![(48 + n) as u8]
    } else {
        dec_digits(n / 10).push((48 + n % 10) as u8)
    }
}

/// The number read from a digit sequence, most significant first.
pub open spec fn digits_val(s: Seq<u8>) -> int
    decreases s.len(),
{
    if s.len() == 0 {
        0
    } else {
        digits_val(s.drop_last()) * 10 + (s.last() - 48)
    }
}

/// Whether a byte sequence is a canonical decimal: at least one digit, only
/// digits, and no leading zero except for zero itself.
pub open spec fn canonical_decimal(s: Seq<u8>) -> bool {
    &&& s.len() >= 1
    &&& forall|i: int| 0 <= i < s.len() ==> is_digit(#[trigger] s[i])
    &&& (s.len() == 1 || s[0] != 48)
}

/// The bytes of one table line: the row's counts in decimal, separated by
/// commas.
pub open spec fn row_bytes(row: Seq<i32>) -> Seq<u8>
    decreases row.len(),
{
    if row.len() == 0 {
        Seq::empty()
    } else if row.len() == 1 {
        dec_digits(row[0] as nat)
    } else {
        dec_digits(row[0] as nat) + seq![44u8] + row_bytes(row.drop_first())
    }
}

/// The bytes of the whole table: each row's line, each ended by a newline.
pub open spec fn table_bytes(grid: Seq<Seq<i32>>) -> Seq<u8>
    decreases grid.len(),
{
    if grid.len() == 0 {
        Seq::empty()
    } else {
        row_bytes(grid.first()) + seq![10u8] + table_bytes(grid.drop_first())
    }
}

/// The position of the first occurrence of a byte, if any.
pub open spec fn find_byte(s: Seq<u8>, b: u8) -> Option<int>
    decreases s.len(),
{
    if s.len() == 0 {
        Option::None
    } else if s[0] == b {
        Option::Some(0int)
    } else {
        match find_byte(s.drop_first(), b) {
            Option::Some(k) => Option::Some(k + 1),
            Option::None => Option::None,
        }
    }
}

proof fn lemma_find_byte_bounds(s: Seq<u8>, b: u8)
    ensures
        match find_byte(s, b) {
            Option::Some(k) => 0 <= k < s.len(),
            Option::None => true,
        },
    decreases s.len(),
{
    if s.len() > 0 && s[0] != b {
        lemma_find_byte_bounds(s.drop_first(), b);
    }
}

/// The value a table cell denotes, if its bytes are a canonical decimal that
/// fits the count type.
pub open spec fn parse_cell(s: Seq<u8>) -> Option<i32> {
    if canonical_decimal(s) && digits_val(s) <= i32::MAX {
        Option::Some(digits_val(s) as i32)
    } else {
        Option::None
    }
}

/// The cells of a non-empty table line, split at the commas, each a
/// canonical decimal. An empty text denotes no cell, since a cell needs at
/// least one digit.
pub open spec fn parse_cells(s: Seq<u8>) -> Option<Seq<i32>>
    decreases s.len(),
    via parse_cells_decreases
{
    match find_byte(s, 44u8) {
        Option::None => match parse_cell(s) {
            Option::Some(v) => Option::Some(seq![v]),
            Option::None => Option::None,
        },
        Option::Some(k) => match (parse_cell(s.take(k)), parse_cells(s.skip(k + 1))) {
            (Option::Some(v), Option::Some(rest)) => Option::Some(seq![v] + rest),
            _ => Option::None,
        },
    }
}

#[via_fn]
proof fn parse_cells_decreases(s: Seq<u8>) {
    lemma_find_byte_bounds(s, 44u8);
}

/// The counts a table line denotes: an empty line denotes an empty row, and
/// any other line its comma-separated cells.
pub open spec fn parse_row(s: Seq<u8>) -> Option<Seq<i32>> {
    if s.len() == 0 {
        Option::Some(Seq::empty())
    } else {
        parse_cells(s)
    }
}

/// The grid a table denotes: one row per newline-ended line. Text after the
/// last newline denotes no grid.
pub open spec fn parse_table(s: Seq<u8>) -> Option<Seq<Seq<i32>>>
    decreases s.len(),
    via parse_table_decreases
{
    if s.len() == 0 {
        Option::Some(Seq::empty())
    } else {
        match find_byte(s, 10u8) {
            Option::None => Option::None,
            Option::Some(k) => match (parse_row(s.take(k)), parse_table(s.skip(k + 1))) {
                (Option::Some(row), Option::Some(rest)) => Option::Some(seq![row] + rest),
                _ => Option::None,
            },
        }
    }
}

#[via_fn]
proof fn parse_table_decreases(s: Seq<u8>) {
    lemma_find_byte_bounds(s, 10u8);
}

proof fn lemma_dec_digits(n: nat)
    ensures
        dec_digits(n).len() >= 1,
        forall|i: int| 0 <= i < dec_digits(n).len() ==> is_digit(#[trigger] dec_digits(n)[i]),
        canonical_decimal(dec_digits(n)),
        digits_val(dec_digits(n)) == n,
        n >= 10 ==> dec_digits(n)[0] != 48,
    decreases n,
{
    if n < 10 {
        let d = dec_digits(n);
        assert(d == seq![(48 + n) as u8]);
        assert(d.drop_last() =~= Seq::<u8>::empty());
        assert(d.last() == (48 + n) as u8);
        assert(digits_val(Seq::<u8>::empty()) == 0);
        assert(digits_val(d) == digits_val(d.drop_last()) * 10 + (d.last() - 48));
    } else {
        lemma_dec_digits(n / 10);
        let d = dec_digits(n / 10);
        let whole = dec_digits(n);
        assert(whole == d.push((48 + n % 10) as u8));
        assert(whole.drop_last() =~= d);
        assert(whole.last() == (48 + n % 10) as u8);
        assert(digits_val(whole) == (n / 10) * 10 + n % 10);
        assert((n / 10) * 10 + n % 10 == n) by (nonlinear_arith);
        assert(whole[0] == d[0]);
        assert(n / 10 >= 1);
        if n / 10 >= 10 {
            assert(d[0] != 48);
        } else {
            assert(d[0] == (48 + n / 10) as u8);
        }
        assert(forall|i: int| 0 <= i < whole.len() - 1 ==> whole[i] == #[trigger] d[i]);
    }
}

proof fn lemma_digits_val_bounds(s: Seq<u8>)
    requires
        forall|i: int| 0 <= i < s.len() ==> is_digit(#[trigger] s[i]),
    ensures
        digits_val(s) >= 0,
        forall|i: int| 0 <= i <= s.len() ==> #[trigger] digits_val(s.take(i)) <= digits_val(s),
    decreases s.len(),
{
    if s.len() == 0 {
        assert(s.take(0) =~= s);
    } else {
        let head = s.drop_last();
        assert(forall|i: int| 0 <= i < head.len() ==> head[i] == #[trigger] s[i]);
        lemma_digits_val_bounds(head);
        assert(digits_val(s) == digits_val(head) * 10 + (s.last() - 48));
        assert(digits_val(head) * 10 >= digits_val(head)) by (nonlinear_arith)
            requires
                digits_val(head) >= 0,
        ;
        assert forall|i: int| 0 <= i <= s.len() implies #[trigger] digits_val(s.take(i))
            <= digits_val(s) by {
            if i == s.len() {
                assert(s.take(i) =~= s);
            } else {
                assert(s.take(i) =~= head.take(i));
            }
        }
    }
}

proof fn lemma_find_byte_none(s: Seq<u8>, b: u8)
    requires
        forall|i: int| 0 <= i < s.len() ==> s[i] != b,
    ensures
        find_byte(s, b) is None,
    decreases s.len(),
{
    if s.len() > 0 {
        assert(forall|i: int|
            0 <= i < s.drop_first().len() ==> #[trigger] s.drop_first()[i] == s[i + 1]);
        lemma_find_byte_none(s.drop_first(), b);
    }
}

proof fn lemma_find_byte_concat(a: Seq<u8>, b: u8, c: Seq<u8>)
    requires
        forall|i: int| 0 <= i < a.len() ==> a[i] != b,
    ensures
        find_byte(a + seq![b] + c, b) == Option::Some(a.len() as int),
    decreases a.len(),
{
    let s = a + seq![b] + c;
    if a.len() == 0 {
        assert(s[0] == b);
    } else {
        assert(s[0] == a[0]);
        assert(s.drop_first() =~= a.drop_first() + seq![b] + c);
        assert(forall|i: int|
            0 <= i < a.drop_first().len() ==> #[trigger] a.drop_first()[i] == a[i + 1]);
        lemma_find_byte_concat(a.drop_first(), b, c);
    }
}

proof fn lemma_row_bytes_contents(row: Seq<i32>)
    requires
        forall|c: int| 0 <= c < row.len() ==> 0 <= #[trigger] row[c],
    ensures
        forall|i: int|
            0 <= i < row_bytes(row).len() ==> is_digit(#[trigger] row_bytes(row)[i])
                || row_bytes(row)[i] == 44,
    decreases row.len(),
{
    if row.len() == 1 {
        lemma_dec_digits(row[0] as nat);
    } else if row.len() > 1 {
        lemma_dec_digits(row[0] as nat);
        assert(forall|c: int|
            0 <= c < row.drop_first().len() ==> #[trigger] row.drop_first()[c] == row[c + 1]);
        lemma_row_bytes_contents(row.drop_first());
        let d = dec_digits(row[0] as nat);
        let rest = row_bytes(row.drop_first());
        let s = d + seq![44u8] + rest;
        assert forall|i: int| 0 <= i < s.len() implies is_digit(#[trigger] s[i]) || s[i]
            == 44 by {
            if i < d.len() {
                assert(s[i] == d[i]);
            } else if i > d.len() {
                assert(s[i] == rest[i - d.len() - 1]);
            }
        }
    }
}

proof fn lemma_parse_row_round_trip(row: Seq<i32>)
    requires
        forall|c: int| 0 <= c < row.len() ==> 0 <= #[trigger] row[c],
    ensures
        parse_row(row_bytes(row)) == Option::Some(row),
    decreases row.len(),
{
    if row.len() == 0 {
        assert(row_bytes(row) =~= Seq::<u8>::empty());
        assert(parse_row(row_bytes(row)) == Option::Some(Seq::<i32>::empty()));
        assert(row =~= Seq::<i32>::empty());
    } else if row.len() == 1 {
        let d = dec_digits(row[0] as nat);
        lemma_dec_digits(row[0] as nat);
        assert(forall|i: int| 0 <= i < d.len() ==> #[trigger] d[i] != 44);
        lemma_find_byte_none(d, 44u8);
        assert(digits_val(d) == row[0] as nat);
        assert(parse_cell(d) == Option::Some(row[0]));
        assert(seq![row[0]] =~= row);
    } else {
        let d = dec_digits(row[0] as nat);
        let tail = row.drop_first();
        let rest = row_bytes(tail);
        let s = d + seq![44u8] + rest;
        assert(row_bytes(row) == s);
        lemma_dec_digits(row[0] as nat);
        assert(forall|i: int| 0 <= i < d.len() ==> #[trigger] d[i] != 44);
        lemma_find_byte_concat(d, 44u8, rest);
        assert(find_byte(s, 44u8) == Option::Some(d.len() as int));
        assert(s.take(d.len() as int) =~= d);
        assert(parse_cell(d) == Option::Some(row[0]));
        assert(s.skip(d.len() as int + 1) =~= rest);
        assert(forall|c: int| 0 <= c < tail.len() ==> #[trigger] tail[c] == row[c + 1]);
        lemma_parse_row_round_trip(tail);
        assert(parse_cells(rest) == Option::Some(tail));
        assert(seq![row[0]] + tail =~= row);
        assert(s.len() > 0);
    }
}

/// Reading back the table written for a grid of non-negative counts yields
/// the grid itself, row for row and cell for cell.
pub proof fn lemma_table_round_trip(grid: Seq<Seq<i32>>)
    requires
        nonneg_cells(grid),
    ensures
        parse_table(table_bytes(grid)) == Option::Some(grid),
    decreases grid.len(),
{
    if grid.len() == 0 {
        assert(parse_table(table_bytes(grid)) == Option::Some(Seq::<Seq<i32>>::empty()));
        assert(grid =~= Seq::<Seq<i32>>::empty());
    } else {
        let head = grid.first();
        let tail = grid.drop_first();
        let line = row_bytes(head);
        let rest = table_bytes(tail);
        let s = line + seq![10u8] + rest;
        assert(table_bytes(grid) == s);
        assert(forall|c: int| 0 <= c < head.len() ==> 0 <= #[trigger] head[c]) by {
            assert(forall|c: int| 0 <= c < grid[0].len() ==> 0 <= #[trigger] grid[0][c]);
        }
        lemma_row_bytes_contents(head);
        assert(forall|i: int| 0 <= i < line.len() ==> #[trigger] line[i] != 10);
        lemma_find_byte_concat(line, 10u8, rest);
        assert(s.take(line.len() as int) =~= line);
        assert(s.skip(line.len() as int + 1) =~= rest);
        lemma_parse_row_round_trip(head);
        assert(forall|r: int, c: int|
            0 <= r < tail.len() && 0 <= c < tail[r].len() ==> 0 <= #[trigger] tail[r][c]) by {
            assert(forall|r: int, c: int|
                1 <= r < grid.len() && 0 <= c < grid[r].len() ==> 0 <= #[trigger] grid[r][c]);
            assert(forall|r: int| 0 <= r < tail.len() ==> #[trigger] tail[r] == grid[r + 1]);
        }
        lemma_table_round_trip(tail);
        assert(seq![head] + tail =~= grid);
        assert(s.len() > 0);
    }
}

/// Appends the decimal digits of a number.
fn push_decimal(out: &mut Vec<u8>, n: u32)
    ensures
        final(out)@ == old(out)@ + dec_digits(n as nat),
    decreases n,
{
    if n >= 10 {
        push_decimal(out, n / 10);
    }
    out.push(48 + (n % 10) as u8);
    proof {
        assert(final(out)@ =~= old(out)@ + dec_digits(n as nat));
    }
}

/// Returns the bytes of one table line for a row of non-negative counts.
fn row_to_bytes(row: &Vec<i32>) -> (out: Vec<u8>)
    requires
        forall|c: int| 0 <= c < row@.len() ==> 0 <= #[trigger] row@[c],
    ensures
        out@ == row_bytes(row@),
{
    let mut out: Vec<u8> = Vec::new();
    let mut c: usize = 0;
    let len = row.len();
    proof {
        assert(row@.skip(0) =~= row@);
    }
    while c < len
        invariant
            c <= len,
            len == row@.len(),
            forall|i: int| 0 <= i < row@.len() ==> 0 <= #[trigger] row@[i],
            row_bytes(row@) == out@ + row_bytes(row@.skip(c as int)),
        decreases len - c,
    {
        proof {
            assert(row@.skip(c as int)[0] == row@[c as int]);
            assert(row@.skip(c as int).drop_first() =~= row@.skip(c as int + 1));
        }
        push_decimal(&mut out, row[c] as u32);
        if c + 1 < len {
            out.push(44);
            proof {
                assert(out@ =~= (out@.subrange(0, out@.len() - 1 - dec_digits(
                    row@[c as int] as nat,
                ).len() as int)) + dec_digits(row@[c as int] as nat) + seq![44u8]);
            }
        }
        c = c + 1;
    }
    proof {
        assert(row@.skip(len as int) =~= Seq::<i32>::empty());
    }
    out
}

/// Returns the table bytes for a grid of non-negative counts: one line per
/// row, counts in decimal, commas between cells, a newline after each row.
pub fn grid_to_table(count_set: &Vec<Vec<i32>>) -> (out: Vec<u8>)
    requires
        nonneg_cells(count_set.deep_view()),
    ensures
        out@ == table_bytes(count_set.deep_view()),
{
    let ghost g = count_set.deep_view();
    let mut out: Vec<u8> = Vec::new();
    let mut r: usize = 0;
    proof {
        assert(g.skip(0) =~= g);
    }
    while r < count_set.len()
        invariant
            r <= count_set@.len(),
            g == count_set.deep_view(),
            g.len() == count_set@.len(),
            forall|i: int| 0 <= i < g.len() ==> #[trigger] g[i] == count_set@[i]@,
            nonneg_cells(g),
            table_bytes(g) == out@ + table_bytes(g.skip(r as int)),
        decreases count_set@.len() - r,
    {
        proof {
            assert(g.skip(r as int)[0] == g[r as int]);
            assert(g.skip(r as int).drop_first() =~= g.skip(r as int + 1));
            assert(forall|c: int|
                0 <= c < g[r as int].len() ==> 0 <= #[trigger] g[r as int][c]);
        }
        let mut line = row_to_bytes(&count_set[r]);
        out.append(&mut line);
        out.push(10);
        proof {
            assert(out@ =~= (out@.subrange(0, out@.len() - 1 - row_bytes(g[r as int]).len()
                as int)) + row_bytes(g[r as int]) + seq![10u8]);
        }
        r = r + 1;
    }
    proof {
        assert(g.skip(g.len() as int) =~= Seq::<Seq<i32>>::empty());
    }
    out
}

/// Returns the position of the first occurrence of a byte in a slice.
fn find_byte_in(data: &[u8], b: u8) -> (r: Option<usize>)
    ensures
        match r {
            Some(k) => find_byte(data@, b) == Option::Some(k as int) && k < data@.len(),
            None => find_byte(data@, b) is None,
        },
{
    let mut i: usize = 0;
    let len = data.len();
    while i < len
        invariant
            i <= len,
            len == data@.len(),
            forall|j: int| 0 <= j < i ==> data@[j] != b,
        decreases len - i,
    {
        if data[i] == b {
            proof {
                lemma_find_byte_prefix(data@, b, i as int);
            }
            return Some(i);
        }
        i = i + 1;
    }
    proof {
        lemma_find_byte_none(data@, b);
    }
    None
}

proof fn lemma_find_byte_prefix(s: Seq<u8>, b: u8, k: int)
    requires
        0 <= k < s.len(),
        s[k] == b,
        forall|j: int| 0 <= j < k ==> s[j] != b,
    ensures
        find_byte(s, b) == Option::Some(k),
    decreases k,
{
    if k > 0 {
        assert(forall|j: int|
            0 <= j < s.drop_first().len() ==> #[trigger] s.drop_first()[j] == s[j + 1]);
        lemma_find_byte_prefix(s.drop_first(), b, k - 1);
    }
}

/// Returns the count a table cell denotes, if its bytes are a canonical
/// decimal that fits the count type.
fn parse_cell_bytes(data: &[u8]) -> (r: Option<i32>)
    ensures
        r == parse_cell(data@),
{
    let len = data.len();
    if len == 0 {
        return None;
    }
    if len > 1 && data[0] == 48 {
        return None;
    }
    let mut acc: u64 = 0;
    let mut i: usize = 0;
    proof {
        assert(data@.take(0) =~= Seq::<u8>::empty());
    }
    while i < len
        invariant
            i <= len,
            len == data@.len(),
            forall|j: int| 0 <= j < i ==> is_digit(#[trigger] data@[j]),
            acc == digits_val(data@.take(i as int)),
            acc <= i32::MAX,
        decreases len - i,
    {
        let b = data[i];
        if b < 48 || b > 57 {
            return None;
        }
        proof {
            assert(data@.take(i as int + 1).drop_last() =~= data@.take(i as int));
            assert(data@.take(i as int + 1).last() == data@[i as int]);
        }
        let next: u64 = acc * 10 + (b - 48) as u64;
        if next > i32::MAX as u64 {
            proof {
                if canonical_decimal(data@) {
                    lemma_digits_val_bounds(data@);
                    assert(digits_val(data@.take(i as int + 1)) <= digits_val(data@));
                }
            }
            return None;
        }
        acc = next;
        i = i + 1;
    }
    proof {
        assert(data@.take(len as int) =~= data@);
    }
    Some(acc as i32)
}

/// Returns the counts a table line denotes, if every cell between the commas
/// is a canonical decimal.
fn parse_row_bytes(data: &[u8]) -> (r: Option<Vec<i32>>)
    ensures
        match r {
            Some(v) => parse_row(data@) == Option::Some(v@),
            None => parse_row(data@) is None,
        },
{
    if data.len() == 0 {
        let empty: Vec<i32> = Vec::new();
        return Some(empty);
    }
    parse_cells_bytes(data)
}

/// Returns the cells of one non-empty table line.
fn parse_cells_bytes(data: &[u8]) -> (r: Option<Vec<i32>>)
    ensures
        match r {
            Some(v) => parse_cells(data@) == Option::Some(v@),
            None => parse_cells(data@) is None,
        },
    decreases data@.len(),
{
    match find_byte_in(data, 44) {
        None => match parse_cell_bytes(data) {
            Some(v) => {
                let mut out: Vec<i32> = Vec::new();
                out.push(v);
                proof {
                    assert(out@ =~= seq![v]);
                }
                Some(out)
            },
            None => None,
        },
        Some(k) => {
            let len = data.len();
            let head = slice_subrange(data, 0, k);
            let tail = slice_subrange(data, k + 1, len);
            proof {
                assert(head@ =~= data@.take(k as int));
                assert(tail@ =~= data@.skip(k as int + 1));
            }
            match (parse_cell_bytes(head), parse_cells_bytes(tail)) {
                (Some(v), Some(rest)) => {
                    let mut out: Vec<i32> = Vec::new();
                    out.push(v);
                    let mut rest_vec = rest;
                    let ghost rest_view = rest_vec@;
                    out.append(&mut rest_vec);
                    proof {
                        assert(out@ =~= seq![v] + rest_view);
                    }
                    Some(out)
                },
                _ => None,
            }
        },
    }
}

/// Returns the grid a table denotes: one row per newline-ended line, or
/// nothing when a line is malformed or text follows the last newline.
pub fn table_to_grid(data: &[u8]) -> (r: Option<Vec<Vec<i32>>>)
    ensures
        match r {
            Some(g) => parse_table(data@) == Option::Some(g.deep_view()),
            None => parse_table(data@) is None,
        },
    decreases data@.len(),
{
    if data.len() == 0 {
        let empty: Vec<Vec<i32>> = Vec::new();
        proof {
            assert(empty.deep_view() =~= Seq::<Seq<i32>>::empty());
        }
        return Some(empty);
    }
    match find_byte_in(data, 10) {
        None => None,
        Some(k) => {
            let len = data.len();
            let head = slice_subrange(data, 0, k);
            let tail = slice_subrange(data, k + 1, len);
            proof {
                assert(head@ =~= data@.take(k as int));
                assert(tail@ =~= data@.skip(k as int + 1));
            }
            match (parse_row_bytes(head), table_to_grid(tail)) {
                (Some(row), Some(rest)) => {
                    let ghost row_view = row.deep_view();
                    proof {
                        assert(row_view =~= row@);
                    }
                    let mut out: Vec<Vec<i32>> = Vec::new();
                    out.push(row);
                    let mut rest_vec = rest;
                    let ghost rest_shallow = rest_vec@;
                    let ghost rest_view = rest_vec.deep_view();
                    out.append(&mut rest_vec);
                    proof {
                        assert forall|i: int| 0 <= i < out@.len() implies #[trigger] out.deep_view()[i]
                            == (seq![row_view] + rest_view)[i] by {
                            if i > 0 {
                                assert(out@[i] == rest_shallow[i - 1]);
                            }
                        }
                        assert(out.deep_view() =~= seq![row_view] + rest_view);
                    }
                    Some(out)
                },
                _ => None,
            }
        },
    }
}

} // verus!
