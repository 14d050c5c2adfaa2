//! A listing: the lines of the entries of one operand, laid out in
//! columns.

use vstd::prelude::*;
use vstd::string::*;
use crate::cmd::ls::entry::{Entry, decimal, decimal_text};
use crate::cmd::ls::ls_config::LsConfig;
use crate::cmd::ls::utils::{column_len, get_column_len, rows_cover_first};
use crate::text::{chars_of, texts, trim, trimmed};

verus! {

/// The rows of a listing.
#[derive(Clone, Debug, PartialEq, Eq)]
pub struct Entries {
    /// One row for each entry, one text for each column.
    pub entries: Vec<Vec<String>>,
    /// The blocks of 1024 bytes that the entries take.
    pub total: u64,
    pub ls_config: LsConfig,
    /// The operand that is listed; empty for the operands that are listed
    /// as they are.
    pub target_entry: String,
}

/// The blocks of 512 bytes of the first `k` of `entries` that the file
/// system reports on.
pub open spec fn blocks_of(entries: Seq<Entry>, k: int) -> nat
    decreases k,
{
    if 0 < k <= entries.len() {
        blocks_of(entries, k - 1) + match entries[k - 1].metadata {
            Some(stat) => stat.blocks as nat,
            None => 0,
        }
    } else {
        0
    }
}

/// `count` spaces.
pub open spec fn spaces(count: int) -> Seq<char> {
    Seq::new(
        if count > 0 {
            count as nat
        } else {
            0
        },
        |i: int| ' ',
    )
}

/// `cell` with spaces before it to make `width` characters.
pub open spec fn pad_left(cell: Seq<char>, width: int) -> Seq<char> {
    spaces(width - cell.len()) + cell
}

/// `cell` with spaces after it to make `width` characters.
pub open spec fn pad_right(cell: Seq<char>, width: int) -> Seq<char> {
    cell + spaces(width - cell.len())
}

/// What column `k` adds to a line.  A column of width 0 adds nothing.  The
/// columns of numbers, 1, 4 and 5, are set to the right, the others
/// to the left; a space follows each column but column 4.
pub open spec fn cell_text(cell: Seq<char>, k: int, width: int) -> Seq<char> {
    if width == 0 {
        Seq::empty()
    } else if k == 4 {
        pad_left(cell, width)
    } else if k == 1 || k == 5 {
        pad_left(cell, width).push(' ')
    } else {
        pad_right(cell, width).push(' ')
    }
}

/// The first `k` columns of `row`, one after the other.
pub open spec fn line_text(row: Seq<Seq<char>>, widths: Seq<usize>, k: int) -> Seq<char>
    decreases k,
{
    if 0 < k <= row.len() && k <= widths.len() {
        line_text(row, widths, k - 1) + cell_text(row[k - 1], k - 1, widths[k - 1] as int)
    } else {
        Seq::empty()
    }
}

/// The first `j` lines, each without white space at its ends and with a
/// newline after it.
pub open spec fn lines_text(rows: Seq<Vec<String>>, widths: Seq<usize>, j: int) -> Seq<char>
    decreases j,
{
    if 0 < j <= rows.len() {
        lines_text(rows, widths, j - 1) + trimmed(
            line_text(texts(rows[j - 1]@), widths, rows[j - 1]@.len() as int),
        ) + seq!['\n']
    } else {
        Seq::empty()
    }
}

/// The widths of the columns of `rows`.
pub open spec fn widths_of(rows: Seq<Vec<String>>) -> Seq<usize> {
    if rows.len() == 0 {
        Seq::empty()
    } else {
        Seq::new(rows[0]@.len(), |i: int| column_len(rows, i, rows.len() as int))
    }
}

impl Entries {
    /// Every row has as many columns as the first.
    pub open spec fn well_formed(&self) -> bool {
        forall|j: int|
            0 <= j < self.entries@.len() ==> (#[trigger] self.entries@[j]).len()
                == self.entries@[0].len()
    }

    /// The heading: the operand and a colon where several operands were
    /// given, then, in the long format, the total.
    pub open spec fn heading(&self) -> Seq<char> {
        let name = if self.target_entry@.len() != 0 && self.ls_config.num_args > 1 {
            self.target_entry@ + ": \n"@
        } else {
            Seq::empty()
        };
        let total = if self.ls_config.l_flag_set && self.target_entry@.len() != 0 {
            "total "@ + decimal_text(self.total as nat) + "\n"@
        } else {
            Seq::empty()
        };
        name + total
    }

    /// The listing as it is printed.  A single operand that holds nothing
    /// prints nothing, unless the long format is asked for.
    pub open spec fn rendered(&self) -> Seq<char> {
        if self.entries@.len() == 0 && !self.ls_config.l_flag_set && self.ls_config.num_args == 1 {
            Seq::empty()
        } else {
            self.heading() + lines_text(
                self.entries@,
                widths_of(self.entries@),
                self.entries@.len() as int,
            )
        }
    }

    /// The rows for `entries`, listed under `target_entry`, now being
    /// `now_secs` seconds and `now_nanos` nanoseconds after 1970.  `None`
    /// where the date of an entry cannot be shown.
    pub fn new(
        entries: &Vec<Entry>,
        ls_config: LsConfig,
        target_entry: String,
        now_secs: i64,
        now_nanos: u32,
    ) -> (listing: Option<Entries>)
        ensures
            listing is Some <==> forall|i: int|
                0 <= i < entries@.len() ==> (#[trigger] entries@[i]).has_date(now_secs, now_nanos),
            listing matches Some(listing) ==> {
                &&& listing.entries@.len() == entries@.len()
                &&& forall|i: int|
                    0 <= i < entries@.len() ==> (#[trigger] entries@[i]).shows(
                        texts(listing.entries@[i]@),
                        now_secs,
                        now_nanos,
                    )
                &&& listing.total as nat == if blocks_of(entries@, entries@.len() as int) / 2
                    <= u64::MAX {
                    blocks_of(entries@, entries@.len() as int) / 2
                } else {
                    u64::MAX as nat
                }
                &&& listing.ls_config == ls_config
                &&& listing.target_entry == target_entry
                &&& (forall|i: int|
                    0 <= i < entries@.len() ==> (#[trigger] entries@[i]).ls_config.l_flag_set
                        == ls_config.l_flag_set) ==> listing.well_formed()
            },
    {
        let mut rows: Vec<Vec<String>> = Vec::new();
        let mut blocks: u128 = 0;
        let mut k: usize = 0;
        while k < entries.len()
            invariant
                k <= entries.len(),
                rows@.len() == k,
                forall|i: int|
                    0 <= i < k ==> (#[trigger] entries@[i]).has_date(now_secs, now_nanos),
                forall|i: int|
                    0 <= i < k ==> (#[trigger] entries@[i]).shows(
                        texts(rows@[i]@),
                        now_secs,
                        now_nanos,
                    ),
                forall|i: int|
                    0 <= i < k ==> (#[trigger] rows@[i]).len() == (if entries@[i].ls_config.l_flag_set {
                        8int
                    } else {
                        1int
                    }),
                blocks == blocks_of(entries@, k as int),
                blocks <= k * 0xffff_ffff_ffff_ffff,
            decreases entries.len() - k,
        {
            match entries[k].handle_entry(now_secs, now_nanos) {
                Some(row) => {
                    rows.push(row);
                },
                None => {
                    return None;
                },
            }
            assert((k + 1) * 0xffff_ffff_ffff_ffff == k * 0xffff_ffff_ffff_ffff
                + 0xffff_ffff_ffff_ffff) by (nonlinear_arith);
            assert(k * 0xffff_ffff_ffff_ffff <= 0xffff_ffff_ffff_ffff * 0xffff_ffff_ffff_ffff)
                by (nonlinear_arith)
                requires
                    k <= 0xffff_ffff_ffff_ffff,
            ;
            match &entries[k].metadata {
                Some(stat) => {
                    blocks = blocks + stat.blocks as u128;
                },
                None => {},
            }
            k = k + 1;
        }
        let half = blocks / 2;
        let total = if half <= u64::MAX as u128 {
            half as u64
        } else {
            u64::MAX
        };
        Some(
            Entries {
                entries: rows,
                total,
                ls_config,
                target_entry,
            },
        )
    }

    /// The listing as it is printed.
    pub fn render(&self) -> (out: String)
        requires
            self.well_formed(),
        ensures
            out@ == self.rendered(),
    {
        let mut out = String::new();
        if self.entries.len() == 0 && !self.ls_config.l_flag_set && self.ls_config.num_args == 1 {
            return out;
        }
        let named = !self.target_entry.as_str().is_empty();
        if named && self.ls_config.num_args > 1 {
            out.append(self.target_entry.as_str());
            out.append(": \n");
        }
        assert(rows_cover_first(self.entries@));
        let widths = get_column_len(&self.entries);
        assert(widths@ =~= widths_of(self.entries@));
        if self.ls_config.l_flag_set && named {
            out.append("total ");
            out.append(decimal(self.total).as_str());
            out.append("\n");
        }
        assert(out@ =~= self.heading());
        let mut j: usize = 0;
        while j < self.entries.len()
            invariant
                j <= self.entries.len(),
                self.well_formed(),
                widths@ == widths_of(self.entries@),
                out@ == self.heading() + lines_text(self.entries@, widths@, j as int),
            decreases self.entries.len() - j,
        {
            let ghost before = out@;
            let row = &self.entries[j];
            assert(row.len() == self.entries@[0].len());
            let mut line: Vec<char> = Vec::new();
            let mut k: usize = 0;
            while k < row.len()
                invariant
                    k <= row.len(),
                    row.len() == widths@.len(),
                    line@ == line_text(texts(row@), widths@, k as int),
                decreases row.len() - k,
            {
                let width = widths[k];
                if width != 0 {
                    let cell = chars_of(row[k].as_str());
                    assert(texts(row@)[k as int] == cell@);
                    let ghost start = line@;
                    if k == 1 || k == 4 || k == 5 {
                        pad(&mut line, width, cell.len());
                        push_all(&mut line, &cell);
                        if k != 4 {
                            line.push(' ');
                        }
                    } else {
                        push_all(&mut line, &cell);
                        pad(&mut line, width, cell.len());
                        line.push(' ');
                    }
                    assert(line@ =~= start + cell_text(cell@, k as int, width as int));
                } else {
                    assert(line@ + Seq::<char>::empty() =~= line@);
                }
                k = k + 1;
            }
            let text = trim(&line);
            out.append(text.as_str());
            out.push('\n');
            assert(out@ =~= before + trimmed(line@) + seq!['\n']);
            assert(out@ =~= self.heading() + lines_text(self.entries@, widths@, j + 1));
            j = j + 1;
        }
        out
    }
}

/// Adds the spaces that a cell of `len` characters lacks to `width`.
fn pad(line: &mut Vec<char>, width: usize, len: usize)
    ensures
        final(line)@ == old(line)@ + spaces(width - len),
{
    let mut i: usize = len;
    assert(line@ + spaces(0) =~= line@);
    while i < width
        invariant
            len <= i,
            i <= width || len >= width,
            len >= width ==> i == len,
            line@ == old(line)@ + spaces(i - len),
        decreases width - i,
    {
        line.push(' ');
        assert(line@ =~= old(line)@ + spaces(i + 1 - len));
        i = i + 1;
    }
    if len < width {
        assert(i == width);
    } else {
        assert(i == len);
        assert(spaces(i - len).len() == 0);
        assert(spaces(width - len).len() == 0);
    }
    assert(spaces(i - len) =~= spaces(width - len));
}

/// Adds the characters of `cell` to `line`.
fn push_all(line: &mut Vec<char>, cell: &Vec<char>)
    ensures
        final(line)@ == old(line)@ + cell@,
{
    let mut i: usize = 0;
    assert(line@ + cell@.take(0) =~= line@);
    while i < cell.len()
        invariant
            i <= cell.len(),
            line@ == old(line)@ + cell@.take(i as int),
        decreases cell.len() - i,
    {
        line.push(cell[i]);
        assert(line@ =~= old(line)@ + cell@.take(i + 1));
        i = i + 1;
    }
    assert(cell@.take(i as int) =~= cell@);
}

} // verus!
