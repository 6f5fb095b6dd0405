use vstd::prelude::*;

use crate::error::XfoilError;
use crate::text::is_number;
use crate::text::is_number_token;
use crate::text::split_tokens;
use crate::text::tokens_of;

verus! {

/// Number of lines in the fixed header block that every polar report opens
/// with; they are skipped unconditionally.
pub const HEADER_LINES: usize = 13;

/// Number of recognized report columns.
pub const COLUMN_COUNT: usize = 7;

/// The name of each recognized column, in the fixed order Xfoil prints
/// them: angle of attack, lift, drag, pressure drag, moment, and the two
/// transition locations.
pub open spec fn column_name(j: int) -> Seq<char> {
    if j == 0 {
        "alpha"@
    } else if j == 1 {
        "CL"@
    } else if j == 2 {
        "CD"@
    } else if j == 3 {
        "CDp"@
    } else if j == 4 {
        "CM"@
    } else if j == 5 {
        "Top_Xtr"@
    } else {
        "Bot_Xtr"@
    }
}

/// The data rows of a report: everything past the header block.  A report
/// shorter than the header has none.
pub open spec fn data_rows(lines: Seq<Seq<char>>) -> Seq<Seq<char>> {
    if lines.len() <= HEADER_LINES {
        Seq::empty()
    } else {
        lines.skip(HEADER_LINES as int)
    }
}

/// Whether every token of one data row is decimal floating-point text.
pub open spec fn row_ok(line: Seq<char>) -> bool {
    forall|k: int| 0 <= k < tokens_of(line).len() ==> is_number(#[trigger] tokens_of(line)[k])
}

/// Whether every data row of the report parses.
pub open spec fn report_ok(lines: Seq<Seq<char>>) -> bool {
    forall|i: int| 0 <= i < data_rows(lines).len() ==> row_ok(#[trigger] data_rows(lines)[i])
}

/// What one row contributes to column `j`: its `j`-th token, or nothing
/// when the row is too short.
pub open spec fn row_contrib(line: Seq<char>, j: int) -> Seq<Seq<char>> {
    if j < tokens_of(line).len() {
        seq![tokens_of(line)[j]]
    } else {
        Seq::empty()
    }
}

/// The values of column `j` over the given rows, in row order.  Tokens past
/// the known columns are dropped; a short row contributes fewer values.
pub open spec fn column_of_rows(rows: Seq<Seq<char>>, j: int) -> Seq<Seq<char>>
    decreases rows.len(),
{
    if rows.len() == 0 {
        Seq::empty()
    } else {
        column_of_rows(rows.drop_last(), j) + row_contrib(rows.last(), j)
    }
}

/// Where parsing fails: `line` is the first data row holding a token that
/// is not a number, and `token` the first such token in it.
pub open spec fn parse_failure(lines: Seq<Seq<char>>, line: int, token: Seq<char>) -> bool {
    &&& HEADER_LINES <= line < lines.len()
    &&& (forall|i: int| HEADER_LINES <= i < line ==> row_ok(#[trigger] lines[i]))
    &&& !is_number(token)
    &&& (exists|k: int|
        #![auto]
        {
            &&& 0 <= k < tokens_of(lines[line]).len()
            &&& token == tokens_of(lines[line])[k]
            &&& (forall|k2: int| 0 <= k2 < k ==> is_number(#[trigger] tokens_of(lines[line])[k2]))
        })
}

/// The rows already consumed when the parser stands before row `i`.
pub open spec fn seen_rows(lines: Seq<Seq<char>>, i: int) -> Seq<Seq<char>> {
    if HEADER_LINES <= i <= lines.len() {
        lines.subrange(HEADER_LINES as int, i)
    } else {
        Seq::empty()
    }
}

/// Extending the rows by one extends each column by that row's share.
proof fn lemma_column_push(rows: Seq<Seq<char>>, row: Seq<char>, j: int)
    ensures
        column_of_rows(rows.push(row), j) == column_of_rows(rows, j) + row_contrib(row, j),
{
    assert(rows.push(row).drop_last() =~= rows);
    assert(rows.push(row).last() == row);
}

/// A parsed polar report: one ordered sequence of numeric-text samples per
/// recognized column, in the fixed column order.
#[derive(Debug)]
pub struct Polar {
    columns: Vec<Vec<String>>,
}

impl View for Polar {
    type V = Seq<Seq<Seq<char>>>;

    closed spec fn view(&self) -> Seq<Seq<Seq<char>>> {
        self.columns.deep_view()
    }
}

impl Polar {
    /// A polar with no columns at all: what a run without output capture
    /// reports.
    pub fn empty() -> (r: Polar)
        ensures
            r@ == Seq::<Seq<Seq<char>>>::empty(),
    {
        let columns: Vec<Vec<String>> = Vec::new();
        proof {
            assert(columns.deep_view() =~= Seq::<Seq<Seq<char>>>::empty());
        }
        Polar { columns }
    }

    /// How many columns this polar holds.
    pub fn num_columns(&self) -> (r: usize)
        ensures
            r == self@.len(),
    {
        self.columns.len()
    }

    /// The values of the column at index `j`, in row order.
    pub fn column(&self, j: usize) -> (r: &Vec<String>)
        requires
            j < self@.len(),
        ensures
            r.deep_view() == self@[j as int],
    {
        &self.columns[j]
    }

    /// The values of the column with the given name, or nothing when the
    /// name is not a recognized column or this polar does not hold it.
    pub fn column_by_name(&self, name: &str) -> (r: Option<&Vec<String>>)
        ensures
            0 <= column_index_of(name@) < self@.len() ==> (r matches Some(col) && col.deep_view()
                == self@[column_index_of(name@)]),
            !(0 <= column_index_of(name@) < self@.len()) ==> r is None,
    {
        let owned = name.to_owned();
        let idx: usize = if owned == "alpha".to_owned() {
            0
        } else if owned == "CL".to_owned() {
            1
        } else if owned == "CD".to_owned() {
            2
        } else if owned == "CDp".to_owned() {
            3
        } else if owned == "CM".to_owned() {
            4
        } else if owned == "Top_Xtr".to_owned() {
            5
        } else if owned == "Bot_Xtr".to_owned() {
            6
        } else {
            COLUMN_COUNT
        };
        if idx < COLUMN_COUNT && idx < self.columns.len() {
            Some(&self.columns[idx])
        } else {
            None
        }
    }
}

/// The index of a recognized column name, in the fixed column order; other
/// names get a value outside the column range.
pub open spec fn column_index_of(name: Seq<char>) -> int {
    if name == "alpha"@ {
        0
    } else if name == "CL"@ {
        1
    } else if name == "CD"@ {
        2
    } else if name == "CDp"@ {
        3
    } else if name == "CM"@ {
        4
    } else if name == "Top_Xtr"@ {
        5
    } else if name == "Bot_Xtr"@ {
        6
    } else {
        -1
    }
}

/// The recognized column names, in the fixed column order.
pub fn column_names() -> (r: Vec<String>)
    ensures
        r.deep_view().len() == COLUMN_COUNT,
        forall|j: int| 0 <= j < COLUMN_COUNT ==> r.deep_view()[j] == column_name(j),
{
    let mut r: Vec<String> = Vec::new();
    r.push("alpha".to_owned());
    r.push("CL".to_owned());
    r.push("CD".to_owned());
    r.push("CDp".to_owned());
    r.push("CM".to_owned());
    r.push("Top_Xtr".to_owned());
    r.push("Bot_Xtr".to_owned());
    proof {
        assert(r.deep_view() =~= seq![
            "alpha"@,
            "CL"@,
            "CD"@,
            "CDp"@,
            "CM"@,
            "Top_Xtr"@,
            "Bot_Xtr"@,
        ]);
    }
    r
}

/// Parses the lines of a polar report.  The header block is skipped
/// unconditionally; every later line is split on whitespace and each token
/// checked to be decimal floating-point text, the `j`-th token of each row
/// going to the `j`-th column.  Fails on the first token that is not a
/// number, naming the line and the token; succeeds exactly when every data
/// row is numeric.
pub fn parse_polar(lines: &Vec<String>) -> (r: Result<Polar, XfoilError>)
    ensures
        r is Ok <==> report_ok(lines.deep_view()),
        r matches Ok(p) ==> p@.len() == COLUMN_COUNT && (forall|j: int|
            0 <= j < COLUMN_COUNT ==> p@[j] == column_of_rows(
                data_rows(lines.deep_view()),
                j,
            )),
        r matches Err(e) ==> (e matches XfoilError::ParseError { line, token }
            && parse_failure(lines.deep_view(), line as int, token@)),
{
    let ghost lv = lines.deep_view();
    let mut columns: Vec<Vec<String>> = Vec::new();
    let mut c: usize = 0;
    while c < COLUMN_COUNT
        invariant
            c <= COLUMN_COUNT,
            columns@.len() == c,
            forall|jj: int| 0 <= jj < c ==> #[trigger] columns.deep_view()[jj]
                == Seq::<Seq<char>>::empty(),
        decreases COLUMN_COUNT - c,
    {
        let ghost before = columns.deep_view();
        let fresh: Vec<String> = Vec::new();
        columns.push(fresh);
        c = c + 1;
        proof {
            assert(columns.deep_view()[c - 1] =~= Seq::<Seq<char>>::empty());
            assert(forall|jj: int| 0 <= jj < c - 1 ==> #[trigger] columns.deep_view()[jj]
                == before[jj]);
        }
    }

    let n = lines.len();
    let mut i: usize = HEADER_LINES;
    proof {
        assert(seen_rows(lv, HEADER_LINES as int) =~= Seq::<Seq<char>>::empty());
    }
    while i < n
        invariant
            n == lv.len(),
            lv == lines.deep_view(),
            HEADER_LINES <= i,
            i <= n || i == HEADER_LINES,
            columns@.len() == COLUMN_COUNT,
            forall|jj: int| 0 <= jj < COLUMN_COUNT ==> #[trigger] columns.deep_view()[jj]
                == column_of_rows(seen_rows(lv, i as int), jj),
            forall|ii: int| HEADER_LINES <= ii < i ==> row_ok(#[trigger] lv[ii]),
        decreases n - i,
    {
        let line = &lines[i];
        proof {
            assert(line@ == lv[i as int]);
        }
        let toks = split_tokens(line.as_str());
        let ghost tv = toks.deep_view();
        let nt = toks.len();
        proof {
            assert(tv.len() == nt);
        }
        let mut k: usize = 0;
        while k < nt
            invariant
                k <= nt,
                nt == toks@.len(),
                tv == toks.deep_view(),
                tv == tokens_of(lv[i as int]),
                lv == lines.deep_view(),
                n == lv.len(),
                HEADER_LINES <= i < n,
                lv[i as int] == lines.deep_view()[i as int],
                forall|k2: int| 0 <= k2 < k ==> is_number(#[trigger] tv[k2]),
                forall|ii: int| HEADER_LINES <= ii < i ==> row_ok(#[trigger] lv[ii]),
            decreases nt - k,
        {
            if !is_number_token(toks[k].as_str()) {
                let token = toks[k].clone();
                proof {
                    assert(token@ == tv[k as int]);
                    assert(parse_failure(lv, i as int, tv[k as int])) by {
                        assert(0 <= k < tokens_of(lv[i as int]).len()
                            && tv[k as int] == tokens_of(lv[i as int])[k as int]
                            && (forall|k2: int| 0 <= k2 < k ==> is_number(
                                #[trigger] tokens_of(lv[i as int])[k2],
                            )));
                    }
                    assert(!report_ok(lv)) by {
                        if report_ok(lv) {
                            assert(data_rows(lv)[i - HEADER_LINES] == lv[i as int]);
                            assert(row_ok(data_rows(lv)[i - HEADER_LINES]));
                            assert(is_number(tokens_of(lv[i as int])[k as int]));
                        }
                    }
                }
                return Err(XfoilError::ParseError { line: i, token });
            }
            k = k + 1;
        }
        proof {
            assert(row_ok(lv[i as int]));
        }

        let mut j: usize = 0;
        while j < COLUMN_COUNT
            invariant
                j <= COLUMN_COUNT,
                columns@.len() == COLUMN_COUNT,
                nt == toks@.len(),
                tv == toks.deep_view(),
                tv == tokens_of(lv[i as int]),
                HEADER_LINES <= i,
                i < lv.len(),
                forall|jj: int| 0 <= jj < j ==> #[trigger] columns.deep_view()[jj]
                    == column_of_rows(seen_rows(lv, i as int), jj) + row_contrib(lv[i as int], jj),
                forall|jj: int| j <= jj < COLUMN_COUNT ==> #[trigger] columns.deep_view()[jj]
                    == column_of_rows(seen_rows(lv, i as int), jj),
            decreases COLUMN_COUNT - j,
        {
            let ghost before = columns.deep_view();
            if j < nt {
                let tok = toks[j].clone();
                columns[j].push(tok);
                proof {
                    assert(columns.deep_view()[j as int] =~= before[j as int] + seq![tv[j as int]]);
                    assert(row_contrib(lv[i as int], j as int) == seq![tv[j as int]]);
                    assert(forall|jj: int| 0 <= jj < COLUMN_COUNT && jj != j
                        ==> #[trigger] columns.deep_view()[jj] == before[jj]);
                }
            } else {
                proof {
                    assert(row_contrib(lv[i as int], j as int) == Seq::<Seq<char>>::empty());
                    assert(columns.deep_view()[j as int] =~= before[j as int]
                        + row_contrib(lv[i as int], j as int));
                }
            }
            j = j + 1;
        }
        proof {
            assert(seen_rows(lv, i + 1) =~= seen_rows(lv, i as int).push(lv[i as int]));
            assert forall|jj: int| 0 <= jj < COLUMN_COUNT implies #[trigger] columns.deep_view()[jj]
                == column_of_rows(seen_rows(lv, i + 1), jj) by {
                lemma_column_push(seen_rows(lv, i as int), lv[i as int], jj);
            }
        }
        i = i + 1;
    }

    proof {
        assert(seen_rows(lv, i as int) =~= data_rows(lv));
        assert(report_ok(lv)) by {
            assert forall|m: int| 0 <= m < data_rows(lv).len() implies row_ok(
                #[trigger] data_rows(lv)[m],
            ) by {
                assert(data_rows(lv)[m] == lv[m + HEADER_LINES]);
            }
        }
    }
    Ok(Polar { columns })
}

/// A report whose data rows all show at least the known columns fills every
/// column with one value per row, pairing values and columns by position.
pub proof fn lemma_full_rows_columns(rows: Seq<Seq<char>>, j: int)
    requires
        0 <= j < COLUMN_COUNT,
        forall|i: int| 0 <= i < rows.len() ==> tokens_of(#[trigger] rows[i]).len() >= COLUMN_COUNT,
    ensures
        column_of_rows(rows, j).len() == rows.len(),
        forall|i: int| 0 <= i < rows.len() ==> column_of_rows(rows, j)[i] == tokens_of(
            #[trigger] rows[i],
        )[j],
    decreases rows.len(),
{
    if rows.len() > 0 {
        let prefix = rows.drop_last();
        assert(forall|i: int| 0 <= i < prefix.len() ==> tokens_of(#[trigger] prefix[i]).len()
            >= COLUMN_COUNT);
        lemma_full_rows_columns(prefix, j);
        assert(row_contrib(rows.last(), j) == seq![tokens_of(rows.last())[j]]);
        assert forall|i: int| 0 <= i < rows.len() implies column_of_rows(rows, j)[i] == tokens_of(
            #[trigger] rows[i],
        )[j] by {
            if i < rows.len() - 1 {
                assert(prefix[i] == rows[i]);
            } else {
                assert(rows[i] == rows.last());
            }
        }
    }
}

/// A report shorter than its header block has no data rows at all: it
/// parses, and every column comes back empty.
pub proof fn lemma_short_report(lines: Seq<Seq<char>>)
    requires
        lines.len() <= HEADER_LINES,
    ensures
        report_ok(lines),
        forall|j: int| 0 <= j < COLUMN_COUNT ==> #[trigger] column_of_rows(data_rows(lines), j)
            == Seq::<Seq<char>>::empty(),
{
    assert(data_rows(lines) == Seq::<Seq<char>>::empty());
    assert forall|j: int| 0 <= j < COLUMN_COUNT implies #[trigger] column_of_rows(
        data_rows(lines),
        j,
    ) == Seq::<Seq<char>>::empty() by {
        assert(column_of_rows(Seq::empty(), j) == Seq::<Seq<char>>::empty());
    }
}

} // verus!
