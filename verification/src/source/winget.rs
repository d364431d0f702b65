//! winget: the installed programs, read from the table that `winget list`
//! prints. winget is read only: Globlin never updates or removes through it.
use vstd::prelude::*;

use super::{located_or, CommandLine};
use crate::model::{installed_view, installed_views, Installed, InstalledView, SourceKind};
use crate::text::{
    lemma_lines_prefix, strip_cr, chars_of, copy_range, strip_bom, without_bom, deep, lemma_filter_map_step, lemma_take_all, lines, lines_of, string_of, trim,
    trimmed,
};

verus! {

pub struct Winget {
    command: String,
}

/// The column that holds the package's id, the name Globlin keys it by.
pub const ID: usize = 1;

/// A separator is a run of at least this many dashes.
pub const SEPARATOR_WIDTH: usize = 10;

/// The line of dashes under the table's header.
pub open spec fn separator_line(line: Seq<char>) -> bool {
    let t = trim(line);
    t.len() >= SEPARATOR_WIDTH && forall|i: int| 0 <= i < t.len() ==> t[i] == '-'
}

/// The first separator line at or after `i`.
pub open spec fn separator_from(ls: Seq<Seq<char>>, i: int) -> Option<int>
    decreases ls.len() - i,
{
    if i < 0 || i >= ls.len() {
        None
    } else if separator_line(ls[i]) {
        Some(i)
    } else {
        separator_from(ls, i + 1)
    }
}

/// Where the columns of a header start: every non-blank character that
/// opens the line or follows a blank.
pub open spec fn columns(h: Seq<char>) -> Seq<int>
    decreases h.len(),
{
    if h.len() == 0 {
        Seq::empty()
    } else {
        let pre = columns(h.drop_last());
        let i = h.len() - 1;
        if h[i] != ' ' && (i == 0 || h[i - 1] == ' ') {
            pre.push(i)
        } else {
            pre
        }
    }
}

pub open spec fn increasing(v: Seq<int>) -> bool {
    forall|a: int, b: int| 0 <= a < b < v.len() ==> v[a] < v[b]
}

pub open spec fn min(a: int, b: int) -> int {
    if a < b {
        a
    } else {
        b
    }
}

/// The text of column `k` of a row: the characters from its start to the
/// next column's start (or the end of the row), trimmed.
pub open spec fn cell(g: Seq<char>, starts: Seq<int>, k: int) -> Seq<char> {
    let end = if k + 1 < starts.len() {
        starts[k + 1]
    } else {
        g.len() as int
    };
    trim(g.subrange(min(starts[k], g.len() as int), min(end, g.len() as int)))
}

/// A row cut at the header's column starts.
pub open spec fn cells(g: Seq<char>, starts: Seq<int>) -> Seq<Seq<char>> {
    Seq::new(starts.len(), |k: int| cell(g, starts, k))
}

/// The package a row names, keyed by its id, when its name, id and version
/// are all there; the Available column counts only in a table wide enough to
/// have one.
pub open spec fn row_package(row: Seq<Seq<char>>, width: int) -> Option<InstalledView> {
    if row.len() < 4 || row[1].len() == 0 || row[2].len() == 0 || row[0].len() == 0 {
        None
    } else {
        let available = if width >= 5 && row[3].len() > 0 {
            Some(row[3])
        } else {
            None
        };
        Some(installed_view(row[1], row[2], SourceKind::Winget, available))
    }
}

/// What `winget list` printed, as packages: the rows under the first line of
/// dashes, cut where the header above it starts its columns. Output with no
/// header, or a header of fewer than four columns, lists nothing.
pub open spec fn table_packages(stdout: Seq<char>) -> Seq<InstalledView> {
    let ls = lines(without_bom(stdout));
    match separator_from(ls, 0) {
        None => Seq::empty(),
        Some(sep) => if sep == 0 {
            Seq::empty()
        } else {
            let starts = columns(ls[sep - 1]);
            if starts.len() < 4 {
                Seq::empty()
            } else {
                ls.skip(sep + 1).filter_map(
                    |l: Seq<char>| row_package(cells(l, starts), starts.len() as int),
                )
            }
        },
    }
}

proof fn lemma_separator_in_range(ls: Seq<Seq<char>>, i: int)
    ensures
        separator_from(ls, i) matches Some(k) ==> i <= k < ls.len(),
    decreases ls.len() - i,
{
    if 0 <= i < ls.len() && !separator_line(ls[i]) {
        lemma_separator_in_range(ls, i + 1);
    }
}

proof fn lemma_separator_shift(x: Seq<char>, ls: Seq<Seq<char>>, i: int)
    requires
        0 <= i,
    ensures
        separator_from(seq![x] + ls, i + 1) == match separator_from(ls, i) {
            Some(k) => Some(k + 1),
            None => None::<int>,
        },
    decreases ls.len() - i,
{
    let all = seq![x] + ls;
    if i < ls.len() {
        assert(all[i + 1] == ls[i]);
        lemma_separator_shift(x, ls, i + 1);
    }
}

/// A byte order mark before the output changes nothing.
pub proof fn lemma_bom_is_ignored(s: Seq<char>)
    ensures
        table_packages(seq!['\u{feff}'] + s) == table_packages(s),
{
    let t = seq!['\u{feff}'] + s;
    assert(t.drop_first() =~= s);
}

/// A line of progress noise before the table changes nothing: a line that
/// is not a line of dashes and has fewer than four columns, so that it can
/// be neither the separator nor a header. (Neither text may open with a byte
/// order mark: the marks are dropped only at the very start.)
pub proof fn lemma_noise_line_is_ignored(l: Seq<char>, s: Seq<char>)
    requires
        !l.contains('\n'),
        !separator_line(strip_cr(l)),
        columns(strip_cr(l)).len() < 4,
        l.len() == 0 || l[0] != '\u{feff}',
        s.len() == 0 || s[0] != '\u{feff}',
    ensures
        table_packages(l + seq!['\n'] + s) == table_packages(s),
{
    let t = l + seq!['\n'] + s;
    assert(t.len() > 0 && t[0] != '\u{feff}') by {
        if l.len() == 0 {
            assert(t[0] == '\n');
        } else {
            assert(t[0] == l[0]);
        }
    }
    assert(without_bom(t) == t);
    assert(without_bom(s) == s);
    lemma_lines_prefix(l, s);
    let x = strip_cr(l);
    let ls = lines(s);
    let all = seq![x] + ls;
    assert(lines(t) == all);
    lemma_separator_shift(x, ls, 0);
    lemma_separator_in_range(ls, 0);
    assert(all[0] == x);
    assert(separator_from(all, 0) == separator_from(all, 1));
    match separator_from(ls, 0) {
        None => {},
        Some(k) => {
            if k == 0 {
                assert(all[0] == x);
            } else {
                assert(all[k] == ls[k - 1]);
                assert(all.skip(k + 2) =~= ls.skip(k + 1));
            }
        },
    }
}

pub proof fn lemma_columns(h: Seq<char>)
    ensures
        increasing(columns(h)),
        forall|k: int| 0 <= k < columns(h).len() ==> 0 <= #[trigger] columns(h)[k] < h.len(),
    decreases h.len(),
{
    if h.len() > 0 {
        lemma_columns(h.drop_last());
    }
}

fn is_separator(line: &Vec<char>) -> (r: bool)
    ensures
        r == separator_line(line@),
{
    let t = trimmed(line);
    if t.len() < SEPARATOR_WIDTH {
        return false;
    }
    let mut i: usize = 0;
    while i < t.len()
        invariant
            i <= t.len(),
            t@ == trim(line@),
            t.len() >= SEPARATOR_WIDTH,
            forall|j: int| 0 <= j < i ==> t@[j] == '-',
        decreases t.len() - i,
    {
        if t[i] != '-' {
            assert(t@[i as int] != '-');
            return false;
        }
        i += 1;
    }
    true
}

fn column_starts(header: &Vec<char>) -> (starts: Vec<usize>)
    ensures
        starts@.len() == columns(header@).len(),
        forall|k: int| 0 <= k < starts@.len() ==> starts@[k] as int == columns(header@)[k],
{
    let mut starts: Vec<usize> = Vec::new();
    let mut previous_blank = true;
    let mut i: usize = 0;
    while i < header.len()
        invariant
            i <= header.len(),
            previous_blank == (i == 0 || header@[i - 1] == ' '),
            starts@.len() == columns(header@.take(i as int)).len(),
            forall|k: int|
                0 <= k < starts@.len() ==> starts@[k] as int == columns(header@.take(i as int))[k],
        decreases header.len() - i,
    {
        assert(header@.take(i + 1).drop_last() == header@.take(i as int));
        if header[i] == ' ' {
            previous_blank = true;
        } else {
            if previous_blank {
                starts.push(i);
            }
            previous_blank = false;
        }
        i += 1;
    }
    assert(header@.take(header.len() as int) == header@);
    starts
}

fn split_row(line: &Vec<char>, starts: &Vec<usize>) -> (row: Vec<Vec<char>>)
    requires
        increasing(starts@.map_values(|x: usize| x as int)),
    ensures
        deep(row@) == cells(line@, starts@.map_values(|x: usize| x as int)),
{
    let ghost s = starts@.map_values(|x: usize| x as int);
    let mut row: Vec<Vec<char>> = Vec::new();
    let mut k: usize = 0;
    while k < starts.len()
        invariant
            k <= starts.len(),
            s == starts@.map_values(|x: usize| x as int),
            increasing(s),
            deep(row@) == cells(line@, s).take(k as int),
        decreases starts.len() - k,
    {
        let len = line.len();
        let end = if k + 1 < starts.len() {
            starts[k + 1]
        } else {
            len
        };
        let a = if starts[k] < len {
            starts[k]
        } else {
            len
        };
        let b = if end < len {
            end
        } else {
            len
        };
        proof {
            if k + 1 < starts.len() {
                assert(s[k as int] < s[k + 1]);
            }
        }
        let piece = copy_range(line, a, b);
        let c = trimmed(&piece);
        let ghost before = deep(row@);
        row.push(c);
        assert(deep(row@) == before.push(c@));
        assert(c@ == cell(line@, s, k as int));
        assert(cells(line@, s).take(k + 1) == cells(line@, s).take(k as int).push(
            cell(line@, s, k as int),
        ));
        k += 1;
    }
    assert(cells(line@, s).take(starts.len() as int) == cells(line@, s));
    row
}

fn to_installed(row: &Vec<Vec<char>>, width: usize) -> (r: Option<Installed>)
    ensures
        match r {
            Some(i) => row_package(deep(row@), width as int) == Some(i@),
            None => row_package(deep(row@), width as int) is None,
        },
{
    if row.len() < 4 || row[1].len() == 0 || row[2].len() == 0 || row[0].len() == 0 {
        return None;
    }
    let available = if width >= 5 && row[3].len() > 0 {
        Some(string_of(&row[3]))
    } else {
        None
    };
    let item = Installed::from_chars(&row[1], &row[2], SourceKind::Winget);
    let item = item.with_available(available);
    Some(item)
}

/// The packages in what `winget list` printed.
pub fn parse_table(stdout: &str) -> (r: Vec<Installed>)
    ensures
        installed_views(r@) == table_packages(stdout@),
{
    let all = chars_of(stdout);
    let body = strip_bom(&all);
    let ls = lines_of(&body);
    let ghost dl = deep(ls@);
    let mut sep: usize = 0;
    while sep < ls.len() && !is_separator(&ls[sep])
        invariant
            sep <= ls.len(),
            dl == deep(ls@),
            separator_from(dl, 0) == separator_from(dl, sep as int),
        decreases ls.len() - sep,
    {
        sep += 1;
    }
    let mut out: Vec<Installed> = Vec::new();
    if sep == ls.len() || sep == 0 {
        return out;
    }
    let starts = column_starts(&ls[sep - 1]);
    if starts.len() < 4 {
        return out;
    }
    let ghost s = starts@.map_values(|x: usize| x as int);
    proof {
        lemma_columns(dl[sep - 1]);
        assert(s == columns(dl[sep - 1]));
    }
    let ghost rows = dl.skip(sep + 1);
    let ghost f = |l: Seq<char>| row_package(cells(l, s), s.len() as int);
    let mut k: usize = sep + 1;
    while k < ls.len()
        invariant
            sep + 1 <= k <= ls.len(),
            dl == deep(ls@),
            rows == dl.skip(sep + 1),
            s == starts@.map_values(|x: usize| x as int),
            increasing(s),
            f == (|l: Seq<char>| row_package(cells(l, s), s.len() as int)),
            installed_views(out@) == rows.take(k - (sep + 1)).filter_map(f),
        decreases ls.len() - k,
    {
        let row = split_row(&ls[k], &starts);
        let item = to_installed(&row, starts.len());
        proof {
            lemma_filter_map_step(rows, k - (sep + 1), f);
            assert(rows[k - (sep + 1)] == dl[k as int]);
        }
        match item {
            Some(i) => {
                let ghost before = installed_views(out@);
                out.push(i);
                assert(installed_views(out@) == before.push(i@));
            },
            None => {},
        }
        k += 1;
    }
    proof {
        lemma_take_all(rows);
    }
    out
}

impl Winget {
    pub fn new(located: Option<String>) -> (r: Result<Winget, String>)
        ensures
            match r {
                Ok(w) => located is Some && w.program() == located->0@,
                Err(e) => located is None && e@ == "winget was not found on PATH"@,
            },
    {
        let command = located_or(located, "winget was not found on PATH")?;
        Ok(Winget { command })
    }

    pub closed spec fn program(&self) -> Seq<char> {
        self.command@
    }

    pub fn kind(&self) -> (k: SourceKind)
        ensures
            k == SourceKind::Winget,
    {
        SourceKind::Winget
    }

    /// winget packages are listed, never updated from Globlin.
    pub fn update_command(&self, name: &str) -> (c: Option<CommandLine>)
        ensures
            c is None,
    {
        None
    }

    /// winget packages are listed, never removed from Globlin.
    pub fn uninstall_command(&self, name: &str) -> (c: Option<CommandLine>)
        ensures
            c is None,
    {
        None
    }
}


// ------------------------------------------------------------------ row laws

/// A row whose name, id and version cells are all filled is a package,
/// keyed by its id at that version, whatever the cells after them hold; it
/// offers the Available cell as its upgrade when the table has that column
/// and the cell is filled, and no upgrade otherwise. A row missing any of
/// the three is no package.
pub proof fn lemma_filled_row_is_a_package(row: Seq<Seq<char>>, width: int)
    requires
        row.len() >= 4,
    ensures
        (row[0].len() > 0 && row[1].len() > 0 && row[2].len() > 0) ==> (row_package(row, width)
            matches Some(p) && p.name == row[1] && p.version == row[2] && p.source
            == SourceKind::Winget && p.available == if width >= 5 && row[3].len() > 0 {
            Some(row[3])
        } else {
            None
        }),
        (row[0].len() == 0 || row[1].len() == 0 || row[2].len() == 0) ==> row_package(row, width)
            is None,
{
}

/// The Source column is never read: a row reads the same whatever its last
/// cell holds, blank included (winget leaves it blank for programs it did
/// not install).
pub proof fn lemma_source_cell_is_not_read(row: Seq<Seq<char>>, width: int, v: Seq<char>)
    requires
        row.len() >= 5,
    ensures
        row_package(row.update(row.len() - 1, v), width) == row_package(row, width),
{
    let other = row.update(row.len() - 1, v);
    assert(other[0] == row[0] && other[1] == row[1] && other[2] == row[2] && other[3] == row[3]);
}

} // verus!
