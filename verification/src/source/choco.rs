//! Chocolatey: the packages `choco list -r` prints as `name|version`, with
//! the upgrades `choco outdated -r` reports as `name|current|available|pinned`.
//! Chocolatey is read only: Globlin never updates or removes through it.
use vstd::prelude::*;

use super::{
    arg, collect_lines, collect_pairs, located_or, offer_all, offered, opt_installed, opt_pair,
    pair_views, strings, three, two, CommandLine,
};
use crate::model::{installed_view, installed_views, Installed, InstalledView, SourceKind};
use crate::text::{
    chars_of, lines, lines_of, same, split, split_on, trim, trimmed,
};

verus! {

pub struct Choco {
    command: String,
}

/// Chocolatey before this major version lists remote packages unless told
/// `--local-only`.
pub const LOCAL_ONLY_UNTIL: u64 = 2;

/// The `|`-separated fields of a line whose first two are present.
pub open spec fn fields(line: Seq<char>) -> Option<Seq<Seq<char>>> {
    let row = split_on(trim(line), '|');
    if row.len() >= 2 && row[0].len() > 0 && row[1].len() > 0 {
        Some(row)
    } else {
        None
    }
}

pub open spec fn listed(line: Seq<char>) -> Option<InstalledView> {
    match fields(line) {
        Some(row) => if row.len() == 2 {
            Some(installed_view(row[0], row[1], SourceKind::Choco, None))
        } else {
            None
        },
        None => None,
    }
}

/// An outdated row whose available version differs from the installed one.
pub open spec fn outdated_row(line: Seq<char>) -> Option<(Seq<char>, Seq<char>)> {
    match fields(line) {
        Some(row) => if row.len() >= 3 && row[1] != row[2] {
            Some((row[0], row[2]))
        } else {
            None
        },
        None => None,
    }
}

pub open spec fn listing(raw: Seq<char>) -> Seq<InstalledView> {
    lines(raw).filter_map(|l: Seq<char>| listed(l))
}

pub open spec fn upgrades(raw: Seq<char>) -> Seq<(Seq<char>, Seq<char>)> {
    lines(raw).filter_map(|l: Seq<char>| outdated_row(l))
}

/// The listing with the upgrade the outdated report offers; a package the
/// report does not name is not behind.
pub open spec fn merged(listing_out: Seq<char>, outdated: Seq<char>) -> Seq<InstalledView> {
    listing(listing_out).map_values(|i: InstalledView| offered(i, upgrades(outdated)))
}

pub open spec fn is_digit(c: char) -> bool {
    '0' <= c && c <= '9'
}

pub open spec fn digits_value(s: Seq<char>) -> nat
    decreases s.len(),
{
    if s.len() == 0 {
        0
    } else {
        digits_value(s.drop_last()) * 10 + (s.last() as nat - '0' as nat) as nat
    }
}

pub open spec fn all_digits(d: Seq<char>) -> bool {
    forall|i: int| 0 <= i < d.len() ==> is_digit(#[trigger] d[i])
}

/// One or more decimal digits whose value fits in 64 bits.
pub open spec fn unsigned(d: Seq<char>) -> Option<u64> {
    if d.len() > 0 && all_digits(d) && digits_value(d) <= u64::MAX {
        Some(digits_value(d) as u64)
    } else {
        None
    }
}

/// `u64::from_str`: an optional `+`, then one or more decimal digits whose
/// value fits in 64 bits.
pub open spec fn parse_u64(s: Seq<char>) -> Option<u64> {
    if s.len() > 0 && s[0] == '+' {
        unsigned(s.drop_first())
    } else {
        unsigned(s)
    }
}

/// The major version in what `choco --version` printed: the first
/// dot-separated part of its last line.
pub open spec fn major_of(raw: Seq<char>) -> Option<u64> {
    let ls = lines(trim(raw));
    if ls.len() == 0 {
        None
    } else {
        parse_u64(split_on(trim(ls.last()), '.')[0])
    }
}

/// The arguments that list what is installed locally.
pub open spec fn list_args(version_output: Seq<char>) -> Seq<Seq<char>> {
    let major = match major_of(version_output) {
        Some(m) => m,
        None => LOCAL_ONLY_UNTIL,
    };
    if major < LOCAL_ONLY_UNTIL {
        seq!["list"@, "-r"@, "--local-only"@]
    } else {
        seq!["list"@, "-r"@]
    }
}

proof fn lemma_digits_grow(s: Seq<char>, n: int)
    requires
        0 <= n <= s.len(),
        forall|i: int| 0 <= i < s.len() ==> is_digit(#[trigger] s[i]),
    ensures
        digits_value(s.take(n)) <= digits_value(s),
    decreases s.len(),
{
    if n < s.len() {
        assert(s.drop_last().take(n) == s.take(n));
        lemma_digits_grow(s.drop_last(), n);
    } else {
        assert(s.take(n) == s);
    }
}

/// `u64::from_str` on characters.
pub fn parse_number(s: &Vec<char>) -> (r: Option<u64>)
    ensures
        r == parse_u64(s@),
{
    let mut i: usize = 0;
    if s.len() > 0 && s[0] == '+' {
        i = 1;
    }
    let ghost d = if s@.len() > 0 && s@[0] == '+' {
        s@.drop_first()
    } else {
        s@
    };
    assert(d == s@.skip(i as int));
    if i == s.len() {
        return None;
    }
    let mut value: u64 = 0;
    let mut k: usize = i;
    while k < s.len()
        invariant
            i <= k <= s.len(),
            d == s@.skip(i as int),
            d == (if s@.len() > 0 && s@[0] == '+' {
                s@.drop_first()
            } else {
                s@
            }),
            forall|j: int| i <= j < k ==> is_digit(#[trigger] s@[j]),
            value == digits_value(s@.subrange(i as int, k as int)),
        decreases s.len() - k,
    {
        let c = s[k];
        if !('0' <= c && c <= '9') {
            assert(d[k - i] == s@[k as int]);
            assert(!is_digit(d[k - i]));
            assert(!all_digits(d));
            return None;
        }
        assert(s@.subrange(i as int, k + 1).drop_last() == s@.subrange(i as int, k as int));
        let digit = (c as u32 - '0' as u32) as u64;
        if value > (u64::MAX - digit) / 10 {
            proof {
                assert forall|j: int| 0 <= j < k + 1 - i implies is_digit(
                    #[trigger] s@.subrange(i as int, k + 1)[j],
                ) by {
                    assert(s@.subrange(i as int, k + 1)[j] == s@[i + j]);
                }
                assert(digits_value(s@.subrange(i as int, k + 1)) > u64::MAX) by (nonlinear_arith)
                    requires
                        value > (u64::MAX - digit) / 10,
                        digit <= 9,
                        digits_value(s@.subrange(i as int, k + 1)) == value * 10 + digit,
                ;
                if all_digits(d) {
                    assert(d.take(k + 1 - i) =~= s@.subrange(i as int, k + 1));
                    lemma_digits_grow(d, k + 1 - i);
                    assert(digits_value(d) > u64::MAX);
                }
            }
            return None;
        }
        value = value * 10 + digit;
        k += 1;
    }
    assert(s@.subrange(i as int, s.len() as int) == d);
    Some(value)
}

pub fn major_version(raw: &str) -> (r: Option<u64>)
    ensures
        r == major_of(raw@),
{
    let text = chars_of(raw);
    let ls = lines_of(&trimmed(&text));
    if ls.len() == 0 {
        return None;
    }
    let last = trimmed(&ls[ls.len() - 1]);
    let parts = split(&last, '.');
    proof {
        crate::text::lemma_split_on_len(last@, '.');
    }
    parse_number(&parts[0])
}

/// The arguments that list what Chocolatey has installed, given what
/// `choco --version` printed: Chocolatey 1 needs `--local-only`; an unknown
/// version is taken to be a current one.
pub fn list_arguments(version_output: &str) -> (r: Vec<String>)
    ensures
        strings(r@) == list_args(version_output@),
{
    let major = match major_version(version_output) {
        Some(m) => m,
        None => LOCAL_ONLY_UNTIL,
    };
    if major < LOCAL_ONLY_UNTIL {
        three(arg("list"), arg("-r"), arg("--local-only"))
    } else {
        two(arg("list"), arg("-r"))
    }
}

fn fields_of(line: &Vec<char>) -> (r: Option<Vec<Vec<char>>>)
    ensures
        match r {
            Some(row) => fields(line@) == Some(crate::text::deep(row@)),
            None => fields(line@) is None,
        },
{
    let row = split(&trimmed(line), '|');
    if row.len() >= 2 && row[0].len() > 0 && row[1].len() > 0 {
        Some(row)
    } else {
        None
    }
}

fn listed_line(line: &Vec<char>) -> (r: Option<Installed>)
    ensures
        opt_installed(r) == listed(line@),
{
    match fields_of(line) {
        Some(row) => if row.len() == 2 {
            Some(Installed::from_chars(&row[0], &row[1], SourceKind::Choco))
        } else {
            None
        },
        None => None,
    }
}

fn outdated_line(line: &Vec<char>) -> (r: Option<(Vec<char>, Vec<char>)>)
    ensures
        opt_pair(r) == outdated_row(line@),
{
    match fields_of(line) {
        Some(row) => if row.len() >= 3 && !same(&row[1], &row[2]) {
            let name = row[0].clone();
            let available = row[2].clone();
            assert(name@ =~= row@[0]@);
            assert(available@ =~= row@[2]@);
            Some((name, available))
        } else {
            None
        },
        None => None,
    }
}

pub fn parse_listing(raw: &str) -> (r: Vec<Installed>)
    ensures
        installed_views(r@) == listing(raw@),
{
    let text = chars_of(raw);
    let ls = lines_of(&text);
    collect_lines(&ls, listed_line, Ghost(|l: Seq<char>| listed(l)))
}

pub fn parse_outdated(raw: &str) -> (r: Vec<(Vec<char>, Vec<char>)>)
    ensures
        pair_views(r@) == upgrades(raw@),
{
    let text = chars_of(raw);
    let ls = lines_of(&text);
    collect_pairs(&ls, outdated_line, Ghost(|l: Seq<char>| outdated_row(l)))
}

pub fn merge(listing_out: &str, outdated: &str) -> (r: Vec<Installed>)
    ensures
        installed_views(r@) == merged(listing_out@, outdated@),
{
    let items = parse_listing(listing_out);
    let u = parse_outdated(outdated);
    offer_all(items, &u)
}

impl Choco {
    pub fn new(located: Option<String>) -> (r: Result<Choco, String>)
        ensures
            match r {
                Ok(s) => located is Some && s.program() == located->0@,
                Err(e) => located is None && e@ == "choco was not found on PATH"@,
            },
    {
        let command = located_or(located, "choco was not found on PATH")?;
        Ok(Choco { command })
    }

    pub closed spec fn program(&self) -> Seq<char> {
        self.command@
    }

    pub fn kind(&self) -> (k: SourceKind)
        ensures
            k == SourceKind::Choco,
    {
        SourceKind::Choco
    }

    /// Chocolatey packages are listed, never updated from Globlin.
    pub fn update_command(&self, name: &str) -> (c: Option<CommandLine>)
        ensures
            c is None,
    {
        None
    }

    /// Chocolatey packages are listed, never removed from Globlin.
    pub fn uninstall_command(&self, name: &str) -> (c: Option<CommandLine>)
        ensures
            c is None,
    {
        None
    }
}

} // verus!
