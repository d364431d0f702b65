//! Go: the binaries in the go bin directory, read from what
//! `go version -m <dir>` prints about the package and module each was built
//! from.
use vstd::prelude::*;

use super::{arg, at_latest, command_line, command_view, located_or, two, CommandLine};
use crate::model::SourceKind;
use crate::text::{
    chars_of, copy_range, deep, lines, lines_of, same, split, split_on, strip_prefix, string_of,
    trim, trimmed, without_prefix,
};

verus! {

pub struct Go {
    command: String,
}

/// A binary in the go bin directory: the package `go install` takes, the
/// module it belongs to (the one that can be asked for a newer version),
/// and the version it was built at.
#[derive(Debug, Clone, PartialEq, Eq)]
pub struct Binary {
    pub package: String,
    pub module: String,
    pub version: String,
}

pub struct BinaryView {
    pub package: Seq<char>,
    pub module: Seq<char>,
    pub version: Seq<char>,
}

impl View for Binary {
    type V = BinaryView;

    open spec fn view(&self) -> BinaryView {
        BinaryView { package: self.package@, module: self.module@, version: self.version@ }
    }
}

pub open spec fn binary_views(v: Seq<Binary>) -> Seq<BinaryView> {
    v.map_values(|b: Binary| b@)
}

/// `trim_start_matches('v')`.
pub open spec fn without_vs(s: Seq<char>) -> Seq<char>
    decreases s.len(),
{
    if s.len() > 0 && s[0] == 'v' {
        without_vs(s.drop_first())
    } else {
        s
    }
}

/// The tab-separated fields of an indented line, when there are two or more.
pub open spec fn tagged(line: Seq<char>) -> Option<Seq<Seq<char>>> {
    match strip_prefix(line, "\t"@) {
        None => None,
        Some(rest) => {
            let fields = split_on(rest, '\t');
            if fields.len() >= 2 {
                Some(fields)
            } else {
                None
            }
        },
    }
}

/// What reading one line does to the package seen last and the binaries
/// found so far: a `path` row names the package; the `mod` row after it
/// yields a binary unless it was built locally (`(devel)`); any line that is
/// not indented forgets the package.
pub open spec fn scan_step(
    state: (Option<Seq<char>>, Seq<BinaryView>),
    line: Seq<char>,
) -> (Option<Seq<char>>, Seq<BinaryView>) {
    match tagged(line) {
        None => (None, state.1),
        Some(f) => if f.len() == 2 && f[0] == "path"@ {
            (Some(f[1]), state.1)
        } else if f.len() >= 3 && f[0] == "mod"@ {
            match state.0 {
                Some(package) => (
                    None,
                    if f[2] != "(devel)"@ {
                        state.1.push(BinaryView { package, module: f[1], version: without_vs(f[2]) })
                    } else {
                        state.1
                    },
                ),
                None => (None, state.1),
            }
        } else {
            state
        },
    }
}

pub open spec fn scan(ls: Seq<Seq<char>>) -> (Option<Seq<char>>, Seq<BinaryView>)
    decreases ls.len(),
{
    if ls.len() == 0 {
        (None, Seq::empty())
    } else {
        scan_step(scan(ls.drop_last()), ls.last())
    }
}

/// The binaries in what `go version -m` printed.
pub open spec fn listing(stdout: Seq<char>) -> Seq<BinaryView> {
    scan(lines(stdout)).1
}

/// The version `go list -m -f {{.Version}} module@latest` printed, when
/// there is a released one.
pub open spec fn released(reported: Seq<char>) -> Option<Seq<char>> {
    let v = without_vs(trim(reported));
    if v.len() > 0 && v != "(devel)"@ {
        Some(v)
    } else {
        None
    }
}

fn strip_vs(s: &Vec<char>) -> (t: Vec<char>)
    ensures
        t@ == without_vs(s@),
{
    let mut a: usize = 0;
    assert(s@.skip(0) == s@);
    while a < s.len() && s[a] == 'v'
        invariant
            a <= s.len(),
            without_vs(s@) == without_vs(s@.skip(a as int)),
        decreases s.len() - a,
    {
        assert(s@.skip(a as int).drop_first() == s@.skip(a + 1));
        a += 1;
    }
    assert(s@.skip(a as int) == s@.subrange(a as int, s.len() as int));
    copy_range(s, a, s.len())
}

fn tagged_of(line: &Vec<char>) -> (r: Option<Vec<Vec<char>>>)
    ensures
        match r {
            Some(f) => tagged(line@) == Some(deep(f@)),
            None => tagged(line@) is None,
        },
{
    let tab = chars_of("\t");
    match without_prefix(line, &tab) {
        None => None,
        Some(rest) => {
            let fields = split(&rest, '\t');
            if fields.len() >= 2 {
                Some(fields)
            } else {
                None
            }
        },
    }
}

pub fn parse_listing(stdout: &str) -> (r: Vec<Binary>)
    ensures
        binary_views(r@) == listing(stdout@),
{
    let text = chars_of(stdout);
    let ls = lines_of(&text);
    let ghost dl = deep(ls@);
    let path = chars_of("path");
    let module_tag = chars_of("mod");
    let devel = chars_of("(devel)");
    let mut binaries: Vec<Binary> = Vec::new();
    let mut package: Option<Vec<char>> = None;
    let mut i: usize = 0;
    while i < ls.len()
        invariant
            i <= ls.len(),
            dl == deep(ls@),
            path@ == "path"@,
            module_tag@ == "mod"@,
            devel@ == "(devel)"@,
            scan(dl.take(i as int)) == (
                match package {
                    Some(p) => Some(p@),
                    None => None,
                },
                binary_views(binaries@),
            ),
        decreases ls.len() - i,
    {
        assert(dl.take(i + 1).drop_last() == dl.take(i as int));
        let ghost before = binary_views(binaries@);
        match tagged_of(&ls[i]) {
            None => {
                package = None;
            },
            Some(f) => {
                if f.len() == 2 && same(&f[0], &path) {
                    let p = f[1].clone();
                    assert(p@ =~= f@[1]@);
                    package = Some(p);
                } else if f.len() >= 3 && same(&f[0], &module_tag) {
                    match package {
                        Some(p) => {
                            if !same(&f[2], &devel) {
                                let b = Binary {
                                    package: string_of(&p),
                                    module: string_of(&f[1]),
                                    version: string_of(&strip_vs(&f[2])),
                                };
                                binaries.push(b);
                                assert(binary_views(binaries@) == before.push(b@));
                            }
                            package = None;
                        },
                        None => {},
                    }
                }
            },
        }
        i += 1;
    }
    assert(dl.take(ls.len() as int) == dl);
    binaries
}

/// The released version in what `go list -m -f {{.Version}} module@latest`
/// printed.
pub fn latest_release(reported: &str) -> (r: Option<String>)
    ensures
        match r {
            Some(v) => released(reported@) == Some(v@),
            None => released(reported@) is None,
        },
{
    let text = chars_of(reported);
    let v = strip_vs(&trimmed(&text));
    let devel = chars_of("(devel)");
    if v.len() > 0 && !same(&v, &devel) {
        Some(string_of(&v))
    } else {
        None
    }
}

/// Where go puts the binaries it installs, from what `go env GOBIN` and
/// `go env GOPATH` printed, as path components in the order to try: GOBIN as
/// printed, then the `bin` directory under GOPATH. A blank answer gives no
/// candidate.
pub open spec fn bin_candidates_of(gobin: Seq<char>, gopath: Seq<char>) -> Seq<Seq<Seq<char>>> {
    (if trim(gobin).len() > 0 {
        seq![seq![trim(gobin)]]
    } else {
        Seq::empty()
    }) + (if trim(gopath).len() > 0 {
        seq![seq![trim(gopath), "bin"@]]
    } else {
        Seq::empty()
    })
}

pub fn bin_candidates(gobin: &str, gopath: &str) -> (r: Vec<Vec<String>>)
    ensures
        r@.map_values(|p: Vec<String>| super::strings(p@)) == bin_candidates_of(gobin@, gopath@),
{
    let mut r: Vec<Vec<String>> = Vec::new();
    let bin = trimmed(&chars_of(gobin));
    if bin.len() > 0 {
        let mut p: Vec<String> = Vec::new();
        p.push(string_of(&bin));
        assert(super::strings(p@) =~= seq![trim(gobin@)]);
        r.push(p);
    }
    let ghost first = r@.map_values(|p: Vec<String>| super::strings(p@));
    assert(first =~= (if trim(gobin@).len() > 0 {
        seq![seq![trim(gobin@)]]
    } else {
        Seq::<Seq<Seq<char>>>::empty()
    }));
    let path = trimmed(&chars_of(gopath));
    if path.len() > 0 {
        let p = two(string_of(&path), arg("bin"));
        r.push(p);
    }
    assert(r@.map_values(|p: Vec<String>| super::strings(p@)) =~= bin_candidates_of(gobin@, gopath@));
    r
}

impl Go {
    pub fn new(located: Option<String>) -> (r: Result<Go, String>)
        ensures
            match r {
                Ok(s) => located is Some && s.program() == located->0@,
                Err(e) => located is None && e@ == "go was not found on PATH"@,
            },
    {
        let command = located_or(located, "go was not found on PATH")?;
        Ok(Go { command })
    }

    pub closed spec fn program(&self) -> Seq<char> {
        self.command@
    }

    pub fn kind(&self) -> (k: SourceKind)
        ensures
            k == SourceKind::Go,
    {
        SourceKind::Go
    }

    pub fn update_command(&self, name: &str) -> (c: Option<CommandLine>)
        ensures
            c matches Some(c) && c@ == command_view(
                self.program(),
                seq!["install"@, name@ + "@latest"@],
            ),
    {
        Some(command_line(&self.command, two(arg("install"), at_latest(name))))
    }

    /// Go has no uninstall of its own.
    pub fn uninstall_command(&self, name: &str) -> (c: Option<CommandLine>)
        ensures
            c is None,
    {
        None
    }
}

} // verus!
