//! Character-level text handling: the pieces of `str` that the parsers use
//! (`lines`, `split_whitespace`, `trim`, `split`, `split_once`, prefixes and
//! suffixes), each stated as a spec function over `Seq<char>` and carried out
//! by a verified function over `Vec<char>`.
use vstd::prelude::*;

verus! {

broadcast use vstd::seq_lib::group_seq_properties;

/// Unicode `White_Space`, the set that `char::is_whitespace` tests.
pub open spec fn is_ws(c: char) -> bool {
    let n = c as u32;
    ||| (0x9 <= n && n <= 0xd)
    ||| n == 0x20
    ||| n == 0x85
    ||| n == 0xa0
    ||| n == 0x1680
    ||| (0x2000 <= n && n <= 0x200a)
    ||| n == 0x2028
    ||| n == 0x2029
    ||| n == 0x202f
    ||| n == 0x205f
    ||| n == 0x3000
}

pub fn is_whitespace(c: char) -> (b: bool)
    ensures
        b == is_ws(c),
{
    let n = c as u32;
    (0x9 <= n && n <= 0xd) || n == 0x20 || n == 0x85 || n == 0xa0 || n == 0x1680 || (0x2000 <= n
        && n <= 0x200a) || n == 0x2028 || n == 0x2029 || n == 0x202f || n == 0x205f || n == 0x3000
}

/// The characters of a string, in order.
pub fn chars_of(s: &str) -> (v: Vec<char>)
    ensures
        v@ == s@,
{
    let mut v: Vec<char> = Vec::new();
    for c in it: s.chars()
        invariant
            v@ == it.seq().take(it.index() as int),
    {
        v.push(c);
    }
    v
}

/// Collects characters into a `String`.
///
/// Calls `FromIterator<&char> for String` (through `Iterator::collect`),
/// which appends the characters in order; the contract states exactly that.
#[verifier::external_body]
pub(crate) fn string_of(chars: &Vec<char>) -> (s: String)
    ensures
        s@ == chars@,
{
    chars.iter().collect()
}


/// The character views of a sequence of character vectors.
pub open spec fn deep(v: Seq<Vec<char>>) -> Seq<Seq<char>> {
    v.map_values(|x: Vec<char>| x@)
}

/// A copy of `s[start..end]`.
pub fn copy_range(s: &Vec<char>, start: usize, end: usize) -> (t: Vec<char>)
    requires
        start <= end <= s.len(),
    ensures
        t@ == s@.subrange(start as int, end as int),
{
    let mut t: Vec<char> = Vec::new();
    let mut i: usize = start;
    while i < end
        invariant
            start <= i <= end <= s.len(),
            t@ == s@.subrange(start as int, i as int),
        decreases end - i,
    {
        t.push(s[i]);
        i += 1;
    }
    t
}

/// Whether two character vectors hold the same characters.
pub fn same(a: &Vec<char>, b: &Vec<char>) -> (r: bool)
    ensures
        r == (a@ == b@),
{
    if a.len() != b.len() {
        return false;
    }
    let mut i: usize = 0;
    while i < a.len()
        invariant
            a.len() == b.len(),
            i <= a.len(),
            forall|j: int| 0 <= j < i ==> a@[j] == b@[j],
        decreases a.len() - i,
    {
        if a[i] != b[i] {
            return false;
        }
        i += 1;
    }
    assert(a@ =~= b@);
    true
}

/// Whether `s` holds the character `c`.
pub fn has_char(s: &Vec<char>, c: char) -> (r: bool)
    ensures
        r == s@.contains(c),
{
    let mut i: usize = 0;
    while i < s.len()
        invariant
            i <= s.len(),
            forall|j: int| 0 <= j < i ==> s@[j] != c,
        decreases s.len() - i,
    {
        if s[i] == c {
            assert(s@[i as int] == c);
            return true;
        }
        i += 1;
    }
    false
}

// ---------------------------------------------------------------- split

/// `str::split` with a single-character separator, as a sequence of pieces.
pub open spec fn split_on(s: Seq<char>, sep: char) -> Seq<Seq<char>>
    decreases s.len(),
{
    if s.len() == 0 {
        seq![Seq::empty()]
    } else {
        let pre = split_on(s.drop_last(), sep);
        if s.last() == sep {
            pre.push(Seq::empty())
        } else {
            pre.update(pre.len() - 1, pre.last().push(s.last()))
        }
    }
}

pub proof fn lemma_split_on_len(s: Seq<char>, sep: char)
    ensures
        split_on(s, sep).len() >= 1,
    decreases s.len(),
{
    if s.len() > 0 {
        lemma_split_on_len(s.drop_last(), sep);
    }
}

pub fn split(s: &Vec<char>, sep: char) -> (parts: Vec<Vec<char>>)
    ensures
        deep(parts@) == split_on(s@, sep),
{
    let mut parts: Vec<Vec<char>> = Vec::new();
    let mut cur: Vec<char> = Vec::new();
    let mut i: usize = 0;
    while i < s.len()
        invariant
            i <= s.len(),
            deep(parts@).push(cur@) == split_on(s@.take(i as int), sep),
        decreases s.len() - i,
    {
        proof {
            lemma_split_on_len(s@.take(i as int), sep);
            assert(s@.take(i + 1).drop_last() == s@.take(i as int));
        }
        let ghost before = deep(parts@);
        if s[i] == sep {
            parts.push(cur);
            cur = Vec::new();
            assert(deep(parts@) == before.push(split_on(s@.take(i as int), sep).last()));
        } else {
            cur.push(s[i]);
            assert(deep(parts@) == before);
        }
        i += 1;
    }
    assert(s@.take(s.len() as int) == s@);
    let ghost before = deep(parts@);
    parts.push(cur);
    assert(deep(parts@) == before.push(cur@));
    parts
}

// ---------------------------------------------------------------- byte order marks

/// `trim_start_matches('\u{feff}')`: byte order marks removed from the front.
pub open spec fn without_bom(s: Seq<char>) -> Seq<char>
    decreases s.len(),
{
    if s.len() > 0 && s[0] == '\u{feff}' {
        without_bom(s.drop_first())
    } else {
        s
    }
}

/// `s` with its leading byte order marks removed.
pub fn strip_bom(s: &Vec<char>) -> (t: Vec<char>)
    ensures
        t@ == without_bom(s@),
{
    let mut a: usize = 0;
    assert(s@.skip(0) == s@);
    while a < s.len() && s[a] == '\u{feff}'
        invariant
            a <= s.len(),
            without_bom(s@) == without_bom(s@.skip(a as int)),
        decreases s.len() - a,
    {
        assert(s@.skip(a as int).drop_first() == s@.skip(a + 1));
        a += 1;
    }
    assert(s@.skip(a as int) == s@.subrange(a as int, s.len() as int));
    copy_range(s, a, s.len())
}

// ---------------------------------------------------------------- lines

/// A carriage return that ends a line is part of its terminator.
pub open spec fn strip_cr(l: Seq<char>) -> Seq<char> {
    if l.len() > 0 && l.last() == '\r' {
        l.drop_last()
    } else {
        l
    }
}

/// `str::lines`: pieces between `\n`, each piece that a `\n` ended losing a
/// final `\r`, and no empty piece after a final `\n`.
pub open spec fn lines(s: Seq<char>) -> Seq<Seq<char>> {
    let parts = split_on(s, '\n');
    let ended = parts.drop_last().map_values(|l: Seq<char>| strip_cr(l));
    if parts.last().len() == 0 {
        ended
    } else {
        ended.push(parts.last())
    }
}

/// Text without the separator is one piece.
pub proof fn lemma_split_on_whole(a: Seq<char>, c: char)
    requires
        !a.contains(c),
    ensures
        split_on(a, c) == seq![a],
    decreases a.len(),
{
    if a.len() == 0 {
        assert(split_on(a, c) =~= seq![a]);
    } else {
        assert(!a.drop_last().contains(c)) by {
            if a.drop_last().contains(c) {
                let k = choose|k: int| 0 <= k < a.drop_last().len() && a.drop_last()[k] == c;
                assert(a[k] == c);
            }
        }
        lemma_split_on_whole(a.drop_last(), c);
        assert(a.last() != c) by {
            assert(a[a.len() - 1] == a.last());
        }
        assert(a.drop_last().push(a.last()) =~= a);
        assert(split_on(a, c) =~= seq![a]);
    }
}

/// A piece without the separator, then the separator: the piece comes
/// first and the rest splits as it would alone.
pub proof fn lemma_split_on_prefix(a: Seq<char>, c: char, s: Seq<char>)
    requires
        !a.contains(c),
    ensures
        split_on(a + seq![c] + s, c) == seq![a] + split_on(s, c),
    decreases s.len(),
{
    let x = a + seq![c] + s;
    if s.len() == 0 {
        assert(x.drop_last() =~= a);
        assert(x.last() == c);
        lemma_split_on_whole(a, c);
        assert(split_on(s, c) =~= seq![Seq::<char>::empty()]);
        assert(split_on(x, c) =~= seq![a] + split_on(s, c));
    } else {
        assert(x.drop_last() =~= a + seq![c] + s.drop_last());
        assert(x.last() == s.last());
        lemma_split_on_prefix(a, c, s.drop_last());
        lemma_split_on_len(s.drop_last(), c);
        let q = split_on(s.drop_last(), c);
        let pre = seq![a] + q;
        if s.last() == c {
            assert(split_on(x, c) =~= seq![a] + split_on(s, c));
        } else {
            assert(pre.last() == q.last());
            assert(pre.update(pre.len() - 1, pre.last().push(s.last())) =~= seq![a] + q.update(
                q.len() - 1,
                q.last().push(s.last()),
            ));
            assert(split_on(x, c) =~= seq![a] + split_on(s, c));
        }
    }
}

/// A first line ended by `\n` comes first, then the lines of the rest.
pub proof fn lemma_lines_prefix(a: Seq<char>, s: Seq<char>)
    requires
        !a.contains('\n'),
    ensures
        lines(a + seq!['\n'] + s) == seq![strip_cr(a)] + lines(s),
{
    lemma_split_on_prefix(a, '\n', s);
    lemma_split_on_len(s, '\n');
    let q = split_on(s, '\n');
    let parts = seq![a] + q;
    assert(parts.drop_last() =~= seq![a] + q.drop_last());
    assert(parts.last() == q.last());
    assert(parts.drop_last().map_values(|l: Seq<char>| strip_cr(l)) =~= seq![strip_cr(a)]
        + q.drop_last().map_values(|l: Seq<char>| strip_cr(l)));
    if q.last().len() == 0 {
        assert(lines(a + seq!['\n'] + s) =~= seq![strip_cr(a)] + lines(s));
    } else {
        assert(lines(a + seq!['\n'] + s) =~= seq![strip_cr(a)] + lines(s));
    }
}

pub fn lines_of(s: &Vec<char>) -> (ls: Vec<Vec<char>>)
    ensures
        deep(ls@) == lines(s@),
{
    let mut parts = split(s, '\n');
    proof {
        lemma_split_on_len(s@, '\n');
    }
    let ghost all = deep(parts@);
    let last = parts.pop().unwrap();
    assert(deep(parts@) == all.drop_last());
    let mut ls: Vec<Vec<char>> = Vec::new();
    let mut i: usize = 0;
    while i < parts.len()
        invariant
            i <= parts.len(),
            deep(parts@) == all.drop_last(),
            deep(ls@) == all.drop_last().take(i as int).map_values(|l: Seq<char>| strip_cr(l)),
        decreases parts.len() - i,
    {
        let mut l = parts[i].clone();
        assert(l@ =~= parts@[i as int]@);
        if l.len() > 0 && l[l.len() - 1] == '\r' {
            l.pop();
        }
        let ghost before = deep(ls@);
        ls.push(l);
        assert(deep(ls@) == before.push(l@));
        assert(all.drop_last().take(i + 1) == all.drop_last().take(i as int).push(all.drop_last()[i as int]));
        i += 1;
    }
    assert(all.drop_last().take(parts.len() as int) == all.drop_last());
    if last.len() > 0 {
        let ghost before = deep(ls@);
        ls.push(last);
        assert(deep(ls@) == before.push(last@));
    }
    ls
}


// ---------------------------------------------------------------- words

/// `str::split_whitespace`: the maximal runs of characters that are not
/// white space.
pub open spec fn words(s: Seq<char>) -> Seq<Seq<char>>
    decreases s.len(),
{
    if s.len() == 0 {
        Seq::empty()
    } else {
        let w = words(s.drop_last());
        if is_ws(s.last()) {
            w
        } else if s.len() >= 2 && !is_ws(s[s.len() - 2]) {
            w.update(w.len() - 1, w.last().push(s.last()))
        } else {
            w.push(seq![s.last()])
        }
    }
}

pub fn words_of(s: &Vec<char>) -> (ws: Vec<Vec<char>>)
    ensures
        deep(ws@) == words(s@),
{
    let mut ws: Vec<Vec<char>> = Vec::new();
    let mut cur: Vec<char> = Vec::new();
    let mut i: usize = 0;
    while i < s.len()
        invariant
            i <= s.len(),
            cur@.len() > 0 ==> deep(ws@).push(cur@) == words(s@.take(i as int)) && i > 0 && !is_ws(
                s@[i - 1],
            ),
            cur@.len() == 0 ==> deep(ws@) == words(s@.take(i as int)) && (i > 0 ==> is_ws(
                s@[i - 1],
            )),
        decreases s.len() - i,
    {
        assert(s@.take(i + 1).drop_last() == s@.take(i as int));
        let c = s[i];
        let ghost before = deep(ws@);
        if is_whitespace(c) {
            if cur.len() > 0 {
                ws.push(cur);
                cur = Vec::new();
                assert(deep(ws@) == before.push(words(s@.take(i as int)).last()));
            }
        } else {
            cur.push(c);
        }
        i += 1;
    }
    assert(s@.take(s.len() as int) == s@);
    if cur.len() > 0 {
        let ghost before = deep(ws@);
        ws.push(cur);
        assert(deep(ws@) == before.push(cur@));
    }
    ws
}

// ---------------------------------------------------------------- trim

pub open spec fn trim_start(s: Seq<char>) -> Seq<char>
    decreases s.len(),
{
    if s.len() > 0 && is_ws(s[0]) {
        trim_start(s.drop_first())
    } else {
        s
    }
}

pub open spec fn trim_end(s: Seq<char>) -> Seq<char>
    decreases s.len(),
{
    if s.len() > 0 && is_ws(s.last()) {
        trim_end(s.drop_last())
    } else {
        s
    }
}

/// `str::trim`: white space removed from both ends.
pub open spec fn trim(s: Seq<char>) -> Seq<char> {
    trim_end(trim_start(s))
}

pub fn trimmed(s: &Vec<char>) -> (t: Vec<char>)
    ensures
        t@ == trim(s@),
{
    let mut a: usize = 0;
    while a < s.len() && is_whitespace(s[a])
        invariant
            a <= s.len(),
            trim_start(s@) == trim_start(s@.skip(a as int)),
        decreases s.len() - a,
    {
        assert(s@.skip(a as int).drop_first() == s@.skip(a + 1));
        a += 1;
    }
    assert(trim_start(s@) == s@.skip(a as int));
    let mut b: usize = s.len();
    assert(s@.skip(a as int) == s@.subrange(a as int, b as int));
    while b > a && is_whitespace(s[b - 1])
        invariant
            a <= b <= s.len(),
            trim_start(s@) == s@.skip(a as int),
            trim(s@) == trim_end(s@.subrange(a as int, b as int)),
        decreases b - a,
    {
        assert(s@.subrange(a as int, b as int).drop_last() == s@.subrange(a as int, b - 1));
        b -= 1;
    }
    copy_range(s, a, b)
}

// ---------------------------------------------------------------- search

/// `pat` stands in `s` at `i`.
pub open spec fn occurs_at(s: Seq<char>, pat: Seq<char>, i: int) -> bool {
    0 <= i && i + pat.len() <= s.len() && s.subrange(i, i + pat.len()) == pat
}

/// The first place at or after `i` where `pat` stands in `s`.
pub open spec fn find_from(s: Seq<char>, pat: Seq<char>, i: int) -> Option<int>
    decreases s.len() + 1 - i,
{
    if i < 0 || i + pat.len() > s.len() {
        None
    } else if occurs_at(s, pat, i) {
        Some(i)
    } else {
        find_from(s, pat, i + 1)
    }
}

/// `str::find`.
pub open spec fn find(s: Seq<char>, pat: Seq<char>) -> Option<int> {
    find_from(s, pat, 0)
}

/// `str::split_once`: the text before the first `pat` and the text after it.
pub open spec fn split_once(s: Seq<char>, pat: Seq<char>) -> Option<(Seq<char>, Seq<char>)> {
    match find(s, pat) {
        Some(i) => Some((s.take(i), s.skip(i + pat.len()))),
        None => None,
    }
}

pub open spec fn starts_with(s: Seq<char>, pat: Seq<char>) -> bool {
    occurs_at(s, pat, 0)
}

pub open spec fn ends_with(s: Seq<char>, pat: Seq<char>) -> bool {
    occurs_at(s, pat, s.len() - pat.len())
}

/// `str::strip_prefix`.
pub open spec fn strip_prefix(s: Seq<char>, pat: Seq<char>) -> Option<Seq<char>> {
    if starts_with(s, pat) {
        Some(s.skip(pat.len() as int))
    } else {
        None
    }
}

/// `str::strip_suffix`.
pub open spec fn strip_suffix(s: Seq<char>, pat: Seq<char>) -> Option<Seq<char>> {
    if ends_with(s, pat) {
        Some(s.take(s.len() - pat.len()))
    } else {
        None
    }
}

/// The first `c` in `s` stands at `k`, so that is where `find` stops.
pub proof fn lemma_find_char(s: Seq<char>, c: char, k: int)
    requires
        0 <= k < s.len(),
        s[k] == c,
        forall|i: int| 0 <= i < k ==> s[i] != c,
    ensures
        find(s, seq![c]) == Some(k),
{
    lemma_find_char_from(s, c, k, 0);
}

proof fn lemma_find_char_from(s: Seq<char>, c: char, k: int, i: int)
    requires
        0 <= i <= k < s.len(),
        s[k] == c,
        forall|j: int| 0 <= j < k ==> s[j] != c,
    ensures
        find_from(s, seq![c], i) == Some(k),
    decreases k - i,
{
    let pat = seq![c];
    if i == k {
        assert(s.subrange(k, k + 1) =~= pat);
    } else {
        assert(s.subrange(i, i + 1)[0] == s[i]);
        lemma_find_char_from(s, c, k, i + 1);
    }
}

/// Text with no `c` in `a`: the first `c` of `a + [c] + b` is the one
/// between them, so `split_once` gives `a` and `b` back.
pub proof fn lemma_split_once_char(a: Seq<char>, c: char, b: Seq<char>)
    requires
        !a.contains(c),
    ensures
        split_once(a + seq![c] + b, seq![c]) == Some((a, b)),
{
    let s = a + seq![c] + b;
    assert forall|i: int| 0 <= i < a.len() implies s[i] != c by {
        assert(s[i] == a[i]);
    }
    lemma_find_char(s, c, a.len() as int);
    assert(s.take(a.len() as int) =~= a);
    assert(s.skip(a.len() + 1int) =~= b);
}

/// `strip_prefix` gives back what follows the prefix.
pub proof fn lemma_strip_prefix(pre: Seq<char>, rest: Seq<char>)
    ensures
        strip_prefix(pre + rest, pre) == Some(rest),
{
    assert((pre + rest).subrange(0, pre.len() as int) =~= pre);
    assert((pre + rest).skip(pre.len() as int) =~= rest);
}

pub fn occurs(s: &Vec<char>, pat: &Vec<char>, i: usize) -> (r: bool)
    ensures
        r == occurs_at(s@, pat@, i as int),
{
    if i > s.len() || pat.len() > s.len() - i {
        return false;
    }
    let mut j: usize = 0;
    while j < pat.len()
        invariant
            i + pat.len() <= s.len(),
            j <= pat.len(),
            forall|k: int| 0 <= k < j ==> s@[i + k] == pat@[k],
        decreases pat.len() - j,
    {
        if s[i + j] != pat[j] {
            assert(s@.subrange(i as int, i + pat.len())[j as int] != pat@[j as int]);
            return false;
        }
        j += 1;
    }
    assert(s@.subrange(i as int, i + pat.len()) =~= pat@);
    true
}

pub fn find_in(s: &Vec<char>, pat: &Vec<char>) -> (r: Option<usize>)
    ensures
        r matches Some(i) ==> find(s@, pat@) == Some(i as int),
        r matches Some(i) ==> occurs_at(s@, pat@, i as int),
        r is None ==> find(s@, pat@) is None,
{
    let mut i: usize = 0;
    while i <= s.len() && pat.len() <= s.len() - i
        invariant
            find(s@, pat@) == find_from(s@, pat@, i as int),
        decreases s.len() + 1 - i,
    {
        if occurs(s, pat, i) {
            return Some(i);
        }
        if pat.len() == 0 {
            assert(s@.subrange(i as int, i as int) =~= pat@);
        }
        i += 1;
    }
    None
}

pub fn split_once_at(s: &Vec<char>, pat: &Vec<char>) -> (r: Option<(Vec<char>, Vec<char>)>)
    ensures
        r matches Some(p) ==> split_once(s@, pat@) == Some((p.0@, p.1@)),
        r is None ==> split_once(s@, pat@) is None,
{
    let found = find_in(s, pat);
    match found {
        Some(i) => {
            let len = s.len();
            let before = copy_range(s, 0, i);
            let after = copy_range(s, i + pat.len(), len);
            assert(before@ == s@.take(i as int));
            assert(after@ == s@.skip(i + pat.len()));
            Some((before, after))
        },
        None => None,
    }
}

pub fn has_prefix(s: &Vec<char>, pat: &Vec<char>) -> (r: bool)
    ensures
        r == starts_with(s@, pat@),
{
    occurs(s, pat, 0)
}

pub fn without_prefix(s: &Vec<char>, pat: &Vec<char>) -> (r: Option<Vec<char>>)
    ensures
        r matches Some(t) ==> strip_prefix(s@, pat@) == Some(t@),
        r is None ==> strip_prefix(s@, pat@) is None,
{
    if occurs(s, pat, 0) {
        let t = copy_range(s, pat.len(), s.len());
        assert(t@ == s@.skip(pat.len() as int));
        Some(t)
    } else {
        None
    }
}

pub fn without_suffix(s: &Vec<char>, pat: &Vec<char>) -> (r: Option<Vec<char>>)
    ensures
        r matches Some(t) ==> strip_suffix(s@, pat@) == Some(t@),
        r is None ==> strip_suffix(s@, pat@) is None,
{
    if pat.len() <= s.len() && occurs(s, pat, s.len() - pat.len()) {
        let t = copy_range(s, 0, s.len() - pat.len());
        assert(t@ == s@.take(s.len() - pat.len()));
        Some(t)
    } else {
        None
    }
}


// ---------------------------------------------------------------- numbers

/// The digit that stands for `d`, for `d` from 0 to 9.
pub open spec fn digit_char(d: int) -> char {
    if d == 0 {
        '0'
    } else if d == 1 {
        '1'
    } else if d == 2 {
        '2'
    } else if d == 3 {
        '3'
    } else if d == 4 {
        '4'
    } else if d == 5 {
        '5'
    } else if d == 6 {
        '6'
    } else if d == 7 {
        '7'
    } else if d == 8 {
        '8'
    } else {
        '9'
    }
}

/// `n` written in decimal, as `Display` writes an unsigned integer.
pub open spec fn decimal(n: nat) -> Seq<char>
    decreases n,
{
    if n < 10 {
        seq![digit_char(n as int)]
    } else {
        decimal(n / 10).push(digit_char((n % 10) as int))
    }
}

fn digit(d: u64) -> (c: char)
    requires
        d < 10,
    ensures
        c == digit_char(d as int),
{
    if d == 0 {
        '0'
    } else if d == 1 {
        '1'
    } else if d == 2 {
        '2'
    } else if d == 3 {
        '3'
    } else if d == 4 {
        '4'
    } else if d == 5 {
        '5'
    } else if d == 6 {
        '6'
    } else if d == 7 {
        '7'
    } else if d == 8 {
        '8'
    } else {
        '9'
    }
}

/// The decimal digits of `n`.
pub fn decimal_chars(n: u64) -> (v: Vec<char>)
    ensures
        v@ == decimal(n as nat),
    decreases n,
{
    if n < 10 {
        let mut v: Vec<char> = Vec::new();
        v.push(digit(n));
        assert(v@ =~= seq![digit_char(n as int)]);
        v
    } else {
        let mut v = decimal_chars(n / 10);
        v.push(digit(n % 10));
        v
    }
}

/// `n` written in decimal.
pub fn decimal_string(n: u64) -> (s: String)
    ensures
        s@ == decimal(n as nat),
{
    string_of(&decimal_chars(n))
}

/// `s` followed by the character `c`.
pub fn push_char(s: &mut String, c: char)
    ensures
        final(s)@ == old(s)@.push(c),
{
    let mut v: Vec<char> = Vec::new();
    v.push(c);
    let t = string_of(&v);
    assert(old(s)@ + t@ =~= old(s)@.push(c));
    s.append(t.as_str());
}

// ---------------------------------------------------------------- sequences

/// One more element of `xs` through `filter_map`.
pub proof fn lemma_filter_map_step<A, B>(xs: Seq<A>, n: int, f: spec_fn(A) -> Option<B>)
    requires
        0 <= n < xs.len(),
    ensures
        xs.take(n + 1).filter_map(f) == match f(xs[n]) {
            Some(b) => xs.take(n).filter_map(f).push(b),
            None => xs.take(n).filter_map(f),
        },
{
    assert(xs.take(n + 1).drop_last() == xs.take(n));
    assert(xs.take(n + 1).last() == xs[n]);
}

/// `filter_map` over two sequences one after the other.
pub proof fn lemma_filter_map_concat<A, B>(a: Seq<A>, b: Seq<A>, f: spec_fn(A) -> Option<B>)
    ensures
        (a + b).filter_map(f) == a.filter_map(f) + b.filter_map(f),
    decreases b.len(),
{
    if b.len() == 0 {
        assert(a + b =~= a);
        assert(a.filter_map(f) + b.filter_map(f) =~= a.filter_map(f));
    } else {
        lemma_filter_map_concat(a, b.drop_last(), f);
        assert((a + b).drop_last() =~= a + b.drop_last());
        assert((a + b).last() == b.last());
        match f(b.last()) {
            Some(x) => {
                assert(a.filter_map(f) + b.drop_last().filter_map(f).push(x) =~= (a.filter_map(f)
                    + b.drop_last().filter_map(f)).push(x));
            },
            None => {},
        }
    }
}

pub proof fn lemma_take_all<A>(xs: Seq<A>)
    ensures
        xs.take(xs.len() as int) == xs,
{
    assert(xs.take(xs.len() as int) =~= xs);
}


// ---------------------------------------------------------------- order

#[verifier::opaque]
/// The order of `str`'s `Ord`: lexicographic by code point, a proper prefix
/// first. (UTF-8 keeps code point order, so this is the byte order too.)
pub open spec fn precedes(a: Seq<char>, b: Seq<char>) -> bool
    decreases a.len(),
{
    if a.len() == 0 {
        b.len() > 0
    } else if b.len() == 0 {
        false
    } else if a[0] != b[0] {
        a[0] < b[0]
    } else {
        precedes(a.drop_first(), b.drop_first())
    }
}

pub proof fn lemma_precedes_irreflexive(a: Seq<char>)
    ensures
        !precedes(a, a),
    decreases a.len(),
{
    reveal(precedes);
    if a.len() > 0 {
        lemma_precedes_irreflexive(a.drop_first());
    }
}

pub proof fn lemma_precedes_total(a: Seq<char>, b: Seq<char>)
    ensures
        a != b ==> precedes(a, b) || precedes(b, a),
        !(precedes(a, b) && precedes(b, a)),
    decreases a.len(),
{
    reveal(precedes);
    if a.len() > 0 && b.len() > 0 {
        lemma_precedes_total(a.drop_first(), b.drop_first());
        if a[0] == b[0] && a != b {
            assert(a.drop_first() != b.drop_first()) by {
                if a.drop_first() == b.drop_first() {
                    assert(a =~= seq![a[0]] + a.drop_first());
                    assert(b =~= seq![b[0]] + b.drop_first());
                }
            }
        }
    } else if a.len() == 0 && b.len() == 0 {
        assert(a =~= b);
    }
}

pub proof fn lemma_precedes_transitive(a: Seq<char>, b: Seq<char>, c: Seq<char>)
    requires
        precedes(a, b),
        precedes(b, c),
    ensures
        precedes(a, c),
    decreases a.len(),
{
    reveal(precedes);
    if a.len() > 0 && b.len() > 0 && c.len() > 0 {
        if a[0] == b[0] && b[0] == c[0] {
            lemma_precedes_transitive(a.drop_first(), b.drop_first(), c.drop_first());
        }
    }
}

pub fn less(a: &Vec<char>, b: &Vec<char>) -> (r: bool)
    ensures
        r == precedes(a@, b@),
{
    reveal(precedes);
    let mut i: usize = 0;
    assert(a@.skip(0) == a@);
    assert(b@.skip(0) == b@);
    while i < a.len() && i < b.len() && a[i] == b[i]
        invariant
            i <= a.len(),
            i <= b.len(),
            precedes(a@, b@) == precedes(a@.skip(i as int), b@.skip(i as int)),
        decreases a.len() - i,
    {
        reveal(precedes);
        assert(a@.skip(i as int).drop_first() == a@.skip(i + 1));
        assert(b@.skip(i as int).drop_first() == b@.skip(i + 1));
        i += 1;
    }
    if i == a.len() {
        i < b.len()
    } else if i == b.len() {
        false
    } else {
        a[i] < b[i]
    }
}

} // verus!
