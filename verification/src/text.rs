//! Character-level string utilities with their specifications.
//!
//! The specifications follow the documented behaviour of the `str` methods
//! they stand for (`trim`, `lines`, `split`, `starts_with`, `contains`,
//! `replace`, `join`); the functions work on the characters of a string.

use vstd::prelude::*;

verus! {

// ---------------------------------------------------------------------------
// Conversions between strings and character vectors
// ---------------------------------------------------------------------------

/// The characters of `s`, in order.
pub fn chars_of(s: &str) -> (res: Vec<char>)
    ensures
        res@ == s@,
{
    let n = s.unicode_len();
    let mut res: Vec<char> = Vec::new();
    let mut i: usize = 0;
    while i < n
        invariant
            n == s@.len(),
            i <= n,
            res@ == s@.subrange(0, i as int),
        decreases n - i,
    {
        res.push(s.get_char(i));
        i = i + 1;
    }
    res
}

/// Appends one character to a string: `String::push`, which the standard
/// library documents as appending the given `char` to the end of the string.
#[verifier::external_body]
pub(crate) fn push_char(s: &mut String, c: char)
    ensures
        final(s)@ == old(s)@.push(c),
{
    s.push(c);
}

/// Appends the characters of `v` to `s`.
pub fn push_chars(s: &mut String, v: &[char])
    ensures
        final(s)@ == old(s)@ + v@,
{
    let ghost start = s@;
    let mut i: usize = 0;
    while i < v.len()
        invariant
            i <= v@.len(),
            s@ == start + v@.subrange(0, i as int),
        decreases v@.len() - i,
    {
        push_char(s, v[i]);
        proof {
            assert(v@.subrange(0, i + 1) == v@.subrange(0, i as int).push(v@[i as int]));
        }
        i = i + 1;
    }
    proof {
        assert(v@.subrange(0, v@.len() as int) == v@);
    }
}

/// The string whose characters are those of `v`.
pub fn string_of(v: &[char]) -> (res: String)
    ensures
        res@ == v@,
{
    let mut res = String::new();
    push_chars(&mut res, v);
    res
}

/// The concatenation of `a` and `b`.
pub fn concat(a: &str, b: &str) -> (res: String)
    ensures
        res@ == a@ + b@,
{
    let mut res = String::from_str(a);
    res.append(b);
    res
}

/// Character-wise equality of two strings.
pub fn str_eq(a: &str, b: &str) -> (res: bool)
    ensures
        res == (a@ == b@),
{
    let n = a.unicode_len();
    if n != b.unicode_len() {
        return false;
    }
    let mut i: usize = 0;
    while i < n
        invariant
            n == a@.len(),
            n == b@.len(),
            i <= n,
            a@.subrange(0, i as int) == b@.subrange(0, i as int),
        decreases n - i,
    {
        if a.get_char(i) != b.get_char(i) {
            return false;
        }
        proof {
            assert(a@.subrange(0, i + 1) == a@.subrange(0, i as int).push(a@[i as int]));
            assert(b@.subrange(0, i + 1) == b@.subrange(0, i as int).push(b@[i as int]));
        }
        i = i + 1;
    }
    proof {
        assert(a@.subrange(0, n as int) == a@);
        assert(b@.subrange(0, n as int) == b@);
    }
    true
}

/// The characters of `v` from position `i` on.
pub fn skip_chars(v: &[char], i: usize) -> (res: Vec<char>)
    requires
        i <= v@.len(),
    ensures
        res@ == v@.skip(i as int),
{
    let n = v.len();
    let mut res: Vec<char> = Vec::new();
    let mut j: usize = i;
    while j < n
        invariant
            n == v@.len(),
            i <= j <= n,
            res@ == v@.subrange(i as int, j as int),
        decreases n - j,
    {
        res.push(v[j]);
        proof {
            assert(v@.subrange(i as int, j + 1) == v@.subrange(i as int, j as int).push(v@[j as int]));
        }
        j = j + 1;
    }
    proof {
        assert(v@.subrange(i as int, n as int) == v@.skip(i as int));
    }
    res
}

// ---------------------------------------------------------------------------
// Whitespace and trimming
// ---------------------------------------------------------------------------

/// The characters with the Unicode property `White_Space`, which is what
/// `char::is_whitespace` and `str::trim` go by.
pub open spec fn is_white_space(c: char) -> bool {
    let u = c as u32;
    ||| (0x9 <= u && u <= 0xd)
    ||| u == 0x20
    ||| u == 0x85
    ||| u == 0xa0
    ||| u == 0x1680
    ||| (0x2000 <= u && u <= 0x200a)
    ||| u == 0x2028
    ||| u == 0x2029
    ||| u == 0x202f
    ||| u == 0x205f
    ||| u == 0x3000
}

/// Whether `c` is Unicode white space.
pub fn white_space(c: char) -> (res: bool)
    ensures
        res == is_white_space(c),
{
    let u = c as u32;
    (0x9 <= u && u <= 0xd) || u == 0x20 || u == 0x85 || u == 0xa0 || u == 0x1680 || (0x2000 <= u
        && u <= 0x200a) || u == 0x2028 || u == 0x2029 || u == 0x202f || u == 0x205f || u == 0x3000
}

/// `s` without its leading white space.
pub open spec fn trim_start(s: Seq<char>) -> Seq<char>
    decreases s.len(),
{
    if s.len() > 0 && is_white_space(s[0]) {
        trim_start(s.drop_first())
    } else {
        s
    }
}

/// `s` without its trailing white space.
pub open spec fn trim_end(s: Seq<char>) -> Seq<char>
    decreases s.len(),
{
    if s.len() > 0 && is_white_space(s.last()) {
        trim_end(s.drop_last())
    } else {
        s
    }
}

/// `s` without leading and trailing white space (`str::trim`).
pub open spec fn trim(s: Seq<char>) -> Seq<char> {
    trim_end(trim_start(s))
}

proof fn lemma_trim_start_skip(s: Seq<char>, i: int)
    requires
        0 <= i <= s.len(),
        forall|j: int| 0 <= j < i ==> is_white_space(#[trigger] s[j]),
    ensures
        trim_start(s) == trim_start(s.skip(i)),
    decreases i,
{
    if i > 0 {
        assert(is_white_space(s[0]));
        assert(s.drop_first().skip(i - 1) == s.skip(i));
        assert forall|j: int| 0 <= j < i - 1 implies is_white_space(#[trigger] s.drop_first()[j]) by {
            assert(s.drop_first()[j] == s[j + 1]);
        }
        lemma_trim_start_skip(s.drop_first(), i - 1);
    } else {
        assert(s.skip(0) == s);
    }
}

proof fn lemma_trim_end_take(s: Seq<char>, k: int)
    requires
        0 <= k <= s.len(),
        forall|j: int| k <= j < s.len() ==> is_white_space(#[trigger] s[j]),
    ensures
        trim_end(s) == trim_end(s.take(k)),
    decreases s.len() - k,
{
    if k < s.len() {
        assert(s.drop_last().take(k) == s.take(k));
        lemma_trim_end_take(s.drop_last(), k);
    } else {
        assert(s.take(k) == s);
    }
}

/// Trims white space from both ends of a character sequence.
pub fn trim_chars(s: &[char]) -> (res: Vec<char>)
    ensures
        res@ == trim(s@),
{
    let n = s.len();
    let mut i: usize = 0;
    while i < n && white_space(s[i])
        invariant
            n == s@.len(),
            i <= n,
            forall|j: int| 0 <= j < i ==> is_white_space(#[trigger] s@[j]),
        decreases n - i,
    {
        i = i + 1;
    }
    proof {
        lemma_trim_start_skip(s@, i as int);
        if i < n {
            assert(!is_white_space(s@.skip(i as int)[0]));
        }
        assert(trim_start(s@.skip(i as int)) == s@.skip(i as int));
    }
    let mut k: usize = n;
    while k > i && white_space(s[k - 1])
        invariant
            n == s@.len(),
            i <= k <= n,
            forall|j: int| k <= j < n ==> is_white_space(#[trigger] s@[j]),
        decreases k,
    {
        k = k - 1;
    }
    let ghost t = s@.skip(i as int);
    proof {
        assert forall|j: int| k - i <= j < t.len() implies is_white_space(#[trigger] t[j]) by {
            assert(t[j] == s@[j + i]);
        }
        lemma_trim_end_take(t, k - i);
        let u = t.take(k - i);
        if k > i {
            assert(u.last() == s@[k - 1]);
        }
        assert(trim_end(u) == u);
        assert(u == s@.subrange(i as int, k as int));
    }
    let mut res: Vec<char> = Vec::new();
    let mut j: usize = i;
    while j < k
        invariant
            n == s@.len(),
            i <= j <= k <= n,
            res@ == s@.subrange(i as int, j as int),
        decreases k - j,
    {
        res.push(s[j]);
        proof {
            assert(s@.subrange(i as int, j + 1) == s@.subrange(i as int, j as int).push(s@[j as int]));
        }
        j = j + 1;
    }
    res
}

/// `str::trim`: the string without leading and trailing white space.
pub fn trim_str(s: &str) -> (res: String)
    ensures
        res@ == trim(s@),
{
    let cs = chars_of(s);
    let t = trim_chars(&cs);
    string_of(&t)
}


// ---------------------------------------------------------------------------
// Prefixes and substrings
// ---------------------------------------------------------------------------

/// `p` is a prefix of `s` (`str::starts_with`).
pub open spec fn has_prefix(s: Seq<char>, p: Seq<char>) -> bool {
    p.len() <= s.len() && s.take(p.len() as int) == p
}

/// `p` occurs in `s` at position `i`.
pub open spec fn occurs_at(s: Seq<char>, p: Seq<char>, i: int) -> bool {
    0 <= i && i + p.len() <= s.len() && s.subrange(i, i + p.len()) == p
}

/// `p` occurs somewhere in `s` (`str::contains`).
pub open spec fn has_infix(s: Seq<char>, p: Seq<char>) -> bool {
    exists|i: int| occurs_at(s, p, i)
}

/// Whether `p` occurs in `s` at position `i`.
pub fn matches_at(s: &[char], p: &[char], i: usize) -> (res: bool)
    ensures
        res == occurs_at(s@, p@, i as int),
{
    if i > s.len() || p.len() > s.len() - i {
        return false;
    }
    let n = s.len();
    let mut j: usize = 0;
    while j < p.len()
        invariant
            n == s@.len(),
            i + p@.len() <= s@.len(),
            j <= p@.len(),
            forall|k: int| 0 <= k < j ==> s@[i + k] == p@[k],
        decreases p@.len() - j,
    {
        if s[i + j] != p[j] {
            proof {
                assert(s@.subrange(i as int, i + p@.len())[j as int] == s@[i + j]);
            }
            return false;
        }
        j = j + 1;
    }
    proof {
        assert(s@.subrange(i as int, i + p@.len()) =~= p@);
    }
    true
}

/// `str::starts_with` on character sequences.
pub fn starts_with_chars(s: &[char], p: &[char]) -> (res: bool)
    ensures
        res == has_prefix(s@, p@),
{
    let r = matches_at(s, p, 0);
    proof {
        assert(s@.subrange(0, p@.len() as int) == s@.take(p@.len() as int));
    }
    r
}

/// `str::starts_with`.
pub fn starts_with(s: &str, p: &str) -> (res: bool)
    ensures
        res == has_prefix(s@, p@),
{
    let a = chars_of(s);
    let b = chars_of(p);
    starts_with_chars(&a, &b)
}

/// `str::contains` on character sequences.
pub fn contains_chars(s: &[char], p: &[char]) -> (res: bool)
    ensures
        res == has_infix(s@, p@),
{
    if p.len() > s.len() {
        return false;
    }
    let last = s.len() - p.len();
    let mut i: usize = 0;
    loop
        invariant
            last == s@.len() - p@.len(),
            i <= last,
            forall|k: int| 0 <= k < i ==> !occurs_at(s@, p@, k),
        ensures
            forall|k: int| 0 <= k <= last ==> !occurs_at(s@, p@, k),
        decreases last - i,
    {
        if matches_at(s, p, i) {
            return true;
        }
        if i == last {
            break;
        }
        i = i + 1;
    }
    proof {
        assert forall|k: int| !occurs_at(s@, p@, k) by {
            if 0 <= k <= last {
            }
        }
    }
    false
}

/// `str::contains`.
pub fn contains(s: &str, p: &str) -> (res: bool)
    ensures
        res == has_infix(s@, p@),
{
    let a = chars_of(s);
    let b = chars_of(p);
    contains_chars(&a, &b)
}

// ---------------------------------------------------------------------------
// Splitting, lines and joining
// ---------------------------------------------------------------------------

/// The pieces of `s` between occurrences of `c` (`str::split` with a
/// `char` pattern): always at least one piece.
pub open spec fn split_char(s: Seq<char>, c: char) -> Seq<Seq<char>>
    decreases s.len(),
{
    if s.len() == 0 {
        seq![Seq::<char>::empty()]
    } else {
        let prev = split_char(s.drop_last(), c);
        if s.last() == c {
            prev.push(Seq::<char>::empty())
        } else {
            prev.update(prev.len() - 1, prev.last().push(s.last()))
        }
    }
}

/// A sequence of strings viewed as sequences of characters.
pub open spec fn views_of(v: Seq<Vec<char>>) -> Seq<Seq<char>> {
    v.map_values(|x: Vec<char>| x@)
}

/// A sequence of `String`s viewed as sequences of characters.
pub open spec fn string_views(v: Seq<String>) -> Seq<Seq<char>> {
    v.map_values(|x: String| x@)
}

pub proof fn lemma_split_char_nonempty(s: Seq<char>, c: char)
    ensures
        split_char(s, c).len() >= 1,
    decreases s.len(),
{
    if s.len() > 0 {
        lemma_split_char_nonempty(s.drop_last(), c);
    }
}

/// `str::split` with a `char` pattern, on character sequences.
pub fn split_chars(s: &[char], c: char) -> (res: Vec<Vec<char>>)
    ensures
        views_of(res@) == split_char(s@, c),
        res@.len() >= 1,
{
    let mut parts: Vec<Vec<char>> = Vec::new();
    let mut cur: Vec<char> = Vec::new();
    let mut i: usize = 0;
    proof {
        assert(s@.take(0) =~= Seq::<char>::empty());
        assert(views_of(parts@).push(cur@) =~= split_char(s@.take(0), c));
    }
    while i < s.len()
        invariant
            i <= s@.len(),
            views_of(parts@).push(cur@) == split_char(s@.take(i as int), c),
        decreases s@.len() - i,
    {
        let ghost before = s@.take(i as int);
        proof {
            assert(s@.take(i + 1).drop_last() == before);
            assert(s@.take(i + 1).last() == s@[i as int]);
        }
        let ghost old_parts = parts@;
        if s[i] == c {
            let done = cur;
            parts.push(done);
            cur = Vec::new();
            proof {
                assert(views_of(parts@) =~= views_of(old_parts).push(done@));
            }
        } else {
            cur.push(s[i]);
        }
        proof {
            let prev = split_char(before, c);
            assert(split_char(s@.take(i + 1), c) == if s@[i as int] == c {
                prev.push(Seq::<char>::empty())
            } else {
                prev.update(prev.len() - 1, prev.last().push(s@[i as int]))
            });
            assert(views_of(parts@).push(cur@) =~= split_char(s@.take(i + 1), c));
        }
        i = i + 1;
    }
    proof {
        assert(s@.take(s@.len() as int) == s@);
    }
    parts.push(cur);
    proof {
        assert(views_of(parts@) =~= split_char(s@, c));
    }
    parts
}


/// `s` without one trailing carriage return.
pub open spec fn strip_cr(s: Seq<char>) -> Seq<char> {
    if s.len() > 0 && s.last() == '\r' {
        s.drop_last()
    } else {
        s
    }
}

/// `str::lines`: the pieces between line feeds, a carriage return before a
/// line feed dropped, and no final empty line.
pub open spec fn lines(s: Seq<char>) -> Seq<Seq<char>> {
    let p = split_char(s, '\n');
    let init = p.drop_last().map_values(|x: Seq<char>| strip_cr(x));
    if p.last().len() == 0 {
        init
    } else {
        init.push(p.last())
    }
}

/// Drops one trailing carriage return.
fn strip_cr_chars(v: Vec<char>) -> (res: Vec<char>)
    ensures
        res@ == strip_cr(v@),
{
    let mut v = v;
    if v.len() > 0 && v[v.len() - 1] == '\r' {
        v.pop();
    }
    v
}

/// `str::lines` on character sequences.
pub fn lines_chars(s: &[char]) -> (res: Vec<Vec<char>>)
    ensures
        views_of(res@) == lines(s@),
{
    let mut parts = split_chars(s, '\n');
    let last = parts.pop().unwrap();
    let ghost p = split_char(s@, '\n');
    proof {
        lemma_split_char_nonempty(s@, '\n');
        assert(views_of(parts@) =~= p.drop_last());
        assert(last@ == p.last());
    }
    let mut res: Vec<Vec<char>> = Vec::new();
    let mut i: usize = 0;
    while i < parts.len()
        invariant
            p.len() >= 1,
            views_of(parts@) == p.drop_last(),
            i <= parts@.len(),
            views_of(res@) == p.drop_last().take(i as int).map_values(|x: Seq<char>| strip_cr(x)),
        decreases parts@.len() - i,
    {
        let ghost old_res = res@;
        let piece = strip_cr_chars(parts[i].clone());
        res.push(piece);
        proof {
            assert(parts@[i as int]@ == p.drop_last()[i as int]);
            assert(views_of(res@) =~= views_of(old_res).push(strip_cr(p.drop_last()[i as int])));
            assert(p.drop_last().take(i + 1) =~= p.drop_last().take(i as int).push(p.drop_last()[i as int]));
            assert(views_of(res@) =~= p.drop_last().take(i + 1).map_values(
                |x: Seq<char>| strip_cr(x),
            ));
        }
        i = i + 1;
    }
    proof {
        assert(p.drop_last().take(parts@.len() as int) == p.drop_last());
    }
    if last.len() > 0 {
        res.push(last);
        proof {
            assert(views_of(res@) =~= lines(s@));
        }
    }
    res
}

/// `str::lines`: the lines of `s` as strings.
pub fn lines_of(s: &str) -> (res: Vec<Vec<char>>)
    ensures
        views_of(res@) == lines(s@),
{
    let cs = chars_of(s);
    lines_chars(&cs)
}

/// The parts joined with `sep` between neighbours (`[T]::join`).
pub open spec fn join(parts: Seq<Seq<char>>, sep: Seq<char>) -> Seq<char>
    decreases parts.len(),
{
    if parts.len() == 0 {
        Seq::<char>::empty()
    } else if parts.len() == 1 {
        parts[0]
    } else {
        join(parts.drop_last(), sep) + sep + parts.last()
    }
}

/// Joins character sequences with a separator.
pub fn join_chars(parts: &Vec<Vec<char>>, sep: &str) -> (res: String)
    ensures
        res@ == join(views_of(parts@), sep@),
{
    let mut res = String::new();
    let mut i: usize = 0;
    while i < parts.len()
        invariant
            i <= parts@.len(),
            res@ == join(views_of(parts@.take(i as int)), sep@),
        decreases parts@.len() - i,
    {
        proof {
            assert(views_of(parts@.take(i + 1)).drop_last() =~= views_of(parts@.take(i as int)));
            assert(views_of(parts@.take(i + 1)).last() == parts@[i as int]@);
        }
        if i > 0 {
            res.append(sep);
        } else {
            assert(views_of(parts@.take(0)) =~= Seq::<Seq<char>>::empty());
        }
        push_chars(&mut res, parts[i].as_slice());
        i = i + 1;
    }
    proof {
        assert(parts@.take(parts@.len() as int) == parts@);
    }
    res
}

/// Joins strings with a separator.
pub fn join_strings(parts: &Vec<String>, sep: &str) -> (res: String)
    ensures
        res@ == join(string_views(parts@), sep@),
{
    let mut res = String::new();
    let mut i: usize = 0;
    while i < parts.len()
        invariant
            i <= parts@.len(),
            res@ == join(string_views(parts@.take(i as int)), sep@),
        decreases parts@.len() - i,
    {
        proof {
            assert(string_views(parts@.take(i + 1)).drop_last() =~= string_views(
                parts@.take(i as int),
            ));
            assert(string_views(parts@.take(i + 1)).last() == parts@[i as int]@);
        }
        if i > 0 {
            res.append(sep);
        } else {
            assert(string_views(parts@.take(0)) =~= Seq::<Seq<char>>::empty());
        }
        res.append(parts[i].as_str());
        i = i + 1;
    }
    proof {
        assert(parts@.take(parts@.len() as int) == parts@);
    }
    res
}

// ---------------------------------------------------------------------------
// Replacing and stripping
// ---------------------------------------------------------------------------

/// `s` with every `c` replaced by `r` (`str::replace` with a `char` pattern).
pub open spec fn replace_char(s: Seq<char>, c: char, r: Seq<char>) -> Seq<char>
    decreases s.len(),
{
    if s.len() == 0 {
        Seq::<char>::empty()
    } else {
        replace_char(s.drop_last(), c, r) + if s.last() == c {
            r
        } else {
            seq![s.last()]
        }
    }
}

/// `str::replace` with a `char` pattern.
pub fn replace_char_str(s: &str, c: char, r: &str) -> (res: String)
    ensures
        res@ == replace_char(s@, c, r@),
{
    let cs = chars_of(s);
    let mut res = String::new();
    let mut i: usize = 0;
    while i < cs.len()
        invariant
            cs@ == s@,
            i <= cs@.len(),
            res@ == replace_char(cs@.take(i as int), c, r@),
        decreases cs@.len() - i,
    {
        proof {
            assert(cs@.take(i + 1).drop_last() == cs@.take(i as int));
            assert(cs@.take(i + 1).last() == cs@[i as int]);
        }
        if cs[i] == c {
            res.append(r);
        } else {
            push_char(&mut res, cs[i]);
        }
        i = i + 1;
    }
    proof {
        assert(cs@.take(cs@.len() as int) == cs@);
    }
    res
}

/// `s` without its leading `c`s (`str::trim_start_matches` with a `char`).
pub open spec fn trim_start_char(s: Seq<char>, c: char) -> Seq<char>
    decreases s.len(),
{
    if s.len() > 0 && s[0] == c {
        trim_start_char(s.drop_first(), c)
    } else {
        s
    }
}

proof fn lemma_trim_start_char_skip(s: Seq<char>, c: char, i: int)
    requires
        0 <= i <= s.len(),
        forall|j: int| 0 <= j < i ==> #[trigger] s[j] == c,
    ensures
        trim_start_char(s, c) == trim_start_char(s.skip(i), c),
    decreases i,
{
    if i > 0 {
        assert(s[0] == c);
        assert(s.drop_first().skip(i - 1) == s.skip(i));
        assert forall|j: int| 0 <= j < i - 1 implies #[trigger] s.drop_first()[j] == c by {
            assert(s.drop_first()[j] == s[j + 1]);
        }
        lemma_trim_start_char_skip(s.drop_first(), c, i - 1);
    } else {
        assert(s.skip(0) == s);
    }
}

/// `str::trim_start_matches` with a `char` pattern.
pub fn trim_start_char_chars(s: &[char], c: char) -> (res: Vec<char>)
    ensures
        res@ == trim_start_char(s@, c),
{
    let n = s.len();
    let mut i: usize = 0;
    while i < n && s[i] == c
        invariant
            n == s@.len(),
            i <= n,
            forall|j: int| 0 <= j < i ==> #[trigger] s@[j] == c,
        decreases n - i,
    {
        i = i + 1;
    }
    proof {
        lemma_trim_start_char_skip(s@, c, i as int);
        if i < n {
            assert(s@.skip(i as int)[0] != c);
        }
        assert(trim_start_char(s@.skip(i as int), c) == s@.skip(i as int));
    }
    let mut res: Vec<char> = Vec::new();
    let mut j: usize = i;
    while j < n
        invariant
            n == s@.len(),
            i <= j <= n,
            res@ == s@.subrange(i as int, j as int),
        decreases n - j,
    {
        res.push(s[j]);
        proof {
            assert(s@.subrange(i as int, j + 1) == s@.subrange(i as int, j as int).push(s@[j as int]));
        }
        j = j + 1;
    }
    proof {
        assert(s@.subrange(i as int, n as int) == s@.skip(i as int));
    }
    res
}

// ---------------------------------------------------------------------------
// Decimal numerals
// ---------------------------------------------------------------------------

/// The decimal digit for `d < 10`.
pub open spec fn digit_char(d: nat) -> char {
    if d == 0 {
        '0'
    } else if d == 1 {
        '1'
    } else if d == 2 {
        '2'
    } else if d == 3 {
        '3'
    } else if d == 4 {
        '4'
    } else if d == 5 {
        '5'
    } else if d == 6 {
        '6'
    } else if d == 7 {
        '7'
    } else if d == 8 {
        '8'
    } else {
        '9'
    }
}

/// The decimal numeral of `n`, without leading zeros (`to_string` of an
/// unsigned integer).
pub open spec fn decimal(n: nat) -> Seq<char>
    decreases n,
{
    if n < 10 {
        seq![digit_char(n)]
    } else {
        decimal(n / 10).push(digit_char(n % 10))
    }
}

fn digit(d: u64) -> (res: char)
    requires
        d < 10,
    ensures
        res == digit_char(d as nat),
{
    if d == 0 {
        '0'
    } else if d == 1 {
        '1'
    } else if d == 2 {
        '2'
    } else if d == 3 {
        '3'
    } else if d == 4 {
        '4'
    } else if d == 5 {
        '5'
    } else if d == 6 {
        '6'
    } else if d == 7 {
        '7'
    } else if d == 8 {
        '8'
    } else {
        '9'
    }
}

/// Appends the decimal numeral of `n` to `s`.
pub fn push_decimal(s: &mut String, n: u64)
    ensures
        final(s)@ == old(s)@ + decimal(n as nat),
    decreases n,
{
    if n < 10 {
        push_char(s, digit(n));
    } else {
        push_decimal(s, n / 10);
        push_char(s, digit(n % 10));
    }
}

/// The decimal numeral of `n`.
pub fn decimal_string(n: u64) -> (res: String)
    ensures
        res@ == decimal(n as nat),
{
    let mut s = String::new();
    push_decimal(&mut s, n);
    s
}

/// The decimal numeral of an integer, with a minus sign when it is negative
/// (`to_string` of a signed integer).
pub open spec fn signed_decimal(n: int) -> Seq<char> {
    if n < 0 {
        "-"@ + decimal((-n) as nat)
    } else {
        decimal(n as nat)
    }
}

/// The decimal numeral of a signed integer.
pub fn signed_decimal_string(n: i64) -> (res: String)
    ensures
        res@ == signed_decimal(n as int),
{
    if n < 0 {
        let m: u64 = (-(n as i128)) as u64;
        let mut s = String::from_str("-");
        proof {
            reveal_strlit("-");
        }
        push_decimal(&mut s, m);
        s
    } else {
        decimal_string(n as u64)
    }
}

// ---------------------------------------------------------------------------
// Standard-library conversions that the library names
// ---------------------------------------------------------------------------

/// What `str::to_lowercase` returns for a string: the Unicode lowercase
/// mapping, which may depend on a character's context (a final capital
/// sigma becomes `ς`).
pub uninterp spec fn lowercase(s: Seq<char>) -> Seq<char>;

/// Every character is ASCII.
pub open spec fn all_ascii(s: Seq<char>) -> bool {
    forall|i: int| 0 <= i < s.len() ==> (#[trigger] s[i] as u32) < 128
}

/// An ASCII letter in lower case; any other character unchanged.
pub open spec fn ascii_lower(c: char) -> char {
    if 'A' <= c && c <= 'Z' {
        ((c as u32) + 32) as char
    } else {
        c
    }
}

/// An ASCII letter in upper case; any other character unchanged.
pub open spec fn ascii_upper(c: char) -> char {
    if 'a' <= c && c <= 'z' {
        ((c as u32) - 32) as char
    } else {
        c
    }
}

/// `str::to_lowercase`. Its result is named: the Unicode case tables it
/// follows are not written out here. On ASCII text it maps `A`..`Z` to
/// `a`..`z` and keeps every other character, one for one.
#[verifier::external_body]
pub(crate) fn to_lowercase(s: &str) -> (res: String)
    ensures
        res@ == lowercase(s@),
        all_ascii(s@) ==> res@ == s@.map_values(|c: char| ascii_lower(c)),
{
    s.to_lowercase()
}

/// What `str::to_uppercase` returns for a string.
pub uninterp spec fn uppercase(s: Seq<char>) -> Seq<char>;

/// `str::to_uppercase`. Its result is named, as for `to_lowercase`. On
/// ASCII text it maps `a`..`z` to `A`..`Z` and keeps every other character,
/// one for one.
#[verifier::external_body]
pub(crate) fn to_uppercase(s: &str) -> (res: String)
    ensures
        res@ == uppercase(s@),
        all_ascii(s@) ==> res@ == s@.map_values(|c: char| ascii_upper(c)),
{
    s.to_uppercase()
}

/// What `String::from_utf8_lossy` returns for a byte sequence.
pub uninterp spec fn lossy_utf8(b: Seq<u8>) -> Seq<char>;

/// `String::from_utf8_lossy`: valid UTF-8 decodes as itself, and what is
/// not valid is replaced; only the first is stated, the replacement is named.
#[verifier::external_body]
pub(crate) fn utf8_lossy(b: &[u8]) -> (res: String)
    ensures
        res@ == lossy_utf8(b@),
        vstd::utf8::valid_utf8(b@) ==> res@ == vstd::utf8::decode_utf8(b@),
{
    String::from_utf8_lossy(b).into_owned()
}

/// `String::from_utf8`: `Some` exactly for valid UTF-8, which it decodes.
#[verifier::external_body]
pub(crate) fn utf8_decode(b: Vec<u8>) -> (res: Option<String>)
    ensures
        res.is_some() == vstd::utf8::valid_utf8(b@),
        res matches Some(s) ==> s@ == vstd::utf8::decode_utf8(b@),
{
    String::from_utf8(b).ok()
}

} // verus!
