//! Character-level text operations, each specified over `Seq<char>`.

use vstd::prelude::*;
use vstd::utf8::*;

verus! {

/// Characters with the Unicode `White_Space` property (what `char::is_whitespace` tests).
pub open spec fn is_white_space(c: char) -> bool {
    let u = c as u32;
    (0x09 <= u <= 0x0d) || u == 0x20 || u == 0x85 || u == 0xa0 || u == 0x1680 || (0x2000 <= u
        <= 0x200a) || u == 0x2028 || u == 0x2029 || u == 0x202f || u == 0x205f || u == 0x3000
}

pub fn white_space(c: char) -> (r: bool)
    ensures
        r == is_white_space(c),
{
    let u = c as u32;
    (0x09 <= u && u <= 0x0d) || u == 0x20 || u == 0x85 || u == 0xa0 || u == 0x1680 || (0x2000
        <= u && u <= 0x200a) || u == 0x2028 || u == 0x2029 || u == 0x202f || u == 0x205f || u
        == 0x3000
}

/// The characters of a string slice, in order.
pub fn chars_of(s: &str) -> (v: Vec<char>)
    ensures
        v@ == s@,
{
    let mut v: Vec<char> = Vec::new();
    for c in it: s.chars()
        invariant
            v@ == it.seq().take(it.index() as int),
    {
        v.push(c);
    }
    v
}

/// Collects characters into a `String` (`Iterator::collect`); the string holds exactly
/// those characters, in order.
#[verifier::external_body]
pub(crate) fn string_from_chars(v: &[char]) -> (s: String)
    ensures
        s@ == v@,
{
    v.iter().collect::<String>()
}

/// Copy of `s[from..to]`.
pub fn sub_chars(s: &[char], from: usize, to: usize) -> (r: Vec<char>)
    requires
        from <= to <= s@.len(),
    ensures
        r@ == s@.subrange(from as int, to as int),
{
    let mut r: Vec<char> = Vec::new();
    let mut i = from;
    while i < to
        invariant
            from <= i <= to <= s@.len(),
            r@ == s@.subrange(from as int, i as int),
        decreases to - i,
    {
        r.push(s[i]);
        i += 1;
    }
    r
}

/// `a` followed by `b`.
pub fn concat_chars(a: &[char], b: &[char]) -> (r: Vec<char>)
    ensures
        r@ == a@ + b@,
{
    let mut r: Vec<char> = Vec::new();
    let mut i: usize = 0;
    while i < a.len()
        invariant
            i <= a@.len(),
            r@ == a@.take(i as int),
        decreases a@.len() - i,
    {
        r.push(a[i]);
        i += 1;
    }
    let mut j: usize = 0;
    while j < b.len()
        invariant
            j <= b@.len(),
            r@ == a@ + b@.take(j as int),
        decreases b@.len() - j,
    {
        r.push(b[j]);
        j += 1;
    }
    r
}

/// Appends the characters of `b` to `r`.
pub fn extend_chars(r: &mut Vec<char>, b: &[char])
    ensures
        final(r)@ == old(r)@ + b@,
{
    let mut j: usize = 0;
    while j < b.len()
        invariant
            j <= b@.len(),
            r@ == old(r)@ + b@.take(j as int),
        decreases b@.len() - j,
    {
        r.push(b[j]);
        j += 1;
    }
}

/// Appends the characters of `b` to `r`.
pub fn extend_str(r: &mut Vec<char>, b: &str)
    ensures
        final(r)@ == old(r)@ + b@,
{
    let v = chars_of(b);
    extend_chars(r, v.as_slice());
}

/// Equality of two character sequences.
pub fn chars_eq(a: &[char], b: &[char]) -> (r: bool)
    ensures
        r == (a@ == b@),
{
    if a.len() != b.len() {
        return false;
    }
    let mut i: usize = 0;
    while i < a.len()
        invariant
            a@.len() == b@.len(),
            i <= a@.len(),
            forall|k: int| 0 <= k < i ==> a@[k] == b@[k],
        decreases a@.len() - i,
    {
        if a[i] != b[i] {
            return false;
        }
        i += 1;
    }
    assert(a@ =~= b@);
    true
}

// ---------------------------------------------------------------- trimming
/// `s` without its leading white space.
pub open spec fn trim_start(s: Seq<char>) -> Seq<char>
    decreases s.len(),
{
    if s.len() > 0 && is_white_space(s[0]) {
        trim_start(s.drop_first())
    } else {
        s
    }
}

/// `s` without its trailing white space.
pub open spec fn trim_end(s: Seq<char>) -> Seq<char>
    decreases s.len(),
{
    if s.len() > 0 && is_white_space(s.last()) {
        trim_end(s.drop_last())
    } else {
        s
    }
}

/// `s` without leading and trailing white space (what `str::trim` gives).
pub open spec fn trim(s: Seq<char>) -> Seq<char> {
    trim_end(trim_start(s))
}

/// The text between the leading and the trailing white space of `s`.
pub fn trim_chars(s: &[char]) -> (r: Vec<char>)
    ensures
        r@ == trim(s@),
{
    let n = s.len();
    let mut i: usize = 0;
    assert(s@.subrange(0, n as int) =~= s@);
    while i < n && white_space(s[i])
        invariant
            i <= n == s@.len(),
            trim_start(s@) == trim_start(s@.subrange(i as int, n as int)),
        decreases n - i,
    {
        assert(s@.subrange(i as int, n as int).drop_first() =~= s@.subrange(i + 1, n as int));
        i += 1;
    }
    assert(trim_start(s@) == s@.subrange(i as int, n as int));
    let mut j: usize = n;
    while j > i && white_space(s[j - 1])
        invariant
            i <= j <= n == s@.len(),
            trim(s@) == trim_end(s@.subrange(i as int, j as int)),
        decreases j - i,
    {
        assert(s@.subrange(i as int, j as int).drop_last() =~= s@.subrange(i as int, j - 1));
        j -= 1;
    }
    sub_chars(s, i, j)
}

// ---------------------------------------------------------------- ASCII case
pub open spec fn is_ascii_upper(c: char) -> bool {
    'A' <= c <= 'Z'
}

/// `c` with ASCII upper case mapped to lower case (`char::to_ascii_lowercase`).
pub open spec fn ascii_lower(c: char) -> char {
    if is_ascii_upper(c) {
        ((c as u32) + 32) as char
    } else {
        c
    }
}

/// Every character of `s` through `ascii_lower`.
pub open spec fn ascii_lower_seq(s: Seq<char>) -> Seq<char> {
    s.map_values(|c: char| ascii_lower(c))
}

/// ASCII-case-insensitive equality (`str::eq_ignore_ascii_case`).
pub open spec fn eq_ignore_ascii_case(a: Seq<char>, b: Seq<char>) -> bool {
    ascii_lower_seq(a) == ascii_lower_seq(b)
}

pub fn lower_char(c: char) -> (r: char)
    ensures
        r == ascii_lower(c),
{
    if 'A' <= c && c <= 'Z' {
        ((c as u8) + 32) as char
    } else {
        c
    }
}

pub fn lower_chars(s: &[char]) -> (r: Vec<char>)
    ensures
        r@ == ascii_lower_seq(s@),
{
    let mut r: Vec<char> = Vec::new();
    let mut i: usize = 0;
    while i < s.len()
        invariant
            i <= s@.len(),
            r@ == ascii_lower_seq(s@.take(i as int)),
        decreases s@.len() - i,
    {
        r.push(lower_char(s[i]));
        i += 1;
        assert(ascii_lower_seq(s@.take(i as int)) =~= ascii_lower_seq(s@.take(i - 1)).push(
            ascii_lower(s@[i - 1]),
        ));
    }
    assert(s@.take(s@.len() as int) =~= s@);
    r
}

pub fn eq_ignore_case(a: &[char], b: &[char]) -> (r: bool)
    ensures
        r == eq_ignore_ascii_case(a@, b@),
{
    let la = lower_chars(a);
    let lb = lower_chars(b);
    chars_eq(la.as_slice(), lb.as_slice())
}

// ---------------------------------------------------------------- prefixes and search
pub open spec fn ends_with(s: Seq<char>, p: Seq<char>) -> bool {
    p.len() <= s.len() && s.skip(s.len() - p.len()) == p
}

pub fn has_suffix(s: &[char], p: &[char]) -> (r: bool)
    ensures
        r == ends_with(s@, p@),
{
    if p.len() > s.len() {
        return false;
    }
    let off = s.len() - p.len();
    let mut i: usize = 0;
    assert(s@.len() == s.len());
    while i < p.len()
        invariant
            s@.len() <= usize::MAX,
            p@.len() <= s@.len(),
            off == s@.len() - p@.len(),
            i <= p@.len(),
            forall|k: int| 0 <= k < i ==> s@[off + k] == p@[k],
        decreases p@.len() - i,
    {
        if s[off + i] != p[i] {
            assert(s@.skip(off as int)[i as int] != p@[i as int]);
            return false;
        }
        i += 1;
    }
    assert(s@.skip(off as int) =~= p@);
    true
}

pub open spec fn starts_with(s: Seq<char>, p: Seq<char>) -> bool {
    p.len() <= s.len() && s.take(p.len() as int) == p
}

pub fn has_prefix(s: &[char], p: &[char]) -> (r: bool)
    ensures
        r == starts_with(s@, p@),
{
    if p.len() > s.len() {
        return false;
    }
    let mut i: usize = 0;
    while i < p.len()
        invariant
            p@.len() <= s@.len(),
            i <= p@.len(),
            forall|k: int| 0 <= k < i ==> s@[k] == p@[k],
        decreases p@.len() - i,
    {
        if s[i] != p[i] {
            assert(s@.take(p@.len() as int)[i as int] != p@[i as int]);
            return false;
        }
        i += 1;
    }
    assert(s@.take(p@.len() as int) =~= p@);
    true
}

/// Whether `p` occurs in `s` at position `i`.
pub open spec fn occurs_at<A>(s: Seq<A>, p: Seq<A>, i: int) -> bool {
    0 <= i && i + p.len() <= s.len() && s.subrange(i, i + p.len()) == p
}

/// Position of the first occurrence of `p` in `s`.
pub open spec fn find<A>(s: Seq<A>, p: Seq<A>) -> Option<int>
    decreases s.len(),
{
    if s.len() < p.len() {
        None
    } else if s.take(p.len() as int) == p {
        Some(0)
    } else if s.len() == 0 {
        None
    } else {
        match find(s.drop_first(), p) {
            Some(i) => Some(i + 1),
            None => None,
        }
    }
}

pub open spec fn contains(s: Seq<char>, p: Seq<char>) -> bool {
    find(s, p) is Some
}

pub fn occurs_at_exec(s: &[char], p: &[char], i: usize) -> (r: bool)
    requires
        i <= s@.len(),
    ensures
        r == occurs_at(s@, p@, i as int),
{
    if p.len() > s.len() - i {
        return false;
    }
    let mut k: usize = 0;
    while k < p.len()
        invariant
            i + p.len() <= s.len(),
            i + p@.len() <= s@.len(),
            k <= p@.len(),
            forall|m: int| 0 <= m < k ==> s@[i + m] == p@[m],
        decreases p@.len() - k,
    {
        assert(i + k < s@.len());
        if s[i + k] != p[k] {
            assert(s@.subrange(i as int, i + p@.len())[k as int] != p@[k as int]);
            return false;
        }
        k += 1;
    }
    assert(s@.subrange(i as int, i + p@.len()) =~= p@);
    true
}

pub proof fn lemma_find_skip<A>(s: Seq<A>, p: Seq<A>, i: int)
    requires
        0 <= i <= s.len(),
        forall|k: int| 0 <= k < i ==> !occurs_at(s, p, k),
    ensures
        find(s, p) == (match find(s.skip(i), p) {
            Some(j) => Some(j + i),
            None => None::<int>,
        }),
    decreases i,
{
    if i > 0 {
        lemma_find_skip(s, p, i - 1);
        let t = s.skip(i - 1);
        assert(t.drop_first() =~= s.skip(i));
        assert(!occurs_at(s, p, i - 1));
        if t.len() >= p.len() {
            assert(t.take(p.len() as int) =~= s.subrange(i - 1, i - 1 + p.len()));
            assert(t.take(p.len() as int) != p);
            assert(t.len() > 0) by {
                if t.len() == 0 {
                    assert(p.len() == 0);
                    assert(s.subrange(i - 1, i - 1) =~= p);
                }
            }
            assert(find(t, p) == (match find(s.skip(i), p) {
                Some(j) => Some(j + 1),
                None => None::<int>,
            }));
        } else {
            assert(s.skip(i).len() < p.len());
            assert(find(s.skip(i), p) is None);
            assert(find(t, p) is None);
        }
    } else {
        assert(s.skip(0) =~= s);
    }
}

pub proof fn lemma_find_at<A>(s: Seq<A>, p: Seq<A>, i: int)
    requires
        occurs_at(s, p, i),
    ensures
        find(s.skip(i), p) == Some(0int),
{
    assert(s.skip(i).take(p.len() as int) =~= s.subrange(i, i + p.len()));
}

/// Position of the first occurrence of `p` in `s`, searching from `from`.
pub fn find_from(s: &[char], p: &[char], from: usize) -> (r: Option<usize>)
    requires
        from <= s@.len(),
        forall|k: int| 0 <= k < from ==> !occurs_at(s@, p@, k),
    ensures
        r matches Some(i) ==> find(s@, p@) == Some(i as int),
        r is None ==> find(s@, p@) is None,
{
    if p.len() == 0 {
        assert(s@.take(0) =~= p@);
        return Some(0);
    }
    let mut i = from;
    while i < s.len()
        invariant
            from <= i <= s@.len(),
            p@.len() > 0,
            forall|k: int| 0 <= k < i ==> !occurs_at(s@, p@, k),
        decreases s@.len() - i,
    {
        if occurs_at_exec(s, p, i) {
            proof {
                lemma_find_skip(s@, p@, i as int);
                lemma_find_at(s@, p@, i as int);
            }
            return Some(i);
        }
        i += 1;
    }
    proof {
        lemma_find_skip(s@, p@, s@.len() as int);
        let t = s@.skip(s@.len() as int);
        assert(t.len() == 0);
        assert(find(t, p@) is None);
    }
    None
}

pub fn find_chars(s: &[char], p: &[char]) -> (r: Option<usize>)
    ensures
        r matches Some(i) ==> find(s@, p@) == Some(i as int),
        r is None ==> find(s@, p@) is None,
{
    find_from(s, p, 0)
}

pub fn contains_chars(s: &[char], p: &[char]) -> (r: bool)
    ensures
        r == contains(s@, p@),
{
    find_chars(s, p).is_some()
}

pub proof fn lemma_find_occurs<A>(s: Seq<A>, p: Seq<A>)
    ensures
        find(s, p) matches Some(i) ==> occurs_at(s, p, i) && forall|k: int|
            0 <= k < i ==> !occurs_at(s, p, k),
    decreases s.len(),
{
    if s.len() >= p.len() && s.take(p.len() as int) != p && s.len() > 0 {
        lemma_find_occurs(s.drop_first(), p);
        if let Some(j) = find(s.drop_first(), p) {
            assert(s.subrange(j + 1, j + 1 + p.len()) =~= s.drop_first().subrange(
                j,
                j + p.len(),
            ));
            assert forall|k: int| 0 <= k < j + 1 implies !occurs_at(s, p, k) by {
                if k == 0 {
                    assert(s.subrange(0, p.len() as int) =~= s.take(p.len() as int));
                } else {
                    assert(!occurs_at(s.drop_first(), p, k - 1));
                    assert(s.subrange(k, k + p.len()) =~= s.drop_first().subrange(
                        k - 1,
                        k - 1 + p.len(),
                    ));
                }
            }
        }
    } else if s.len() >= p.len() && s.take(p.len() as int) == p {
        assert(s.subrange(0, p.len() as int) =~= s.take(p.len() as int));
    }
}

// ---------------------------------------------------------------- splitting
/// The pieces of `s` between non-overlapping occurrences of `sep`, left to right
/// (what `str::split` yields for a non-empty pattern).
pub open spec fn split_on(s: Seq<char>, sep: Seq<char>) -> Seq<Seq<char>>
    decreases s.len(),
{
    if sep.len() == 0 {
        seq![s]
    } else {
        match find(s, sep) {
            Some(i) => if 0 <= i && i + sep.len() <= s.len() {
                seq![s.take(i)] + split_on(s.skip(i + sep.len()), sep)
            } else {
                seq![s]
            },
            None => seq![s],
        }
    }
}

/// Views of a sequence of character vectors.
pub open spec fn views(v: Seq<Vec<char>>) -> Seq<Seq<char>> {
    v.map_values(|x: Vec<char>| x@)
}

pub fn split_chars(s: &[char], sep: &[char]) -> (r: Vec<Vec<char>>)
    requires
        sep@.len() > 0,
    ensures
        views(r@) == split_on(s@, sep@),
{
    let mut out: Vec<Vec<char>> = Vec::new();
    let mut rest = sub_chars(s, 0, s.len());
    assert(s@.subrange(0, s@.len() as int) =~= s@);
    assert(views(out@) =~= Seq::<Seq<char>>::empty());
    assert(views(out@) + split_on(rest@, sep@) =~= split_on(s@, sep@));
    loop
        invariant
            sep@.len() > 0,
            views(out@) + split_on(rest@, sep@) == split_on(s@, sep@),
        decreases rest@.len(),
    {
        match find_chars(rest.as_slice(), sep) {
            Some(i) => {
                proof {
                    lemma_find_occurs(rest@, sep@);
                    assert(occurs_at(rest@, sep@, i as int));
                }
                let piece = sub_chars(rest.as_slice(), 0, i);
                let end = rest.len();
                assert(i + sep@.len() <= end);
                assert(sep@.len() == sep.len());
                let next = sub_chars(rest.as_slice(), i + sep.len(), end);
                proof {
                    assert(piece@ =~= rest@.take(i as int));
                    assert(next@ =~= rest@.skip(i + sep@.len()));
                    assert(views(out@.push(piece)) =~= views(out@).push(piece@));
                    assert(views(out@).push(piece@) + split_on(next@, sep@) =~= views(out@) + (
                    seq![piece@] + split_on(next@, sep@)));
                }
                out.push(piece);
                rest = next;
            },
            None => {
                proof {
                    assert(views(out@.push(rest)) =~= views(out@).push(rest@));
                    assert(views(out@) + seq![rest@] =~= views(out@).push(rest@));
                }
                out.push(rest);
                return out;
            },
        }
    }
}

/// The first piece of `s` before `sep`.
pub open spec fn before_first(s: Seq<char>, sep: Seq<char>) -> Seq<char> {
    match find(s, sep) {
        Some(i) => if 0 <= i <= s.len() {
            s.take(i)
        } else {
            s
        },
        None => s,
    }
}

pub fn before_first_chars(s: &[char], sep: &[char]) -> (r: Vec<char>)
    ensures
        r@ == before_first(s@, sep@),
{
    match find_chars(s, sep) {
        Some(i) => {
            proof {
                lemma_find_occurs(s@, sep@);
                assert(occurs_at(s@, sep@, i as int));
            }
            sub_chars(s, 0, i)
        },
        None => sub_chars(s, 0, s.len()),
    }
}

/// A line with one trailing carriage return removed.
pub open spec fn strip_cr(l: Seq<char>) -> Seq<char> {
    if l.len() > 0 && l.last() == '\r' {
        l.drop_last()
    } else {
        l
    }
}

/// The lines of `s` (what `str::lines` yields): split at `\n`, a `\r` before a `\n`
/// removed, and no empty line after a final line ending.
pub open spec fn lines(s: Seq<char>) -> Seq<Seq<char>> {
    let p = split_on(s, "\n"@);
    let n = p.len();
    Seq::new((n - 1) as nat, |i: int| strip_cr(p[i])) + (if p[n - 1].len() > 0 {
        seq![p[n - 1]]
    } else {
        Seq::empty()
    })
}

pub proof fn lemma_split_on_nonempty(s: Seq<char>, sep: Seq<char>)
    ensures
        split_on(s, sep).len() >= 1,
    decreases s.len(),
{
}

/// Splits text into lines; see `lines`.
pub fn split_lines(s: &[char]) -> (r: Vec<Vec<char>>)
    ensures
        views(r@) == lines(s@),
{
    let nl = chars_of("\n");
    proof {
        reveal_strlit("\n");
    }
    let pieces = split_chars(s, nl.as_slice());
    proof {
        lemma_split_on_nonempty(s@, "\n"@);
    }
    let n = pieces.len();
    let ghost p = views(pieces@);
    assert(p.len() == n);
    let mut out: Vec<Vec<char>> = Vec::new();
    let mut i: usize = 0;
    while i + 1 < n
        invariant
            1 <= n,
            i + 1 <= n,
            n == pieces@.len(),
            p == views(pieces@),
            p == split_on(s@, "\n"@),
            views(out@) == Seq::new(i as nat, |k: int| strip_cr(p[k])),
        decreases n - i,
    {
        let piece = &pieces[i];
        let len = piece.len();
        let line = if len > 0 && piece[len - 1] == '\r' {
            sub_chars(piece.as_slice(), 0, len - 1)
        } else {
            sub_chars(piece.as_slice(), 0, len)
        };
        proof {
            assert(p[i as int] == piece@);
            if len > 0 && piece@[len - 1] == '\r' {
                assert(line@ =~= piece@.drop_last());
            } else {
                assert(line@ =~= piece@);
            }
            assert(line@ == strip_cr(p[i as int]));
        }
        let ghost lv = line@;
        let ghost old_out = views(out@);
        out.push(line);
        assert(views(out@) =~= old_out.push(lv));
        i += 1;
        assert(views(out@) =~= Seq::new(i as nat, |k: int| strip_cr(p[k])));
    }
    let last = &pieces[n - 1];
    if last.len() > 0 {
        let l = sub_chars(last.as_slice(), 0, last.len());
        assert(l@ =~= p[n - 1]);
        out.push(l);
        assert(views(out@) =~= lines(s@));
    } else {
        assert(views(out@) =~= lines(s@));
    }
    out
}

// ---------------------------------------------------------------- UTF-8
/// Decodes `bytes` as UTF-8 with `std::str::from_utf8`: it succeeds exactly on valid UTF-8
/// (as vstd's `valid_utf8` defines it), and the text is the decoding of the bytes.
#[verifier::external_body]
pub(crate) fn utf8_chars(bytes: &[u8]) -> (r: Option<Vec<char>>)
    ensures
        r is Some <==> valid_utf8(bytes@),
        r matches Some(v) ==> v@ == decode_utf8(bytes@),
{
    match std::str::from_utf8(bytes) {
        Ok(s) => Some(s.chars().collect()),
        Err(_) => None,
    }
}

// ---------------------------------------------------------------- replacing
/// `s` with every non-overlapping occurrence of `from`, scanning left to right,
/// replaced by `to` (what `str::replace` gives for a non-empty pattern).
pub open spec fn replace_all(s: Seq<char>, from: Seq<char>, to: Seq<char>) -> Seq<char>
    recommends
        from.len() > 0,
    decreases s.len(),
{
    if from.len() == 0 {
        s
    } else {
        match find(s, from) {
            None => s,
            Some(i) => if 0 <= i && i + from.len() <= s.len() {
                s.take(i) + to + replace_all(s.skip(i + from.len()), from, to)
            } else {
                s
            },
        }
    }
}

proof fn lemma_replace_step_none(s: Seq<char>, from: Seq<char>, to: Seq<char>, i: int)
    requires
        from.len() > 0,
        0 <= i < s.len(),
        !occurs_at(s, from, i),
    ensures
        replace_all(s.skip(i), from, to) == seq![s[i]] + replace_all(s.skip(i + 1), from, to),
    decreases s.len() - i,
{
    let t = s.skip(i);
    assert(t.drop_first() =~= s.skip(i + 1));
    if t.len() >= from.len() {
        assert(t.take(from.len() as int) =~= s.subrange(i, i + from.len()));
    }
    lemma_find_occurs(s.skip(i + 1), from);
    lemma_find_occurs(t, from);
    match find(s.skip(i + 1), from) {
        Some(j) => {
            assert(find(t, from) == Some(j + 1));
            assert(t.take(j + 1) =~= seq![s[i]] + s.skip(i + 1).take(j));
            assert(t.skip(j + 1 + from.len()) =~= s.skip(i + 1).skip(j + from.len()));
            assert(t.take(j + 1) + to + replace_all(t.skip(j + 1 + from.len()), from, to)
                =~= seq![s[i]] + (s.skip(i + 1).take(j) + to + replace_all(
                s.skip(i + 1).skip(j + from.len()),
                from,
                to,
            )));
        },
        None => {
            assert(find(t, from) is None);
            assert(t =~= seq![s[i]] + s.skip(i + 1));
        },
    }
}

proof fn lemma_replace_step_some(s: Seq<char>, from: Seq<char>, to: Seq<char>, i: int)
    requires
        from.len() > 0,
        occurs_at(s, from, i),
    ensures
        replace_all(s.skip(i), from, to) == to + replace_all(
            s.skip(i + from.len()),
            from,
            to,
        ),
{
    let t = s.skip(i);
    lemma_find_at(s, from, i);
    assert(t.take(0) =~= Seq::<char>::empty());
    assert(t.skip(from.len() as int) =~= s.skip(i + from.len()));
    assert(Seq::<char>::empty() + to =~= to);
}

/// `s` with every occurrence of `from` replaced by `to`.
pub fn replace_chars(s: &[char], from: &[char], to: &[char]) -> (r: Vec<char>)
    requires
        from@.len() > 0,
    ensures
        r@ == replace_all(s@, from@, to@),
{
    let mut r: Vec<char> = Vec::new();
    let mut i: usize = 0;
    assert(s@.skip(0) =~= s@);
    while i < s.len()
        invariant
            i <= s@.len(),
            from@.len() > 0,
            r@ + replace_all(s@.skip(i as int), from@, to@) == replace_all(s@, from@, to@),
        decreases s@.len() - i,
    {
        if occurs_at_exec(s, from, i) {
            proof {
                lemma_replace_step_some(s@, from@, to@, i as int);
                assert(r@ + to@ + replace_all(s@.skip(i + from@.len()), from@, to@) =~= r@ + (to@
                    + replace_all(s@.skip(i + from@.len()), from@, to@)));
            }
            extend_chars(&mut r, to);
            i += from.len();
        } else {
            proof {
                lemma_replace_step_none(s@, from@, to@, i as int);
                assert(r@.push(s@[i as int]) + replace_all(s@.skip(i + 1), from@, to@) =~= r@ + (
                seq![s@[i as int]] + replace_all(s@.skip(i + 1), from@, to@)));
            }
            r.push(s[i]);
            i += 1;
        }
    }
    proof {
        let e = s@.skip(i as int);
        assert(e.len() == 0);
        assert(find(e, from@) is None);
        assert(r@ + e =~= r@);
    }
    r
}

/// `str::replace` on string slices, over characters.
pub fn replace_str(s: &str, from: &str, to: &str) -> (r: String)
    requires
        from@.len() > 0,
    ensures
        r@ == replace_all(s@, from@, to@),
{
    let sv = chars_of(s);
    let fv = chars_of(from);
    let tv = chars_of(to);
    let rv = replace_chars(sv.as_slice(), fv.as_slice(), tv.as_slice());
    string_from_chars(rv.as_slice())
}

// ---------------------------------------------------------------- numbers
pub open spec fn digit_of(c: char, radix: nat) -> Option<nat> {
    let u = c as u32;
    if 0x30 <= u <= 0x39 && (u - 0x30) < radix {
        Some((u - 0x30) as nat)
    } else if radix == 16 && 0x61 <= u <= 0x66 {
        Some((u - 0x61 + 10) as nat)
    } else if radix == 16 && 0x41 <= u <= 0x46 {
        Some((u - 0x41 + 10) as nat)
    } else {
        None
    }
}

pub open spec fn all_digits(s: Seq<char>, radix: nat) -> bool {
    forall|i: int| 0 <= i < s.len() ==> (#[trigger] digit_of(s[i], radix)) is Some
}

/// Value of a string of digits, most significant first.
pub open spec fn digits_value(s: Seq<char>, radix: nat) -> nat
    decreases s.len(),
{
    if s.len() == 0 {
        0
    } else {
        digits_value(s.drop_last(), radix) * radix + match digit_of(s.last(), radix) {
            Some(d) => d,
            None => 0,
        }
    }
}

/// The value of unsigned-integer text the way Rust's integer parsers read it: an optional
/// `+`, then at least one digit of the radix; `None` when that fails or the value exceeds `max`.
pub open spec fn parse_unsigned(s: Seq<char>, radix: nat, max: nat) -> Option<nat> {
    let body = if s.len() > 0 && s[0] == '+' {
        s.drop_first()
    } else {
        s
    };
    if body.len() == 0 || !all_digits(body, radix) || digits_value(body, radix) > max {
        None
    } else {
        Some(digits_value(body, radix))
    }
}

proof fn lemma_digits_value_monotone(s: Seq<char>, radix: nat, i: int)
    requires
        0 <= i <= s.len(),
        radix >= 1,
    ensures
        digits_value(s.take(i), radix) <= digits_value(s, radix),
    decreases s.len() - i,
{
    if i < s.len() {
        lemma_digits_value_monotone(s, radix, i + 1);
        assert(s.take(i + 1).drop_last() =~= s.take(i));
        let v = digits_value(s.take(i), radix);
        assert(v * radix >= v) by (nonlinear_arith)
            requires
                radix >= 1,
        ;
    } else {
        assert(s.take(i) =~= s);
    }
}

fn digit_exec(c: char, radix: u32) -> (r: Option<u32>)
    requires
        radix == 10 || radix == 16,
    ensures
        r matches Some(d) ==> digit_of(c, radix as nat) == Some(d as nat) && d < radix,
        r is None ==> digit_of(c, radix as nat) is None,
{
    let u = c as u32;
    if 0x30 <= u && u <= 0x39 && (u - 0x30) < radix {
        Some(u - 0x30)
    } else if radix == 16 && 0x61 <= u && u <= 0x66 {
        Some(u - 0x61 + 10)
    } else if radix == 16 && 0x41 <= u && u <= 0x46 {
        Some(u - 0x41 + 10)
    } else {
        None
    }
}

/// Parses unsigned-integer text; see `parse_unsigned`.
pub fn parse_unsigned_exec(s: &[char], radix: u32, max: u64) -> (r: Option<u64>)
    requires
        radix == 10 || radix == 16,
    ensures
        r matches Some(v) ==> parse_unsigned(s@, radix as nat, max as nat) == Some(v as nat),
        r is None ==> parse_unsigned(s@, radix as nat, max as nat) is None,
{
    let start: usize = if s.len() > 0 && s[0] == '+' {
        1
    } else {
        0
    };
    let ghost body = if s@.len() > 0 && s@[0] == '+' {
        s@.drop_first()
    } else {
        s@
    };
    assert(body =~= s@.skip(start as int));
    if start >= s.len() {
        return None;
    }
    let mut acc: u128 = 0;
    let mut i: usize = start;
    while i < s.len()
        invariant
            start <= i <= s@.len(),
            body == s@.skip(start as int),
            body == (if s@.len() > 0 && s@[0] == '+' {
                s@.drop_first()
            } else {
                s@
            }),
            radix == 10 || radix == 16,
            all_digits(body.take(i - start), radix as nat),
            acc == digits_value(body.take(i - start), radix as nat),
            acc <= max,
        decreases s@.len() - i,
    {
        let d = digit_exec(s[i], radix);
        let ghost pre = body.take(i - start);
        let ghost next = body.take(i - start + 1);
        assert(next.drop_last() =~= pre);
        assert(next.last() == s@[i as int]);
        match d {
            None => {
                assert(body[i - start] == s@[i as int]);
                assert(digit_of(body[i - start], radix as nat) is None);
                assert(!all_digits(body, radix as nat));
                proof {
                    lemma_parse_rejects(s@, radix as nat, max as nat, body);
                }
                return None;
            },
            Some(dv) => {
                assert(acc * (radix as u128) + (dv as u128) <= 0xffff_ffff_ffff_ffffu128 * 16 + 15)
                    by (nonlinear_arith)
                    requires
                        acc <= 0xffff_ffff_ffff_ffffu128,
                        radix <= 16,
                        dv < 16,
                ;
                let nacc = acc * (radix as u128) + (dv as u128);
                assert(nacc == digits_value(next, radix as nat));
                if nacc > max as u128 {
                    proof {
                        assert(all_digits(next, radix as nat)) by {
                            assert forall|k: int| 0 <= k < next.len() implies (#[trigger] digit_of(
                                next[k],
                                radix as nat,
                            )) is Some by {
                                if k < next.len() - 1 {
                                    assert(next[k] == pre[k]);
                                }
                            }
                        }
                        lemma_digits_value_monotone(body, radix as nat, i - start + 1);
                        assert(digits_value(body, radix as nat) > max);
                        lemma_parse_rejects(s@, radix as nat, max as nat, body);
                    }
                    return None;
                }
                acc = nacc;
                i += 1;
                proof {
                    assert forall|k: int| 0 <= k < next.len() implies (#[trigger] digit_of(
                        next[k],
                        radix as nat,
                    )) is Some by {
                        if k < next.len() - 1 {
                            assert(next[k] == pre[k]);
                        }
                    }
                }
            },
        }
    }
    assert(body.take(i - start) =~= body);
    Some(acc as u64)
}

proof fn lemma_parse_rejects(s: Seq<char>, radix: nat, max: nat, body: Seq<char>)
    requires
        body == (if s.len() > 0 && s[0] == '+' { s.drop_first() } else { s }),
        !all_digits(body, radix) || digits_value(body, radix) > max,
    ensures parse_unsigned(s, radix, max) is None,
{
}

// ---------------------------------------------------------------- decimal formatting
pub open spec fn digit_char_of(d: nat) -> char {
    ((d + 48) as u32) as char
}

/// Decimal text of `n`, without leading zeros (what `Display` gives for unsigned integers).
pub open spec fn decimal(n: nat) -> Seq<char>
    decreases n,
{
    if n < 10 {
        seq![digit_char_of(n)]
    } else {
        decimal(n / 10).push(digit_char_of(n % 10))
    }
}

/// Decimal text is made of digits, and has two or more of them from 10 on.
pub proof fn lemma_decimal_digits(n: nat)
    ensures
        decimal(n).len() >= 1,
        n >= 10 ==> decimal(n).len() >= 2,
        forall|i: int| 0 <= i < decimal(n).len() ==> '0' <= #[trigger] decimal(n)[i] <= '9',
    decreases n,
{
    if n >= 10 {
        lemma_decimal_digits(n / 10);
        let d = decimal(n / 10);
        assert forall|i: int| 0 <= i < decimal(n).len() implies '0' <= #[trigger] decimal(n)[i]
            <= '9' by {
            if i < d.len() {
                assert(decimal(n)[i] == d[i]);
            }
        }
    }
}

proof fn lemma_digit_char_injective(a: nat, b: nat)
    requires
        a < 10,
        b < 10,
        digit_char_of(a) == digit_char_of(b),
    ensures
        a == b,
{
    assert((digit_char_of(a) as u32) == a + 48);
    assert((digit_char_of(b) as u32) == b + 48);
}

/// Different numbers have different decimal texts.
pub proof fn lemma_decimal_injective(a: nat, b: nat)
    requires
        decimal(a) == decimal(b),
    ensures
        a == b,
    decreases a + b,
{
    lemma_decimal_digits(a);
    lemma_decimal_digits(b);
    if a < 10 && b < 10 {
        assert(decimal(a)[0] == decimal(b)[0]);
        lemma_digit_char_injective(a, b);
    } else if a >= 10 && b >= 10 {
        let da = decimal(a / 10);
        let db = decimal(b / 10);
        assert(decimal(a).drop_last() =~= da);
        assert(decimal(b).drop_last() =~= db);
        assert(decimal(a).last() == digit_char_of(a % 10));
        assert(decimal(b).last() == digit_char_of(b % 10));
        lemma_digit_char_injective(a % 10, b % 10);
        lemma_decimal_injective(a / 10, b / 10);
    }
}

pub fn decimal_chars(n: u64) -> (r: Vec<char>)
    ensures
        r@ == decimal(n as nat),
    decreases n,
{
    let d = (n % 10) as u8;
    let c = (48u8 + d) as char;
    if n < 10 {
        let mut v: Vec<char> = Vec::new();
        v.push(c);
        assert(v@ =~= seq![digit_char_of(n as nat)]);
        v
    } else {
        let mut v = decimal_chars(n / 10);
        v.push(c);
        v
    }
}

pub fn decimal_string(n: u64) -> (r: String)
    ensures
        r@ == decimal(n as nat),
{
    let v = decimal_chars(n);
    string_from_chars(v.as_slice())
}

// ---------------------------------------------------------------- words
/// Scan state of `split_whitespace`: the finished words and the word in progress.
pub open spec fn words_scan(s: Seq<char>) -> (Seq<Seq<char>>, Option<Seq<char>>)
    decreases s.len(),
{
    if s.len() == 0 {
        (Seq::empty(), None)
    } else {
        let (done, cur) = words_scan(s.drop_last());
        let c = s.last();
        if is_white_space(c) {
            match cur {
                Some(w) => (done.push(w), None),
                None => (done, None),
            }
        } else {
            match cur {
                Some(w) => (done, Some(w.push(c))),
                None => (done, Some(seq![c])),
            }
        }
    }
}

/// The maximal runs of non-white-space characters of `s` (what `str::split_whitespace` yields).
pub open spec fn words(s: Seq<char>) -> Seq<Seq<char>> {
    let (done, cur) = words_scan(s);
    match cur {
        Some(w) => done.push(w),
        None => done,
    }
}

pub fn split_words(s: &[char]) -> (r: Vec<Vec<char>>)
    ensures
        r@.len() == words(s@).len(),
        forall|k: int| 0 <= k < r@.len() ==> (#[trigger] r@[k])@ == words(s@)[k],
{
    let mut done: Vec<Vec<char>> = Vec::new();
    let mut cur: Option<Vec<char>> = None;
    let mut i: usize = 0;
    while i < s.len()
        invariant
            i <= s@.len(),
            done@.len() == words_scan(s@.take(i as int)).0.len(),
            forall|k: int|
                0 <= k < done@.len() ==> (#[trigger] done@[k])@ == words_scan(
                    s@.take(i as int),
                ).0[k],
            match cur {
                Some(w) => words_scan(s@.take(i as int)).1 == Some(w@),
                None => words_scan(s@.take(i as int)).1 is None,
            },
        decreases s@.len() - i,
    {
        let c = s[i];
        let ghost pre = s@.take(i as int);
        assert(s@.take(i + 1).drop_last() =~= pre);
        if white_space(c) {
            match cur {
                Some(w) => {
                    done.push(w);
                    cur = None;
                },
                None => {},
            }
        } else {
            match cur {
                Some(mut w) => {
                    w.push(c);
                    cur = Some(w);
                },
                None => {
                    let mut w: Vec<char> = Vec::new();
                    w.push(c);
                    assert(w@ =~= seq![c]);
                    cur = Some(w);
                },
            }
        }
        i += 1;
    }
    assert(s@.take(s@.len() as int) =~= s@);
    match cur {
        Some(w) => {
            done.push(w);
        },
        None => {},
    }
    done
}

} // verus!
