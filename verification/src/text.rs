//! Character-level helpers over `Seq<char>` views of strings.

use vstd::prelude::*;

verus! {

broadcast use vstd::string::group_string_axioms;

/// `String::push`: appends one character at the end of the string.
#[verifier::external_body]
pub(crate) fn push_char(s: &mut String, c: char)
    ensures
        final(s)@ == old(s)@.push(c),
{
    s.push(c)
}

/// The characters of `s`, in order.
pub fn chars_of(s: &str) -> (v: Vec<char>)
    ensures
        v@ == s@,
{
    let mut v: Vec<char> = Vec::new();
    for c in it: s.chars()
        invariant
            v@ == it.seq().take(it.index()),
            it.seq() == s@,
    {
        v.push(c);
    }
    v
}

} // verus!

verus! {

/// Unicode `White_Space`, the set that `char::is_whitespace` and `str::trim` use.
pub open spec fn is_white_space(c: char) -> bool {
    let n = c as u32;
    ||| 0x9 <= n <= 0xd
    ||| n == 0x20
    ||| n == 0x85
    ||| n == 0xa0
    ||| n == 0x1680
    ||| 0x2000 <= n <= 0x200a
    ||| n == 0x2028
    ||| n == 0x2029
    ||| n == 0x202f
    ||| n == 0x205f
    ||| n == 0x3000
}

pub fn white_space(c: char) -> (b: bool)
    ensures
        b == is_white_space(c),
{
    let n = c as u32;
    (0x9 <= n && n <= 0xd) || n == 0x20 || n == 0x85 || n == 0xa0 || n == 0x1680 || (0x2000 <= n
        && n <= 0x200a) || n == 0x2028 || n == 0x2029 || n == 0x202f || n == 0x205f || n == 0x3000
}

/// `s` without its leading white space.
pub open spec fn trim_start(s: Seq<char>) -> Seq<char>
    decreases s.len(),
{
    if s.len() > 0 && is_white_space(s[0]) {
        trim_start(s.drop_first())
    } else {
        s
    }
}

/// `s` without its trailing white space.
pub open spec fn trim_end(s: Seq<char>) -> Seq<char>
    decreases s.len(),
{
    if s.len() > 0 && is_white_space(s.last()) {
        trim_end(s.drop_last())
    } else {
        s
    }
}

/// What `str::trim` leaves of `s`.
pub open spec fn trimmed(s: Seq<char>) -> Seq<char> {
    trim_end(trim_start(s))
}

/// The string made of `v[lo..hi]`.
pub fn string_of(v: &Vec<char>, lo: usize, hi: usize) -> (s: String)
    requires
        lo <= hi <= v.len(),
    ensures
        s@ == v@.subrange(lo as int, hi as int),
{
    let mut s = String::new();
    let mut i = lo;
    while i < hi
        invariant
            lo <= i <= hi <= v.len(),
            s@ == v@.subrange(lo as int, i as int),
        decreases hi - i,
    {
        push_char(&mut s, v[i]);
        i = i + 1;
        assert(s@ =~= v@.subrange(lo as int, i as int));
    }
    s
}

/// `str::trim`: `s` without leading and trailing white space.
pub fn trim(s: &str) -> (t: String)
    ensures
        t@ == trimmed(s@),
{
    let v = chars_of(s);
    let n = v.len();
    let mut i: usize = 0;
    assert(v@.subrange(0, n as int) =~= v@);
    while i < n && white_space(v[i])
        invariant
            i <= n == v@.len(),
            trim_start(v@) == trim_start(v@.subrange(i as int, n as int)),
        decreases n - i,
    {
        assert(v@.subrange(i as int, n as int).drop_first() =~= v@.subrange(i + 1, n as int));
        i = i + 1;
    }
    assert(trim_start(v@) == v@.subrange(i as int, n as int));
    let mut j: usize = n;
    while j > i && white_space(v[j - 1])
        invariant
            i <= j <= n == v@.len(),
            trim_end(v@.subrange(i as int, n as int)) == trim_end(v@.subrange(i as int, j as int)),
        decreases j - i,
    {
        assert(v@.subrange(i as int, j as int).drop_last() =~= v@.subrange(i as int, j - 1));
        j = j - 1;
    }
    string_of(&v, i, j)
}

/// True when `s` holds nothing but white space.
pub fn is_blank(s: &str) -> (b: bool)
    ensures
        b == (trimmed(s@).len() == 0),
{
    let t = trim(s);
    t.as_str().is_empty()
}

} // verus!

verus! {

/// The ASCII digit for `d`, for `d < 10`.
pub open spec fn digit_char(d: nat) -> char {
    (48 + d) as char
}

/// Decimal notation of a natural number, without leading zeros.
pub open spec fn decimal(n: nat) -> Seq<char>
    decreases n,
{
    if n < 10 {
        seq![digit_char(n)]
    } else {
        decimal(n / 10).push(digit_char(n % 10))
    }
}

/// Decimal notation of an integer, with a leading `-` when it is negative
/// (what `Display` writes for Rust's integer types).
pub open spec fn signed_decimal(n: int) -> Seq<char> {
    if n < 0 {
        seq!['-'] + decimal((-n) as nat)
    } else {
        decimal(n as nat)
    }
}

fn digit(d: u64) -> (c: char)
    requires
        d < 10,
    ensures
        c == digit_char(d as nat),
{
    if d == 0 {
        '0'
    } else if d == 1 {
        '1'
    } else if d == 2 {
        '2'
    } else if d == 3 {
        '3'
    } else if d == 4 {
        '4'
    } else if d == 5 {
        '5'
    } else if d == 6 {
        '6'
    } else if d == 7 {
        '7'
    } else if d == 8 {
        '8'
    } else {
        '9'
    }
}

/// Appends the decimal notation of `n` to `out`.
pub fn push_decimal(out: &mut String, n: u64)
    ensures
        final(out)@ == old(out)@ + decimal(n as nat),
    decreases n,
{
    if n >= 10 {
        push_decimal(out, n / 10);
    }
    push_char(out, digit(n % 10));
    assert(final(out)@ =~= old(out)@ + decimal(n as nat)) by {
        if n >= 10 {
            assert(decimal(n as nat) == decimal((n / 10) as nat).push(digit_char((n % 10) as nat)));
        }
    }
}

/// Appends the decimal notation of the signed integer `n` to `out`.
pub fn push_signed_decimal(out: &mut String, n: i64)
    ensures
        final(out)@ == old(out)@ + signed_decimal(n as int),
{
    if n < 0 {
        push_char(out, '-');
        let magnitude: u64 = ((-(n + 1)) as u64) + 1;
        assert(magnitude as int == -(n as int));
        push_decimal(out, magnitude);
        assert(final(out)@ =~= old(out)@ + signed_decimal(n as int));
    } else {
        push_decimal(out, n as u64);
    }
}

} // verus!

verus! {

/// Whether `a` and `b` hold the same text.
pub fn same_text(a: &str, b: &str) -> (r: bool)
    ensures
        r == (a@ == b@),
{
    let x = chars_of(a);
    let y = chars_of(b);
    if x.len() != y.len() {
        return false;
    }
    let mut i: usize = 0;
    while i < x.len()
        invariant
            x@ == a@,
            y@ == b@,
            x.len() == y.len(),
            i <= x.len(),
            forall|j: int| 0 <= j < i ==> x@[j] == y@[j],
        decreases x.len() - i,
    {
        if x[i] != y[i] {
            assert(x@[i as int] != y@[i as int]);
            return false;
        }
        i = i + 1;
    }
    assert(x@ =~= y@);
    true
}

/// A `String` holding the text of `s`.
pub fn owned(s: &str) -> (r: String)
    ensures
        r@ == s@,
{
    s.to_string()
}

} // verus!

verus! {

/// Whether `pat` occurs in `s` starting at index `i`.
pub open spec fn occurs_at(s: Seq<char>, pat: Seq<char>, i: int) -> bool {
    0 <= i && i + pat.len() <= s.len() && s.subrange(i, i + pat.len()) == pat
}

/// Whether `pat` occurs anywhere in `s` (`str::contains`).
pub open spec fn contains_text(s: Seq<char>, pat: Seq<char>) -> bool {
    exists|i: int| occurs_at(s, pat, i)
}

/// Whether `s` begins with `pat` (`str::starts_with`).
pub open spec fn has_prefix(s: Seq<char>, pat: Seq<char>) -> bool {
    pat.len() <= s.len() && s.take(pat.len() as int) == pat
}

/// Whether `pat` occurs in `s` at index `i`.
pub fn matches_at(s: &Vec<char>, pat: &Vec<char>, i: usize) -> (r: bool)
    ensures
        r == occurs_at(s@, pat@, i as int),
{
    if i > s.len() || pat.len() > s.len() - i {
        return false;
    }
    let mut k: usize = 0;
    while k < pat.len()
        invariant
            i + pat.len() <= s.len(),
            k <= pat.len(),
            forall|j: int| 0 <= j < k ==> s@[i + j] == pat@[j],
        decreases pat.len() - k,
    {
        if s[i + k] != pat[k] {
            assert(s@.subrange(i as int, i + pat.len())[k as int] != pat@[k as int]);
            return false;
        }
        k = k + 1;
    }
    assert(s@.subrange(i as int, i + pat.len()) =~= pat@);
    true
}

/// Whether `pat` occurs anywhere in `s`.
pub fn contains(s: &Vec<char>, pat: &Vec<char>) -> (r: bool)
    ensures
        r == contains_text(s@, pat@),
{
    let mut i: usize = 0;
    while i < s.len()
        invariant
            i <= s.len(),
            forall|j: int| 0 <= j < i ==> !occurs_at(s@, pat@, j),
        decreases s.len() - i,
    {
        if matches_at(s, pat, i) {
            return true;
        }
        i = i + 1;
    }
    if matches_at(s, pat, i) {
        return true;
    }
    assert forall|j: int| !occurs_at(s@, pat@, j) by {
        if 0 <= j <= i {
        }
    }
    false
}

/// Whether `s` begins with `pat`.
pub fn starts_with(s: &Vec<char>, pat: &Vec<char>) -> (r: bool)
    ensures
        r == has_prefix(s@, pat@),
{
    let r = matches_at(s, pat, 0);
    assert(s@.subrange(0, pat@.len() as int) =~= s@.take(pat@.len() as int));
    r
}

} // verus!

verus! {

/// The index of the first `\n` in `s` at or after `k`; the length of `s`
/// when there is none.
pub open spec fn next_newline(s: Seq<char>, k: int) -> int
    decreases s.len() - k,
{
    if k >= s.len() {
        s.len() as int
    } else if s[k] == '\n' {
        k
    } else {
        next_newline(s, k + 1)
    }
}

pub proof fn lemma_next_newline_bounds(s: Seq<char>, k: int)
    requires
        k <= s.len(),
    ensures
        k <= next_newline(s, k) <= s.len(),
    decreases s.len() - k,
{
    if k < s.len() && s[k] != '\n' {
        lemma_next_newline_bounds(s, k + 1);
    }
}

proof fn lemma_next_newline_at(s: Seq<char>, start: int, i: int)
    requires
        0 <= start <= i <= s.len(),
        forall|k: int| start <= k < i ==> s[k] != '\n',
        i == s.len() || s[i] == '\n',
    ensures
        next_newline(s, start) == i,
    decreases i - start,
{
    if start < i {
        lemma_next_newline_at(s, start + 1, i);
    }
}

/// The line of `s` between `start` and the line ending at `end`: without
/// the `\n`, and without a `\r` just before it.
pub open spec fn line_at(s: Seq<char>, start: int, end: int) -> Seq<char> {
    let seg = s.subrange(start, end);
    if end < s.len() && seg.len() > 0 && seg.last() == '\r' {
        seg.drop_last()
    } else {
        seg
    }
}

/// The lines of `s` from index `start` on.
pub open spec fn lines_from(s: Seq<char>, start: int) -> Seq<Seq<char>>
    decreases s.len() - start,
    via lines_from_decreases
{
    if start < 0 || start >= s.len() {
        Seq::empty()
    } else {
        let e = next_newline(s, start);
        if e >= s.len() {
            seq![line_at(s, start, e)]
        } else {
            seq![line_at(s, start, e)] + lines_from(s, e + 1)
        }
    }
}

#[via_fn]
proof fn lines_from_decreases(s: Seq<char>, start: int) {
    if !(start < 0 || start >= s.len()) {
        lemma_next_newline_bounds(s, start);
    }
}

/// The lines of `s` (`str::lines`): split at `\n` and at `\r\n`; a final
/// line ending adds no empty line.
pub open spec fn text_lines(s: Seq<char>) -> Seq<Seq<char>> {
    lines_from(s, 0)
}

fn line_chars(v: &Vec<char>, start: usize, end: usize) -> (r: Vec<char>)
    requires
        start <= end <= v.len(),
    ensures
        r@ == line_at(v@, start as int, end as int),
{
    let mut r: Vec<char> = Vec::new();
    let mut k = start;
    while k < end
        invariant
            start <= k <= end <= v.len(),
            r@ == v@.subrange(start as int, k as int),
        decreases end - k,
    {
        r.push(v[k]);
        k = k + 1;
        assert(r@ =~= v@.subrange(start as int, k as int));
    }
    if end < v.len() && r.len() > 0 && r[r.len() - 1] == '\r' {
        r.pop();
        assert(r@ =~= v@.subrange(start as int, end as int).drop_last());
    }
    r
}

/// The lines of `s`, each as its characters.
pub fn split_lines(s: &str) -> (r: Vec<Vec<char>>)
    ensures
        r.deep_view() == text_lines(s@),
{
    let v = chars_of(s);
    let n = v.len();
    let mut out: Vec<Vec<char>> = Vec::new();
    let mut start: usize = 0;
    let mut i: usize = 0;
    assert(out.deep_view() + lines_from(v@, 0) =~= lines_from(v@, 0));
    while i < n
        invariant
            n == v.len(),
            v@ == s@,
            start <= i <= n,
            forall|k: int| start <= k < i ==> v@[k] != '\n',
            out.deep_view() + lines_from(v@, start as int) == lines_from(v@, 0),
        decreases n - i,
    {
        if v[i] == '\n' {
            proof {
                lemma_next_newline_at(v@, start as int, i as int);
            }
            let line = line_chars(&v, start, i);
            let ghost before = out.deep_view();
            assert(line.deep_view() =~= line@);
            out.push(line);
            assert(out.deep_view() =~= before.push(line@));
            assert(lines_from(v@, start as int) == seq![line@] + lines_from(v@, i + 1));
            assert(out.deep_view() + lines_from(v@, i + 1) =~= before + lines_from(v@, start as int));
            start = i + 1;
        }
        i = i + 1;
    }
    if start < n {
        proof {
            lemma_next_newline_at(v@, start as int, n as int);
        }
        let line = line_chars(&v, start, n);
        let ghost before = out.deep_view();
        assert(line.deep_view() =~= line@);
        out.push(line);
        assert(out.deep_view() =~= before.push(line@));
        assert(lines_from(v@, start as int) == seq![line@]);
        assert(out.deep_view() =~= before + lines_from(v@, start as int));
    } else {
        assert(out.deep_view() =~= out.deep_view() + lines_from(v@, start as int));
    }
    out
}

} // verus!

verus! {

proof fn lemma_trim_start_shape(s: Seq<char>) -> (j: int)
    ensures
        0 <= j <= s.len(),
        trim_start(s) == s.skip(j),
        forall|i: int| 0 <= i < j ==> is_white_space(#[trigger] s[i]),
        j == s.len() || !is_white_space(s[j]),
    decreases s.len(),
{
    if s.len() > 0 && is_white_space(s[0]) {
        let j0 = lemma_trim_start_shape(s.drop_first());
        assert(s.drop_first().skip(j0) =~= s.skip(j0 + 1));
        assert forall|i: int| 0 <= i < j0 + 1 implies is_white_space(#[trigger] s[i]) by {
            if i > 0 {
                assert(s[i] == s.drop_first()[i - 1]);
            }
        }
        if j0 < s.drop_first().len() {
            assert(s[j0 + 1] == s.drop_first()[j0]);
        }
        j0 + 1
    } else {
        assert(s.skip(0) =~= s);
        0
    }
}

proof fn lemma_trim_end_shape(s: Seq<char>) -> (m: int)
    ensures
        0 <= m <= s.len(),
        trim_end(s) == s.take(m),
        forall|i: int| m <= i < s.len() ==> is_white_space(#[trigger] s[i]),
        m == 0 || !is_white_space(s[m - 1]),
    decreases s.len(),
{
    if s.len() > 0 && is_white_space(s.last()) {
        let m0 = lemma_trim_end_shape(s.drop_last());
        assert(s.drop_last().take(m0) =~= s.take(m0));
        assert forall|i: int| m0 <= i < s.len() implies is_white_space(#[trigger] s[i]) by {
            if i < s.len() - 1 {
                assert(s[i] == s.drop_last()[i]);
            }
        }
        if m0 > 0 {
            assert(s[m0 - 1] == s.drop_last()[m0 - 1]);
        }
        m0
    } else {
        assert(s.take(s.len() as int) =~= s);
        s.len() as int
    }
}

/// Text that holds a character other than white space keeps something when
/// trimmed.
pub proof fn lemma_trimmed_keeps_non_space(s: Seq<char>, k: int)
    requires
        0 <= k < s.len(),
        !is_white_space(s[k]),
    ensures
        trimmed(s).len() > 0,
{
    let j = lemma_trim_start_shape(s);
    let t = s.skip(j);
    assert(j <= k) by {
        if j > k {
            assert(is_white_space(s[k]));
        }
    }
    assert(t[k - j] == s[k]);
    let m = lemma_trim_end_shape(t);
    assert(m > 0) by {
        if m == 0 {
            assert(is_white_space(t[k - j]));
        }
    }
}

/// Trimming is idempotent: trimmed text has no white space left at either
/// end.
pub proof fn law_trim_is_idempotent(s: Seq<char>)
    ensures
        trimmed(trimmed(s)) == trimmed(s),
        trimmed(s).len() > 0 ==> !is_white_space(trimmed(s)[0]) && !is_white_space(trimmed(s).last()),
{
    let j = lemma_trim_start_shape(s);
    let t = s.skip(j);
    let m = lemma_trim_end_shape(t);
    let u = t.take(m);
    assert(trimmed(s) == u);
    if u.len() > 0 {
        assert(u[0] == t[0]);
        assert(t[0] == s[j]);
        assert(u.last() == t[m - 1]);
        assert(!is_white_space(u[0]));
        assert(trim_start(u) == u);
        assert(trim_end(u) == u);
    } else {
        assert(trim_start(u) == u);
        assert(trim_end(u) == u);
    }
}

} // verus!
