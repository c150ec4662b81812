//! Character-level string utilities with exact specifications.
use vstd::prelude::*;

verus! {

/// `String::push`: appends one character.
#[verifier::external_body]
pub(crate) fn push_char(s: &mut String, c: char)
    ensures
        final(s)@ == old(s)@.push(c),
{
    s.push(c);
}

/// The characters of `s`, in order.
pub fn chars_of(s: &str) -> (v: Vec<char>)
    ensures
        v@ == s@,
{
    let mut v: Vec<char> = Vec::new();
    for c in it: s.chars()
        invariant
            v@ == it.seq().take(it.index() as int),
    {
        v.push(c);
    }
    v
}

/// Number of characters of `s`.
pub fn char_count(s: &str) -> (n: usize)
    ensures
        n == s@.len(),
{
    chars_of(s).len()
}

/// A `String` holding the characters `v[start..end]`.
pub fn string_of_range(v: &Vec<char>, start: usize, end: usize) -> (s: String)
    requires
        start <= end <= v.len(),
    ensures
        s@ == v@.subrange(start as int, end as int),
{
    let mut s = String::new();
    let mut i = start;
    while i < end
        invariant
            start <= i <= end <= v.len(),
            s@ == v@.subrange(start as int, i as int),
        decreases end - i,
    {
        push_char(&mut s, v[i]);
        i = i + 1;
    }
    s
}

/// A `String` holding the characters of `v`.
pub fn string_of(v: &Vec<char>) -> (s: String)
    ensures
        s@ == v@,
{
    string_of_range(v, 0, v.len())
}

/// A fresh `String` equal to `s`.
pub fn owned(s: &str) -> (r: String)
    ensures
        r@ == s@,
{
    s.to_string()
}

// ---------------------------------------------------------------------------
// Lexicographic order
// ---------------------------------------------------------------------------

/// Lexicographic "strictly less than" on character sequences, comparing
/// characters by their code points. This is the order of `str`'s `Ord`: UTF-8
/// encoding preserves code-point order byte by byte.
pub open spec fn seq_lt(a: Seq<char>, b: Seq<char>) -> bool
    decreases a.len(),
{
    if b.len() == 0 {
        false
    } else if a.len() == 0 {
        true
    } else if a[0] != b[0] {
        a[0] < b[0]
    } else {
        seq_lt(a.drop_first(), b.drop_first())
    }
}

pub proof fn lemma_seq_lt_irreflexive(a: Seq<char>)
    ensures
        !seq_lt(a, a),
    decreases a.len(),
{
    if a.len() > 0 {
        lemma_seq_lt_irreflexive(a.drop_first());
    }
}

pub proof fn lemma_seq_lt_transitive(a: Seq<char>, b: Seq<char>, c: Seq<char>)
    requires
        seq_lt(a, b),
        seq_lt(b, c),
    ensures
        seq_lt(a, c),
    decreases a.len(),
{
    if a.len() > 0 && b.len() > 0 && c.len() > 0 {
        if a[0] == b[0] && b[0] == c[0] {
            lemma_seq_lt_transitive(a.drop_first(), b.drop_first(), c.drop_first());
        }
    }
}

pub proof fn lemma_seq_lt_total(a: Seq<char>, b: Seq<char>)
    ensures
        a == b || seq_lt(a, b) || seq_lt(b, a),
    decreases a.len(),
{
    if a.len() > 0 && b.len() > 0 {
        if a[0] == b[0] {
            lemma_seq_lt_total(a.drop_first(), b.drop_first());
            if a.drop_first() == b.drop_first() {
                assert(a =~= seq![a[0]] + a.drop_first());
                assert(b =~= seq![b[0]] + b.drop_first());
            }
        } else {
        }
    } else if a.len() == 0 && b.len() == 0 {
        assert(a =~= b);
    }
}

pub proof fn lemma_seq_lt_asymmetric(a: Seq<char>, b: Seq<char>)
    requires
        seq_lt(a, b),
    ensures
        !seq_lt(b, a),
{
    if seq_lt(b, a) {
        lemma_seq_lt_transitive(a, b, a);
        lemma_seq_lt_irreflexive(a);
    }
}

pub proof fn lemma_seq_not_lt_transitive(a: Seq<char>, b: Seq<char>, c: Seq<char>)
    requires
        !seq_lt(a, b),
        !seq_lt(b, c),
    ensures
        !seq_lt(a, c),
{
    lemma_seq_lt_total(a, b);
    lemma_seq_lt_total(b, c);
    if seq_lt(a, c) {
        if a == b {
            assert(seq_lt(b, c));
        } else if b == c {
            assert(seq_lt(a, b));
        } else {
            lemma_seq_lt_transitive(c, b, a);
            lemma_seq_lt_asymmetric(a, c);
        }
    }
}

/// Whether `a` sorts strictly before `b` (`a < b` for `str`).
pub fn str_lt(a: &str, b: &str) -> (r: bool)
    ensures
        r == seq_lt(a@, b@),
{
    let va = chars_of(a);
    let vb = chars_of(b);
    let mut i: usize = 0;
    assert(a@.skip(0) =~= a@);
    assert(b@.skip(0) =~= b@);
    while i < va.len() && i < vb.len()
        invariant
            va@ == a@,
            vb@ == b@,
            i <= va.len(),
            i <= vb.len(),
            va@.take(i as int) == vb@.take(i as int),
            seq_lt(a@, b@) == seq_lt(a@.skip(i as int), b@.skip(i as int)),
        decreases va.len() - i,
    {
        if va[i] != vb[i] {
            let r = va[i] < vb[i];
            assert(a@.skip(i as int)[0] == va@[i as int]);
            assert(b@.skip(i as int)[0] == vb@[i as int]);
            return r;
        }
        assert(a@.skip(i as int).drop_first() =~= a@.skip(i + 1));
        assert(b@.skip(i as int).drop_first() =~= b@.skip(i + 1));
        assert(va@.take(i + 1) =~= va@.take(i as int).push(va@[i as int]));
        assert(vb@.take(i + 1) =~= vb@.take(i as int).push(vb@[i as int]));
        i = i + 1;
    }
    i < vb.len()
}

// ---------------------------------------------------------------------------
// Replacing every occurrence of a pattern
// ---------------------------------------------------------------------------

/// `s` with every non-overlapping occurrence of `pat`, found left to right,
/// replaced by `rep` (the meaning of `str::replace` for a non-empty pattern).
pub open spec fn replace_all(s: Seq<char>, pat: Seq<char>, rep: Seq<char>) -> Seq<char>
    recommends
        pat.len() > 0,
    decreases s.len(),
{
    if s.len() == 0 || pat.len() == 0 {
        s
    } else if s.len() >= pat.len() && s.take(pat.len() as int) == pat {
        rep + replace_all(s.skip(pat.len() as int), pat, rep)
    } else {
        seq![s[0]] + replace_all(s.drop_first(), pat, rep)
    }
}

/// Whether `pat` occurs in `s` starting at position `i`.
fn occurs_at(s: &Vec<char>, pat: &Vec<char>, i: usize) -> (r: bool)
    requires
        i <= s.len(),
    ensures
        r == (s@.len() - i >= pat@.len() && s@.skip(i as int).take(pat@.len() as int) == pat@),
{
    if s.len() - i < pat.len() {
        return false;
    }
    let mut k: usize = 0;
    while k < pat.len()
        invariant
            i <= s.len(),
            s.len() - i >= pat.len(),
            k <= pat.len(),
            forall|j: int| 0 <= j < k ==> s@[i + j] == pat@[j],
        decreases pat.len() - k,
    {
        if s[i + k] != pat[k] {
            assert(s@.skip(i as int).take(pat@.len() as int)[k as int] != pat@[k as int]);
            return false;
        }
        k = k + 1;
    }
    assert(s@.skip(i as int).take(pat@.len() as int) =~= pat@);
    true
}

/// `s` with every occurrence of `pat` replaced by `rep`, as `str::replace`.
pub fn replace(s: &str, pat: &str, rep: &str) -> (r: String)
    requires
        pat@.len() > 0,
    ensures
        r@ == replace_all(s@, pat@, rep@),
{
    let v = chars_of(s);
    let p = chars_of(pat);
    let mut out = String::new();
    let mut i: usize = 0;
    assert(v@.skip(0) =~= s@);
    assert(out@ + replace_all(v@.skip(0), pat@, rep@) =~= replace_all(s@, pat@, rep@));
    while i < v.len()
        invariant
            v@ == s@,
            p@ == pat@,
            p@.len() > 0,
            i <= v.len(),
            out@ + replace_all(v@.skip(i as int), pat@, rep@) == replace_all(s@, pat@, rep@),
        decreases v.len() - i,
    {
        let ghost rest = v@.skip(i as int);
        if occurs_at(&v, &p, i) {
            let ghost old_out = out@;
            out.append(rep);
            assert(rest.skip(p@.len() as int) =~= v@.skip(i + p@.len()));
            assert(replace_all(rest, pat@, rep@) == rep@ + replace_all(
                rest.skip(p@.len() as int),
                pat@,
                rep@,
            ));
            assert(out@ + replace_all(v@.skip(i + p@.len()), pat@, rep@) =~= old_out + (rep@
                + replace_all(rest.skip(p@.len() as int), pat@, rep@)));
            i = i + p.len();
        } else {
            let c = v[i];
            push_char(&mut out, c);
            assert(rest.drop_first() =~= v@.skip(i + 1));
            assert(rest[0] == c);
            i = i + 1;
        }
    }
    assert(v@.skip(i as int) =~= Seq::<char>::empty());
    assert(out@ + Seq::<char>::empty() =~= out@);
    out
}


// ---------------------------------------------------------------------------
// Joining
// ---------------------------------------------------------------------------

/// `parts` joined with `sep` between consecutive parts (`[T]::join`).
pub open spec fn seq_join(parts: Seq<Seq<char>>, sep: Seq<char>) -> Seq<char>
    decreases parts.len(),
{
    if parts.len() == 0 {
        Seq::empty()
    } else if parts.len() == 1 {
        parts[0]
    } else {
        seq_join(parts.drop_last(), sep) + sep + parts.last()
    }
}

/// The views of a sequence of strings.
pub open spec fn views(v: Seq<String>) -> Seq<Seq<char>> {
    v.map_values(|s: String| s@)
}

/// `parts.join(sep)`.
pub fn join(parts: &Vec<String>, sep: &str) -> (r: String)
    ensures
        r@ == seq_join(views(parts@), sep@),
{
    let mut out = String::new();
    let ghost all = views(parts@);
    let mut i: usize = 0;
    while i < parts.len()
        invariant
            all == views(parts@),
            i <= parts.len(),
            out@ == seq_join(all.take(i as int), sep@),
        decreases parts.len() - i,
    {
        assert(all.take(i + 1).drop_last() =~= all.take(i as int));
        if i > 0 {
            out.append(sep);
        } else {
            assert(seq_join(all.take(0), sep@) =~= Seq::<char>::empty());
        }
        out.append(parts[i].as_str());
        i = i + 1;
    }
    assert(all.take(parts.len() as int) =~= all);
    out
}

// ---------------------------------------------------------------------------
// Whitespace and trimming
// ---------------------------------------------------------------------------

/// Unicode `White_Space` (the meaning of `char::is_whitespace`).
pub open spec fn is_white_space(c: char) -> bool {
    ||| c == '\t'
    ||| c == '\n'
    ||| c == '\u{0B}'
    ||| c == '\u{0C}'
    ||| c == '\r'
    ||| c == ' '
    ||| c == '\u{85}'
    ||| c == '\u{A0}'
    ||| c == '\u{1680}'
    ||| ('\u{2000}' <= c && c <= '\u{200A}')
    ||| c == '\u{2028}'
    ||| c == '\u{2029}'
    ||| c == '\u{202F}'
    ||| c == '\u{205F}'
    ||| c == '\u{3000}'
}

/// `char::is_whitespace`.
pub fn is_whitespace(c: char) -> (r: bool)
    ensures
        r == is_white_space(c),
{
    c == '\t' || c == '\n' || c == '\u{0B}' || c == '\u{0C}' || c == '\r' || c == ' ' || c
        == '\u{85}' || c == '\u{A0}' || c == '\u{1680}' || ('\u{2000}' <= c && c <= '\u{200A}')
        || c == '\u{2028}' || c == '\u{2029}' || c == '\u{202F}' || c == '\u{205F}' || c
        == '\u{3000}'
}

/// `s` without its leading whitespace.
pub open spec fn trim_start(s: Seq<char>) -> Seq<char>
    decreases s.len(),
{
    if s.len() > 0 && is_white_space(s[0]) {
        trim_start(s.drop_first())
    } else {
        s
    }
}

/// `s` without its trailing whitespace.
pub open spec fn trim_end(s: Seq<char>) -> Seq<char>
    decreases s.len(),
{
    if s.len() > 0 && is_white_space(s.last()) {
        trim_end(s.drop_last())
    } else {
        s
    }
}

/// `s` without leading and trailing whitespace (`str::trim`).
pub open spec fn trim(s: Seq<char>) -> Seq<char> {
    trim_end(trim_start(s))
}

proof fn lemma_trim_start_at(s: Seq<char>, i: int)
    requires
        0 <= i <= s.len(),
        forall|j: int| 0 <= j < i ==> is_white_space(#[trigger] s[j]),
    ensures
        trim_start(s) == trim_start(s.skip(i)),
    decreases i,
{
    if i > 0 {
        assert(s.drop_first().skip(i - 1) =~= s.skip(i));
        lemma_trim_start_at(s.drop_first(), i - 1);
    } else {
        assert(s.skip(0) =~= s);
    }
}

proof fn lemma_trim_end_at(s: Seq<char>, k: int)
    requires
        0 <= k <= s.len(),
        forall|j: int| k <= j < s.len() ==> is_white_space(#[trigger] s[j]),
    ensures
        trim_end(s) == trim_end(s.take(k)),
    decreases s.len() - k,
{
    if k < s.len() {
        assert(s.drop_last().take(k) =~= s.take(k));
        lemma_trim_end_at(s.drop_last(), k);
    } else {
        assert(s.take(k) =~= s);
    }
}

/// `s.trim()`, as an owned string.
pub fn trimmed(s: &str) -> (r: String)
    ensures
        r@ == trim(s@),
{
    let v = chars_of(s);
    let mut i: usize = 0;
    while i < v.len() && is_whitespace(v[i])
        invariant
            v@ == s@,
            i <= v.len(),
            forall|j: int| 0 <= j < i ==> is_white_space(#[trigger] v@[j]),
        decreases v.len() - i,
    {
        i = i + 1;
    }
    proof {
        lemma_trim_start_at(s@, i as int);
    }
    let mut k: usize = v.len();
    while k > i && is_whitespace(v[k - 1])
        invariant
            v@ == s@,
            i <= k <= v.len(),
            forall|j: int| k <= j < v.len() ==> is_white_space(#[trigger] v@[j]),
        decreases k,
    {
        k = k - 1;
    }
    let ghost rest = s@.skip(i as int);
    proof {
        assert(trim_start(rest) == rest);
        lemma_trim_end_at(rest, k - i);
        assert(rest.take(k - i) =~= v@.subrange(i as int, k as int));
        let t = rest.take(k - i);
        if t.len() > 0 {
            assert(t.last() == v@[k - 1]);
        }
    }
    string_of_range(&v, i, k)
}

// ---------------------------------------------------------------------------
// Lines
// ---------------------------------------------------------------------------

/// Position of the first `c` in `s`, or `s.len()` when there is none.
pub open spec fn first_of(s: Seq<char>, c: char) -> int
    decreases s.len(),
{
    if s.len() == 0 {
        0
    } else if s[0] == c {
        0
    } else {
        1 + first_of(s.drop_first(), c)
    }
}

pub proof fn lemma_first_of(s: Seq<char>, c: char)
    ensures
        0 <= first_of(s, c) <= s.len(),
        forall|j: int| 0 <= j < first_of(s, c) ==> s[j] != c,
        first_of(s, c) < s.len() ==> s[first_of(s, c)] == c,
    decreases s.len(),
{
    if s.len() > 0 && s[0] != c {
        lemma_first_of(s.drop_first(), c);
        assert forall|j: int| 0 <= j < first_of(s, c) implies s[j] != c by {
            if j > 0 {
                assert(s[j] == s.drop_first()[j - 1]);
            }
        }
    }
}

pub proof fn lemma_first_of_is(s: Seq<char>, c: char, k: int)
    requires
        0 <= k <= s.len(),
        forall|j: int| 0 <= j < k ==> s[j] != c,
        k < s.len() ==> s[k] == c,
    ensures
        first_of(s, c) == k,
    decreases s.len(),
{
    if s.len() > 0 && k > 0 {
        lemma_first_of_is(s.drop_first(), c, k - 1);
    }
}

/// `t` without one trailing `'\r'`.
pub open spec fn strip_cr(t: Seq<char>) -> Seq<char> {
    if t.len() > 0 && t.last() == '\r' {
        t.drop_last()
    } else {
        t
    }
}

/// The lines of `s` as `str::lines` yields them: split after each `'\n'`,
/// each line without its `"\n"` or `"\r\n"` ending, and no empty last line.
pub open spec fn lines(s: Seq<char>) -> Seq<Seq<char>>
    decreases s.len(),
{
    if s.len() == 0 {
        Seq::empty()
    } else {
        let k = first_of(s, '\n');
        if k >= s.len() {
            seq![s]
        } else {
            proof {
                lemma_first_of(s, '\n');
            }
            seq![strip_cr(s.take(k))] + lines(s.skip(k + 1))
        }
    }
}

/// The pieces of `s` between occurrences of `c` (`str::split(c)`); there is
/// always at least one.
pub open spec fn split_char(s: Seq<char>, c: char) -> Seq<Seq<char>>
    decreases s.len(),
{
    let k = first_of(s, c);
    if k >= s.len() || k < 0 {
        seq![s]
    } else {
        seq![s.take(k)] + split_char(s.skip(k + 1), c)
    }
}

/// `split_char` always yields at least one piece.
pub proof fn lemma_split_char_nonempty(s: Seq<char>, c: char)
    ensures
        split_char(s, c).len() > 0,
    decreases s.len(),
{
    lemma_first_of(s, c);
    let k = first_of(s, c);
    if k < s.len() {
        lemma_split_char_nonempty(s.skip(k + 1), c);
    }
}

/// Index of the first `c` in `v` at or after `from`, or `v.len()`.
fn find_char(v: &Vec<char>, c: char, from: usize) -> (k: usize)
    requires
        from <= v.len(),
    ensures
        from <= k <= v.len(),
        k - from == first_of(v@.skip(from as int), c),
{
    let mut k = from;
    while k < v.len() && v[k] != c
        invariant
            from <= k <= v.len(),
            forall|j: int| from <= j < k ==> v@[j] != c,
        decreases v.len() - k,
    {
        k = k + 1;
    }
    proof {
        lemma_first_of_is(v@.skip(from as int), c, k - from);
    }
    k
}

/// The pieces of `s` between occurrences of `c`, as `str::split(c)`.
pub fn split(s: &str, c: char) -> (r: Vec<String>)
    ensures
        views(r@) == split_char(s@, c),
{
    let v = chars_of(s);
    let mut out: Vec<String> = Vec::new();
    let mut start: usize = 0;
    assert(v@.skip(0) =~= s@);
    loop
        invariant
            v@ == s@,
            start <= v.len(),
            views(out@) + split_char(v@.skip(start as int), c) == split_char(s@, c),
        decreases v.len() - start,
    {
        let k = find_char(&v, c, start);
        let piece = string_of_range(&v, start, k);
        let ghost rest = v@.skip(start as int);
        if k == v.len() {
            assert(rest.take(k - start) =~= rest);
            let ghost prev = out@;
            out.push(piece);
            assert(views(out@) =~= views(prev).push(piece@));
            return out;
        }
        let ghost prev = out@;
        out.push(piece);
        assert(views(out@) =~= views(prev).push(piece@));
        assert(rest.skip(k - start + 1) =~= v@.skip(k + 1));
        assert(rest.take(k - start) =~= v@.subrange(start as int, k as int));
        start = k + 1;
    }
}

/// The lines of `s`, as `str::lines` yields them.
pub fn lines_of(s: &str) -> (r: Vec<String>)
    ensures
        views(r@) == lines(s@),
{
    let v = chars_of(s);
    let mut out: Vec<String> = Vec::new();
    let mut start: usize = 0;
    assert(v@.skip(0) =~= s@);
    while start < v.len()
        invariant
            v@ == s@,
            start <= v.len(),
            views(out@) + lines(v@.skip(start as int)) == lines(s@),
        decreases v.len() - start,
    {
        let k = find_char(&v, '\n', start);
        let ghost rest = v@.skip(start as int);
        let ghost prev = out@;
        if k == v.len() {
            let piece = string_of_range(&v, start, k);
            assert(piece@ =~= rest);
            out.push(piece);
            assert(views(out@) =~= views(prev).push(rest));
            start = k;
            assert(v@.skip(start as int) =~= Seq::<char>::empty());
        } else {
            let end = if k > start && v[k - 1] == '\r' {
                k - 1
            } else {
                k
            };
            let piece = string_of_range(&v, start, end);
            assert(piece@ =~= strip_cr(rest.take(k - start)));
            out.push(piece);
            assert(views(out@) =~= views(prev).push(strip_cr(rest.take(k - start))));
            assert(rest.skip(k - start + 1) =~= v@.skip(k + 1));
            start = k + 1;
        }
    }
    assert(v@.skip(start as int) =~= Seq::<char>::empty());
    assert(views(out@) + Seq::<Seq<char>>::empty() =~= views(out@));
    out
}

/// Text without a newline is a single line.
pub proof fn lemma_lines_single(s: Seq<char>)
    requires
        s.len() > 0,
        forall|i: int| 0 <= i < s.len() ==> s[i] != '\n',
    ensures
        lines(s) == seq![s],
{
    lemma_first_of_is(s, '\n', s.len() as int);
}

/// Number of lines `str::lines` yields for `s`.
pub fn line_count(s: &str) -> (n: usize)
    ensures
        n == lines(s@).len(),
{
    let v = chars_of(s);
    let mut n: usize = 0;
    let mut start: usize = 0;
    assert(v@.skip(0) =~= s@);
    while start < v.len()
        invariant
            v@ == s@,
            start <= v.len(),
            n <= start,
            n + lines(v@.skip(start as int)).len() == lines(s@).len(),
        decreases v.len() - start,
    {
        let k = find_char(&v, '\n', start);
        let ghost rest = v@.skip(start as int);
        n = n + 1;
        if k == v.len() {
            start = k;
            assert(v@.skip(start as int) =~= Seq::<char>::empty());
        } else {
            assert(rest.skip(k - start + 1) =~= v@.skip(k + 1));
            start = k + 1;
        }
    }
    assert(v@.skip(start as int) =~= Seq::<char>::empty());
    n
}

// ---------------------------------------------------------------------------
// Numbers and repetition
// ---------------------------------------------------------------------------

/// The character of the decimal digit `d` (`0 <= d < 10`).
pub open spec fn digit_char(d: int) -> char {
    if d == 0 {
        '0'
    } else if d == 1 {
        '1'
    } else if d == 2 {
        '2'
    } else if d == 3 {
        '3'
    } else if d == 4 {
        '4'
    } else if d == 5 {
        '5'
    } else if d == 6 {
        '6'
    } else if d == 7 {
        '7'
    } else if d == 8 {
        '8'
    } else {
        '9'
    }
}

/// Decimal notation of `n`, without leading zeros.
pub open spec fn decimal(n: nat) -> Seq<char>
    decreases n,
{
    if n < 10 {
        seq![digit_char(n as int)]
    } else {
        decimal(n / 10).push(digit_char((n % 10) as int))
    }
}

/// Decimal notation of `i`, with a leading `'-'` when negative.
pub open spec fn signed_decimal(i: int) -> Seq<char> {
    if i < 0 {
        seq!['-'] + decimal((-i) as nat)
    } else {
        decimal(i as nat)
    }
}

fn digit(d: u64) -> (c: char)
    requires
        d < 10,
    ensures
        c == digit_char(d as int),
{
    if d == 0 {
        '0'
    } else if d == 1 {
        '1'
    } else if d == 2 {
        '2'
    } else if d == 3 {
        '3'
    } else if d == 4 {
        '4'
    } else if d == 5 {
        '5'
    } else if d == 6 {
        '6'
    } else if d == 7 {
        '7'
    } else if d == 8 {
        '8'
    } else {
        '9'
    }
}

/// Appends the decimal notation of `n` to `s`.
pub fn push_decimal(s: &mut String, n: u64)
    ensures
        final(s)@ == old(s)@ + decimal(n as nat),
    decreases n,
{
    if n >= 10 {
        push_decimal(s, n / 10);
    }
    push_char(s, digit(n % 10));
}

/// `n.to_string()`.
pub fn u64_to_string(n: u64) -> (r: String)
    ensures
        r@ == decimal(n as nat),
{
    let mut s = String::new();
    push_decimal(&mut s, n);
    assert(s@ =~= decimal(n as nat));
    s
}

/// `i.to_string()`.
pub fn i64_to_string(i: i64) -> (r: String)
    ensures
        r@ == signed_decimal(i as int),
{
    let mut s = String::new();
    if i < 0 {
        push_char(&mut s, '-');
        let m: u64 = (0 - (i as i128)) as u64;
        push_decimal(&mut s, m);
    } else {
        push_decimal(&mut s, i as u64);
        assert(s@ =~= decimal(i as nat));
    }
    s
}

/// `s` repeated `n` times (`str::repeat`).
pub open spec fn repeat(s: Seq<char>, n: nat) -> Seq<char>
    decreases n,
{
    if n == 0 {
        Seq::empty()
    } else {
        repeat(s, (n - 1) as nat) + s
    }
}

/// `s.repeat(n)`.
pub fn repeated(s: &str, n: usize) -> (r: String)
    ensures
        r@ == repeat(s@, n as nat),
{
    let mut out = String::new();
    let mut i: usize = 0;
    while i < n
        invariant
            i <= n,
            out@ == repeat(s@, i as nat),
        decreases n - i,
    {
        out.append(s);
        i = i + 1;
    }
    out
}


/// `a == b` for string slices.
pub fn str_eq(a: &str, b: &str) -> (r: bool)
    ensures
        r == (a@ == b@),
{
    let va = chars_of(a);
    let vb = chars_of(b);
    if va.len() != vb.len() {
        return false;
    }
    let mut i: usize = 0;
    while i < va.len()
        invariant
            va@ == a@,
            vb@ == b@,
            va.len() == vb.len(),
            i <= va.len(),
            forall|j: int| 0 <= j < i ==> va@[j] == vb@[j],
        decreases va.len() - i,
    {
        if va[i] != vb[i] {
            return false;
        }
        i = i + 1;
    }
    assert(va@ =~= vb@);
    true
}


// ---------------------------------------------------------------------------
// Sorted, duplicate-free lists of strings
// ---------------------------------------------------------------------------

/// Each string of `s` sorts strictly before the next: `s` is sorted and
/// holds no string twice.
pub open spec fn strictly_sorted(s: Seq<Seq<char>>) -> bool {
    forall|i: int, j: int| 0 <= i < j < s.len() ==> seq_lt(#[trigger] s[i], #[trigger] s[j])
}

/// Two strictly sorted lists of the same strings are equal: the contract of
/// `sorted_unique` determines its result.
pub proof fn lemma_strictly_sorted_unique(a: Seq<Seq<char>>, b: Seq<Seq<char>>)
    requires
        strictly_sorted(a),
        strictly_sorted(b),
        a.to_set() == b.to_set(),
    ensures
        a == b,
    decreases a.len(),
{
    if a.len() == 0 {
        if b.len() > 0 {
            assert(b.to_set().contains(b[0]));
        }
        assert(a =~= b);
    } else if b.len() == 0 {
        assert(a.to_set().contains(a[0]));
    } else {
        // The first elements are both the least element of the common set.
        assert(a.to_set().contains(a[0]));
        assert(b.to_set().contains(b[0]));
        let ka = choose|k: int| 0 <= k < a.len() && a[k] == b[0];
        let kb = choose|k: int| 0 <= k < b.len() && b[k] == a[0];
        if ka > 0 {
            assert(seq_lt(a[0], a[ka]));
            if kb > 0 {
                assert(seq_lt(b[0], b[kb]));
                lemma_seq_lt_asymmetric(a[0], b[0]);
            } else {
                lemma_seq_lt_irreflexive(a[0]);
            }
        }
        assert(a[0] == b[0]);
        let ta = a.drop_first();
        let tb = b.drop_first();
        assert forall|i: int, j: int| 0 <= i < j < ta.len() implies seq_lt(
            #[trigger] ta[i],
            #[trigger] ta[j],
        ) by {
            assert(ta[i] == a[i + 1] && ta[j] == a[j + 1]);
        }
        assert forall|i: int, j: int| 0 <= i < j < tb.len() implies seq_lt(
            #[trigger] tb[i],
            #[trigger] tb[j],
        ) by {
            assert(tb[i] == b[i + 1] && tb[j] == b[j + 1]);
        }
        assert forall|x: Seq<char>| ta.to_set().contains(x) implies tb.to_set().contains(x) by {
            let k = choose|k: int| 0 <= k < ta.len() && ta[k] == x;
            assert(a[k + 1] == x);
            assert(a.to_set().contains(x));
            let m = choose|m: int| 0 <= m < b.len() && b[m] == x;
            assert(seq_lt(a[0], a[k + 1]));
            if m == 0 {
                lemma_seq_lt_irreflexive(x);
            }
            assert(tb[m - 1] == x);
        }
        assert forall|x: Seq<char>| tb.to_set().contains(x) implies ta.to_set().contains(x) by {
            let k = choose|k: int| 0 <= k < tb.len() && tb[k] == x;
            assert(b[k + 1] == x);
            assert(b.to_set().contains(x));
            let m = choose|m: int| 0 <= m < a.len() && a[m] == x;
            assert(seq_lt(b[0], b[k + 1]));
            if m == 0 {
                lemma_seq_lt_irreflexive(x);
            }
            assert(ta[m - 1] == x);
        }
        assert(ta.to_set() =~= tb.to_set());
        lemma_strictly_sorted_unique(ta, tb);
        assert(a =~= seq![a[0]] + ta);
        assert(b =~= seq![b[0]] + tb);
    }
}

/// Adds `x` to the strictly sorted `v` unless it is already there.
fn insert_unique(v: &mut Vec<String>, x: String)
    requires
        strictly_sorted(views(old(v)@)),
    ensures
        strictly_sorted(views(final(v)@)),
        views(final(v)@).to_set() == views(old(v)@).to_set().insert(x@),
{
    let ghost s = views(v@);
    let mut k: usize = 0;
    while k < v.len() && str_lt(v[k].as_str(), x.as_str())
        invariant
            s == views(v@),
            strictly_sorted(s),
            k <= v.len(),
            forall|j: int| 0 <= j < k ==> seq_lt(#[trigger] s[j], x@),
        decreases v.len() - k,
    {
        k = k + 1;
    }
    if k < v.len() && v[k] == x {
        assert(s.to_set().insert(x@) =~= s.to_set()) by {
            assert(s[k as int] == x@);
        }
        return;
    }
    proof {
        if k < v.len() {
            lemma_seq_lt_total(s[k as int], x@);
        }
    }
    let ghost xv = x@;
    v.insert(k, x);
    let ghost t = views(v@);
    assert(t =~= s.insert(k as int, xv));
    assert forall|i: int, j: int| 0 <= i < j < t.len() implies seq_lt(#[trigger] t[i], #[trigger] t[j]) by {
        if i < k && j == k {
        } else if i < k && j > k {
            assert(t[j] == s[j - 1]);
            lemma_seq_lt_transitive(t[i], xv, s[k as int]);
            if j - 1 > k {
                lemma_seq_lt_transitive(t[i], s[k as int], s[j - 1]);
            }
        } else if i == k {
            assert(t[j] == s[j - 1]);
            if j - 1 > k {
                lemma_seq_lt_transitive(xv, s[k as int], s[j - 1]);
            }
        } else if i < k {
            assert(t[i] == s[i] && t[j] == s[j]);
        } else {
            assert(t[i] == s[i - 1] && t[j] == s[j - 1]);
        }
    }
    assert forall|y: Seq<char>| t.to_set().contains(y) <==> s.to_set().insert(xv).contains(y) by {
        if t.to_set().contains(y) {
            let m = choose|m: int| 0 <= m < t.len() && t[m] == y;
            if m < k {
                assert(s[m] == y);
            } else if m > k {
                assert(s[m - 1] == y);
            }
        }
        if s.to_set().contains(y) {
            let m = choose|m: int| 0 <= m < s.len() && s[m] == y;
            if m < k {
                assert(t[m] == y);
            } else {
                assert(t[m + 1] == y);
            }
        }
        if y == xv {
            assert(t[k as int] == y);
        }
    }
    assert(t.to_set() =~= s.to_set().insert(xv));
}

/// The distinct strings of `names` in sorted order (`sort` then `dedup`).
pub fn sorted_unique(names: &Vec<String>) -> (r: Vec<String>)
    ensures
        strictly_sorted(views(r@)),
        views(r@).to_set() == views(names@).to_set(),
{
    let ghost all = views(names@);
    let mut out: Vec<String> = Vec::new();
    let mut i: usize = 0;
    while i < names.len()
        invariant
            all == views(names@),
            i <= names.len(),
            strictly_sorted(views(out@)),
            views(out@).to_set() == all.take(i as int).to_set(),
        decreases names.len() - i,
    {
        let x = names[i].clone();
        insert_unique(&mut out, x);
        assert(all.take(i + 1) =~= all.take(i as int).push(all[i as int]));
        proof {
            all.take(i as int).lemma_push_to_set_commute(all[i as int]);
        }
        i = i + 1;
    }
    assert(all.take(names.len() as int) =~= all);
    out
}


/// Where `pat` does not occur, replacing it changes nothing: a template
/// without placeholders is left as it is.
pub proof fn lemma_replace_absent(s: Seq<char>, pat: Seq<char>, rep: Seq<char>)
    requires
        pat.len() > 0,
        forall|i: int| 0 <= i && i + pat.len() <= s.len() ==> #[trigger] s.subrange(i, i + pat.len()) != pat,
    ensures
        replace_all(s, pat, rep) == s,
    decreases s.len(),
{
    if s.len() > 0 {
        if s.len() >= pat.len() {
            let z: int = 0;
            assert(s.subrange(z, z + pat.len()) != pat);
            assert(s.take(pat.len() as int) =~= s.subrange(z, z + pat.len()));
        }
        let t = s.drop_first();
        assert forall|i: int| 0 <= i && i + pat.len() <= t.len() implies #[trigger] t.subrange(
            i,
            i + pat.len(),
        ) != pat by {
            assert(t.subrange(i, i + pat.len()) =~= s.subrange(i + 1, i + 1 + pat.len()));
        }
        lemma_replace_absent(t, pat, rep);
        assert(seq![s[0]] + t =~= s);
    }
}

} // verus!
