//! Character-sequence utilities shared by the parsers.
//!
//! Every parser in this crate works over `Vec<char>` / `Seq<char>`; this
//! module supplies the spec-level notions (whitespace, searching, line
//! splitting, trimming) together with verified executable counterparts.

use vstd::prelude::*;

verus! {

/// The Unicode `White_Space` code points, as used for trimming and for
/// splitting on whitespace.
pub open spec fn is_ws(c: char) -> bool {
    let u = c as u32;
    u == 0x20 || (0x09 <= u && u <= 0x0d) || u == 0x85 || u == 0xa0 || u == 0x1680 || (0x2000 <= u
        && u <= 0x200a) || u == 0x2028 || u == 0x2029 || u == 0x202f || u == 0x205f || u == 0x3000
}

/// Decides `is_ws`.
pub fn is_ws_char(c: char) -> (r: bool)
    ensures
        r == is_ws(c),
{
    let u = c as u32;
    u == 0x20 || (0x09 <= u && u <= 0x0d) || u == 0x85 || u == 0xa0 || u == 0x1680 || (0x2000 <= u
        && u <= 0x200a) || u == 0x2028 || u == 0x2029 || u == 0x202f || u == 0x205f || u == 0x3000
}

/// The characters of `s`, in order.
pub fn str_chars(s: &str) -> (r: Vec<char>)
    ensures
        r@ == s@,
{
    let n = s.unicode_len();
    let mut r: Vec<char> = Vec::new();
    let mut i: usize = 0;
    while i < n
        invariant
            n == s@.len(),
            i <= n,
            r@ == s@.take(i as int),
        decreases n - i,
    {
        r.push(s.get_char(i));
        i = i + 1;
        proof {
            assert(r@ =~= s@.take(i as int));
        }
    }
    proof {
        assert(s@.take(n as int) =~= s@);
    }
    r
}

/// A fresh copy of `v[i..j]`.
pub fn subvec(v: &Vec<char>, i: usize, j: usize) -> (r: Vec<char>)
    requires
        i <= j <= v@.len(),
    ensures
        r@ == v@.subrange(i as int, j as int),
{
    vstd::slice::slice_to_vec(vstd::slice::slice_subrange(v.as_slice(), i, j))
}

/// Index of the first occurrence of `c` in `s`; `s.len()` if absent.
pub open spec fn find_char(s: Seq<char>, c: char) -> int
    decreases s.len(),
{
    if s.len() == 0 {
        0
    } else if s[0] == c {
        0
    } else {
        1 + find_char(s.skip(1), c)
    }
}

/// What `find_char` returns: the first index holding `c`, or the length.
pub proof fn lemma_find_char(s: Seq<char>, c: char)
    ensures
        0 <= find_char(s, c) <= s.len(),
        find_char(s, c) < s.len() ==> s[find_char(s, c)] == c,
        forall|j: int| 0 <= j < find_char(s, c) ==> s[j] != c,
    decreases s.len(),
{
    if s.len() == 0 || s[0] == c {
    } else {
        lemma_find_char(s.skip(1), c);
        assert forall|j: int| 0 <= j < find_char(s, c) implies s[j] != c by {
            if j > 0 {
                assert(s.skip(1)[j - 1] == s[j]);
            }
        }
    }
}

/// Finds the first occurrence of `c` in `v`, returning `v.len()` if absent.
pub fn find_char_in(v: &Vec<char>, c: char) -> (r: usize)
    ensures
        r == find_char(v@, c),
{
    proof {
        lemma_find_char(v@, c);
    }
    let n = v.len();
    let mut i: usize = 0;
    while i < n
        invariant
            n == v@.len(),
            i <= n,
            forall|j: int| 0 <= j < i ==> v@[j] != c,
            0 <= find_char(v@, c) <= n,
            find_char(v@, c) < n ==> v@[find_char(v@, c)] == c,
            forall|j: int| 0 <= j < find_char(v@, c) ==> v@[j] != c,
        decreases n - i,
    {
        if v[i] == c {
            return i;
        }
        i = i + 1;
    }
    n
}

/// Decides `v@ == s@` for a character vector and a string slice.
pub fn eq_str(v: &Vec<char>, s: &str) -> (r: bool)
    ensures
        r == (v@ == s@),
{
    let w = str_chars(s);
    if v.len() != w.len() {
        proof {
            assert(v@.len() != s@.len());
        }
        return false;
    }
    let n = v.len();
    let mut i: usize = 0;
    while i < n
        invariant
            n == v@.len(),
            n == w@.len(),
            w@ == s@,
            i <= n,
            forall|j: int| 0 <= j < i ==> v@[j] == w@[j],
        decreases n - i,
    {
        if v[i] != w[i] {
            proof {
                assert(v@[i as int] != s@[i as int]);
            }
            return false;
        }
        i = i + 1;
    }
    proof {
        assert(v@ =~= s@);
    }
    true
}

/// Decides whether `s@` is a prefix of `v@`.
pub fn starts_with_str(v: &Vec<char>, s: &str) -> (r: bool)
    ensures
        r == s@.is_prefix_of(v@),
{
    let w = str_chars(s);
    if v.len() < w.len() {
        return false;
    }
    let n = w.len();
    let mut i: usize = 0;
    while i < n
        invariant
            n == w@.len(),
            n <= v@.len(),
            w@ == s@,
            i <= n,
            forall|j: int| 0 <= j < i ==> v@[j] == w@[j],
        decreases n - i,
    {
        if v[i] != w[i] {
            proof {
                assert(v@.subrange(0, n as int)[i as int] != s@[i as int]);
            }
            return false;
        }
        i = i + 1;
    }
    proof {
        assert(v@.subrange(0, n as int) =~= s@);
    }
    true
}

/// Whether `needle` occurs contiguously somewhere in `hay`.
pub open spec fn contains_seq(hay: Seq<char>, needle: Seq<char>) -> bool {
    exists|i: int|
        0 <= i && i + needle.len() <= hay.len() && #[trigger] hay.subrange(i, i + needle.len())
            == needle
}

/// Decides whether `s@` occurs contiguously in `v@`.
pub fn contains_str(v: &Vec<char>, s: &str) -> (r: bool)
    ensures
        r == contains_seq(v@, s@),
{
    let w = str_chars(s);
    if v.len() < w.len() {
        return false;
    }
    let m = w.len();
    let n = v.len();
    let last = n - m;
    let mut i: usize = 0;
    while i <= last
        invariant
            m == w@.len(),
            w@ == s@,
            n == v@.len(),
            m <= n,
            last == n - m,
            i <= last + 1,
            forall|k: int| 0 <= k < i ==> #[trigger] v@.subrange(k, k + m as int) != s@,
        decreases last + 1 - i,
    {
        let mut j: usize = 0;
        let mut ok = true;
        while j < m
            invariant
                m == w@.len(),
                w@ == s@,
                n == v@.len(),
                i <= n - m,
                j <= m,
                ok <==> (forall|t: int| 0 <= t < j ==> v@[i + t] == s@[t]),
            decreases m - j,
        {
            if v[i + j] != w[j] {
                ok = false;
                j = m;
            } else {
                j = j + 1;
            }
        }
        if ok {
            proof {
                assert(v@.subrange(i as int, i + m as int) =~= s@);
            }
            return true;
        }
        proof {
            assert(v@.subrange(i as int, i + m as int) != s@) by {
                let d = choose|t: int| 0 <= t < m && v@[i + t] != s@[t];
                assert(v@.subrange(i as int, i + m as int)[d] != s@[d]);
            }
        }
        i = i + 1;
    }
    proof {
        assert forall|k: int| 0 <= k && k + s@.len() <= v@.len() implies #[trigger] v@.subrange(
            k,
            k + s@.len(),
        ) != s@ by {}
    }
    false
}

/// `s` with one trailing carriage return removed, as `str::lines` does.
pub open spec fn strip_cr(s: Seq<char>) -> Seq<char> {
    if s.len() > 0 && s.last() == '\r' {
        s.drop_last()
    } else {
        s
    }
}

/// The lines of `s`, split on `'\n'` with a trailing `'\r'` stripped from
/// each line and no empty line after a final newline — the semantics of
/// `str::lines`.
pub open spec fn spec_lines(s: Seq<char>) -> Seq<Seq<char>>
    decreases s.len(),
{
    if s.len() == 0 {
        Seq::empty()
    } else {
        let i = find_char(s, '\n');
        if 0 <= i < s.len() {
            seq![strip_cr(s.take(i))].add(spec_lines(s.skip(i + 1)))
        } else {
            seq![strip_cr(s)]
        }
    }
}

/// `v` with one trailing carriage return removed.
pub fn strip_cr_vec(v: &Vec<char>) -> (r: Vec<char>)
    ensures
        r@ == strip_cr(v@),
{
    let n = v.len();
    if n > 0 && v[n - 1] == '\r' {
        subvec(v, 0, n - 1)
    } else {
        subvec(v, 0, n)
    }
}

/// Splits `v` into its lines, as `str::lines` would.
pub fn lines_of(v: &Vec<char>) -> (r: Vec<Vec<char>>)
    ensures
        r.deep_view() == spec_lines(v@),
{
    let mut r: Vec<Vec<char>> = Vec::new();
    let mut rest: Vec<char> = subvec(v, 0, v.len());
    proof {
        assert(rest@ =~= v@);
        assert(r.deep_view() =~= Seq::<Seq<char>>::empty());
        assert(r.deep_view() + spec_lines(rest@) =~= spec_lines(v@));
    }
    while rest.len() > 0
        invariant
            r.deep_view() + spec_lines(rest@) == spec_lines(v@),
        decreases rest@.len(),
    {
        proof {
            lemma_find_char(rest@, '\n');
        }
        let i = find_char_in(&rest, '\n');
        if i == rest.len() {
            let line = strip_cr_vec(&rest);
            let ghost old_r = r.deep_view();
            r.push(line);
            proof {
                assert(r.deep_view() =~~= old_r.push(strip_cr(rest@)));
                assert(r.deep_view() + spec_lines(Seq::<char>::empty()) =~~= spec_lines(v@));
            }
            rest = Vec::new();
            proof {
                assert(rest@ =~= Seq::<char>::empty());
            }
        } else {
            let head = subvec(&rest, 0, i);
            let line = strip_cr_vec(&head);
            let ghost old_r = r.deep_view();
            let ghost old_rest = rest@;
            r.push(line);
            rest = subvec(&rest, i + 1, rest.len());
            proof {
                assert(old_rest.take(i as int) == old_rest.subrange(0, i as int));
                assert(rest@ =~= old_rest.skip(i + 1));
                assert(r.deep_view() =~~= old_r.push(strip_cr(old_rest.take(i as int))));
                assert(r.deep_view() + spec_lines(rest@) =~~= spec_lines(v@));
            }
        }
    }
    proof {
        assert(r.deep_view() + spec_lines(rest@) =~~= r.deep_view());
    }
    r
}

/// A string with no newline and no trailing carriage return is a single
/// line.
pub proof fn lemma_lines_single(s: Seq<char>)
    requires
        s.len() > 0,
        forall|j: int| 0 <= j < s.len() ==> s[j] != '\n',
        s.last() != '\r',
    ensures
        spec_lines(s) == seq![s],
{
    lemma_find_char(s, '\n');
    if find_char(s, '\n') < s.len() {
        assert(s[find_char(s, '\n')] == '\n');
    }
    assert(spec_lines(s) =~= seq![strip_cr(s)]);
}

/// Splitting off a newline-free first line: the lines of
/// `x + "\n" + y` are `x` followed by the lines of `y`.
pub proof fn lemma_lines_concat(x: Seq<char>, y: Seq<char>)
    requires
        forall|j: int| 0 <= j < x.len() ==> x[j] != '\n',
        x.len() > 0 ==> x.last() != '\r',
    ensures
        spec_lines(x + seq!['\n'] + y) == seq![x].add(spec_lines(y)),
{
    let w = x + seq!['\n'] + y;
    assert(w.len() > 0);
    assert(w[x.len() as int] == '\n');
    lemma_find_char(w, '\n');
    let f = find_char(w, '\n');
    if f < x.len() {
        assert(w[f] == x[f]);
    }
    if f > x.len() {
        assert(w[x.len() as int] != '\n');
    }
    assert(f == x.len());
    assert(w.take(f) =~= x);
    assert(strip_cr(x) == x);
    assert(w.skip(f + 1) =~= y);
    assert(spec_lines(w) =~= seq![x].add(spec_lines(y)));
}

/// Splitting a whole block off the front: for `x` without carriage
/// returns and without a trailing newline, the lines of `x + "\n" + y`
/// are the lines of `x` (one empty line, if `x` is empty) followed by the
/// lines of `y`.
pub proof fn lemma_lines_concat_multi(x: Seq<char>, y: Seq<char>)
    requires
        forall|j: int| 0 <= j < x.len() ==> x[j] != '\r',
        x.len() > 0 ==> x.last() != '\n',
    ensures
        spec_lines(x + seq!['\n'] + y) == (if x.len() == 0 {
            seq![Seq::<char>::empty()]
        } else {
            spec_lines(x)
        }).add(spec_lines(y)),
    decreases x.len(),
{
    lemma_find_char(x, '\n');
    let f = find_char(x, '\n');
    if f >= x.len() {
        // x itself is a single (or empty) line
        lemma_lines_concat(x, y);
        if x.len() > 0 {
            lemma_lines_single(x);
            assert(spec_lines(x + seq!['\n'] + y) =~= spec_lines(x).add(spec_lines(y)));
        } else {
            assert(x =~= Seq::<char>::empty());
            assert(seq![x] =~= seq![Seq::<char>::empty()]);
            assert(spec_lines(x + seq!['\n'] + y) =~= seq![Seq::<char>::empty()].add(
                spec_lines(y),
            ));
        }
    } else {
        let x1 = x.take(f);
        let x2 = x.skip(f + 1);
        assert(x[f] == '\n');
        assert(f < x.len() - 1) by {
            if f == x.len() - 1 {
                assert(x.last() == '\n');
            }
        }
        assert(x2.len() > 0);
        assert(x2.last() == x.last());
        // peel the first line of x off the front of the whole string
        assert(x + seq!['\n'] + y =~= x1 + seq!['\n'] + (x2 + seq!['\n'] + y));
        assert(forall|j: int| 0 <= j < x1.len() ==> x1[j] != '\n');
        assert(x1.len() > 0 ==> x1.last() != '\r');
        lemma_lines_concat(x1, x2 + seq!['\n'] + y);
        lemma_lines_concat_multi(x2, y);
        // and relate to the lines of x itself
        assert(spec_lines(x) =~= seq![strip_cr(x1)].add(spec_lines(x2)));
        assert(strip_cr(x1) == x1);
        assert(spec_lines(x + seq!['\n'] + y) =~= spec_lines(x).add(spec_lines(y)));
    }
}

/// Joining the lines of a carriage-return-free string with newlines gives
/// the string back — up to one trailing newline, which `str::lines`
/// swallows.
pub proof fn lemma_lines_join(s: Seq<char>)
    requires
        forall|j: int| 0 <= j < s.len() ==> s[j] != '\r',
    ensures
        s.len() > 0 && s.last() == '\n' ==> join_char(spec_lines(s), '\n') == s.drop_last(),
        !(s.len() > 0 && s.last() == '\n') ==> join_char(spec_lines(s), '\n') == s,
    decreases s.len(),
{
    if s.len() == 0 {
        assert(spec_lines(s) =~= Seq::<Seq<char>>::empty());
    } else {
        lemma_find_char(s, '\n');
        let f = find_char(s, '\n');
        if f >= s.len() {
            lemma_lines_single(s);
            assert(join_char(seq![s], '\n') == s);
        } else {
            let s1 = s.take(f);
            let s2 = s.skip(f + 1);
            assert(s[f] == '\n');
            assert(strip_cr(s1) == s1);
            assert(spec_lines(s) =~= seq![s1].add(spec_lines(s2)));
            lemma_lines_join(s2);
            if s2.len() == 0 {
                // s ends with its only newline
                assert(f == s.len() - 1);
                assert(s.last() == '\n');
                assert(spec_lines(s2) =~= Seq::<Seq<char>>::empty());
                assert(spec_lines(s) =~= seq![s1]);
                assert(join_char(seq![s1], '\n') == s1);
                assert(s1 =~= s.drop_last());
            } else {
                let parts = seq![s1].add(spec_lines(s2));
                assert(spec_lines(s2).len() > 0) by {
                    assert(s2.len() > 0);
                }
                assert(parts.len() > 1);
                assert(parts[0] == s1);
                assert(parts.skip(1) =~= spec_lines(s2));
                assert(join_char(parts, '\n') == s1 + seq!['\n'] + join_char(
                    spec_lines(s2),
                    '\n',
                ));
                assert(s2.last() == s.last());
                if s2.len() > 0 && s2.last() == '\n' {
                    assert(s1 + seq!['\n'] + s2.drop_last() =~= s.drop_last());
                } else {
                    assert(s1 + seq!['\n'] + s2 =~= s);
                }
            }
        }
    }
}

/// Splitting off a leading whitespace-free token: the tokens of `a + b`
/// are `a` followed by the tokens of `b`, when `b` is empty or opens with
/// whitespace.
pub proof fn lemma_split_ws_concat(a: Seq<char>, b: Seq<char>)
    requires
        a.len() > 0,
        forall|j: int| 0 <= j < a.len() ==> !is_ws(a[j]),
        b.len() > 0 ==> is_ws(b[0]),
    ensures
        split_ws(a + b) == seq![a].add(split_ws(b)),
{
    let w = a + b;
    assert(!is_ws(w[0]));
    lemma_find_ws(w);
    let f = find_ws(w);
    if b.len() == 0 {
        assert(forall|j: int| 0 <= j < w.len() ==> !is_ws(w[j]));
        assert(f == w.len());
        assert(w.take(f) =~= a);
        assert(w.skip(f) =~= b);
        assert(split_ws(w) =~= seq![a].add(split_ws(b)));
    } else {
        assert(w[a.len() as int] == b[0]);
        if f < a.len() {
            assert(w[f] == a[f]);
        }
        if f > a.len() {
            assert(!is_ws(w[a.len() as int]));
        }
        assert(f == a.len());
        assert(w.take(f) =~= a);
        assert(w.skip(f) =~= b);
        assert(split_ws(w) =~= seq![a].add(split_ws(b)));
    }
}

/// Whether `d` is in the normal form that whitespace splitting and
/// rejoining preserves: non-empty, every whitespace character a single
/// interior space.
pub open spec fn norm_text(d: Seq<char>) -> bool {
    &&& d.len() > 0
    &&& forall|j: int| 0 <= j < d.len() ==> (is_ws(#[trigger] d[j]) ==> d[j] == ' ')
    &&& d[0] != ' '
    &&& d.last() != ' '
    &&& forall|j: int| 0 <= j < d.len() - 1 ==> !(d[j] == ' ' && #[trigger] d[j + 1] == ' ')
}

/// Splitting a normal-form text on whitespace and rejoining its tokens
/// with single spaces gives the text back.
pub proof fn lemma_split_ws_join(d: Seq<char>)
    requires
        norm_text(d),
    ensures
        split_ws(d).len() >= 1,
        join_char(split_ws(d), ' ') == d,
    decreases d.len(),
{
    assert(!is_ws(d[0]));
    lemma_find_ws(d);
    let f = find_ws(d);
    assert(f >= 1);
    if f >= d.len() {
        assert(d.take(f) =~= d);
        assert(d.skip(f) =~= Seq::<char>::empty());
        assert(split_ws(d.skip(f)) =~= Seq::<Seq<char>>::empty());
        assert(split_ws(d) =~= seq![d]);
    } else {
        assert(d[f] == ' ');
        assert(f < d.len() - 1) by {
            if f == d.len() - 1 {
                assert(d.last() == ' ');
            }
        }
        let t = d.take(f);
        let rest = d.skip(f);
        let d2 = d.skip(f + 1);
        assert(rest[0] == ' ');
        assert(is_ws(rest[0]));
        assert(rest.skip(1) =~= d2);
        assert(split_ws(rest) == split_ws(d2));
        assert(split_ws(d) =~= seq![t].add(split_ws(d2)));
        assert(d2.len() > 0);
        assert(norm_text(d2)) by {
            assert(forall|j: int| 0 <= j < d2.len() ==> d2[j] == d[f + 1 + j]);
            assert(d[f] == ' ' && f < d.len() - 1);
            assert(!(d[f] == ' ' && d[f + 1] == ' '));
            assert(d2[0] == d[f + 1]);
            assert(d2[0] != ' ');
            assert(d2.last() == d.last());
            assert(forall|j: int|
                0 <= j < d2.len() - 1 ==> !(d2[j] == ' ' && #[trigger] d2[j + 1] == ' ')) by {
                assert(forall|j: int|
                    0 <= j < d2.len() - 1 ==> (d2[j] == d[f + 1 + j] && #[trigger] d2[j + 1]
                        == d[f + 1 + j + 1]));
            }
        }
        lemma_split_ws_join(d2);
        let parts = seq![t].add(split_ws(d2));
        assert(parts.len() > 1);
        assert(parts[0] == t);
        assert(parts.skip(1) =~= split_ws(d2));
        assert(join_char(parts, ' ') == t + seq![' '] + join_char(split_ws(d2), ' '));
        assert(t + seq![' '] + d2 =~= d);
    }
}

/// `s` without trailing whitespace.
pub open spec fn trim_end_spec(s: Seq<char>) -> Seq<char>
    decreases s.len(),
{
    if s.len() == 0 {
        s
    } else if is_ws(s.last()) {
        trim_end_spec(s.drop_last())
    } else {
        s
    }
}

/// `s` without leading whitespace.
pub open spec fn trim_start_spec(s: Seq<char>) -> Seq<char>
    decreases s.len(),
{
    if s.len() == 0 {
        s
    } else if is_ws(s[0]) {
        trim_start_spec(s.skip(1))
    } else {
        s
    }
}

/// `s` without leading or trailing whitespace, as `str::trim`.
pub open spec fn trim_spec(s: Seq<char>) -> Seq<char> {
    trim_start_spec(trim_end_spec(s))
}

/// Trimming never lengthens a sequence.
pub proof fn lemma_trim_end_len(s: Seq<char>)
    ensures
        trim_end_spec(s).len() <= s.len(),
    decreases s.len(),
{
    if s.len() > 0 && is_ws(s.last()) {
        lemma_trim_end_len(s.drop_last());
    }
}

/// Removes trailing whitespace.
pub fn trim_end_vec(v: &Vec<char>) -> (r: Vec<char>)
    ensures
        r@ == trim_end_spec(v@),
{
    let mut j = v.len();
    proof {
        assert(v@.take(j as int) =~= v@);
    }
    while j > 0 && is_ws_char(v[j - 1])
        invariant
            j <= v@.len(),
            trim_end_spec(v@) == trim_end_spec(v@.take(j as int)),
        decreases j,
    {
        proof {
            assert(v@.take(j as int).drop_last() =~= v@.take(j - 1));
        }
        j = j - 1;
    }
    proof {
        if j > 0 {
            assert(trim_end_spec(v@.take(j as int)) == v@.take(j as int));
        } else {
            assert(v@.take(0) =~= Seq::<char>::empty());
        }
    }
    subvec(v, 0, j)
}

/// Removes leading whitespace.
pub fn trim_start_vec(v: &Vec<char>) -> (r: Vec<char>)
    ensures
        r@ == trim_start_spec(v@),
{
    let n = v.len();
    let mut i: usize = 0;
    proof {
        assert(v@.skip(0) =~= v@);
    }
    while i < n && is_ws_char(v[i])
        invariant
            i <= n,
            n == v@.len(),
            trim_start_spec(v@) == trim_start_spec(v@.skip(i as int)),
        decreases n - i,
    {
        proof {
            assert(v@.skip(i as int).skip(1) =~= v@.skip(i + 1));
        }
        i = i + 1;
    }
    proof {
        assert(v@.skip(i as int) =~= v@.subrange(i as int, n as int));
        if i < n {
            assert(trim_start_spec(v@.skip(i as int)) == v@.skip(i as int));
        }
    }
    subvec(v, i, n)
}

/// Removes leading and trailing whitespace.
pub fn trim_vec(v: &Vec<char>) -> (r: Vec<char>)
    ensures
        r@ == trim_spec(v@),
{
    let e = trim_end_vec(v);
    trim_start_vec(&e)
}

/// Index of the first whitespace character in `s`; `s.len()` if absent.
pub open spec fn find_ws(s: Seq<char>) -> int
    decreases s.len(),
{
    if s.len() == 0 {
        0
    } else if is_ws(s[0]) {
        0
    } else {
        1 + find_ws(s.skip(1))
    }
}

/// What `find_ws` returns: the first whitespace index, or the length.
pub proof fn lemma_find_ws(s: Seq<char>)
    ensures
        0 <= find_ws(s) <= s.len(),
        find_ws(s) < s.len() ==> is_ws(s[find_ws(s)]),
        forall|j: int| 0 <= j < find_ws(s) ==> !is_ws(s[j]),
    decreases s.len(),
{
    if s.len() == 0 || is_ws(s[0]) {
    } else {
        lemma_find_ws(s.skip(1));
        assert forall|j: int| 0 <= j < find_ws(s) implies !is_ws(s[j]) by {
            if j > 0 {
                assert(s.skip(1)[j - 1] == s[j]);
            }
        }
    }
}

/// Finds the first whitespace character in `v`, returning `v.len()` if absent.
pub fn find_ws_in(v: &Vec<char>) -> (r: usize)
    ensures
        r == find_ws(v@),
{
    proof {
        lemma_find_ws(v@);
    }
    let n = v.len();
    let mut i: usize = 0;
    while i < n
        invariant
            n == v@.len(),
            i <= n,
            forall|j: int| 0 <= j < i ==> !is_ws(v@[j]),
            0 <= find_ws(v@) <= n,
            find_ws(v@) < n ==> is_ws(v@[find_ws(v@)]),
            forall|j: int| 0 <= j < find_ws(v@) ==> !is_ws(v@[j]),
        decreases n - i,
    {
        if is_ws_char(v[i]) {
            return i;
        }
        i = i + 1;
    }
    n
}

/// Appends all of `src` to `dst`.
pub fn extend_chars(dst: &mut Vec<char>, src: &Vec<char>)
    ensures
        final(dst)@ == old(dst)@ + src@,
{
    let n = src.len();
    let mut i: usize = 0;
    while i < n
        invariant
            n == src@.len(),
            i <= n,
            dst@ == old(dst)@ + src@.take(i as int),
        decreases n - i,
    {
        dst.push(src[i]);
        i = i + 1;
        proof {
            assert(dst@ =~= old(dst)@ + src@.take(i as int));
        }
    }
    proof {
        assert(old(dst)@ + src@.take(n as int) =~= old(dst)@ + src@);
    }
}

/// The whitespace-separated tokens of `s`, as `str::split_whitespace`.
pub open spec fn split_ws(s: Seq<char>) -> Seq<Seq<char>>
    decreases s.len(),
{
    if s.len() == 0 {
        Seq::empty()
    } else if is_ws(s[0]) {
        split_ws(s.skip(1))
    } else {
        let i = find_ws(s);
        if 1 <= i <= s.len() {
            seq![s.take(i)].add(split_ws(s.skip(i)))
        } else {
            seq![s]
        }
    }
}

/// Splits `v` into whitespace-separated tokens.
pub fn split_ws_in(v: &Vec<char>) -> (r: Vec<Vec<char>>)
    ensures
        r.deep_view() == split_ws(v@),
{
    let mut r: Vec<Vec<char>> = Vec::new();
    let mut rest: Vec<char> = subvec(v, 0, v.len());
    proof {
        assert(rest@ =~= v@);
        assert(r.deep_view() =~= Seq::<Seq<char>>::empty());
        assert(r.deep_view() + split_ws(rest@) =~= split_ws(v@));
    }
    while rest.len() > 0
        invariant
            r.deep_view() + split_ws(rest@) == split_ws(v@),
        decreases rest@.len(),
    {
        let ghost old_rest = rest@;
        let ghost old_r = r.deep_view();
        if is_ws_char(rest[0]) {
            rest = subvec(&rest, 1, rest.len());
            proof {
                assert(rest@ =~= old_rest.skip(1));
                assert(r.deep_view() + split_ws(rest@) =~= split_ws(v@));
            }
        } else {
            proof {
                lemma_find_ws(rest@);
            }
            let i = find_ws_in(&rest);
            let tok = subvec(&rest, 0, i);
            r.push(tok);
            rest = subvec(&rest, i, rest.len());
            proof {
                assert(tok@ == old_rest.take(i as int));
                assert(rest@ =~= old_rest.skip(i as int));
                assert(r.deep_view() =~~= old_r.push(old_rest.take(i as int)));
                assert(r.deep_view() + split_ws(rest@) =~~= split_ws(v@));
            }
        }
    }
    proof {
        assert(r.deep_view() + split_ws(rest@) =~~= r.deep_view());
    }
    r
}

/// The fields of `s` split on every occurrence of `c`, empties kept,
/// as `str::split` with a char pattern.
pub open spec fn split_char(s: Seq<char>, c: char) -> Seq<Seq<char>>
    decreases s.len(),
{
    let i = find_char(s, c);
    if 0 <= i < s.len() {
        seq![s.take(i)].add(split_char(s.skip(i + 1), c))
    } else {
        seq![s]
    }
}

/// Splits `v` on every occurrence of `c`, keeping empty fields.
pub fn split_char_in(v: &Vec<char>, c: char) -> (r: Vec<Vec<char>>)
    ensures
        r.deep_view() == split_char(v@, c),
        r@.len() > 0,
{
    let mut r: Vec<Vec<char>> = Vec::new();
    let mut rest: Vec<char> = subvec(v, 0, v.len());
    proof {
        assert(rest@ =~= v@);
        assert(r.deep_view() =~= Seq::<Seq<char>>::empty());
        assert(r.deep_view() + split_char(rest@, c) =~= split_char(v@, c));
    }
    loop
        invariant
            r.deep_view() + split_char(rest@, c) == split_char(v@, c),
        decreases rest@.len(),
    {
        proof {
            lemma_find_char(rest@, c);
        }
        let ghost old_rest = rest@;
        let ghost old_r = r.deep_view();
        let i = find_char_in(&rest, c);
        if i == rest.len() {
            let ghost final_r = r.deep_view().push(rest@);
            r.push(rest);
            proof {
                assert(r.deep_view() =~~= old_r.push(old_rest));
                assert(r.deep_view() =~~= split_char(v@, c));
            }
            return r;
        } else {
            let head = subvec(&rest, 0, i);
            r.push(head);
            rest = subvec(&rest, i + 1, rest.len());
            proof {
                assert(rest@ =~= old_rest.skip(i + 1));
                assert(r.deep_view() =~~= old_r.push(old_rest.take(i as int)));
                assert(r.deep_view() + split_char(rest@, c) =~~= split_char(v@, c));
            }
        }
    }
}

/// Index of the first occurrence of byte `b` in `s`; `s.len()` if absent.
pub open spec fn find_byte(s: Seq<u8>, b: u8) -> int
    decreases s.len(),
{
    if s.len() == 0 {
        0
    } else if s[0] == b {
        0
    } else {
        1 + find_byte(s.skip(1), b)
    }
}

/// What `find_byte` returns: the first index holding `b`, or the length.
pub proof fn lemma_find_byte(s: Seq<u8>, b: u8)
    ensures
        0 <= find_byte(s, b) <= s.len(),
        find_byte(s, b) < s.len() ==> s[find_byte(s, b)] == b,
        forall|j: int| 0 <= j < find_byte(s, b) ==> s[j] != b,
    decreases s.len(),
{
    if s.len() == 0 || s[0] == b {
    } else {
        lemma_find_byte(s.skip(1), b);
        assert forall|j: int| 0 <= j < find_byte(s, b) implies s[j] != b by {
            if j > 0 {
                assert(s.skip(1)[j - 1] == s[j]);
            }
        }
    }
}

/// Finds the first occurrence of `b` in the slice, or its length if absent.
pub fn find_byte_in(v: &[u8], b: u8) -> (r: usize)
    ensures
        r == find_byte(v@, b),
{
    proof {
        lemma_find_byte(v@, b);
    }
    let n = v.len();
    let mut i: usize = 0;
    while i < n
        invariant
            n == v@.len(),
            i <= n,
            forall|j: int| 0 <= j < i ==> v@[j] != b,
            0 <= find_byte(v@, b) <= n,
            find_byte(v@, b) < n ==> v@[find_byte(v@, b)] == b,
            forall|j: int| 0 <= j < find_byte(v@, b) ==> v@[j] != b,
        decreases n - i,
    {
        if *vstd::slice::slice_index_get(v, i) == b {
            return i;
        }
        i = i + 1;
    }
    n
}

/// How many bytes the UTF-8 encoding of `c` takes.
pub open spec fn char_utf8_len(c: char) -> int {
    let u = c as u32;
    if u < 0x80 {
        1
    } else if u < 0x800 {
        2
    } else if u < 0x10000 {
        3
    } else {
        4
    }
}

/// How many bytes the UTF-8 encoding of `s` takes.
pub open spec fn utf8_len(s: Seq<char>) -> int
    decreases s.len(),
{
    if s.len() == 0 {
        0
    } else {
        utf8_len(s.drop_last()) + char_utf8_len(s.last())
    }
}

/// A prefix never takes more UTF-8 bytes than the whole.
pub proof fn lemma_utf8_len_prefix(s: Seq<char>, k: int)
    requires
        0 <= k <= s.len(),
    ensures
        utf8_len(s.take(k)) <= utf8_len(s),
    decreases s.len() - k,
{
    if k == s.len() {
        assert(s.take(k) =~= s);
    } else {
        assert(s.drop_last().take(k) =~= s.take(k));
        lemma_utf8_len_prefix(s.drop_last(), k);
    }
}

/// Whether the UTF-8 encoding of `v` exceeds 1024 bytes — the limit a
/// response header's meta field must respect.
pub fn utf8_len_over_kib(v: &Vec<char>) -> (r: bool)
    ensures
        r == (utf8_len(v@) > 1024),
{
    let n = v.len();
    let mut acc: usize = 0;
    let mut i: usize = 0;
    while i < n
        invariant
            n == v@.len(),
            i <= n,
            acc == utf8_len(v@.take(i as int)),
            acc <= 1024,
        decreases n - i,
    {
        let u = v[i] as u32;
        let w: usize = if u < 0x80 {
            1
        } else if u < 0x800 {
            2
        } else if u < 0x10000 {
            3
        } else {
            4
        };
        proof {
            assert(v@.take(i + 1).drop_last() =~= v@.take(i as int));
            assert(v@.take(i + 1).last() == v@[i as int]);
        }
        let next = acc + w;
        if next > 1024 {
            proof {
                lemma_utf8_len_prefix(v@, i + 1);
            }
            return true;
        }
        acc = next;
        i = i + 1;
    }
    proof {
        assert(v@.take(n as int) =~= v@);
    }
    false
}

/// An ASCII decimal digit.
pub open spec fn is_digit(c: char) -> bool {
    0x30 <= c as u32 <= 0x39
}

/// Numeric value of an ASCII digit.
pub open spec fn digit_val(c: char) -> int {
    c as u32 - 0x30
}

/// Whether every character of `s` is an ASCII digit.
pub open spec fn all_digits(s: Seq<char>) -> bool {
    forall|j: int| 0 <= j < s.len() ==> is_digit(#[trigger] s[j])
}

/// The number denoted by a digit string (most significant first).
pub open spec fn digits_val(s: Seq<char>) -> int
    decreases s.len(),
{
    if s.len() == 0 {
        0
    } else {
        digits_val(s.drop_last()) * 10 + digit_val(s.last())
    }
}

/// A digit string denotes a non-negative number.
pub proof fn lemma_digits_val_nonneg(s: Seq<char>)
    requires
        all_digits(s),
    ensures
        digits_val(s) >= 0,
    decreases s.len(),
{
    if s.len() > 0 {
        assert(all_digits(s.drop_last())) by {
            assert(forall|j: int|
                0 <= j < s.len() - 1 ==> #[trigger] s.drop_last()[j] == s[j]);
        }
        lemma_digits_val_nonneg(s.drop_last());
    }
}

/// A digit string denotes at least as much as any of its prefixes.
pub proof fn lemma_digits_val_prefix(s: Seq<char>, k: int)
    requires
        all_digits(s),
        0 <= k <= s.len(),
    ensures
        digits_val(s.take(k)) <= digits_val(s),
    decreases s.len() - k,
{
    if k == s.len() {
        assert(s.take(k) =~= s);
    } else {
        assert(all_digits(s.drop_last())) by {
            assert(forall|j: int|
                0 <= j < s.len() - 1 ==> #[trigger] s.drop_last()[j] == s[j]);
        }
        assert(s.drop_last().take(k) =~= s.take(k));
        lemma_digits_val_prefix(s.drop_last(), k);
        lemma_digits_val_nonneg(s.drop_last());
        assert(digits_val(s) == digits_val(s.drop_last()) * 10 + digit_val(s.last()));
        assert(digits_val(s.drop_last()) * 10 >= digits_val(s.drop_last()));
    }
}

/// `s` with one leading `'+'` sign removed, as integer parsing does.
pub open spec fn strip_plus(s: Seq<char>) -> Seq<char> {
    if s.len() > 0 && s[0] == '+' {
        s.skip(1)
    } else {
        s
    }
}

/// What `str::parse::<u8>` accepts: an optional leading `'+'`, then one or
/// more ASCII digits denoting a value that fits in a `u8`.
pub open spec fn spec_parse_u8(s: Seq<char>) -> Option<u8> {
    let t = strip_plus(s);
    if t.len() > 0 && all_digits(t) && digits_val(t) <= 255 {
        Some(digits_val(t) as u8)
    } else {
        None
    }
}

/// Parses `v` as a `u8`, with the semantics of `str::parse::<u8>`.
pub fn parse_u8_chars(v: &Vec<char>) -> (r: Option<u8>)
    ensures
        r == spec_parse_u8(v@),
{
    let t: Vec<char> = if v.len() > 0 && v[0] == '+' {
        subvec(v, 1, v.len())
    } else {
        subvec(v, 0, v.len())
    };
    proof {
        if v@.len() > 0 && v@[0] == '+' {
            assert(t@ =~= v@.skip(1));
        } else {
            assert(t@ =~= v@);
        }
        assert(t@ == strip_plus(v@));
    }
    let n = t.len();
    if n == 0 {
        return None;
    }
    let mut acc: u16 = 0;
    let mut i: usize = 0;
    while i < n
        invariant
            n == t@.len(),
            n > 0,
            i <= n,
            t@ == strip_plus(v@),
            all_digits(t@.take(i as int)),
            acc == digits_val(t@.take(i as int)),
            acc <= 255,
        decreases n - i,
    {
        let c = t[i];
        let u = c as u32;
        if !(0x30 <= u && u <= 0x39) {
            proof {
                assert(!is_digit(t@[i as int]));
                assert(!all_digits(t@));
            }
            return None;
        }
        let d: u16 = (u - 0x30) as u16;
        let next: u16 = acc * 10 + d;
        proof {
            assert(t@.take(i + 1).drop_last() =~= t@.take(i as int));
            assert(t@.take(i + 1).last() == t@[i as int]);
            assert(all_digits(t@.take(i + 1)));
            assert(digits_val(t@.take(i + 1)) == next);
        }
        if next > 255 {
            proof {
                if all_digits(t@) {
                    lemma_digits_val_prefix(t@, i + 1);
                }
            }
            return None;
        }
        acc = next;
        i = i + 1;
    }
    proof {
        assert(t@.take(n as int) =~= t@);
    }
    Some(acc as u8)
}

/// The ASCII digit character for a value in `0 ..= 9`.
pub open spec fn dec_digit(d: int) -> char {
    if d == 0 {
        '0'
    } else if d == 1 {
        '1'
    } else if d == 2 {
        '2'
    } else if d == 3 {
        '3'
    } else if d == 4 {
        '4'
    } else if d == 5 {
        '5'
    } else if d == 6 {
        '6'
    } else if d == 7 {
        '7'
    } else if d == 8 {
        '8'
    } else {
        '9'
    }
}

/// The decimal rendering of a non-negative number, most significant digit
/// first, without leading zeros (`0` renders as `"0"`).
pub open spec fn spec_dec(n: int) -> Seq<char>
    decreases n,
{
    if n < 10 {
        seq![dec_digit(n)]
    } else {
        spec_dec(n / 10).push(dec_digit(n % 10))
    }
}

/// Renders `n` in decimal.
pub fn usize_to_chars(n: usize) -> (r: Vec<char>)
    ensures
        r@ == spec_dec(n as int),
{
    let mut digits: Vec<char> = Vec::new();
    let mut m = n;
    if m == 0 {
        digits.push('0');
        proof {
            assert(digits@ =~= spec_dec(0));
        }
        return digits;
    }
    while m > 0
        invariant
            m >= 0,
            m > 0 ==> spec_dec(n as int) == spec_dec(m as int) + digits@,
            m == 0 ==> spec_dec(n as int) == digits@,
        decreases m,
    {
        let d = (m % 10) as u8;
        let c: char = if d == 0 {
            '0'
        } else if d == 1 {
            '1'
        } else if d == 2 {
            '2'
        } else if d == 3 {
            '3'
        } else if d == 4 {
            '4'
        } else if d == 5 {
            '5'
        } else if d == 6 {
            '6'
        } else if d == 7 {
            '7'
        } else if d == 8 {
            '8'
        } else {
            '9'
        };
        proof {
            assert(c == dec_digit(m as int % 10));
        }
        let ghost old_digits = digits@;
        let ghost old_m = m as int;
        digits.insert(0, c);
        m = m / 10;
        proof {
            assert(digits@ =~= seq![dec_digit(old_m % 10)] + old_digits);
            if old_m < 10 {
                assert(m == 0);
                assert(spec_dec(old_m) =~= seq![dec_digit(old_m)]);
                assert(old_m % 10 == old_m);
                assert(spec_dec(n as int) =~= digits@);
            } else {
                assert(spec_dec(old_m) =~= spec_dec(old_m / 10) + seq![dec_digit(old_m % 10)]);
                assert(spec_dec(n as int) =~= spec_dec(m as int) + digits@);
            }
        }
    }
    digits
}

/// The parts joined with a single separator character between them.
pub open spec fn join_char(parts: Seq<Seq<char>>, c: char) -> Seq<char>
    decreases parts.len(),
{
    if parts.len() == 0 {
        Seq::empty()
    } else if parts.len() == 1 {
        parts[0]
    } else {
        parts[0] + seq![c] + join_char(parts.skip(1), c)
    }
}

/// Joins the parts from index `from` on with `c` between them.
pub fn join_char_from(parts: &Vec<Vec<char>>, from: usize, c: char) -> (r: Vec<char>)
    requires
        from <= parts@.len(),
    ensures
        r@ == join_char(parts.deep_view().skip(from as int), c),
{
    let ghost pv = parts.deep_view().skip(from as int);
    let mut r: Vec<char> = Vec::new();
    let n = parts.len();
    if from == n {
        proof {
            assert(r@ =~= join_char(pv, c));
        }
        return r;
    }
    let mut i: usize = from;
    while i < n
        invariant
            n == parts@.len(),
            n == parts.deep_view().len(),
            from < n,
            pv == parts.deep_view().skip(from as int),
            from <= i <= n,
            forall|j: int|
                0 <= j < n - from ==> pv[j] == #[trigger] parts@[j + from]@,
            i == from ==> r@ == Seq::<char>::empty(),
            from < i < n ==> r@ + seq![c] + join_char(pv.skip(i - from as int), c) == join_char(
                pv,
                c,
            ),
            i == n ==> r@ == join_char(pv, c),
        decreases n - i,
    {
        let ghost old_r = r@;
        let ghost k = i - from as int;
        if i > from {
            r.push(c);
        }
        extend_chars(&mut r, &parts[i]);
        proof {
            let rest = pv.skip(k);
            assert(rest[0] == pv[k]);
            assert(rest.skip(1) =~= pv.skip(k + 1));
            if i + 1 < n {
                assert(join_char(rest, c) =~= rest[0] + seq![c] + join_char(rest.skip(1), c));
            } else {
                assert(rest.len() == 1);
                assert(join_char(rest, c) =~= rest[0]);
            }
            if i == from {
                assert(pv.skip(0) =~= pv);
                assert(r@ =~= pv[0]);
            } else {
                assert(r@ =~= old_r + seq![c] + pv[k]);
                if i + 1 < n {
                    assert(r@ + seq![c] + join_char(pv.skip(k + 1), c) =~= old_r + seq![c]
                        + join_char(rest, c));
                } else {
                    assert(r@ =~= old_r + seq![c] + join_char(rest, c));
                }
            }
        }
        i = i + 1;
    }
    r
}

} // verus!
