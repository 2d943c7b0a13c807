//! Text primitives over `Seq<char>` views: whitespace trimming, line
//! splitting and joining, lexicographic order, sorted string lists and
//! decimal parsing.

use vstd::prelude::*;
use vstd::string::*;

verus! {

broadcast use vstd::string::group_string_axioms;

/// Appends one character to a string (`String::push`).
/// Trusted: std documents that `push` appends the given char to the end.
#[verifier::external_body]
pub(crate) fn push_char(s: &mut String, c: char)
    ensures
        final(s)@ == old(s)@.push(c),
{
    s.push(c);
}

/// The characters of `s`, in order.
pub fn chars_of(s: &str) -> (r: Vec<char>)
    ensures
        r@ == s@,
{
    let mut out: Vec<char> = Vec::new();
    for ch in iter: s.chars()
        invariant
            iter.seq() == s@,
            out@ == iter.seq().take(iter.index()),
    {
        out.push(ch);
    }
    assert(out@ =~= s@);
    out
}

/// A string made of `chars[lo..hi]`.
pub fn string_from_chars(chars: &Vec<char>, lo: usize, hi: usize) -> (r: String)
    requires
        lo <= hi <= chars.len(),
    ensures
        r@ == chars@.subrange(lo as int, hi as int),
{
    let mut s = String::new();
    let mut i = lo;
    while i < hi
        invariant
            lo <= i <= hi <= chars.len(),
            s@ == chars@.subrange(lo as int, i as int),
        decreases hi - i,
    {
        push_char(&mut s, chars[i]);
        assert(chars@.subrange(lo as int, i + 1) =~= chars@.subrange(lo as int, i as int).push(
            chars@[i as int],
        ));
        i += 1;
    }
    s
}

// ------------------------------------------------------------------
// Whitespace and trimming
// ------------------------------------------------------------------

/// The Unicode `White_Space` property, which `char::is_whitespace` tests.
pub open spec fn is_ws(c: char) -> bool {
    let u = c as u32;
    ||| 0x09 <= u <= 0x0D
    ||| u == 0x20
    ||| u == 0x85
    ||| u == 0xA0
    ||| u == 0x1680
    ||| 0x2000 <= u <= 0x200A
    ||| u == 0x2028
    ||| u == 0x2029
    ||| u == 0x202F
    ||| u == 0x205F
    ||| u == 0x3000
}

/// Whether `c` is Unicode whitespace.
pub fn is_whitespace(c: char) -> (r: bool)
    ensures
        r == is_ws(c),
{
    let u = c as u32;
    (0x09 <= u && u <= 0x0D) || u == 0x20 || u == 0x85 || u == 0xA0 || u == 0x1680 || (0x2000
        <= u && u <= 0x200A) || u == 0x2028 || u == 0x2029 || u == 0x202F || u == 0x205F || u
        == 0x3000
}

/// `s` without its trailing whitespace (`str::trim_end`).
pub open spec fn trim_end_seq(s: Seq<char>) -> Seq<char>
    decreases s.len(),
{
    if s.len() > 0 && is_ws(s.last()) {
        trim_end_seq(s.drop_last())
    } else {
        s
    }
}

/// `s` without its leading whitespace (`str::trim_start`).
pub open spec fn trim_start_seq(s: Seq<char>) -> Seq<char>
    decreases s.len(),
{
    if s.len() > 0 && is_ws(s[0]) {
        trim_start_seq(s.drop_first())
    } else {
        s
    }
}

/// `s` without leading and trailing whitespace (`str::trim`).
pub open spec fn trim_seq(s: Seq<char>) -> Seq<char> {
    trim_start_seq(trim_end_seq(s))
}

proof fn lemma_trim_end_at(s: Seq<char>, e: int)
    requires
        0 <= e <= s.len(),
        forall|i: int| e <= i < s.len() ==> is_ws(#[trigger] s[i]),
        e == 0 || !is_ws(s[e - 1]),
    ensures
        trim_end_seq(s) == s.take(e),
    decreases s.len(),
{
    if s.len() == e {
        assert(s.take(e) =~= s);
    } else {
        assert(is_ws(s[s.len() - 1]));
        let t = s.drop_last();
        assert forall|i: int| e <= i < t.len() implies is_ws(#[trigger] t[i]) by {
            assert(t[i] == s[i]);
        }
        if e > 0 {
            assert(t[e - 1] == s[e - 1]);
        }
        lemma_trim_end_at(t, e);
        assert(t.take(e) =~= s.take(e));
    }
}

proof fn lemma_trim_start_at(s: Seq<char>, b: int)
    requires
        0 <= b <= s.len(),
        forall|i: int| 0 <= i < b ==> is_ws(#[trigger] s[i]),
        b == s.len() || !is_ws(s[b]),
    ensures
        trim_start_seq(s) == s.skip(b),
    decreases b,
{
    if b == 0 {
        assert(s.skip(0) =~= s);
    } else {
        assert(is_ws(s[0]));
        let t = s.drop_first();
        assert forall|i: int| 0 <= i < b - 1 implies is_ws(#[trigger] t[i]) by {
            assert(t[i] == s[i + 1]);
        }
        if b < s.len() {
            assert(t[b - 1] == s[b]);
        }
        lemma_trim_start_at(t, b - 1);
        assert(t.skip(b - 1) =~= s.skip(b));
    }
}

/// Index just past the last non-whitespace character of `chars`.
fn trimmed_end(chars: &Vec<char>) -> (e: usize)
    ensures
        e <= chars.len(),
        trim_end_seq(chars@) == chars@.take(e as int),
{
    let mut e = chars.len();
    while e > 0 && is_whitespace(chars[e - 1])
        invariant
            e <= chars.len(),
            forall|i: int| e <= i < chars.len() ==> is_ws(#[trigger] chars@[i]),
        decreases e,
    {
        e -= 1;
    }
    proof {
        lemma_trim_end_at(chars@, e as int);
    }
    e
}

/// `s` without its trailing whitespace (`str::trim_end`).
pub fn trim_end(s: &str) -> (r: String)
    ensures
        r@ == trim_end_seq(s@),
{
    let chars = chars_of(s);
    let e = trimmed_end(&chars);
    let r = string_from_chars(&chars, 0, e);
    assert(chars@.subrange(0, e as int) =~= chars@.take(e as int));
    r
}

/// `s` without leading and trailing whitespace (`str::trim`).
pub fn trim(s: &str) -> (r: String)
    ensures
        r@ == trim_seq(s@),
{
    let chars = chars_of(s);
    let e = trimmed_end(&chars);
    let mut b: usize = 0;
    while b < e && is_whitespace(chars[b])
        invariant
            b <= e <= chars.len(),
            forall|i: int| 0 <= i < b ==> is_ws(#[trigger] chars@[i]),
        decreases e - b,
    {
        b += 1;
    }
    let ghost t = chars@.take(e as int);
    proof {
        assert forall|i: int| 0 <= i < b implies is_ws(#[trigger] t[i]) by {
            assert(t[i] == chars@[i]);
        }
        if b < e {
            assert(t[b as int] == chars@[b as int]);
        }
        lemma_trim_start_at(t, b as int);
    }
    let r = string_from_chars(&chars, b, e);
    assert(t.skip(b as int) =~= chars@.subrange(b as int, e as int));
    r
}


// ------------------------------------------------------------------
// Lines
// ------------------------------------------------------------------

/// A line with one trailing carriage return removed, if it has one.
pub open spec fn strip_cr(line: Seq<char>) -> Seq<char> {
    if line.len() > 0 && line.last() == '\r' {
        line.drop_last()
    } else {
        line
    }
}

/// The lines of `s` after a partial line `cur`: lines end at `'\n'` (a
/// `"\r\n"` ending drops its `'\r'`), and a final empty line is not one.
pub open spec fn lines_from(s: Seq<char>, cur: Seq<char>) -> Seq<Seq<char>>
    decreases s.len(),
{
    if s.len() == 0 {
        if cur.len() == 0 {
            Seq::empty()
        } else {
            seq![cur]
        }
    } else if s[0] == '\n' {
        seq![strip_cr(cur)] + lines_from(s.drop_first(), Seq::empty())
    } else {
        lines_from(s.drop_first(), cur.push(s[0]))
    }
}

/// The lines of `s`, as `str::lines` yields them.
pub open spec fn lines_seq(s: Seq<char>) -> Seq<Seq<char>> {
    lines_from(s, Seq::empty())
}

/// The lines of `s` (`str::lines`).
pub fn lines(s: &str) -> (r: Vec<String>)
    ensures
        r.deep_view() == lines_seq(s@),
{
    let chars = chars_of(s);
    let mut out: Vec<String> = Vec::new();
    let mut start: usize = 0;
    let mut i: usize = 0;
    assert(chars@.skip(0) =~= chars@);
    assert(chars@.subrange(0, 0) =~= Seq::<char>::empty());
    assert(out.deep_view() + lines_seq(s@) =~= lines_seq(s@));
    while i < chars.len()
        invariant
            start <= i <= chars.len(),
            chars@ == s@,
            lines_seq(s@) == out.deep_view() + lines_from(
                chars@.skip(i as int),
                chars@.subrange(start as int, i as int),
            ),
        decreases chars.len() - i,
    {
        let ghost rest = chars@.skip(i as int);
        let ghost cur = chars@.subrange(start as int, i as int);
        assert(rest[0] == chars@[i as int]);
        assert(rest.drop_first() =~= chars@.skip(i + 1));
        if chars[i] == '\n' {
            let mut end = i;
            if end > start && chars[end - 1] == '\r' {
                end -= 1;
            }
            let line = string_from_chars(&chars, start, end);
            assert(line@ =~= strip_cr(cur));
            let ghost before = out.deep_view();
            out.push(line);
            assert(out.deep_view() =~= before.push(line@));
            start = i + 1;
            assert(chars@.subrange(start as int, i + 1) =~= Seq::<char>::empty());
            assert(lines_seq(s@) =~= out.deep_view() + lines_from(
                chars@.skip(i + 1),
                chars@.subrange(start as int, i + 1),
            ));
        } else {
            assert(cur.push(chars@[i as int]) =~= chars@.subrange(start as int, i + 1));
        }
        i += 1;
    }
    assert(chars@.skip(i as int) =~= Seq::<char>::empty());
    if start < i {
        let line = string_from_chars(&chars, start, i);
        let ghost before = out.deep_view();
        out.push(line);
        assert(out.deep_view() =~= before.push(line@));
        assert(lines_seq(s@) =~= out.deep_view());
    } else {
        assert(lines_seq(s@) =~= out.deep_view());
    }
    out
}

/// `parts` joined with `sep` between neighbours (`[&str]::join`).
pub open spec fn join_seq(parts: Seq<Seq<char>>, sep: Seq<char>) -> Seq<char>
    decreases parts.len(),
{
    if parts.len() == 0 {
        Seq::empty()
    } else if parts.len() == 1 {
        parts[0]
    } else {
        parts[0] + sep + join_seq(parts.drop_first(), sep)
    }
}

proof fn lemma_join_push(parts: Seq<Seq<char>>, sep: Seq<char>, x: Seq<char>)
    requires
        parts.len() > 0,
    ensures
        join_seq(parts.push(x), sep) == join_seq(parts, sep) + sep + x,
    decreases parts.len(),
{
    let q = parts.push(x);
    assert(q[0] == parts[0]);
    if parts.len() == 1 {
        assert(q.drop_first() =~= seq![x]);
        assert(join_seq(seq![x], sep) == x);
        assert(join_seq(q, sep) =~= join_seq(parts, sep) + sep + x);
    } else {
        assert(q.drop_first() =~= parts.drop_first().push(x));
        lemma_join_push(parts.drop_first(), sep, x);
        assert(join_seq(q, sep) =~= join_seq(parts, sep) + sep + x);
    }
}

/// `parts` joined with `sep` between neighbours (`[String]::join`).
pub fn join(parts: &Vec<String>, sep: &str) -> (r: String)
    ensures
        r@ == join_seq(parts.deep_view(), sep@),
{
    let mut r = String::new();
    let mut i: usize = 0;
    while i < parts.len()
        invariant
            i <= parts.len(),
            r@ == join_seq(parts.deep_view().take(i as int), sep@),
        decreases parts.len() - i,
    {
        let ghost done = parts.deep_view().take(i as int);
        assert(parts.deep_view().take(i + 1) =~= done.push(parts[i as int]@));
        if i > 0 {
            r.append(sep);
            proof {
                lemma_join_push(done, sep@, parts[i as int]@);
            }
        } else {
            assert(done.push(parts[i as int]@) =~= seq![parts[i as int]@]);
        }
        r.append(parts[i].as_str());
        i += 1;
    }
    assert(parts.deep_view().take(i as int) =~= parts.deep_view());
    r
}


/// The last `n` items of `s`, or all of them when there are fewer.
pub open spec fn keep_last<T>(s: Seq<T>, n: nat) -> Seq<T> {
    if s.len() > n {
        s.subrange(s.len() - n, s.len() as int)
    } else {
        s
    }
}

// ------------------------------------------------------------------
// Lexicographic order (the order of `str`, by Unicode code point)
// ------------------------------------------------------------------

/// `a` sorts strictly before `b`: the first differing character is smaller,
/// or `a` is a proper prefix of `b`.
pub open spec fn lex_lt(a: Seq<char>, b: Seq<char>) -> bool
    decreases a.len(),
{
    if a.len() == 0 {
        b.len() > 0
    } else if b.len() == 0 {
        false
    } else if a[0] != b[0] {
        (a[0] as int) < (b[0] as int)
    } else {
        lex_lt(a.drop_first(), b.drop_first())
    }
}

/// `lex_lt` is a strict total order.
pub proof fn lemma_lex_order(a: Seq<char>, b: Seq<char>)
    ensures
        !lex_lt(a, a),
        lex_lt(a, b) ==> !lex_lt(b, a),
        a != b ==> lex_lt(a, b) || lex_lt(b, a),
    decreases a.len(),
{
    if a.len() > 0 && b.len() > 0 {
        lemma_lex_order(a.drop_first(), b.drop_first());
        lemma_lex_order(a.drop_first(), a.drop_first());
        if a[0] == b[0] && a.drop_first() == b.drop_first() {
            assert(a =~= seq![a[0]] + a.drop_first());
            assert(b =~= seq![b[0]] + b.drop_first());
        }
        if a[0] != b[0] {
            assert((a[0] as int) != (b[0] as int));
        }
    } else if a.len() > 0 {
        lemma_lex_order(a.drop_first(), a.drop_first());
    } else if b.len() == 0 {
        assert(a =~= b);
    }
}

/// `lex_lt` is transitive.
pub proof fn lemma_lex_trans(a: Seq<char>, b: Seq<char>, c: Seq<char>)
    requires
        lex_lt(a, b),
        lex_lt(b, c),
    ensures
        lex_lt(a, c),
    decreases a.len(),
{
    if a.len() > 0 && b.len() > 0 && c.len() > 0 && a[0] == b[0] && b[0] == c[0] {
        lemma_lex_trans(a.drop_first(), b.drop_first(), c.drop_first());
    }
}

/// Whether `a` sorts strictly before `b`.
pub fn str_less(a: &str, b: &str) -> (r: bool)
    ensures
        r == lex_lt(a@, b@),
{
    let x = chars_of(a);
    let y = chars_of(b);
    let mut i: usize = 0;
    assert(a@.skip(0) =~= a@ && b@.skip(0) =~= b@);
    while i < x.len() && i < y.len() && x[i] == y[i]
        invariant
            i <= x.len(),
            i <= y.len(),
            x@ == a@,
            y@ == b@,
            lex_lt(a@, b@) == lex_lt(a@.skip(i as int), b@.skip(i as int)),
        decreases x.len() - i,
    {
        let ghost p = a@.skip(i as int);
        let ghost q = b@.skip(i as int);
        assert(p[0] == a@[i as int] && q[0] == b@[i as int]);
        assert(p.drop_first() =~= a@.skip(i + 1));
        assert(q.drop_first() =~= b@.skip(i + 1));
        i += 1;
    }
    let ghost p = a@.skip(i as int);
    let ghost q = b@.skip(i as int);
    if i == x.len() {
        i < y.len()
    } else if i == y.len() {
        false
    } else {
        assert(p[0] == a@[i as int] && q[0] == b@[i as int]);
        x[i] < y[i]
    }
}

/// Every item sorts strictly before the items after it.
pub open spec fn strictly_sorted(s: Seq<Seq<char>>) -> bool {
    forall|i: int, j: int| 0 <= i < j < s.len() ==> lex_lt(#[trigger] s[i], #[trigger] s[j])
}

/// No item sorts strictly before an item ahead of it.
pub open spec fn sorted(s: Seq<Seq<char>>) -> bool {
    forall|i: int, j: int| 0 <= i < j < s.len() ==> !lex_lt(#[trigger] s[j], #[trigger] s[i])
}

/// Inserts `x` into the strictly sorted `v` unless it is there already, as
/// `BTreeSet::insert` does.
pub fn insert_unique_sorted(v: &mut Vec<String>, x: String)
    requires
        strictly_sorted(old(v).deep_view()),
    ensures
        strictly_sorted(final(v).deep_view()),
        forall|s: Seq<char>| #[trigger]
            final(v).deep_view().contains(s) <==> old(v).deep_view().contains(s) || s == x@,
{
    let ghost old_v = v.deep_view();
    let mut pos: usize = 0;
    while pos < v.len() && str_less(v[pos].as_str(), x.as_str())
        invariant
            pos <= v.len(),
            v.deep_view() == old_v,
            forall|k: int| 0 <= k < pos ==> lex_lt(#[trigger] old_v[k], x@),
        decreases v.len() - pos,
    {
        pos += 1;
    }
    if pos < v.len() && v[pos] == x {
        assert(old_v[pos as int] == x@);
        assert(old_v.contains(x@));
        return;
    }
    proof {
        if pos < old_v.len() {
            lemma_lex_order(old_v[pos as int], x@);
            assert forall|k: int| pos <= k < old_v.len() implies lex_lt(x@, #[trigger] old_v[k]) by {
                if k > pos {
                    lemma_lex_trans(x@, old_v[pos as int], old_v[k]);
                }
            }
        }
    }
    v.insert(pos, x);
    let ghost nv = v.deep_view();
    assert(nv =~= old_v.insert(pos as int, x@));
    assert forall|i: int, j: int| 0 <= i < j < nv.len() implies lex_lt(
        #[trigger] nv[i],
        #[trigger] nv[j],
    ) by {
        if j < pos {
        } else if j == pos {
        } else if i < pos {
            lemma_lex_trans(nv[i], x@, nv[j]);
        } else if i == pos {
        } else {
        }
    }
    assert forall|s: Seq<char>| #[trigger]
        nv.contains(s) <==> old_v.contains(s) || s == x@ by {
        if nv.contains(s) {
            let k = choose|k: int| 0 <= k < nv.len() && nv[k] == s;
            if k < pos {
                assert(old_v[k] == s);
            } else if k > pos {
                assert(old_v[k - 1] == s);
            }
        }
        if old_v.contains(s) {
            let k = choose|k: int| 0 <= k < old_v.len() && old_v[k] == s;
            if k < pos {
                assert(nv[k] == s);
            } else {
                assert(nv[k + 1] == s);
            }
        }
        if s == x@ {
            assert(nv[pos as int] == s);
        }
    }
}


/// Inserts `x` into the sorted `v`, after the items equal to it.
pub fn insert_sorted(v: &mut Vec<String>, x: String)
    requires
        sorted(old(v).deep_view()),
    ensures
        sorted(final(v).deep_view()),
        final(v).deep_view().to_multiset() == old(v).deep_view().to_multiset().insert(x@),
{
    broadcast use vstd::seq_lib::group_to_multiset_ensures;

    let ghost old_v = v.deep_view();
    let mut pos: usize = 0;
    while pos < v.len() && !str_less(x.as_str(), v[pos].as_str())
        invariant
            pos <= v.len(),
            v.deep_view() == old_v,
            forall|k: int| 0 <= k < pos ==> !lex_lt(x@, #[trigger] old_v[k]),
        decreases v.len() - pos,
    {
        pos += 1;
    }
    v.insert(pos, x);
    let ghost nv = v.deep_view();
    assert(nv =~= old_v.insert(pos as int, x@));
    assert forall|i: int, j: int| 0 <= i < j < nv.len() implies !lex_lt(
        #[trigger] nv[j],
        #[trigger] nv[i],
    ) by {
        if i < pos && j == pos {
            lemma_lex_order(x@, old_v[i]);
        } else if i < pos && j > pos {
            lemma_lex_order(old_v[j - 1], old_v[i]);
            if lex_lt(nv[j], nv[i]) {
                // old_v[j - 1] < old_v[i] contradicts sortedness of old_v
                assert(!lex_lt(old_v[j - 1], old_v[i]));
            }
        } else if i == pos && j > pos {
            // x < old_v[pos] <= old_v[j - 1]
            if lex_lt(nv[j], x@) {
                if j - 1 > pos {
                    lemma_lex_order(old_v[j - 1], old_v[pos as int]);
                    if old_v[j - 1] == old_v[pos as int] {
                    } else {
                        lemma_lex_trans(old_v[pos as int], old_v[j - 1], x@);
                    }
                }
                lemma_lex_order(x@, old_v[pos as int]);
            }
        }
    }
}

/// `v` sorted into ascending order (`slice::sort` on strings).
pub fn sort_strings(v: Vec<String>) -> (r: Vec<String>)
    ensures
        sorted(r.deep_view()),
        r.deep_view().to_multiset() == v.deep_view().to_multiset(),
{
    broadcast use vstd::seq_lib::group_to_multiset_ensures;

    let mut r: Vec<String> = Vec::new();
    let mut i: usize = 0;
    assert(v.deep_view().take(0) =~= Seq::<Seq<char>>::empty());
    while i < v.len()
        invariant
            i <= v.len(),
            sorted(r.deep_view()),
            r.deep_view().to_multiset() == v.deep_view().take(i as int).to_multiset(),
        decreases v.len() - i,
    {
        let item = v[i].clone();
        assert(item@ == v.deep_view()[i as int]);
        assert(v.deep_view().take(i + 1) =~= v.deep_view().take(i as int).push(item@));
        proof {
            vstd::seq_lib::to_multiset_build(v.deep_view().take(i as int), item@);
        }
        insert_sorted(&mut r, item);
        i += 1;
    }
    assert(v.deep_view().take(i as int) =~= v.deep_view());
    r
}

/// `suffix` ends `s`.
pub open spec fn ends_with_seq(s: Seq<char>, suffix: Seq<char>) -> bool {
    suffix.len() <= s.len() && s.subrange(s.len() - suffix.len(), s.len() as int) == suffix
}

/// Whether `s` ends with `suffix` (`str::ends_with`).
pub fn ends_with(s: &str, suffix: &str) -> (r: bool)
    ensures
        r == ends_with_seq(s@, suffix@),
{
    let x = chars_of(s);
    let y = chars_of(suffix);
    if y.len() > x.len() {
        return false;
    }
    let off = x.len() - y.len();
    let mut i: usize = 0;
    while i < y.len()
        invariant
            i <= y.len(),
            off + y.len() == x.len(),
            x@ == s@,
            y@ == suffix@,
            forall|k: int| 0 <= k < i ==> x@[off + k] == y@[k],
        decreases y.len() - i,
    {
        if x[off + i] != y[i] {
            assert(s@.subrange(off as int, s@.len() as int)[i as int] == x@[off + i]);
            return false;
        }
        i += 1;
    }
    assert(s@.subrange(off as int, s@.len() as int) =~= suffix@);
    true
}

// ------------------------------------------------------------------
// Decimal numbers
// ------------------------------------------------------------------

/// `c` is an ASCII decimal digit.
pub open spec fn is_digit(c: char) -> bool {
    '0' <= c <= '9'
}

/// The value of a string of decimal digits.
pub open spec fn decimal_value(s: Seq<char>) -> int
    decreases s.len(),
{
    if s.len() == 0 {
        0
    } else {
        decimal_value(s.drop_last()) * 10 + (s.last() as int - '0' as int)
    }
}

/// The digits part of an unsigned number: `s` without one leading `'+'`.
pub open spec fn unsigned_digits(s: Seq<char>) -> Seq<char> {
    if s.len() > 0 && s[0] == '+' {
        s.drop_first()
    } else {
        s
    }
}

/// Every character of `s` is a decimal digit.
pub open spec fn all_digits(s: Seq<char>) -> bool {
    forall|i: int| 0 <= i < s.len() ==> is_digit(#[trigger] s[i])
}

/// What `str::parse::<u32>` accepts: an optional `'+'`, then one or more
/// decimal digits whose value fits in a `u32`.
pub open spec fn parse_u32_seq(s: Seq<char>) -> Option<u32> {
    let digits = unsigned_digits(s);
    if digits.len() > 0 && all_digits(digits) && decimal_value(digits) <= u32::MAX {
        Some(decimal_value(digits) as u32)
    } else {
        None
    }
}

proof fn lemma_decimal_prefix_bound(s: Seq<char>, i: int)
    requires
        0 <= i <= s.len(),
        forall|k: int| 0 <= k < s.len() ==> is_digit(#[trigger] s[k]),
    ensures
        decimal_value(s.take(i)) <= decimal_value(s),
        0 <= decimal_value(s.take(i)),
    decreases s.len(),
{
    if i == s.len() {
        assert(s.take(i) =~= s);
        if s.len() > 0 {
            lemma_decimal_prefix_bound(s.drop_last(), s.len() - 1);
            assert(s.drop_last().take(s.len() - 1) =~= s.drop_last());
        }
    } else {
        let t = s.drop_last();
        assert forall|k: int| 0 <= k < t.len() implies is_digit(#[trigger] t[k]) by {
            assert(t[k] == s[k]);
        }
        lemma_decimal_prefix_bound(t, i);
        assert(t.take(i) =~= s.take(i));
        lemma_decimal_prefix_bound(t, t.len() as int);
        assert(t.take(t.len() as int) =~= t);
    }
}

/// `text` read as a `u32` the way `str::parse::<u32>` reads it.
pub fn parse_u32(text: &str) -> (r: Option<u32>)
    ensures
        r == parse_u32_seq(text@),
{
    let chars = chars_of(text);
    let mut start: usize = 0;
    if chars.len() > 0 && chars[0] == '+' {
        start = 1;
    }
    let ghost digits = unsigned_digits(text@);
    assert(digits =~= text@.skip(start as int));
    if start == chars.len() {
        return None;
    }
    let mut acc: u64 = 0;
    let mut i = start;
    assert(digits.take(0) =~= Seq::<char>::empty());
    while i < chars.len()
        invariant
            start <= i <= chars.len(),
            chars@ == text@,
            digits == text@.skip(start as int),
            digits == unsigned_digits(text@),
            forall|k: int| 0 <= k < i - start ==> is_digit(#[trigger] digits[k]),
            acc as int == decimal_value(digits.take(i - start)),
            acc <= u32::MAX,
        decreases chars.len() - i,
    {
        let c = chars[i];
        assert(digits[i - start] == c);
        if !('0' <= c && c <= '9') {
            assert(!is_digit(digits[i - start]));
            assert(!all_digits(digits));
            return None;
        }
        let d = (c as u32 - '0' as u32) as u64;
        assert(digits.take(i - start + 1).drop_last() =~= digits.take(i - start));
        if acc > (4294967295u64 - d) / 10 {
            proof {
                let t = digits.take(i - start + 1);
                assert(acc * 10 + d > u32::MAX) by (nonlinear_arith)
                    requires
                        acc > (4294967295u64 - d) / 10,
                        d <= 9,
                ;
                assert(decimal_value(t) > u32::MAX);
                if all_digits(digits) {
                    lemma_decimal_prefix_bound(digits, i - start + 1);
                }
            }
            return None;
        }
        acc = acc * 10 + d;
        i += 1;
    }
    assert(digits.take(i - start) =~= digits);
    Some(acc as u32)
}


/// Whether two string lists hold the same strings in the same order.
pub fn same_strings(a: &Vec<String>, b: &Vec<String>) -> (r: bool)
    ensures
        r == (a.deep_view() == b.deep_view()),
{
    if a.len() != b.len() {
        assert(a.deep_view().len() != b.deep_view().len());
        return false;
    }
    let mut i: usize = 0;
    while i < a.len()
        invariant
            i <= a.len() == b.len(),
            forall|k: int| 0 <= k < i ==> a.deep_view()[k] == b.deep_view()[k],
        decreases a.len() - i,
    {
        if a[i] != b[i] {
            assert(a.deep_view()[i as int] != b.deep_view()[i as int]);
            return false;
        }
        i += 1;
    }
    assert(a.deep_view() =~= b.deep_view());
    true
}


/// `s` holds no line feed.
pub open spec fn no_newline(s: Seq<char>) -> bool {
    forall|i: int| 0 <= i < s.len() ==> s[i] != '\n'
}

proof fn lemma_strip_cr_no_newline(s: Seq<char>)
    requires
        no_newline(s),
    ensures
        no_newline(strip_cr(s)),
{
}

proof fn lemma_lines_from_newline_free(s: Seq<char>, cur: Seq<char>)
    requires
        no_newline(cur),
    ensures
        forall|k: int| 0 <= k < lines_from(s, cur).len() ==> no_newline(
            #[trigger] lines_from(s, cur)[k],
        ),
    decreases s.len(),
{
    if s.len() == 0 {
        if cur.len() > 0 {
            assert(lines_from(s, cur) =~= seq![cur]);
        }
    } else if s[0] == '\n' {
        lemma_lines_from_newline_free(s.drop_first(), Seq::empty());
        lemma_strip_cr_no_newline(cur);
        let rest = lines_from(s.drop_first(), Seq::empty());
        assert(lines_from(s, cur) == seq![strip_cr(cur)] + rest);
        assert forall|k: int| 0 <= k < lines_from(s, cur).len() implies no_newline(
            #[trigger] lines_from(s, cur)[k],
        ) by {
            if k > 0 {
                assert(lines_from(s, cur)[k] == rest[k - 1]);
            } else {
                assert(lines_from(s, cur)[k] == strip_cr(cur));
            }
        }
    } else {
        let c = cur.push(s[0]);
        assert forall|i: int| 0 <= i < c.len() implies c[i] != '\n' by {
            if i < cur.len() {
                assert(c[i] == cur[i]);
            }
        }
        lemma_lines_from_newline_free(s.drop_first(), c);
        assert(lines_from(s, cur) == lines_from(s.drop_first(), c));
    }
}

/// No line of a text holds a line feed.
pub proof fn lemma_lines_newline_free(s: Seq<char>)
    ensures
        forall|k: int| 0 <= k < lines_seq(s).len() ==> no_newline(#[trigger] lines_seq(s)[k]),
{
    lemma_lines_from_newline_free(s, Seq::empty());
}

proof fn lemma_lines_from_split(p: Seq<char>, q: Seq<char>, cur: Seq<char>)
    requires
        no_newline(p),
    ensures
        lines_from(p + seq!['\n'] + q, cur) == seq![strip_cr(cur + p)] + lines_from(
            q,
            Seq::empty(),
        ),
    decreases p.len(),
{
    let s = p + seq!['\n'] + q;
    if p.len() == 0 {
        assert(s[0] == '\n');
        assert(s.drop_first() =~= q);
        assert(cur + p =~= cur);
    } else {
        assert(s[0] == p[0]);
        assert(s.drop_first() =~= p.drop_first() + seq!['\n'] + q);
        lemma_lines_from_split(p.drop_first(), q, cur.push(p[0]));
        assert(cur.push(p[0]) + p.drop_first() =~= cur + p);
    }
}

proof fn lemma_lines_from_no_newline(s: Seq<char>, cur: Seq<char>)
    requires
        no_newline(s),
    ensures
        lines_from(s, cur).len() <= 1,
    decreases s.len(),
{
    if s.len() > 0 {
        lemma_lines_from_no_newline(s.drop_first(), cur.push(s[0]));
    }
}

/// The lines of `parts` joined with line feeds are at most as many as the
/// parts, when no part but the last holds a line feed and the last holds
/// at most one, at its end.
pub proof fn lemma_lines_of_join(parts: Seq<Seq<char>>)
    requires
        forall|k: int| 0 <= k < parts.len() - 1 ==> no_newline(#[trigger] parts[k]),
        parts.len() > 0 ==> (no_newline(parts.last()) || (parts.last().len() > 0
            && parts.last().last() == '\n' && no_newline(parts.last().drop_last()))),
    ensures
        lines_seq(join_seq(parts, seq!['\n'])).len() <= parts.len(),
    decreases parts.len(),
{
    if parts.len() == 0 {
    } else if parts.len() == 1 {
        let x = parts[0];
        assert(join_seq(parts, seq!['\n']) == x);
        if no_newline(x) {
            lemma_lines_from_no_newline(x, Seq::empty());
        } else {
            assert(x =~= x.drop_last() + seq!['\n'] + Seq::<char>::empty());
            lemma_lines_from_split(x.drop_last(), Seq::empty(), Seq::empty());
        }
    } else {
        let rest = parts.drop_first();
        assert forall|k: int| 0 <= k < rest.len() - 1 implies no_newline(#[trigger] rest[k]) by {
            assert(rest[k] == parts[k + 1]);
        }
        assert(rest.last() == parts.last());
        lemma_lines_of_join(rest);
        assert(no_newline(parts[0]));
        assert(join_seq(parts, seq!['\n']) =~= parts[0] + seq!['\n'] + join_seq(rest, seq!['\n']));
        lemma_lines_from_split(parts[0], join_seq(rest, seq!['\n']), Seq::empty());
    }
}


/// Two sorted lists that hold the same strings, counted with multiplicity,
/// are the same list: sorting has one result.
pub proof fn lemma_sorted_unique(a: Seq<Seq<char>>, b: Seq<Seq<char>>)
    requires
        sorted(a),
        sorted(b),
        a.to_multiset() == b.to_multiset(),
    ensures
        a == b,
    decreases a.len(),
{
    broadcast use vstd::seq_lib::group_to_multiset_ensures;

    if a.len() == 0 {
        assert(b.len() == 0);
        assert(a =~= b);
    } else {
        assert(a.to_multiset().len() == a.len());
        assert(b.to_multiset().len() == b.len());
        assert(b.len() == a.len());
        assert(a.contains(a[0]));
        assert(b.to_multiset().count(a[0]) > 0);
        assert(b.contains(a[0]));
        let j = choose|j: int| 0 <= j < b.len() && b[j] == a[0];
        assert(b.contains(b[0]));
        assert(a.to_multiset().count(b[0]) > 0);
        assert(a.contains(b[0]));
        let k = choose|k: int| 0 <= k < a.len() && a[k] == b[0];
        if j > 0 {
            assert(!lex_lt(b[j], b[0]));
        }
        if k > 0 {
            assert(!lex_lt(a[k], a[0]));
        }
        lemma_lex_order(a[0], b[0]);
        assert(a[0] == b[0]);
        let ar = a.remove(0);
        let br = b.remove(0);
        assert(ar =~= a.drop_first());
        assert(br =~= b.drop_first());
        assert(ar.to_multiset() =~= a.to_multiset().remove(a[0]));
        assert(br.to_multiset() =~= b.to_multiset().remove(b[0]));
        lemma_sorted_unique(a.drop_first(), b.drop_first());
        assert(a =~= b) by {
            assert forall|i: int| 0 <= i < a.len() implies a[i] == b[i] by {
                if i > 0 {
                    assert(a[i] == a.drop_first()[i - 1]);
                    assert(b[i] == b.drop_first()[i - 1]);
                }
            }
        }
    }
}

} // verus!
