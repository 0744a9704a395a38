//! Character-sequence utilities: whitespace trimming, line splitting in the
//! manner of `str::lines`, joining, prefix tests, and decimal formatting.
//!
//! All executable text handling in this crate works on `Vec<char>`, so every
//! function here carries an exact contract over `Seq<char>`.

use vstd::prelude::*;

verus! {

/// The Unicode white-space characters, the set `char::is_whitespace` accepts.
pub open spec fn is_ws(c: char) -> bool {
    ||| c == ' '
    ||| c == '\t'
    ||| c == '\n'
    ||| c == '\u{b}'
    ||| c == '\u{c}'
    ||| c == '\r'
    ||| c == '\u{85}'
    ||| c == '\u{a0}'
    ||| c == '\u{1680}'
    ||| ('\u{2000}' <= c && c <= '\u{200a}')
    ||| c == '\u{2028}'
    ||| c == '\u{2029}'
    ||| c == '\u{202f}'
    ||| c == '\u{205f}'
    ||| c == '\u{3000}'
}

/// Runtime test for [`is_ws`].
pub fn is_ws_char(c: char) -> (r: bool)
    ensures
        r == is_ws(c),
{
    c == ' ' || c == '\t' || c == '\n' || c == '\u{b}' || c == '\u{c}' || c == '\r'
        || c == '\u{85}' || c == '\u{a0}' || c == '\u{1680}'
        || ('\u{2000}' <= c && c <= '\u{200a}') || c == '\u{2028}' || c == '\u{2029}'
        || c == '\u{202f}' || c == '\u{205f}' || c == '\u{3000}'
}

/// `s` without its leading white space.
pub open spec fn spec_trim_start(s: Seq<char>) -> Seq<char>
    decreases s.len(),
{
    if s.len() > 0 && is_ws(s[0]) {
        spec_trim_start(s.drop_first())
    } else {
        s
    }
}

/// `s` without its trailing white space.
pub open spec fn spec_trim_end(s: Seq<char>) -> Seq<char>
    decreases s.len(),
{
    if s.len() > 0 && is_ws(s.last()) {
        spec_trim_end(s.drop_last())
    } else {
        s
    }
}

/// `s` without leading and trailing white space, as `str::trim` strips it.
pub open spec fn spec_trim(s: Seq<char>) -> Seq<char> {
    spec_trim_end(spec_trim_start(s))
}

proof fn lemma_trim_start_at(s: Seq<char>, lo: int)
    requires
        0 <= lo <= s.len(),
        forall|k: int| 0 <= k < lo ==> is_ws(s[k]),
        lo < s.len() ==> !is_ws(s[lo]),
    ensures
        spec_trim_start(s) =~= s.subrange(lo, s.len() as int),
    decreases lo,
{
    if lo == 0 {
        if s.len() > 0 && is_ws(s[0]) {
            assert(!is_ws(s[0]));
        }
    } else {
        assert(is_ws(s[0]));
        let t = s.drop_first();
        assert(forall|k: int| 0 <= k < lo - 1 ==> is_ws(t[k]));
        lemma_trim_start_at(t, lo - 1);
        assert(t.subrange(lo - 1, t.len() as int) =~= s.subrange(lo, s.len() as int));
    }
}

proof fn lemma_trim_end_at(s: Seq<char>, hi: int)
    requires
        0 <= hi <= s.len(),
        forall|k: int| hi <= k < s.len() ==> is_ws(s[k]),
        hi > 0 ==> !is_ws(s[hi - 1]),
    ensures
        spec_trim_end(s) =~= s.subrange(0, hi),
    decreases s.len() - hi,
{
    if hi == s.len() {
        if s.len() > 0 && is_ws(s.last()) {
            assert(!is_ws(s[s.len() - 1]));
        }
    } else {
        assert(is_ws(s.last()));
        let t = s.drop_last();
        lemma_trim_end_at(t, hi);
        assert(t.subrange(0, hi) =~= s.subrange(0, hi));
    }
}

/// Exact runtime counterpart of [`spec_trim`].
pub fn trim_chars(v: &Vec<char>) -> (r: Vec<char>)
    ensures
        r@ == spec_trim(v@),
{
    let n = v.len();
    let mut lo: usize = 0;
    while lo < n && is_ws_char(v[lo])
        invariant
            0 <= lo <= n,
            n == v.len(),
            forall|k: int| 0 <= k < lo ==> is_ws(v@[k]),
        decreases n - lo,
    {
        lo += 1;
    }
    let mut hi: usize = n;
    while hi > lo && is_ws_char(v[hi - 1])
        invariant
            lo <= hi <= n,
            n == v.len(),
            forall|k: int| 0 <= k < lo ==> is_ws(v@[k]),
            lo < n ==> !is_ws(v@[lo as int]),
            forall|k: int| hi <= k < n ==> is_ws(v@[k]),
        decreases hi,
    {
        hi -= 1;
    }
    let mut r: Vec<char> = Vec::new();
    let mut i: usize = lo;
    while i < hi
        invariant
            lo <= i <= hi <= n,
            n == v.len(),
            r@ == v@.subrange(lo as int, i as int),
        decreases hi - i,
    {
        r.push(v[i]);
        assert(r@ =~= v@.subrange(lo as int, i + 1));
        i += 1;
    }
    proof {
        lemma_trim_start_at(v@, lo as int);
        let t = v@.subrange(lo as int, n as int);
        lemma_trim_end_at(t, hi - lo);
        assert(t.subrange(0, hi - lo) =~= v@.subrange(lo as int, hi as int));
        assert(r@ =~= v@.subrange(lo as int, hi as int));
    }
    r
}

/// Trimming is idempotent: a trimmed sequence trims to itself.
pub proof fn lemma_trim_trimmed(s: Seq<char>)
    ensures
        spec_trim(spec_trim(s)) == spec_trim(s),
{
    lemma_trim_start_no_leading_ws(s);
    let a = spec_trim_start(s);
    lemma_trim_end_prefix(a);
    lemma_trim_end_no_trailing_ws(a);
    let t = spec_trim(s);
    if t.len() > 0 {
        assert(t[0] == a[0]);
        assert(!is_ws(t[0]));
        assert(spec_trim_start(t) == t);
        assert(!is_ws(t.last()));
        assert(spec_trim_end(t) == t);
    } else {
        assert(spec_trim_start(t) == t);
        assert(spec_trim_end(t) == t);
    }
}

proof fn lemma_trim_start_no_leading_ws(s: Seq<char>)
    ensures
        spec_trim_start(s).len() > 0 ==> !is_ws(spec_trim_start(s)[0]),
    decreases s.len(),
{
    if s.len() > 0 && is_ws(s[0]) {
        lemma_trim_start_no_leading_ws(s.drop_first());
    }
}

proof fn lemma_trim_end_no_trailing_ws(s: Seq<char>)
    ensures
        spec_trim_end(s).len() > 0 ==> !is_ws(spec_trim_end(s).last()),
    decreases s.len(),
{
    if s.len() > 0 && is_ws(s.last()) {
        lemma_trim_end_no_trailing_ws(s.drop_last());
    }
}

proof fn lemma_trim_end_prefix(s: Seq<char>)
    ensures
        spec_trim_end(s).len() <= s.len(),
        forall|k: int|
            0 <= k < spec_trim_end(s).len() ==> spec_trim_end(s)[k] == s[k],
    decreases s.len(),
{
    if s.len() > 0 && is_ws(s.last()) {
        let t = s.drop_last();
        lemma_trim_end_prefix(t);
        assert(forall|k: int| 0 <= k < t.len() ==> t[k] == s[k]);
        assert(spec_trim_end(s) == spec_trim_end(t));
    }
}

/// Index of the first `'\n'` in `s`, or `s.len()` when there is none.
pub open spec fn first_nl(s: Seq<char>) -> nat
    decreases s.len(),
{
    if s.len() == 0 {
        0
    } else if s[0] == '\n' {
        0
    } else {
        1 + first_nl(s.drop_first())
    }
}

pub proof fn lemma_first_nl_le(s: Seq<char>)
    ensures
        first_nl(s) <= s.len(),
    decreases s.len(),
{
    if s.len() > 0 && s[0] != '\n' {
        lemma_first_nl_le(s.drop_first());
    }
}

pub proof fn lemma_first_nl_before(s: Seq<char>)
    ensures
        forall|k: int| 0 <= k < first_nl(s) && k < s.len() ==> s[k] != '\n',
    decreases s.len(),
{
    if s.len() > 0 && s[0] != '\n' {
        let t = s.drop_first();
        lemma_first_nl_before(t);
        assert(forall|k: int| 1 <= k < first_nl(s) && k < s.len() ==> s[k] == t[k - 1]);
    }
}

/// No line that `spec_lines` yields contains a line feed.
pub proof fn lemma_lines_no_nl(s: Seq<char>)
    ensures
        forall|i: int| 0 <= i < spec_lines(s).len() ==> no_nl(#[trigger] spec_lines(s)[i]),
    decreases s.len(),
{
    if s.len() > 0 {
        lemma_first_nl_le(s);
        lemma_first_nl_before(s);
        let i = first_nl(s) as int;
        if i >= s.len() {
            assert(no_nl(s));
        } else {
            let head = strip_cr(s.subrange(0, i));
            assert(no_nl(head));
            let rest = s.subrange(i + 1, s.len() as int);
            lemma_lines_no_nl(rest);
            assert(forall|j: int|
                0 <= j < spec_lines(rest).len() ==> spec_lines(s)[j + 1] == spec_lines(
                    rest,
                )[j]);
        }
    }
}

/// A line with its carriage return removed, as `str::lines` strips one
/// before each line feed.
pub open spec fn strip_cr(l: Seq<char>) -> Seq<char> {
    if l.len() > 0 && l.last() == '\r' {
        l.drop_last()
    } else {
        l
    }
}

/// The lines of `s`, split exactly as `str::lines` splits them: at each
/// `'\n'`, with one `'\r'` stripped before it, and with no empty final line
/// for a trailing line feed.
pub open spec fn spec_lines(s: Seq<char>) -> Seq<Seq<char>>
    decreases s.len(),
{
    if s.len() == 0 {
        Seq::empty()
    } else {
        let i = first_nl(s) as int;
        if i >= s.len() {
            seq![s]
        } else {
            seq![strip_cr(s.subrange(0, i))] + spec_lines(s.subrange(i + 1, s.len() as int))
        }
    }
}

pub proof fn lemma_first_nl_none(s: Seq<char>)
    requires
        forall|k: int| 0 <= k < s.len() ==> s[k] != '\n',
    ensures
        first_nl(s) == s.len(),
    decreases s.len(),
{
    if s.len() > 0 {
        assert(s[0] != '\n');
        let t = s.drop_first();
        assert(forall|k: int| 0 <= k < t.len() ==> t[k] == s[k + 1] && s[k + 1] != '\n');
        lemma_first_nl_none(t);
    }
}

proof fn lemma_first_nl_concat(a: Seq<char>, b: Seq<char>)
    requires
        forall|k: int| 0 <= k < a.len() ==> a[k] != '\n',
    ensures
        first_nl(a + seq!['\n'] + b) == a.len(),
    decreases a.len(),
{
    let s = a + seq!['\n'] + b;
    if a.len() == 0 {
        assert(s[0] == '\n');
    } else {
        assert(s[0] == a[0]);
        let t = s.drop_first();
        let a2 = a.drop_first();
        assert(forall|k: int| 0 <= k < a2.len() ==> a2[k] == a[k + 1] && a[k + 1] != '\n');
        lemma_first_nl_concat(a2, b);
        assert(t =~= a2 + seq!['\n'] + b);
    }
}

/// Splitting off one line: a line-feed after a feed-free prefix `a` makes
/// `strip_cr(a)` the first line, and the rest splits on its own.
pub proof fn lemma_lines_step(a: Seq<char>, b: Seq<char>)
    requires
        forall|k: int| 0 <= k < a.len() ==> a[k] != '\n',
    ensures
        spec_lines(a + seq!['\n'] + b) == seq![strip_cr(a)] + spec_lines(b),
{
    let s = a + seq!['\n'] + b;
    lemma_first_nl_concat(a, b);
    assert(s.len() > 0);
    let i = first_nl(s) as int;
    assert(i == a.len());
    assert(i < s.len());
    assert(s.subrange(0, i) =~= a);
    assert(s.subrange(i + 1, s.len() as int) =~= b);
}

/// A feed-free tail is a single line, or nothing when it is empty.
pub proof fn lemma_lines_tail(a: Seq<char>)
    requires
        forall|k: int| 0 <= k < a.len() ==> a[k] != '\n',
    ensures
        spec_lines(a) == if a.len() == 0 { Seq::<Seq<char>>::empty() } else { seq![a] },
{
    if a.len() > 0 {
        lemma_first_nl_none(a);
    }
}

/// Does `l` contain no line feed?
pub open spec fn no_nl(l: Seq<char>) -> bool {
    forall|k: int| 0 <= k < l.len() ==> l[k] != '\n'
}

/// The text whose lines are `ls`, each terminated by a line feed.
pub open spec fn spec_terminated(ls: Seq<Seq<char>>) -> Seq<char>
    decreases ls.len(),
{
    if ls.len() == 0 {
        Seq::empty()
    } else {
        ls.first() + seq!['\n'] + spec_terminated(ls.drop_first())
    }
}

pub proof fn lemma_terminated_concat(a: Seq<Seq<char>>, b: Seq<Seq<char>>)
    ensures
        spec_terminated(a + b) == spec_terminated(a) + spec_terminated(b),
    decreases a.len(),
{
    if a.len() == 0 {
        assert(a + b =~= b);
        assert(spec_terminated(a) + spec_terminated(b) =~= spec_terminated(b));
    } else {
        assert((a + b).first() == a.first());
        assert((a + b).drop_first() =~= a.drop_first() + b);
        lemma_terminated_concat(a.drop_first(), b);
        assert(spec_terminated(a + b) =~= spec_terminated(a) + spec_terminated(b));
    }
}

pub proof fn lemma_terminated_push(ls: Seq<Seq<char>>, l: Seq<char>)
    ensures
        spec_terminated(ls.push(l)) == spec_terminated(ls) + l + seq!['\n'],
{
    assert(ls.push(l) =~= ls + seq![l]);
    lemma_terminated_concat(ls, seq![l]);
    assert(seq![l].drop_first() =~= Seq::<Seq<char>>::empty());
    assert(spec_terminated(Seq::<Seq<char>>::empty()) =~= Seq::<char>::empty());
    assert(spec_terminated(seq![l]) =~= l + seq!['\n']);
    assert(spec_terminated(ls.push(l)) =~= spec_terminated(ls) + l + seq!['\n']);
}

/// Splitting line-feed-terminated text recovers the lines, each with a
/// trailing carriage return stripped.
pub proof fn lemma_lines_of_terminated(ls: Seq<Seq<char>>)
    requires
        forall|i: int| 0 <= i < ls.len() ==> no_nl(#[trigger] ls[i]),
    ensures
        spec_lines(spec_terminated(ls)) == ls.map_values(|l: Seq<char>| strip_cr(l)),
    decreases ls.len(),
{
    if ls.len() == 0 {
        assert(spec_terminated(ls).len() == 0);
        assert(spec_lines(spec_terminated(ls)) =~= ls.map_values(|l: Seq<char>| strip_cr(l)));
    } else {
        let rest = ls.drop_first();
        assert(no_nl(ls[0]));
        lemma_lines_step(ls.first(), spec_terminated(rest));
        assert(forall|i: int| 0 <= i < rest.len() ==> no_nl(#[trigger] rest[i]));
        lemma_lines_of_terminated(rest);
        assert(spec_lines(spec_terminated(ls)) =~= ls.map_values(|l: Seq<char>| strip_cr(l)));
    }
}

/// Appends `line` and a terminating line feed to `buf`.
pub fn push_text_line(buf: &mut Vec<char>, line: &Vec<char>)
    ensures
        final(buf)@ == old(buf)@ + line@ + seq!['\n'],
{
    append_chars(buf, line);
    buf.push('\n');
    assert(buf@ =~= old(buf)@ + line@ + seq!['\n']);
}

/// The views of a sequence of character vectors.
pub open spec fn seq_views(vs: Seq<Vec<char>>) -> Seq<Seq<char>> {
    vs.map_values(|v: Vec<char>| v@)
}

/// Exact runtime counterpart of [`spec_lines`].
pub fn split_lines(v: &Vec<char>) -> (r: Vec<Vec<char>>)
    ensures
        seq_views(r@) == spec_lines(v@),
{
    let n = v.len();
    let mut out: Vec<Vec<char>> = Vec::new();
    let mut cur: Vec<char> = Vec::new();
    let mut start: usize = 0;
    let mut i: usize = 0;
    proof {
        assert(v@.subrange(0, n as int) =~= v@);
        assert(seq_views(out@) =~= Seq::<Seq<char>>::empty());
        assert(cur@ =~= v@.subrange(0, 0));
    }
    while i < n
        invariant
            0 <= start <= i <= n,
            n == v.len(),
            cur@ == v@.subrange(start as int, i as int),
            forall|k: int| start <= k < i ==> v@[k] != '\n',
            spec_lines(v@) == seq_views(out@) + spec_lines(
                v@.subrange(start as int, n as int),
            ),
        decreases n - i,
    {
        if v[i] == '\n' {
            proof {
                assert(v@.subrange(start as int, n as int) =~= cur@ + seq!['\n'] + v@.subrange(
                    i + 1,
                    n as int,
                ));
                lemma_lines_step(cur@, v@.subrange(i + 1, n as int));
            }
            if cur.len() > 0 && cur[cur.len() - 1] == '\r' {
                cur.pop();
            }
            assert(cur@ == strip_cr(v@.subrange(start as int, i as int)));
            out.push(cur);
            proof {
                assert(seq_views(out@) =~= seq_views(out@.drop_last()) + seq![out@.last()@]);
            }
            cur = Vec::new();
            start = i + 1;
            assert(cur@ =~= v@.subrange(start as int, start as int));
        } else {
            cur.push(v[i]);
            assert(cur@ =~= v@.subrange(start as int, i + 1));
        }
        i += 1;
    }
    proof {
        lemma_lines_tail(cur@);
    }
    if cur.len() > 0 {
        out.push(cur);
        proof {
            assert(seq_views(out@) =~= seq_views(out@.drop_last()) + seq![out@.last()@]);
        }
    }
    assert(seq_views(out@) =~= spec_lines(v@));
    out
}

/// Appends all of `src` to `dst`.
pub fn append_chars(dst: &mut Vec<char>, src: &Vec<char>)
    ensures
        final(dst)@ == old(dst)@ + src@,
{
    let mut i: usize = 0;
    while i < src.len()
        invariant
            0 <= i <= src.len(),
            dst@ == old(dst)@ + src@.subrange(0, i as int),
        decreases src.len() - i,
    {
        dst.push(src[i]);
        assert(dst@ =~= old(dst)@ + src@.subrange(0, i + 1));
        i += 1;
    }
    assert(dst@ =~= old(dst)@ + src@);
}

/// A copy of `v`.
pub fn clone_chars(v: &Vec<char>) -> (r: Vec<char>)
    ensures
        r@ == v@,
{
    let mut r: Vec<char> = Vec::new();
    append_chars(&mut r, v);
    assert(r@ =~= v@);
    r
}

/// Does `s` begin with `p`?
pub open spec fn spec_starts_with(s: Seq<char>, p: Seq<char>) -> bool {
    s.len() >= p.len() && s.subrange(0, p.len() as int) == p
}

/// Exact runtime counterpart of [`spec_starts_with`].
pub fn starts_with_chars(v: &Vec<char>, p: &Vec<char>) -> (r: bool)
    ensures
        r == spec_starts_with(v@, p@),
{
    if v.len() < p.len() {
        assert(!spec_starts_with(v@, p@));
        return false;
    }
    let mut i: usize = 0;
    while i < p.len()
        invariant
            0 <= i <= p.len() <= v.len(),
            forall|k: int| 0 <= k < i ==> v@[k] == p@[k],
        decreases p.len() - i,
    {
        if v[i] != p[i] {
            assert(v@.subrange(0, p@.len() as int)[i as int] != p@[i as int]);
            return false;
        }
        i += 1;
    }
    assert(v@.subrange(0, p@.len() as int) =~= p@);
    true
}

/// Are the two character vectors equal?
pub fn chars_eq(a: &Vec<char>, b: &Vec<char>) -> (r: bool)
    ensures
        r == (a@ == b@),
{
    if a.len() != b.len() {
        return false;
    }
    let mut i: usize = 0;
    while i < a.len()
        invariant
            0 <= i <= a.len() == b.len(),
            forall|k: int| 0 <= k < i ==> a@[k] == b@[k],
        decreases a.len() - i,
    {
        if a[i] != b[i] {
            return false;
        }
        i += 1;
    }
    assert(a@ =~= b@);
    true
}

/// Are the two byte vectors equal?
pub fn bytes_eq(a: &Vec<u8>, b: &Vec<u8>) -> (r: bool)
    ensures
        r == (a@ == b@),
{
    if a.len() != b.len() {
        return false;
    }
    let mut i: usize = 0;
    while i < a.len()
        invariant
            0 <= i <= a.len() == b.len(),
            forall|k: int| 0 <= k < i ==> a@[k] == b@[k],
        decreases a.len() - i,
    {
        if a[i] != b[i] {
            return false;
        }
        i += 1;
    }
    assert(a@ =~= b@);
    true
}

/// Relies on `str::chars` and `Iterator::collect` for `Vec`: the characters
/// of the string, in order.
#[verifier::external_body]
pub(crate) fn str_to_chars(s: &str) -> (r: Vec<char>)
    ensures
        r@ == s@,
{
    s.chars().collect()
}

/// Relies on `String::from_iter` over characters: the string holding exactly
/// these characters, in order.
#[verifier::external_body]
pub(crate) fn chars_to_string(v: &Vec<char>) -> (r: String)
    ensures
        r@ == v@,
{
    v.iter().collect()
}

/// Appends the characters of a string slice to `dst`.
pub fn push_str_chars(dst: &mut Vec<char>, s: &str)
    ensures
        final(dst)@ == old(dst)@ + s@,
{
    let cs = str_to_chars(s);
    append_chars(dst, &cs);
}

/// The decimal digit character for `d % 10`.
pub open spec fn spec_dec_digit(d: nat) -> char {
    ((48 + d % 10) as u8) as char
}

/// The decimal digits of `n`, most significant first, as `{n}` formats them.
pub open spec fn spec_dec(n: nat) -> Seq<char>
    decreases n,
{
    if n < 10 {
        seq![spec_dec_digit(n)]
    } else {
        spec_dec(n / 10).push(spec_dec_digit(n % 10))
    }
}

/// Decimal digits are ordinary visible characters: never a line feed or a
/// carriage return.
pub proof fn lemma_dec_plain(n: nat)
    ensures
        forall|k: int|
            0 <= k < spec_dec(n).len() ==> #[trigger] spec_dec(n)[k] != '\n' && spec_dec(n)[k]
                != '\r',
    decreases n,
{
    assert(spec_dec_digit(n) != '\n' && spec_dec_digit(n) != '\r') by {
        assert(48 <= 48 + n % 10 < 58);
    }
    if n < 10 {
        assert(spec_dec(n) =~= seq![spec_dec_digit(n)]);
        assert(spec_dec(n)[0] == spec_dec_digit(n));
    } else {
        lemma_dec_plain(n / 10);
        assert(spec_dec_digit(n % 10) != '\n' && spec_dec_digit(n % 10) != '\r') by {
            assert(48 <= 48 + (n % 10) % 10 < 58);
        }
        let pre = spec_dec(n / 10);
        assert(spec_dec(n) == pre.push(spec_dec_digit(n % 10)));
        assert forall|k: int|
            0 <= k < spec_dec(n).len() implies #[trigger] spec_dec(n)[k] != '\n' && spec_dec(
            n,
        )[k] != '\r' by {
            if k < pre.len() {
                assert(spec_dec(n)[k] == pre[k]);
            } else {
                assert(spec_dec(n)[k] == spec_dec_digit(n % 10));
            }
        }
    }
}

/// Appends the decimal digits of `n` to `dst`.
pub fn push_dec_u64(dst: &mut Vec<char>, n: u64)
    ensures
        final(dst)@ == old(dst)@ + spec_dec(n as nat),
    decreases n,
{
    if n < 10 {
        dst.push((48 + (n % 10) as u8) as char);
        assert(dst@ =~= old(dst)@ + spec_dec(n as nat));
    } else {
        push_dec_u64(dst, n / 10);
        dst.push((48 + (n % 10) as u8) as char);
        assert(dst@ =~= old(dst)@ + spec_dec(n as nat));
    }
}

/// The decimal form of a signed number: a minus sign before the digits of
/// its magnitude.
pub open spec fn spec_dec_i64(n: int) -> Seq<char> {
    if n < 0 {
        seq!['-'] + spec_dec((-n) as nat)
    } else {
        spec_dec(n as nat)
    }
}

/// Appends the decimal form of `n` to `dst`.
pub fn push_dec_i64(dst: &mut Vec<char>, n: i64)
    ensures
        final(dst)@ == old(dst)@ + spec_dec_i64(n as int),
{
    if n < 0 {
        dst.push('-');
        let w: i128 = n as i128;
        assert(0 < -w <= u64::MAX);
        let m: u64 = (-w) as u64;
        push_dec_u64(dst, m);
        assert(dst@ =~= old(dst)@ + spec_dec_i64(n as int));
    } else {
        push_dec_u64(dst, n as u64);
    }
}

/// `parts` joined by `sep`, as `[T]::join` joins them.
pub open spec fn spec_join(ps: Seq<Seq<char>>, sep: Seq<char>) -> Seq<char>
    decreases ps.len(),
{
    if ps.len() == 0 {
        Seq::empty()
    } else if ps.len() == 1 {
        ps[0]
    } else {
        spec_join(ps.drop_last(), sep) + sep + ps.last()
    }
}

/// Exact runtime counterpart of [`spec_join`] over the views of `parts`.
pub fn join_strings(parts: &Vec<String>, sep: &str) -> (r: Vec<char>)
    ensures
        r@ == spec_join(parts@.map_values(|p: String| p@), sep@),
{
    let ghost ps = parts@.map_values(|p: String| p@);
    let mut out: Vec<char> = Vec::new();
    let mut i: usize = 0;
    proof {
        assert(out@ =~= spec_join(ps.subrange(0, 0), sep@));
    }
    while i < parts.len()
        invariant
            0 <= i <= parts@.len(),
            ps == parts@.map_values(|p: String| p@),
            out@ == spec_join(ps.subrange(0, i as int), sep@),
        decreases parts.len() - i,
    {
        if i > 0 {
            push_str_chars(&mut out, sep);
        }
        push_str_chars(&mut out, parts[i].as_str());
        proof {
            assert(ps.subrange(0, i + 1).drop_last() =~= ps.subrange(0, i as int));
            assert(ps.subrange(0, i + 1).last() == ps[i as int]);
            assert(ps[i as int] == parts@[i as int]@);
            if i == 0 {
                assert(out@ =~= spec_join(ps.subrange(0, 1), sep@));
            } else {
                assert(out@ =~= spec_join(ps.subrange(0, i + 1), sep@));
            }
        }
        i += 1;
    }
    assert(ps.subrange(0, parts@.len() as int) =~= ps);
    out
}

/// Addition that stops at the largest machine size instead of overflowing.
pub open spec fn spec_sat_add(a: nat, b: nat) -> nat {
    if a + b > usize::MAX {
        usize::MAX as nat
    } else {
        a + b
    }
}

/// Exact runtime counterpart of [`spec_sat_add`].
pub fn sat_add(a: usize, b: usize) -> (r: usize)
    ensures
        r as nat == spec_sat_add(a as nat, b as nat),
{
    if a > usize::MAX - b {
        usize::MAX
    } else {
        a + b
    }
}

/// The number of bytes of the UTF-8 encoding of `c`.
pub open spec fn spec_char_utf8_len(c: char) -> nat {
    if (c as u32) < 0x80 {
        1
    } else if (c as u32) < 0x800 {
        2
    } else if (c as u32) < 0x10000 {
        3
    } else {
        4
    }
}

/// The number of bytes of the UTF-8 encoding of `s`: what `str::len`
/// counts.
pub open spec fn spec_utf8_len(s: Seq<char>) -> nat
    decreases s.len(),
{
    if s.len() == 0 {
        0
    } else {
        spec_utf8_len(s.drop_last()) + spec_char_utf8_len(s.last())
    }
}

/// Each character encodes to at most four bytes.
pub proof fn lemma_utf8_len_bound(s: Seq<char>)
    ensures
        spec_utf8_len(s) <= 4 * s.len(),
    decreases s.len(),
{
    if s.len() > 0 {
        lemma_utf8_len_bound(s.drop_last());
    }
}

/// The encoded length of a concatenation is the sum of the parts'.
pub proof fn lemma_utf8_len_concat(a: Seq<char>, b: Seq<char>)
    ensures
        spec_utf8_len(a + b) == spec_utf8_len(a) + spec_utf8_len(b),
    decreases b.len(),
{
    if b.len() == 0 {
        assert(a + b =~= a);
    } else {
        assert((a + b).drop_last() =~= a + b.drop_last());
        assert((a + b).last() == b.last());
        lemma_utf8_len_concat(a, b.drop_last());
    }
}

/// Exact runtime counterpart of [`spec_utf8_len`].  The whole count must
/// fit in a machine word, which [`lemma_utf8_len_bound`] gives callers from
/// the text's length.
pub fn utf8_len(v: &Vec<char>) -> (r: usize)
    requires
        spec_utf8_len(v@) <= usize::MAX,
    ensures
        r as nat == spec_utf8_len(v@),
        r as nat <= 4 * v@.len(),
{
    let mut total: usize = 0;
    let mut i: usize = 0;
    while i < v.len()
        invariant
            0 <= i <= v@.len(),
            spec_utf8_len(v@) <= usize::MAX,
            total as nat == spec_utf8_len(v@.subrange(0, i as int)),
            total <= 4 * i,
        decreases v.len() - i,
    {
        let c = v[i];
        let cl: usize = if (c as u32) < 0x80 {
            1
        } else if (c as u32) < 0x800 {
            2
        } else if (c as u32) < 0x10000 {
            3
        } else {
            4
        };
        proof {
            assert(v@.subrange(0, i + 1).drop_last() =~= v@.subrange(0, i as int));
            assert(v@.subrange(0, i + 1).last() == v@[i as int]);
            assert(v@ =~= v@.subrange(0, i + 1) + v@.subrange(i + 1, v@.len() as int));
            lemma_utf8_len_concat(v@.subrange(0, i + 1), v@.subrange(i + 1, v@.len() as int));
            assert(spec_utf8_len(v@.subrange(0, i + 1)) <= spec_utf8_len(v@));
        }
        total = total + cl;
        i += 1;
    }
    assert(v@.subrange(0, v@.len() as int) =~= v@);
    total
}

} // verus!
