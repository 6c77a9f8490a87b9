//! Text helpers shared by the library: exact string comparison, substring
//! search, line and whitespace handling, and decimal integer parsing, all
//! stated over the character sequences that strings view as.
use vstd::prelude::*;

verus! {

broadcast use vstd::string::group_string_axioms;

/// `String::push` appends one character to the end of the string (std
/// documents exactly this). Trusted: Verus does not read std's body.
pub assume_specification[ String::push ](s: &mut String, ch: char)
    ensures
        final(s)@ == old(s)@.push(ch),
;

// ---------------------------------------------------------------------------
// Substrings
// ---------------------------------------------------------------------------

/// `t` occurs in `s` starting at index `i`.
pub open spec fn occurs_at(s: Seq<char>, t: Seq<char>, i: int) -> bool {
    &&& 0 <= i
    &&& i + t.len() <= s.len()
    &&& s.subrange(i, i + t.len()) == t
}

/// `t` occurs somewhere in `s`.
pub open spec fn occurs_in(s: Seq<char>, t: Seq<char>) -> bool {
    exists|i: int| occurs_at(s, t, i)
}

/// `i` is the leftmost occurrence of `t` in `s`.
pub open spec fn is_first_occurrence(s: Seq<char>, t: Seq<char>, i: int) -> bool {
    &&& occurs_at(s, t, i)
    &&& forall|j: int| 0 <= j < i ==> !occurs_at(s, t, j)
}

/// The characters of `s`, in order.
pub fn chars_of(s: &str) -> (v: Vec<char>)
    ensures
        v@ == s@,
{
    let mut v: Vec<char> = Vec::new();
    for c in it: s.chars()
        invariant
            v@ == it.seq().take(it.index() as int),
            it.seq() == s@,
    {
        v.push(c);
    }
    v
}

/// Character-wise equality of two strings.
pub fn str_eq(a: &str, b: &str) -> (r: bool)
    ensures
        r == (a@ == b@),
{
    a.to_owned() == b.to_owned()
}

/// Character-wise equality of two optional strings.
pub fn opt_str_eq(a: Option<&str>, b: Option<&str>) -> (r: bool)
    ensures
        r == (opt_view(a) == opt_view(b)),
{
    match (a, b) {
        (None, None) => true,
        (Some(x), Some(y)) => str_eq(x, y),
        _ => false,
    }
}

/// The view of an optional string.
pub open spec fn opt_view(a: Option<&str>) -> Option<Seq<char>> {
    match a {
        Some(s) => Some(s@),
        None => None,
    }
}

/// Does `t` occur in `s` at index `i`?
fn matches_at(s: &Vec<char>, t: &Vec<char>, i: usize) -> (r: bool)
    requires
        i + t@.len() <= s@.len(),
    ensures
        r == occurs_at(s@, t@, i as int),
{
    let n = s.len();
    let mut k: usize = 0;
    while k < t.len()
        invariant
            k <= t@.len(),
            n == s@.len(),
            i + t@.len() <= s@.len(),
            forall|m: int| 0 <= m < k ==> s@[i + m] == t@[m],
        decreases t@.len() - k,
    {
        if s[i + k] != t[k] {
            assert(s@.subrange(i as int, i + t@.len())[k as int] != t@[k as int]);
            return false;
        }
        k += 1;
    }
    assert(s@.subrange(i as int, i + t@.len()) =~= t@);
    true
}

/// Leftmost index at which `t` occurs in `s`.
pub fn find_seq(s: &Vec<char>, t: &Vec<char>) -> (r: Option<usize>)
    ensures
        match r {
            Some(i) => is_first_occurrence(s@, t@, i as int),
            None => !occurs_in(s@, t@),
        },
{
    if t.len() > s.len() {
        return None;
    }
    let last = s.len() - t.len();
    let mut i: usize = 0;
    loop
        invariant
            last == s@.len() - t@.len(),
            i <= last,
            forall|j: int| 0 <= j < i ==> !occurs_at(s@, t@, j),
        decreases last - i,
    {
        if matches_at(s, t, i) {
            return Some(i);
        }
        if i == last {
            return None;
        }
        i += 1;
    }
}

/// Does `t` occur in `s`?
pub fn contains_seq(s: &Vec<char>, t: &Vec<char>) -> (r: bool)
    ensures
        r == occurs_in(s@, t@),
{
    find_seq(s, t).is_some()
}

/// `s` ends with `t`.
pub open spec fn ends_with(s: Seq<char>, t: Seq<char>) -> bool {
    t.len() <= s.len() && s.subrange(s.len() - t.len(), s.len() as int) == t
}

/// `s` without the suffix `t`, when `s` ends with `t`.
pub open spec fn strip_suffix_spec(s: Seq<char>, t: Seq<char>) -> Option<Seq<char>> {
    if ends_with(s, t) {
        Some(s.subrange(0, s.len() - t.len()))
    } else {
        None
    }
}

/// Strip the suffix `t` from `s`.
pub fn strip_suffix(s: &Vec<char>, t: &Vec<char>) -> (r: Option<Vec<char>>)
    ensures
        match r {
            Some(v) => strip_suffix_spec(s@, t@) == Some(v@),
            None => strip_suffix_spec(s@, t@) is None,
        },
{
    if t.len() > s.len() {
        return None;
    }
    let start = s.len() - t.len();
    if !matches_at(s, t, start) {
        return None;
    }
    let mut out: Vec<char> = Vec::new();
    let mut k: usize = 0;
    while k < start
        invariant
            k <= start,
            start == s@.len() - t@.len(),
            out@ == s@.subrange(0, k as int),
        decreases start - k,
    {
        out.push(s[k]);
        k += 1;
        assert(out@ =~= s@.subrange(0, k as int));
    }
    Some(out)
}

/// A string holding exactly the characters `v`.
pub fn string_of(v: &Vec<char>) -> (s: String)
    ensures
        s@ == v@,
{
    let mut s = String::new();
    let mut k: usize = 0;
    while k < v.len()
        invariant
            k <= v@.len(),
            s@ == v@.subrange(0, k as int),
        decreases v@.len() - k,
    {
        s.push(v[k]);
        k += 1;
        assert(s@ =~= v@.subrange(0, k as int));
    }
    s
}


// ---------------------------------------------------------------------------
// Lines and whitespace
// ---------------------------------------------------------------------------

/// Unicode `White_Space`, as `char::is_whitespace` decides it.
pub open spec fn is_space(c: char) -> bool {
    ||| ('\t' <= c && c <= '\r')
    ||| c == ' '
    ||| c == '\u{85}'
    ||| c == '\u{a0}'
    ||| c == '\u{1680}'
    ||| ('\u{2000}' <= c && c <= '\u{200a}')
    ||| c == '\u{2028}'
    ||| c == '\u{2029}'
    ||| c == '\u{202f}'
    ||| c == '\u{205f}'
    ||| c == '\u{3000}'
}

fn is_space_exec(c: char) -> (r: bool)
    ensures
        r == is_space(c),
{
    ('\t' <= c && c <= '\r') || c == ' ' || c == '\u{85}' || c == '\u{a0}' || c == '\u{1680}'
        || ('\u{2000}' <= c && c <= '\u{200a}') || c == '\u{2028}' || c == '\u{2029}'
        || c == '\u{202f}' || c == '\u{205f}' || c == '\u{3000}'
}

/// `s` without its leading whitespace.
pub open spec fn trim_start(s: Seq<char>) -> Seq<char>
    decreases s.len(),
{
    if s.len() > 0 && is_space(s[0]) {
        trim_start(s.drop_first())
    } else {
        s
    }
}

/// `s` without its trailing whitespace.
pub open spec fn trim_end(s: Seq<char>) -> Seq<char>
    decreases s.len(),
{
    if s.len() > 0 && is_space(s.last()) {
        trim_end(s.drop_last())
    } else {
        s
    }
}

/// `s` without leading and trailing whitespace, as `str::trim` gives it.
pub open spec fn trim(s: Seq<char>) -> Seq<char> {
    trim_end(trim_start(s))
}

proof fn lemma_trim_start_skip(s: Seq<char>, lo: int)
    requires
        0 <= lo <= s.len(),
        forall|k: int| 0 <= k < lo ==> is_space(s[k]),
        lo == s.len() || !is_space(s[lo]),
    ensures
        trim_start(s) == s.skip(lo),
    decreases lo,
{
    if lo == 0 {
        assert(s.skip(0) =~= s);
    } else {
        let t = s.drop_first();
        assert forall|k: int| 0 <= k < lo - 1 implies is_space(t[k]) by {
            assert(t[k] == s[k + 1]);
        }
        if lo - 1 < t.len() {
            assert(t[lo - 1] == s[lo]);
        }
        lemma_trim_start_skip(t, lo - 1);
        assert(t.skip(lo - 1) =~= s.skip(lo));
    }
}

proof fn lemma_trim_end_take(s: Seq<char>, hi: int)
    requires
        0 <= hi <= s.len(),
        forall|k: int| hi <= k < s.len() ==> is_space(s[k]),
        hi == 0 || !is_space(s[hi - 1]),
    ensures
        trim_end(s) == s.take(hi),
    decreases s.len() - hi,
{
    if hi == s.len() {
        assert(s.take(hi) =~= s);
    } else {
        let t = s.drop_last();
        assert forall|k: int| hi <= k < t.len() implies is_space(t[k]) by {
            assert(t[k] == s[k]);
        }
        if hi > 0 {
            assert(t[hi - 1] == s[hi - 1]);
        }
        lemma_trim_end_take(t, hi);
        assert(t.take(hi) =~= s.take(hi));
    }
}

/// `s` trimmed of leading and trailing whitespace.
pub fn trim_chars(s: &Vec<char>) -> (r: Vec<char>)
    ensures
        r@ == trim(s@),
{
    let n = s.len();
    let mut lo: usize = 0;
    while lo < n && is_space_exec(s[lo])
        invariant
            n == s@.len(),
            lo <= n,
            forall|k: int| 0 <= k < lo ==> is_space(s@[k]),
        decreases n - lo,
    {
        lo += 1;
    }
    proof {
        lemma_trim_start_skip(s@, lo as int);
    }
    let ghost mid = s@.skip(lo as int);
    let mut hi: usize = n;
    while hi > lo && is_space_exec(s[hi - 1])
        invariant
            n == s@.len(),
            lo <= hi <= n,
            forall|k: int| hi <= k < n ==> is_space(s@[k]),
        decreases hi,
    {
        hi -= 1;
    }
    proof {
        assert forall|k: int| hi - lo <= k < mid.len() implies is_space(mid[k]) by {
            assert(mid[k] == s@[k + lo]);
        }
        if hi > lo {
            assert(mid[hi - lo - 1] == s@[hi - 1]);
        }
        lemma_trim_end_take(mid, hi - lo);
    }
    let mut out: Vec<char> = Vec::new();
    let mut k: usize = lo;
    while k < hi
        invariant
            n == s@.len(),
            lo <= k <= hi <= n,
            out@ == s@.subrange(lo as int, k as int),
        decreases hi - k,
    {
        out.push(s[k]);
        k += 1;
        assert(out@ =~= s@.subrange(lo as int, k as int));
    }
    assert(out@ =~= mid.take(hi - lo));
    out
}

/// Index of the first `'\n'` in `s`, or its length when there is none.
pub open spec fn line_end(s: Seq<char>) -> int
    decreases s.len(),
{
    if s.len() == 0 {
        0
    } else if s[0] == '\n' {
        0
    } else {
        1 + line_end(s.drop_first())
    }
}

/// The first line of `s`, as `str::lines().next()` yields it: `None` for an
/// empty string; otherwise the text before the first `'\n'`, with a `'\r'`
/// just before that `'\n'` removed.
pub open spec fn first_line(s: Seq<char>) -> Option<Seq<char>> {
    if s.len() == 0 {
        None
    } else {
        let e = line_end(s);
        let line = s.take(e);
        if e < s.len() && e > 0 && s[e - 1] == '\r' {
            Some(line.drop_last())
        } else {
            Some(line)
        }
    }
}

proof fn lemma_line_end(s: Seq<char>, e: int)
    requires
        0 <= e <= s.len(),
        forall|k: int| 0 <= k < e ==> s[k] != '\n',
        e == s.len() || s[e] == '\n',
    ensures
        line_end(s) == e,
    decreases e,
{
    if e > 0 {
        let t = s.drop_first();
        assert forall|k: int| 0 <= k < e - 1 implies t[k] != '\n' by {
            assert(t[k] == s[k + 1]);
        }
        if e - 1 < t.len() {
            assert(t[e - 1] == s[e]);
        }
        lemma_line_end(t, e - 1);
    }
}

/// The first line of `s`.
pub fn first_line_chars(s: &Vec<char>) -> (r: Option<Vec<char>>)
    ensures
        match r {
            Some(v) => first_line(s@) == Some(v@),
            None => first_line(s@) is None,
        },
{
    let n = s.len();
    if n == 0 {
        return None;
    }
    let mut e: usize = 0;
    while e < n && s[e] != '\n'
        invariant
            n == s@.len(),
            e <= n,
            forall|k: int| 0 <= k < e ==> s@[k] != '\n',
        decreases n - e,
    {
        e += 1;
    }
    proof {
        lemma_line_end(s@, e as int);
    }
    let end = if e < n && e > 0 && s[e - 1] == '\r' {
        e - 1
    } else {
        e
    };
    let mut out: Vec<char> = Vec::new();
    let mut k: usize = 0;
    while k < end
        invariant
            n == s@.len(),
            k <= end <= e <= n,
            out@ == s@.subrange(0, k as int),
        decreases end - k,
    {
        out.push(s[k]);
        k += 1;
        assert(out@ =~= s@.subrange(0, k as int));
    }
    assert(out@ =~= s@.take(end as int));
    if e > 0 {
        assert(s@.take(e as int).drop_last() =~= s@.take(e - 1));
    }
    Some(out)
}

// ---------------------------------------------------------------------------
// Decimal integers
// ---------------------------------------------------------------------------

/// Every character of `d` is an ASCII digit.
pub open spec fn all_digits(d: Seq<char>) -> bool {
    forall|i: int| 0 <= i < d.len() ==> '0' <= #[trigger] d[i] && d[i] <= '9'
}

/// The value of the decimal digit string `d`.
pub open spec fn digits_value(d: Seq<char>) -> int
    decreases d.len(),
{
    if d.len() == 0 {
        0
    } else {
        digits_value(d.drop_last()) * 10 + (d.last() as int - '0' as int)
    }
}

/// What `str::parse::<u32>` gives: an optional `+`, then one or more ASCII
/// digits whose value fits in a `u32`.
pub open spec fn parse_u32_spec(s: Seq<char>) -> Option<u32> {
    let d = if s.len() > 0 && s[0] == '+' {
        s.drop_first()
    } else {
        s
    };
    if d.len() > 0 && all_digits(d) && digits_value(d) <= u32::MAX {
        Some(digits_value(d) as u32)
    } else {
        None
    }
}

/// What `str::parse::<i32>` gives: an optional `+` or `-`, then one or more
/// ASCII digits whose signed value fits in an `i32`.
pub open spec fn parse_i32_spec(s: Seq<char>) -> Option<i32> {
    let neg = s.len() > 0 && s[0] == '-';
    let d = if s.len() > 0 && (s[0] == '+' || s[0] == '-') {
        s.drop_first()
    } else {
        s
    };
    let v = if neg {
        -digits_value(d)
    } else {
        digits_value(d)
    };
    if d.len() > 0 && all_digits(d) && i32::MIN <= v && v <= i32::MAX {
        Some(v as i32)
    } else {
        None
    }
}

proof fn lemma_digits_value_grows(d: Seq<char>, k: int)
    requires
        all_digits(d),
        0 <= k <= d.len(),
    ensures
        digits_value(d.take(k)) <= digits_value(d),
        0 <= digits_value(d.take(k)),
    decreases d.len() - k,
{
    if k == d.len() {
        assert(d.take(k) =~= d);
        lemma_digits_value_nonneg(d);
    } else {
        lemma_digits_value_grows(d, k + 1);
        assert(d.take(k + 1).drop_last() =~= d.take(k));
        lemma_digits_value_nonneg(d.take(k));
    }
}

proof fn lemma_digits_value_nonneg(d: Seq<char>)
    requires
        all_digits(d),
    ensures
        0 <= digits_value(d),
    decreases d.len(),
{
    if d.len() > 0 {
        assert(all_digits(d.drop_last()));
        lemma_digits_value_nonneg(d.drop_last());
    }
}

/// Value of `d[start..]` as decimal digits, when every character there is a
/// digit and the value is at most `bound`.
fn digits_upto(d: &Vec<char>, start: usize, bound: u64) -> (r: Option<u64>)
    requires
        start <= d@.len(),
        bound <= u32::MAX + 1,
    ensures
        match r {
            Some(v) => all_digits(d@.skip(start as int)) && v == digits_value(d@.skip(start as int))
                && v <= bound,
            None => !(all_digits(d@.skip(start as int)) && digits_value(d@.skip(start as int))
                <= bound),
        },
{
    let n = d.len();
    let ghost t = d@.skip(start as int);
    let mut acc: u64 = 0;
    let mut k: usize = start;
    while k < n
        invariant
            n == d@.len(),
            start <= k <= n,
            t == d@.skip(start as int),
            all_digits(t.take(k - start)),
            acc == digits_value(t.take(k - start)),
            acc <= bound,
            bound <= u32::MAX + 1,
        decreases n - k,
    {
        let c = d[k];
        if c < '0' || c > '9' {
            assert(t[k - start] == c);
            return None;
        }
        let digit = (c as u64) - ('0' as u64);
        let next = acc * 10 + digit;
        proof {
            assert(t.take(k - start + 1).drop_last() =~= t.take(k - start));
            assert(t.take(k - start + 1).last() == c);
        }
        if next > bound {
            proof {
                assert(all_digits(t.take(k - start + 1)));
                if all_digits(t) {
                    lemma_digits_value_grows(t, k - start + 1);
                }
            }
            return None;
        }
        acc = next;
        k += 1;
    }
    assert(t.take(k - start) =~= t);
    Some(acc)
}

/// Parse `s` as `str::parse::<u32>` does.
pub fn parse_u32(s: &Vec<char>) -> (r: Option<u32>)
    ensures
        r == parse_u32_spec(s@),
{
    let start: usize = if s.len() > 0 && s[0] == '+' {
        1
    } else {
        0
    };
    assert(start == 1 ==> s@.skip(1) =~= s@.drop_first());
    assert(s@.skip(0) =~= s@);
    if start >= s.len() {
        return None;
    }
    match digits_upto(s, start, 0xFFFF_FFFF) {
        Some(v) => Some(v as u32),
        None => None,
    }
}

/// Parse `s` as `str::parse::<i32>` does.
pub fn parse_i32(s: &Vec<char>) -> (r: Option<i32>)
    ensures
        r == parse_i32_spec(s@),
{
    let neg = s.len() > 0 && s[0] == '-';
    let start: usize = if s.len() > 0 && (s[0] == '+' || s[0] == '-') {
        1
    } else {
        0
    };
    assert(start == 1 ==> s@.skip(1) =~= s@.drop_first());
    assert(s@.skip(0) =~= s@);
    if start >= s.len() {
        return None;
    }
    let bound: u64 = if neg {
        0x8000_0000
    } else {
        0x7FFF_FFFF
    };
    match digits_upto(s, start, bound) {
        Some(v) => {
            if neg {
                Some((0 - (v as i64)) as i32)
            } else {
                Some(v as i32)
            }
        },
        None => None,
    }
}


// ---------------------------------------------------------------------------
// Paths
// ---------------------------------------------------------------------------

/// Index just past the last `'/'` of `p`, or 0 when there is none.
pub open spec fn seg_start(p: Seq<char>) -> int
    decreases p.len(),
{
    if p.len() == 0 {
        0
    } else if p.last() == '/' {
        p.len() as int
    } else {
        seg_start(p.drop_last())
    }
}

pub proof fn lemma_seg_start_bound(p: Seq<char>)
    ensures
        0 <= seg_start(p) <= p.len(),
        p.len() > 0 && p.last() != '/' ==> seg_start(p) < p.len(),
    decreases p.len(),
{
    if p.len() > 0 {
        lemma_seg_start_bound(p.drop_last());
    }
}

proof fn lemma_seg_start_is(p: Seq<char>, st: int)
    requires
        0 <= st <= p.len(),
        forall|k: int| st <= k < p.len() ==> p[k] != '/',
        st == 0 || p[st - 1] == '/',
    ensures
        seg_start(p) == st,
    decreases p.len(),
{
    if p.len() > 0 && st < p.len() {
        let q = p.drop_last();
        assert forall|k: int| st <= k < q.len() implies q[k] != '/' by {
            assert(q[k] == p[k]);
        }
        if st > 0 {
            assert(q[st - 1] == p[st - 1]);
        }
        lemma_seg_start_is(q, st);
    }
}

/// The last component of a path, as `Path::file_name` gives it on Unix:
/// trailing `/` and `.` components are passed over; a final `..`, an empty
/// path and the root have none.
pub open spec fn file_name_spec(p: Seq<char>) -> Option<Seq<char>>
    decreases p.len(),
{
    if p.len() == 0 {
        None
    } else if p.last() == '/' {
        file_name_spec(p.drop_last())
    } else {
        let st = seg_start(p);
        let seg = p.skip(st);
        if seg == seq!['.'] {
            proof {
                lemma_seg_start_bound(p);
            }
            file_name_spec(p.take(st))
        } else if seg == seq!['.', '.'] {
            None
        } else {
            Some(seg)
        }
    }
}

/// `p[from..to]` as a fresh vector.
pub fn copy_range(p: &Vec<char>, from: usize, to: usize) -> (r: Vec<char>)
    requires
        from <= to <= p@.len(),
    ensures
        r@ == p@.subrange(from as int, to as int),
{
    let mut out: Vec<char> = Vec::new();
    let mut k: usize = from;
    while k < to
        invariant
            from <= k <= to <= p@.len(),
            out@ == p@.subrange(from as int, k as int),
        decreases to - k,
    {
        out.push(p[k]);
        k += 1;
        assert(out@ =~= p@.subrange(from as int, k as int));
    }
    out
}

/// The last component of the path `p`.
pub fn file_name(p: &Vec<char>) -> (r: Option<Vec<char>>)
    ensures
        match r {
            Some(v) => file_name_spec(p@) == Some(v@),
            None => file_name_spec(p@) is None,
        },
{
    let n = p.len();
    let mut end: usize = n;
    assert(p@.take(n as int) =~= p@);
    loop
        invariant
            n == p@.len(),
            end <= n,
            file_name_spec(p@.take(end as int)) == file_name_spec(p@),
        decreases end,
    {
        let ghost q = p@.take(end as int);
        if end == 0 {
            return None;
        }
        if p[end - 1] == '/' {
            assert(q.drop_last() =~= p@.take(end - 1));
            end -= 1;
        } else {
            let mut st: usize = end;
            while st > 0 && p[st - 1] != '/'
                invariant
                    st <= end <= n,
                    n == p@.len(),
                    forall|k: int| st <= k < end ==> p@[k] != '/',
                decreases st,
            {
                st -= 1;
            }
            proof {
                assert forall|k: int| st <= k < q.len() implies q[k] != '/' by {
                    assert(q[k] == p@[k]);
                }
                if st > 0 {
                    assert(q[st - 1] == p@[st - 1]);
                }
                lemma_seg_start_is(q, st as int);
                assert(q.last() == p@[end - 1]);
            }
            let seg = copy_range(p, st, end);
            assert(seg@ =~= q.skip(st as int));
            if end - st == 1 && p[st] == '.' {
                assert(seg@ =~= seq!['.']);
                assert(q.take(st as int) =~= p@.take(st as int));
                end = st;
            } else if end - st == 2 && p[st] == '.' && p[st + 1] == '.' {
                assert(seg@ =~= seq!['.', '.']);
                return None;
            } else {
                assert(seg@ != seq!['.']) by {
                    if seg@ == seq!['.'] {
                        assert(seg@[0] == p@[st as int]);
                    }
                }
                assert(seg@ != seq!['.', '.']) by {
                    if seg@ == seq!['.', '.'] {
                        assert(seg@[0] == p@[st as int]);
                        assert(seg@[1] == p@[st + 1]);
                    }
                }
                return Some(seg);
            }
        }
    }
}

/// Index of the last `'.'` in `s`, if any.
pub open spec fn last_dot(s: Seq<char>) -> Option<int>
    decreases s.len(),
{
    if s.len() == 0 {
        None
    } else if s.last() == '.' {
        Some(s.len() - 1)
    } else {
        last_dot(s.drop_last())
    }
}

/// The stem of a file name, as `Path::file_stem` splits it: the text before
/// the last `.`, unless that dot is the first character or there is none.
pub open spec fn stem_of_name(name: Seq<char>) -> Seq<char> {
    match last_dot(name) {
        Some(d) => if d == 0 {
            name
        } else {
            name.take(d)
        },
        None => name,
    }
}

/// `Path::file_stem` of `p`.
pub open spec fn file_stem_spec(p: Seq<char>) -> Option<Seq<char>> {
    match file_name_spec(p) {
        Some(n) => Some(stem_of_name(n)),
        None => None,
    }
}

proof fn lemma_last_dot_is(s: Seq<char>, d: int)
    requires
        0 <= d < s.len(),
        s[d] == '.',
        forall|k: int| d < k < s.len() ==> s[k] != '.',
    ensures
        last_dot(s) == Some(d),
    decreases s.len(),
{
    if d < s.len() - 1 {
        let t = s.drop_last();
        assert forall|k: int| d < k < t.len() implies t[k] != '.' by {
            assert(t[k] == s[k]);
        }
        assert(t[d] == s[d]);
        lemma_last_dot_is(t, d);
    }
}

proof fn lemma_last_dot_none(s: Seq<char>)
    requires
        forall|k: int| 0 <= k < s.len() ==> s[k] != '.',
    ensures
        last_dot(s) is None,
    decreases s.len(),
{
    if s.len() > 0 {
        let t = s.drop_last();
        assert forall|k: int| 0 <= k < t.len() implies t[k] != '.' by {
            assert(t[k] == s[k]);
        }
        lemma_last_dot_none(t);
    }
}

/// The stem of the path `p`.
pub fn file_stem(p: &Vec<char>) -> (r: Option<Vec<char>>)
    ensures
        match r {
            Some(v) => file_stem_spec(p@) == Some(v@),
            None => file_stem_spec(p@) is None,
        },
{
    let name = match file_name(p) {
        Some(name) => name,
        None => return None,
    };
    let n = name.len();
    let mut k: usize = n;
    while k > 0 && name[k - 1] != '.'
        invariant
            k <= n,
            n == name@.len(),
            forall|j: int| k <= j < n ==> name@[j] != '.',
        decreases k,
    {
        k -= 1;
    }
    if k == 0 {
        proof {
            lemma_last_dot_none(name@);
        }
        return Some(name);
    }
    proof {
        lemma_last_dot_is(name@, k - 1);
    }
    if k - 1 == 0 {
        return Some(name);
    }
    let stem = copy_range(&name, 0, k - 1);
    assert(stem@ =~= name@.take(k - 1));
    Some(stem)
}


// ---------------------------------------------------------------------------
// Decimal formatting
// ---------------------------------------------------------------------------

/// The ASCII digit for `d` (0–9).
pub open spec fn digit_char(d: int) -> char {
    (d + '0' as int) as char
}

/// The decimal digits of `n`, most significant first, as `Display` prints
/// an unsigned integer.
pub open spec fn decimal(n: nat) -> Seq<char>
    decreases n,
{
    if n < 10 {
        seq![digit_char(n as int)]
    } else {
        decimal(n / 10).push(digit_char((n % 10) as int))
    }
}

/// The decimal form of `i` as `Display` prints a signed integer.
pub open spec fn signed_decimal(i: int) -> Seq<char> {
    if i < 0 {
        seq!['-'] + decimal((-i) as nat)
    } else {
        decimal(i as nat)
    }
}

fn decimal_chars(n: u64) -> (r: Vec<char>)
    ensures
        r@ == decimal(n as nat),
    decreases n,
{
    let d = (n % 10) as u8;
    let c = (48u8 + d) as char;
    assert(c == digit_char((n % 10) as int));
    if n < 10 {
        let mut v: Vec<char> = Vec::new();
        v.push(c);
        assert(v@ =~= seq![c]);
        v
    } else {
        let mut v = decimal_chars(n / 10);
        v.push(c);
        v
    }
}

/// The decimal text of a signed 32-bit integer.
pub fn i32_text(i: i32) -> (r: String)
    ensures
        r@ == signed_decimal(i as int),
{
    if i < 0 {
        let magnitude: u64 = (0 - (i as i64)) as u64;
        let digits = decimal_chars(magnitude);
        let mut s = String::new();
        s.push('-');
        s.append(string_of(&digits).as_str());
        assert(s@ =~= seq!['-'] + decimal(magnitude as nat));
        s
    } else {
        string_of(&decimal_chars(i as u64))
    }
}

} // verus!
