//! The installed-app names offered by the routine editor's autocomplete.
use vstd::prelude::*;

use crate::text::{chars_of, str_eq, string_of, strip_suffix, strip_suffix_spec};

verus! {

/// `a` sorts before `b` character by character, a proper prefix first —
/// the order of `String`s (UTF-8 keeps code-point order).
pub open spec fn lex_lt(a: Seq<char>, b: Seq<char>) -> bool
    decreases a.len(),
{
    if a.len() == 0 {
        b.len() > 0
    } else if b.len() == 0 {
        false
    } else if a[0] != b[0] {
        a[0] < b[0]
    } else {
        lex_lt(a.drop_first(), b.drop_first())
    }
}

/// Of two different texts, one sorts before the other, and no text sorts
/// before itself.
pub proof fn lex_lt_total(a: Seq<char>, b: Seq<char>)
    ensures
        !lex_lt(a, a),
        a != b ==> lex_lt(a, b) || lex_lt(b, a),
    decreases a.len(),
{
    if a.len() > 0 {
        lex_lt_total(a.drop_first(), a.drop_first());
        if b.len() > 0 && a[0] == b[0] {
            lex_lt_total(a.drop_first(), b.drop_first());
            if a.drop_first() == b.drop_first() {
                assert(a =~= seq![a[0]] + a.drop_first());
                assert(b =~= seq![b[0]] + b.drop_first());
            }
        }
        if b.len() > 0 && a[0] != b[0] {
            assert(a[0] < b[0] || b[0] < a[0]);
        }
    } else if b.len() == 0 {
        assert(a =~= b);
    }
}

fn lex_less(a: &Vec<char>, b: &Vec<char>) -> (r: bool)
    ensures
        r == lex_lt(a@, b@),
{
    let mut k: usize = 0;
    assert(a@.skip(0) =~= a@ && b@.skip(0) =~= b@);
    while k < a.len() && k < b.len()
        invariant
            k <= a@.len(),
            k <= b@.len(),
            a@.take(k as int) == b@.take(k as int),
            lex_lt(a@, b@) == lex_lt(a@.skip(k as int), b@.skip(k as int)),
        decreases a@.len() - k,
    {
        if a[k] != b[k] {
            let r = a[k] < b[k];
            assert(a@.skip(k as int)[0] == a@[k as int]);
            assert(b@.skip(k as int)[0] == b@[k as int]);
            return r;
        }
        assert(a@.skip(k as int).drop_first() =~= a@.skip(k + 1));
        assert(b@.skip(k as int).drop_first() =~= b@.skip(k + 1));
        assert(a@.take(k + 1) =~= a@.take(k as int).push(a@[k as int]));
        assert(b@.take(k + 1) =~= b@.take(k as int).push(b@[k as int]));
        k += 1;
    }
    b.len() > k
}

/// The app name a bundle directory entry stands for: its name without the
/// `.app` suffix; none for anything else.
pub open spec fn app_name_of(entry: Seq<char>) -> Option<Seq<char>> {
    strip_suffix_spec(entry, ".app"@)
}

/// `x` is one of the names in `r`.
pub open spec fn listed(r: Seq<String>, x: Seq<char>) -> bool {
    exists|k: int| 0 <= k < r.len() && #[trigger] r[k]@ == x
}

/// Some entry before `upto` stands for app `x`.
pub open spec fn offered(entries: Seq<String>, upto: int, x: Seq<char>) -> bool {
    exists|e: int| 0 <= e < upto && #[trigger] app_name_of(entries[e]@) == Some(x)
}

/// The names of the installed apps, from the directory entries of the
/// application folders: every entry ending in `.app` gives its name
/// without the suffix; each name comes once, in sorted order.
pub fn installed_app_names(entries: &Vec<String>) -> (r: Vec<String>)
    ensures
        forall|x: Seq<char>|
            #![trigger listed(r@, x)]
            #![trigger offered(entries@, entries@.len() as int, x)]
            listed(r@, x) <==> offered(entries@, entries@.len() as int, x),
        forall|k: int, m: int| 0 <= k < m < r@.len() ==> (#[trigger] r@[k])@ != (#[trigger] r@[m])@,
        forall|k: int| 0 <= k && k + 1 < r@.len() ==> lex_lt((#[trigger] r@[k])@, r@[k + 1]@),
{
    let suffix = chars_of(".app");
    let mut out: Vec<String> = Vec::new();
    let n = entries.len();
    let mut i: usize = 0;
    while i < n
        invariant
            n == entries@.len(),
            i <= n,
            suffix@ == ".app"@,
            forall|x: Seq<char>|
                #![trigger listed(out@, x)]
                #![trigger offered(entries@, i as int, x)]
                listed(out@, x) <==> offered(entries@, i as int, x),
            forall|k: int, m: int| 0 <= k < m < out@.len() ==> (#[trigger] out@[k])@ != (#[trigger] out@[m])@,
            forall|k: int| 0 <= k && k + 1 < out@.len() ==> lex_lt((#[trigger] out@[k])@, out@[k + 1]@),
        decreases n - i,
    {
        let ghost before = out@;
        let stripped = strip_suffix(&chars_of(entries[i].as_str()), &suffix);
        if let Some(name_chars) = stripped {
            let name = string_of(&name_chars);
            let ghost x = name@;
            assert(app_name_of(entries@[i as int]@) == Some(x));
            // Already listed?
            let mut present = false;
            let mut j: usize = 0;
            while j < out.len()
                invariant
                    j <= out@.len(),
                    present == exists|k: int| 0 <= k < j && #[trigger] out@[k]@ == name@,
                decreases out@.len() - j,
            {
                if str_eq(out[j].as_str(), name.as_str()) {
                    present = true;
                }
                j += 1;
            }
            if !present {
                // Insert before the first listed name that does not sort first.
                let name_v = chars_of(name.as_str());
                let mut p: usize = 0;
                while p < out.len() && lex_less(&chars_of(out[p].as_str()), &name_v)
                    invariant
                        p <= out@.len(),
                        name_v@ == name@,
                        forall|k: int| 0 <= k < p ==> lex_lt((#[trigger] out@[k])@, name@),
                    decreases out@.len() - p,
                {
                    p += 1;
                }
                proof {
                    if p < out@.len() {
                        lex_lt_total(out@[p as int]@, name@);
                        assert(out@[p as int]@ != name@);
                        assert(!lex_lt(out@[p as int]@, name@));
                    }
                }
                out.insert(p, name);
                proof {
                    assert forall|k: int| 0 <= k && k + 1 < out@.len() implies lex_lt((#[trigger] out@[k])@, out@[k + 1]@) by {
                        if k + 1 < p {
                            assert(out@[k] == before[k] && out@[k + 1] == before[k + 1]);
                        } else if k + 1 == p {
                            assert(out@[k] == before[k]);
                        } else if k == p {
                            assert(out@[k + 1] == before[k]);
                        } else {
                            assert(out@[k] == before[k - 1] && out@[k + 1] == before[k]);
                        }
                    }
                    assert forall|k: int, m: int| 0 <= k < m < out@.len() implies (#[trigger] out@[k])@ != (#[trigger] out@[m])@ by {
                        if k != p && m != p {
                            let kk = if k < p { k } else { k - 1 };
                            let mm = if m < p { m } else { m - 1 };
                            assert(out@[k] == before[kk] && out@[m] == before[mm]);
                        } else if k == p {
                            let mm = m - 1;
                            assert(out@[m] == before[mm]);
                        } else {
                            assert(out@[k] == before[k]);
                        }
                    }
                    assert forall|y: Seq<char>|
                        listed(out@, y) <==> offered(entries@, i + 1, y) by {
                        if listed(out@, y) {
                            let k = choose|k: int| 0 <= k < out@.len() && #[trigger] out@[k]@ == y;
                            if k == p {
                                assert(app_name_of(entries@[i as int]@) == Some(y));
                            } else {
                                if k < p {
                                    assert(out@[k] == before[k]);
                                } else {
                                    assert(out@[k] == before[k - 1]);
                                }
                                assert(listed(before, y));
                                assert(offered(entries@, i as int, y));
                                let e = choose|e: int| 0 <= e < i && #[trigger] app_name_of(entries@[e]@) == Some(y);
                                assert(app_name_of(entries@[e]@) == Some(y));
                            }
                        }
                        if offered(entries@, i + 1, y) {
                            let e = choose|e: int| 0 <= e < i + 1 && #[trigger] app_name_of(entries@[e]@) == Some(y);
                            if e < i {
                                assert(offered(entries@, i as int, y));
                                assert(listed(before, y));
                                let k = choose|k: int| 0 <= k < before.len() && #[trigger] before[k]@ == y;
                                if k < p {
                                    assert(out@[k] == before[k]);
                                } else {
                                    assert(out@[k + 1] == before[k]);
                                }
                            } else {
                                assert(out@[p as int]@ == y);
                            }
                        }
                    }
                }
            } else {
                proof {
                    assert forall|y: Seq<char>|
                        listed(out@, y) <==> offered(entries@, i + 1, y) by {
                        if offered(entries@, i + 1, y) {
                            let e = choose|e: int| 0 <= e < i + 1 && #[trigger] app_name_of(entries@[e]@) == Some(y);
                            if e == i {
                                assert(y == x);
                            }
                        }
                    }
                }
            }
        } else {
            proof {
                assert(app_name_of(entries@[i as int]@) is None);
                assert forall|y: Seq<char>|
                    listed(out@, y) <==> offered(entries@, i + 1, y) by {
                    if offered(entries@, i + 1, y) {
                        let e = choose|e: int| 0 <= e < i + 1 && #[trigger] app_name_of(entries@[e]@) == Some(y);
                        assert(e != i);
                    }
                }
            }
        }
        i += 1;
    }
    out
}

} // verus!
