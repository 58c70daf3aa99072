use vstd::prelude::*;

verus! {

/// The view of an optional string: the characters it holds, when it holds any.
pub open spec fn opt_view(s: Option<String>) -> Option<Seq<char>> {
    match s {
        Some(v) => Some(v@),
        None => None,
    }
}

/// Compares two optional strings by their characters, `None` being equal only to `None`.
pub fn opt_str_eq(a: &Option<String>, b: &Option<String>) -> (r: bool)
    ensures
        r == (opt_view(*a) == opt_view(*b)),
{
    match (a, b) {
        (Some(x), Some(y)) => *x == *y,
        (None, None) => true,
        _ => false,
    }
}

/// Copies an optional string.
pub fn opt_str_copy(a: &Option<String>) -> (r: Option<String>)
    ensures
        opt_view(r) == opt_view(*a),
{
    match a {
        Some(x) => Some(x.clone()),
        None => None,
    }
}

/// `i` is the first index of `s` whose item satisfies `p`.
pub open spec fn is_first_match<A>(s: Seq<A>, p: spec_fn(A) -> bool, i: int) -> bool {
    &&& 0 <= i < s.len()
    &&& p(s[i])
    &&& forall|j: int| 0 <= j < i ==> !p(#[trigger] s[j])
}

/// The first index of `s` whose item satisfies `p`, if any item does.
pub open spec fn first_match<A>(s: Seq<A>, p: spec_fn(A) -> bool) -> Option<int> {
    if exists|i: int| is_first_match(s, p, i) {
        Some(choose|i: int| is_first_match(s, p, i))
    } else {
        None
    }
}

/// The first match is unique, and there is none exactly when no item satisfies `p`.
pub proof fn lemma_first_match<A>(s: Seq<A>, p: spec_fn(A) -> bool)
    ensures
        forall|i: int| is_first_match(s, p, i) ==> first_match(s, p) == Some(i),
        first_match(s, p) is None <==> (forall|j: int| 0 <= j < s.len() ==> !p(#[trigger] s[j])),
        first_match(s, p) matches Some(i) ==> is_first_match(s, p, i),
{
    assert forall|i: int| is_first_match(s, p, i) implies first_match(s, p) == Some(i) by {
        let k = choose|k: int| is_first_match(s, p, k);
        if k < i {
            assert(!p(s[k]));
        } else if i < k {
            assert(!p(s[i]));
        }
    }
    if !(forall|j: int| 0 <= j < s.len() ==> !p(#[trigger] s[j])) {
        let j = choose|j: int| 0 <= j < s.len() && p(#[trigger] s[j]);
        lemma_some_match_has_first(s, p, j);
    }
}

proof fn lemma_some_match_has_first<A>(s: Seq<A>, p: spec_fn(A) -> bool, j: int)
    requires
        0 <= j < s.len(),
        p(s[j]),
    ensures
        exists|i: int| is_first_match(s, p, i),
    decreases j,
{
    if forall|k: int| 0 <= k < j ==> !p(#[trigger] s[k]) {
        assert(is_first_match(s, p, j));
    } else {
        let k = choose|k: int| 0 <= k < j && p(#[trigger] s[k]);
        lemma_some_match_has_first(s, p, k);
    }
}

/// An entry of a registry whose name is `k`.
pub open spec fn entry_named<V>(k: Seq<char>) -> spec_fn((Seq<char>, V)) -> bool {
    |e: (Seq<char>, V)| e.0 == k
}

/// What a registry holds under the name `k`: the value of its first entry of that name.
pub open spec fn lookup<V>(s: Seq<(Seq<char>, V)>, k: Seq<char>) -> Option<V> {
    match first_match(s, entry_named(k)) {
        Some(i) => Some(s[i].1),
        None => None,
    }
}

/// The registry with `v` under the name `k`: in place of the first entry of that name, or
/// appended where there is none.
pub open spec fn put<V>(s: Seq<(Seq<char>, V)>, k: Seq<char>, v: V) -> Seq<(Seq<char>, V)> {
    match first_match(s, entry_named(k)) {
        Some(i) => s.update(i, (k, v)),
        None => s.push((k, v)),
    }
}

/// Reading a name gives back what was last put under it, and putting under one name leaves
/// what every other name holds unchanged.
pub proof fn lemma_lookup_put<V>(s: Seq<(Seq<char>, V)>, k: Seq<char>, v: V, k2: Seq<char>)
    ensures
        lookup(put(s, k, v), k) == Some(v),
        k2 != k ==> lookup(put(s, k, v), k2) == lookup(s, k2),
{
    let t = put(s, k, v);
    lemma_first_match(s, entry_named(k));
    lemma_first_match(t, entry_named(k));
    lemma_first_match(s, entry_named::<V>(k2));
    lemma_first_match(t, entry_named::<V>(k2));
    match first_match(s, entry_named(k)) {
        Some(i) => {
            assert(is_first_match(t, entry_named(k), i));
            if k2 != k {
                match first_match(s, entry_named::<V>(k2)) {
                    Some(j) => {
                        assert(j != i);
                        assert(is_first_match(t, entry_named::<V>(k2), j));
                    },
                    None => {
                        assert forall|m: int| 0 <= m < t.len() implies !entry_named::<V>(k2)(#[trigger] t[m]) by {
                            assert(entry_named::<V>(k2)(t[m]) == entry_named::<V>(k2)(s[m]) || m == i);
                        }
                    },
                }
            }
        },
        None => {
            assert(is_first_match(t, entry_named(k), s.len() as int));
            if k2 != k {
                match first_match(s, entry_named::<V>(k2)) {
                    Some(j) => {
                        assert(is_first_match(t, entry_named::<V>(k2), j));
                    },
                    None => {
                        assert forall|m: int| 0 <= m < t.len() implies !entry_named::<V>(k2)(#[trigger] t[m]) by {
                            if m < s.len() {
                                assert(t[m] == s[m]);
                            }
                        }
                    },
                }
            }
        },
    }
}

/// A character with the Unicode `White_Space` property, the white space that `str::trim_end`
/// cuts.
pub open spec fn is_white_space(c: char) -> bool {
    ||| '\u{9}' <= c <= '\u{d}'
    ||| c == ' '
    ||| c == '\u{85}'
    ||| c == '\u{a0}'
    ||| c == '\u{1680}'
    ||| '\u{2000}' <= c <= '\u{200a}'
    ||| c == '\u{2028}'
    ||| c == '\u{2029}'
    ||| c == '\u{202f}'
    ||| c == '\u{205f}'
    ||| c == '\u{3000}'
}

/// `s` without the white space at its end.
pub open spec fn trimmed_end(s: Seq<char>) -> Seq<char>
    decreases s.len(),
{
    if s.len() > 0 && is_white_space(s.last()) {
        trimmed_end(s.drop_last())
    } else {
        s
    }
}

/// Whether `c` is white space.
pub fn white_space(c: char) -> (r: bool)
    ensures
        r == is_white_space(c),
{
    ('\u{9}' <= c && c <= '\u{d}') || c == ' ' || c == '\u{85}' || c == '\u{a0}' || c == '\u{1680}'
        || ('\u{2000}' <= c && c <= '\u{200a}') || c == '\u{2028}' || c == '\u{2029}' || c == '\u{202f}'
        || c == '\u{205f}' || c == '\u{3000}'
}

/// `s` without the white space at its end, as `str::trim_end` cuts it.
pub fn trim_end(s: &str) -> (r: String)
    ensures
        r@ == trimmed_end(s@),
{
    let mut n = s.unicode_len();
    assert(s@.subrange(0, n as int) =~= s@);
    loop
        invariant
            n <= s@.len(),
            trimmed_end(s@) == trimmed_end(s@.subrange(0, n as int)),
        ensures
            trimmed_end(s@) == s@.subrange(0, n as int),
        decreases n,
    {
        if n == 0 {
            break;
        }
        if !white_space(s.get_char(n - 1)) {
            break;
        }
        assert(s@.subrange(0, n as int).drop_last() =~= s@.subrange(0, n - 1));
        n -= 1;
    }
    s.substring_char(0, n).to_owned()
}

/// Cutting the white space at the end of `s` keeps a beginning of `s`, cuts only white space,
/// and leaves no white space at the end.
pub proof fn lemma_trimmed_end(s: Seq<char>)
    ensures
        trimmed_end(s).len() <= s.len(),
        trimmed_end(s) == s.subrange(0, trimmed_end(s).len() as int),
        forall|j: int| trimmed_end(s).len() <= j < s.len() ==> is_white_space(#[trigger] s[j]),
        trimmed_end(s).len() > 0 ==> !is_white_space(trimmed_end(s).last()),
    decreases s.len(),
{
    if s.len() > 0 && is_white_space(s.last()) {
        lemma_trimmed_end(s.drop_last());
        assert(s.drop_last().subrange(0, trimmed_end(s).len() as int) =~= s.subrange(0, trimmed_end(s).len() as int));
        assert forall|j: int| trimmed_end(s).len() <= j < s.len() implies is_white_space(#[trigger] s[j]) by {
            if j < s.len() - 1 {
                assert(s[j] == s.drop_last()[j]);
            }
        }
    } else {
        assert(s.subrange(0, s.len() as int) =~= s);
    }
}

} // verus!
