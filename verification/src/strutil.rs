//! Small verified string utilities: equality, search, splitting and joining.
//!
//! Paths and reference components are manipulated as `String`s whose views
//! are `Seq<char>`; every operation here carries an exact contract over
//! those views.

use vstd::prelude::*;
use vstd::string::*;

verus! {

/// True when `c` occurs somewhere in `s`.
pub open spec fn has_char(s: Seq<char>, c: char) -> bool {
    exists|i: int| 0 <= i < s.len() && s[i] == c
}

/// Character-wise string equality, usable on arbitrary (non-ASCII) strings.
pub fn str_eq(a: &str, b: &str) -> (r: bool)
    ensures
        r == (a@ == b@),
{
    let alen = a.unicode_len();
    let blen = b.unicode_len();
    if alen != blen {
        assert(a@ != b@) by {
            assert(a@.len() != b@.len());
        }
        return false;
    }
    let mut i: usize = 0;
    while i < alen
        invariant
            alen == a@.len(),
            blen == b@.len(),
            alen == blen,
            i <= alen,
            forall|j: int| 0 <= j < i ==> a@[j] == b@[j],
        decreases alen - i,
    {
        if a.get_char(i) != b.get_char(i) {
            return false;
        }
        i += 1;
    }
    proof {
        assert(a@ =~= b@);
    }
    true
}

/// Whether `c` occurs in `s`.
pub fn contains_char(s: &str, c: char) -> (r: bool)
    ensures
        r == has_char(s@, c),
{
    let n = s.unicode_len();
    let mut i: usize = 0;
    while i < n
        invariant
            n == s@.len(),
            i <= n,
            forall|j: int| 0 <= j < i ==> s@[j] != c,
        decreases n - i,
    {
        if s.get_char(i) == c {
            return true;
        }
        i += 1;
    }
    false
}

/// The pieces of `s` between occurrences of `sep`, in order.
/// Splitting the empty string gives one empty piece, and every separator
/// adds a piece, so the result holds one piece more than `s` has separators.
pub open spec fn split_at(s: Seq<char>, sep: char) -> Seq<Seq<char>>
    decreases s.len(),
{
    if s.len() == 0 {
        seq![Seq::<char>::empty()]
    } else if s.last() == sep {
        split_at(s.drop_last(), sep).push(Seq::<char>::empty())
    } else {
        let init = split_at(s.drop_last(), sep);
        init.update(init.len() - 1, init.last().push(s.last()))
    }
}

pub proof fn lemma_split_at_nonempty(s: Seq<char>, sep: char)
    ensures
        split_at(s, sep).len() >= 1,
    decreases s.len(),
{
    if s.len() > 0 {
        lemma_split_at_nonempty(s.drop_last(), sep);
    }
}

/// No piece of a split contains the separator.
pub proof fn lemma_split_at_no_sep(s: Seq<char>, sep: char)
    ensures
        forall|i: int|
            0 <= i < split_at(s, sep).len() ==> !has_char(#[trigger] split_at(s, sep)[i], sep),
    decreases s.len(),
{
    if s.len() > 0 {
        lemma_split_at_no_sep(s.drop_last(), sep);
        lemma_split_at_nonempty(s.drop_last(), sep);
    }
}

/// Appending a separator and then a separator-free piece appends that piece
/// to the split.
pub proof fn lemma_split_at_append(s: Seq<char>, w: Seq<char>, sep: char)
    requires
        !has_char(w, sep),
    ensures
        split_at(s + seq![sep] + w, sep) == split_at(s, sep).push(w),
    decreases w.len(),
{
    if w.len() == 0 {
        assert((s + seq![sep] + w) =~= s.push(sep));
        assert(s.push(sep).drop_last() =~= s);
        assert(split_at(s.push(sep), sep) == split_at(s, sep).push(Seq::<char>::empty()));
        assert(w =~= Seq::<char>::empty());
    } else {
        let w0 = w.drop_last();
        assert(!has_char(w0, sep)) by {
            assert(forall|i: int| 0 <= i < w0.len() ==> w0[i] == w[i]);
        }
        lemma_split_at_append(s, w0, sep);
        let t = s + seq![sep] + w;
        assert(t.last() == w.last());
        assert(w.last() != sep) by {
            assert(w[w.len() - 1] == w.last());
        }
        assert(t.drop_last() =~= s + seq![sep] + w0);
        let init = split_at(s, sep).push(w0);
        lemma_split_at_nonempty(s, sep);
        assert(split_at(t, sep) == init.update(init.len() - 1, init.last().push(w.last())));
        assert(init.update(init.len() - 1, init.last().push(w.last())) =~= split_at(s, sep).push(
            w0.push(w.last()),
        ));
        assert(w0.push(w.last()) =~= w);
    }
}

/// Splitting around a separator splits each side on its own.
pub proof fn lemma_split_at_concat(s1: Seq<char>, s2: Seq<char>, sep: char)
    ensures
        split_at(s1 + seq![sep] + s2, sep) == split_at(s1, sep) + split_at(s2, sep),
    decreases s2.len(),
{
    if s2.len() == 0 {
        assert(s1 + seq![sep] + s2 =~= s1.push(sep));
        assert(s1.push(sep).drop_last() =~= s1);
        assert(s1.push(sep).last() == sep);
        assert(split_at(s2, sep) == seq![Seq::<char>::empty()]);
        assert(split_at(s1, sep).push(Seq::<char>::empty()) =~= split_at(s1, sep) + seq![
            Seq::<char>::empty(),
        ]);
    } else {
        let s20 = s2.drop_last();
        lemma_split_at_concat(s1, s20, sep);
        let t = s1 + seq![sep] + s2;
        assert(t.drop_last() =~= s1 + seq![sep] + s20);
        assert(t.last() == s2.last());
        if s2.last() == sep {
            assert((split_at(s1, sep) + split_at(s20, sep)).push(Seq::<char>::empty())
                =~= split_at(s1, sep) + split_at(s20, sep).push(Seq::<char>::empty()));
        } else {
            let init = split_at(s1, sep) + split_at(s20, sep);
            lemma_split_at_nonempty(s20, sep);
            assert(init.last() == split_at(s20, sep).last());
            assert(init.update(init.len() - 1, init.last().push(s2.last())) =~= split_at(s1, sep)
                + split_at(s20, sep).update(
                split_at(s20, sep).len() - 1,
                split_at(s20, sep).last().push(s2.last()),
            ));
        }
    }
}

/// An absolute path spelling is never empty and opens with the separator.
pub proof fn lemma_abs_path_starts_sep(parts: Seq<Seq<char>>)
    ensures
        abs_path_of(parts).len() > 0,
        abs_path_of(parts)[0] == '/',
    decreases parts.len(),
{
    if parts.len() > 0 {
        lemma_abs_path_starts_sep(parts.drop_last());
        if parts.len() > 1 {
            assert(joined_with(parts, '/')[0] == joined_with(parts.drop_last(), '/')[0]);
        } else {
            assert(parts.drop_last() =~= Seq::<Seq<char>>::empty());
            reveal_with_fuel(joined_with, 2);
            assert(joined_with(parts, '/')[0] == '/');
        }
    }
}

/// Split `s` into the pieces between occurrences of `sep`.
pub fn split_str(s: &str, sep: char) -> (r: Vec<String>)
    ensures
        r.deep_view() == split_at(s@, sep),
{
    let n = s.unicode_len();
    let mut r: Vec<String> = Vec::new();
    let mut start: usize = 0;
    let mut i: usize = 0;
    proof {
        assert(s@.take(0) =~= Seq::<char>::empty());
        assert(s@.subrange(0, 0) =~= Seq::<char>::empty());
        assert(r.deep_view() =~= Seq::<Seq<char>>::empty());
        assert(r.deep_view().push(s@.subrange(0, 0)) =~= seq![Seq::<char>::empty()]);
    }
    while i < n
        invariant
            n == s@.len(),
            start <= i <= n,
            split_at(s@.take(i as int), sep) == r.deep_view().push(
                s@.subrange(start as int, i as int),
            ),
        decreases n - i,
    {
        let c = s.get_char(i);
        proof {
            assert(s@.take(i as int + 1).drop_last() =~= s@.take(i as int));
            assert(s@.take(i as int + 1).last() == s@[i as int]);
        }
        if c == sep {
            let ghost prev = r.deep_view();
            let piece = String::from_str(s.substring_char(start, i));
            r.push(piece);
            proof {
                assert(piece@ == s@.subrange(start as int, i as int));
                assert(r.deep_view() =~~= prev.push(piece@));
                assert(split_at(s@.take(i as int + 1), sep) == split_at(
                    s@.take(i as int),
                    sep,
                ).push(Seq::<char>::empty()));
                assert(s@.subrange(i as int + 1, i as int + 1) =~= Seq::<char>::empty());
                assert(split_at(s@.take(i as int + 1), sep) =~~= r.deep_view().push(
                    s@.subrange(i as int + 1, i as int + 1),
                ));
            }
            start = i + 1;
        } else {
            proof {
                let init = split_at(s@.take(i as int), sep);
                assert(init == r.deep_view().push(s@.subrange(start as int, i as int)));
                assert(init.last() == s@.subrange(start as int, i as int));
                assert(s@.subrange(start as int, i as int).push(s@[i as int]) =~= s@.subrange(
                    start as int,
                    i as int + 1,
                ));
                assert(init.update(init.len() - 1, init.last().push(s@[i as int])) =~~= r.deep_view()
                    .push(s@.subrange(start as int, i as int + 1)));
            }
        }
        i += 1;
    }
    let ghost prev = r.deep_view();
    let piece = String::from_str(s.substring_char(start, n));
    r.push(piece);
    proof {
        assert(s@.take(n as int) =~= s@);
        assert(piece@ == s@.subrange(start as int, n as int));
        assert(r.deep_view() =~~= prev.push(piece@));
    }
    r
}

/// The pieces joined with `sep` written before each of them:
/// `["a", "b"]` with `/` becomes `/a/b`.
pub open spec fn joined_with(parts: Seq<Seq<char>>, sep: char) -> Seq<char>
    decreases parts.len(),
{
    if parts.len() == 0 {
        Seq::empty()
    } else {
        joined_with(parts.drop_last(), sep) + seq![sep] + parts.last()
    }
}

/// The absolute path spelling a sequence of components: `/` alone for no
/// components, else `/` before each component.
pub open spec fn abs_path_of(parts: Seq<Seq<char>>) -> Seq<char> {
    if parts.len() == 0 {
        seq!['/']
    } else {
        joined_with(parts, '/')
    }
}

/// Write `parts` as an absolute path string.
pub fn join_abs(parts: &Vec<String>) -> (r: String)
    ensures
        r@ == abs_path_of(parts.deep_view()),
{
    proof {
        reveal_strlit("/");
    }
    if parts.len() == 0 {
        let r = String::from_str("/");
        proof {
            assert(r@ =~= seq!['/']);
        }
        return r;
    }
    let mut r = String::new();
    let mut i: usize = 0;
    while i < parts.len()
        invariant
            i <= parts.len(),
            parts.deep_view().len() == parts.len(),
            r@ == joined_with(parts.deep_view().take(i as int), '/'),
        decreases parts.len() - i,
    {
        r.append("/");
        r.append(parts[i].as_str());
        proof {
            reveal_strlit("/");
            let dv = parts.deep_view();
            assert(dv.take(i as int + 1).drop_last() =~= dv.take(i as int));
            assert(dv.take(i as int + 1).last() == dv[i as int]);
            assert(r@ =~= joined_with(dv.take(i as int), '/') + seq!['/'] + dv[i as int]);
        }
        i += 1;
    }
    proof {
        assert(parts.deep_view().take(parts.len() as int) =~= parts.deep_view());
    }
    r
}

/// What follows the last occurrence of `c` in `s`; all of `s` when `c`
/// does not occur.
pub open spec fn suffix_after_last(s: Seq<char>, c: char) -> Seq<char>
    decreases s.len(),
{
    if s.len() == 0 {
        Seq::empty()
    } else if s.last() == c {
        Seq::empty()
    } else {
        suffix_after_last(s.drop_last(), c).push(s.last())
    }
}

/// What precedes the last occurrence of `c` in `s`; empty when `c` does
/// not occur.
pub open spec fn prefix_before_last(s: Seq<char>, c: char) -> Seq<char>
    decreases s.len(),
{
    if s.len() == 0 {
        Seq::empty()
    } else if s.last() == c {
        s.drop_last()
    } else {
        prefix_before_last(s.drop_last(), c)
    }
}

proof fn lemma_cut_point(s: Seq<char>, c: char, k: int)
    requires
        0 <= k <= s.len(),
        k == 0 || s[k - 1] == c,
        forall|j: int| k <= j < s.len() ==> s[j] != c,
    ensures
        suffix_after_last(s, c) == s.subrange(k, s.len() as int),
        k > 0 ==> prefix_before_last(s, c) == s.subrange(0, k - 1),
        k == 0 ==> prefix_before_last(s, c) == Seq::<char>::empty(),
    decreases s.len(),
{
    if s.len() == 0 {
        assert(suffix_after_last(s, c) =~= s.subrange(k, s.len() as int));
    } else if s.last() == c {
        assert(s[s.len() - 1] == c);
        assert(k == s.len());
        assert(suffix_after_last(s, c) =~= s.subrange(k, s.len() as int));
        assert(prefix_before_last(s, c) =~= s.subrange(0, k - 1));
    } else {
        assert(s[s.len() - 1] != c);
        assert(k < s.len());
        let s0 = s.drop_last();
        lemma_cut_point(s0, c, k);
        assert(suffix_after_last(s0, c).push(s.last()) =~= s.subrange(k, s.len() as int));
        if k > 0 {
            assert(s0.subrange(0, k - 1) =~= s.subrange(0, k - 1));
        }
    }
}

/// Locate the cut just after the last occurrence of `c`: the returned `k`
/// is 0 when `c` does not occur, else one past its last occurrence.
fn find_cut(s: &str, c: char) -> (k: usize)
    ensures
        k <= s@.len(),
        k == 0 || s@[k - 1] == c,
        forall|j: int| k <= j < s@.len() ==> s@[j] != c,
{
    let n = s.unicode_len();
    let mut k: usize = n;
    while k > 0
        invariant
            n == s@.len(),
            k <= n,
            forall|j: int| k <= j < n ==> s@[j] != c,
        decreases k,
    {
        if s.get_char(k - 1) == c {
            return k;
        }
        k -= 1;
    }
    k
}

/// What follows the last occurrence of `c` in `s`.
pub fn suffix_after_last_str(s: &str, c: char) -> (r: String)
    ensures
        r@ == suffix_after_last(s@, c),
{
    let n = s.unicode_len();
    let k = find_cut(s, c);
    let r = String::from_str(s.substring_char(k, n));
    proof {
        lemma_cut_point(s@, c, k as int);
    }
    r
}

/// What precedes the last occurrence of `c` in `s`.
pub fn prefix_before_last_str(s: &str, c: char) -> (r: String)
    ensures
        r@ == prefix_before_last(s@, c),
{
    let k = find_cut(s, c);
    proof {
        lemma_cut_point(s@, c, k as int);
    }
    if k == 0 {
        let r = String::new();
        return r;
    }
    let r = String::from_str(s.substring_char(0, k - 1));
    r
}

} // verus!

