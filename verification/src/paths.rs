//! Lexical canonicalization of absolute paths.
//!
//! A path is modelled as the sequence of its `/`-separated components.
//! Canonicalization drops empty components and `.` and lets `..` swallow
//! the component before it, so traversal sequences are collapsed before any
//! path is compared against the allow-list or handed out. Canonical paths
//! are fixed points of this rewriting.

use vstd::prelude::*;
use vstd::string::*;

use crate::strutil::{
    abs_path_of, has_char, joined_with, lemma_split_at_append, lemma_split_at_no_sep, split_at,
    split_str, join_abs, str_eq, prefix_before_last, prefix_before_last_str, suffix_after_last,
    suffix_after_last_str, contains_char,
};

verus! {

/// The canonical form of a component sequence: empty components and `.`
/// vanish, `..` removes the component before it (or vanishes at the root).
pub open spec fn canon_parts(parts: Seq<Seq<char>>) -> Seq<Seq<char>>
    decreases parts.len(),
{
    if parts.len() == 0 {
        Seq::empty()
    } else {
        let init = canon_parts(parts.drop_last());
        let last = parts.last();
        if last == Seq::<char>::empty() || last == seq!['.'] {
            init
        } else if last == seq!['.', '.'] {
            if init.len() == 0 {
                init
            } else {
                init.drop_last()
            }
        } else {
            init.push(last)
        }
    }
}

/// A plain component: nonempty, no separator, and not a dot component.
pub open spec fn plain_component(p: Seq<char>) -> bool {
    p != Seq::<char>::empty() && p != seq!['.'] && p != seq!['.', '.'] && !has_char(p, '/')
}

/// Every component plain: what canonicalization establishes.
pub open spec fn plain_components(parts: Seq<Seq<char>>) -> bool {
    forall|i: int| 0 <= i < parts.len() ==> plain_component(#[trigger] parts[i])
}

/// The canonical spelling of `s` as an absolute path.
pub open spec fn canon_path_chars(s: Seq<char>) -> Seq<char> {
    abs_path_of(canon_parts(split_at(s, '/')))
}

/// Reduce a component sequence to canonical form.
pub fn canonicalize_parts(parts: &Vec<String>) -> (r: Vec<String>)
    ensures
        r.deep_view() == canon_parts(parts.deep_view()),
{
    let mut r: Vec<String> = Vec::new();
    let mut i: usize = 0;
    proof {
        assert(parts.deep_view().take(0) =~= Seq::<Seq<char>>::empty());
        assert(r.deep_view() =~= Seq::<Seq<char>>::empty());
    }
    while i < parts.len()
        invariant
            i <= parts.len(),
            parts.deep_view().len() == parts.len(),
            r.deep_view() == canon_parts(parts.deep_view().take(i as int)),
        decreases parts.len() - i,
    {
        let ghost dv = parts.deep_view();
        let ghost prev = r.deep_view();
        proof {
            reveal_strlit("");
            reveal_strlit(".");
            reveal_strlit("..");
            assert(""@ =~= Seq::<char>::empty());
            assert("."@ =~= seq!['.']);
            assert(".."@ =~= seq!['.', '.']);
            assert(dv.take(i as int + 1).drop_last() =~= dv.take(i as int));
            assert(dv.take(i as int + 1).last() == dv[i as int]);
            assert(dv[i as int] == parts@[i as int]@);
        }
        let p = &parts[i];
        if str_eq(p.as_str(), "") || str_eq(p.as_str(), ".") {
            // dropped from the canonical form
        } else if str_eq(p.as_str(), "..") {
            if r.len() > 0 {
                r.pop();
                proof {
                    assert(r.deep_view() =~~= prev.drop_last());
                }
            }
        } else {
            let copy = p.clone();
            r.push(copy);
            proof {
                assert(r.deep_view() =~~= prev.push(dv[i as int]));
            }
        }
        i += 1;
    }
    proof {
        assert(parts.deep_view().take(parts.len() as int) =~= parts.deep_view());
    }
    r
}

/// The canonical spelling of `s` as an absolute path.
pub fn canonicalize_path(s: &str) -> (r: String)
    ensures
        r@ == canon_path_chars(s@),
{
    let parts = split_str(s, '/');
    let canon = canonicalize_parts(&parts);
    join_abs(&canon)
}

/// Canonicalization leaves only plain components.
pub proof fn lemma_canon_parts_plain(parts: Seq<Seq<char>>)
    requires
        forall|i: int| 0 <= i < parts.len() ==> !has_char(#[trigger] parts[i], '/'),
    ensures
        plain_components(canon_parts(parts)),
    decreases parts.len(),
{
    if parts.len() > 0 {
        assert(forall|i: int|
            0 <= i < parts.drop_last().len() ==> !has_char(
                #[trigger] parts.drop_last()[i],
                '/',
            )) by {
            assert(forall|i: int|
                0 <= i < parts.drop_last().len() ==> parts.drop_last()[i] == parts[i]);
        }
        lemma_canon_parts_plain(parts.drop_last());
        let init = canon_parts(parts.drop_last());
        let last = parts.last();
        if last == Seq::<char>::empty() || last == seq!['.'] {
        } else if last == seq!['.', '.'] {
            if init.len() > 0 {
                assert(forall|i: int|
                    0 <= i < init.drop_last().len() ==> init.drop_last()[i] == init[i]);
            }
        } else {
            assert(!has_char(last, '/')) by {
                assert(parts[parts.len() - 1] == last);
            }
            assert(forall|i: int|
                0 <= i < canon_parts(parts).len() ==> plain_component(
                    #[trigger] canon_parts(parts)[i],
                )) by {
                assert(forall|i: int| 0 <= i < init.len() ==> canon_parts(parts)[i] == init[i]);
                assert(canon_parts(parts)[init.len() as int] == last);
            }
        }
    }
}

/// Appending plain components to a sequence appends them to its canonical
/// form.
pub proof fn lemma_canon_parts_append_plain(q: Seq<Seq<char>>, parts: Seq<Seq<char>>)
    requires
        plain_components(parts),
    ensures
        canon_parts(q + parts) == canon_parts(q) + parts,
    decreases parts.len(),
{
    if parts.len() == 0 {
        assert(q + parts =~= q);
        assert(canon_parts(q) + parts =~= canon_parts(q));
    } else {
        let parts0 = parts.drop_last();
        assert(plain_components(parts0)) by {
            assert(forall|i: int| 0 <= i < parts0.len() ==> parts0[i] == parts[i]);
        }
        lemma_canon_parts_append_plain(q, parts0);
        let t = q + parts;
        assert(t.len() > 0);
        assert(t.drop_last() =~= q + parts0);
        assert(t.last() == parts.last());
        assert(plain_component(parts.last())) by {
            assert(parts[parts.len() - 1] == parts.last());
        }
        assert(canon_parts(t) == canon_parts(q + parts0).push(parts.last()));
        assert(canon_parts(q) + parts =~= (canon_parts(q) + parts0).push(parts.last()));
    }
}

/// Splitting the absolute spelling of plain components recovers them,
/// preceded by the empty piece before the leading separator.
pub proof fn lemma_split_abs_of_plain(parts: Seq<Seq<char>>)
    requires
        plain_components(parts),
        parts.len() > 0,
    ensures
        split_at(joined_with(parts, '/'), '/') == seq![Seq::<char>::empty()] + parts,
    decreases parts.len(),
{
    let parts0 = parts.drop_last();
    assert(parts[parts.len() - 1] == parts.last());
    if parts.len() == 1 {
        reveal_with_fuel(joined_with, 2);
        assert(parts.drop_last() =~= Seq::<Seq<char>>::empty());
        assert(joined_with(parts, '/') =~= Seq::empty() + seq!['/'] + parts.last());
        lemma_split_at_append(Seq::<char>::empty(), parts.last(), '/');
        assert(split_at(Seq::<char>::empty(), '/') == seq![Seq::<char>::empty()]);
        assert(seq![Seq::<char>::empty()].push(parts.last()) =~= seq![Seq::<char>::empty()]
            + parts);
    } else {
        assert(plain_components(parts0)) by {
            assert(forall|i: int| 0 <= i < parts0.len() ==> parts0[i] == parts[i]);
        }
        lemma_split_abs_of_plain(parts0);
        lemma_split_at_append(joined_with(parts0, '/'), parts.last(), '/');
        assert((seq![Seq::<char>::empty()] + parts0).push(parts.last()) =~= seq![
            Seq::<char>::empty(),
        ] + parts);
    }
}

/// Canonicalizing a canonical path changes nothing.
pub proof fn lemma_canon_idempotent(s: Seq<char>)
    ensures
        canon_path_chars(canon_path_chars(s)) == canon_path_chars(s),
{
    let parts = canon_parts(split_at(s, '/'));
    lemma_split_at_no_sep(s, '/');
    lemma_canon_parts_plain(split_at(s, '/'));
    if parts.len() == 0 {
        // the canonical path is `/`, which splits into two empty pieces
        reveal_with_fuel(canon_parts, 3);
        reveal_with_fuel(split_at, 2);
        let one = seq!['/'];
        let two = seq![Seq::<char>::empty(), Seq::<char>::empty()];
        assert(one.drop_last() =~= Seq::<char>::empty());
        assert(one.last() == '/');
        assert(split_at(Seq::<char>::empty(), '/') == seq![Seq::<char>::empty()]);
        assert(split_at(one, '/') =~= two);
        assert(two.drop_last() =~= seq![Seq::<char>::empty()]);
        assert(seq![Seq::<char>::empty()].drop_last() =~= Seq::<Seq<char>>::empty());
        assert(canon_parts(seq![Seq::<char>::empty()]) == canon_parts(Seq::<Seq<char>>::empty()));
        assert(canon_parts(two) =~= Seq::<Seq<char>>::empty());
    } else {
        lemma_split_abs_of_plain(parts);
        lemma_canon_parts_append_plain(seq![Seq::<char>::empty()], parts);
        reveal_with_fuel(canon_parts, 3);
        assert(seq![Seq::<char>::empty()].drop_last() =~= Seq::<Seq<char>>::empty());
        assert(canon_parts(seq![Seq::<char>::empty()]) == canon_parts(Seq::<Seq<char>>::empty()));
        assert(canon_parts(seq![Seq::<char>::empty()]) =~= Seq::<Seq<char>>::empty());
        assert(Seq::<Seq<char>>::empty() + parts =~= parts);
    }
}

/// The directory holding `p`: everything before the last separator, or the
/// root when nothing precedes it.
pub open spec fn parent_dir_chars(p: Seq<char>) -> Seq<char> {
    if prefix_before_last(p, '/') == Seq::<char>::empty() {
        seq!['/']
    } else {
        prefix_before_last(p, '/')
    }
}

/// The directory holding `p`.
pub fn parent_dir(p: &str) -> (r: String)
    ensures
        r@ == parent_dir_chars(p@),
{
    let pre = prefix_before_last_str(p, '/');
    if pre.as_str().unicode_len() == 0 {
        proof {
            reveal_strlit("/");
            assert(pre@ =~= Seq::<char>::empty());
            assert("/"@ =~= seq!['/']);
        }
        String::from_str("/")
    } else {
        pre
    }
}

/// The extension of the file named by `p`: what follows the last dot of its
/// last component, empty when that component has no dot.
pub open spec fn extension_chars(p: Seq<char>) -> Seq<char> {
    let name = suffix_after_last(p, '/');
    if has_char(name, '.') {
        suffix_after_last(name, '.')
    } else {
        Seq::empty()
    }
}

/// The extension of the file named by `p`.
pub fn extension_of(p: &str) -> (r: String)
    ensures
        r@ == extension_chars(p@),
{
    let name = suffix_after_last_str(p, '/');
    if contains_char(name.as_str(), '.') {
        suffix_after_last_str(name.as_str(), '.')
    } else {
        String::new()
    }
}

} // verus!
