//! Verified text utilities: substring search, prefix truncation, and
//! delimiter-joined concatenation, each against a character-sequence model.

use vstd::prelude::*;

verus! {

/// `needle` occurs in `hay` starting at position `i`.
pub open spec fn occurs_at(hay: Seq<char>, needle: Seq<char>, i: int) -> bool {
    0 <= i && i + needle.len() <= hay.len() && hay.subrange(i, i + needle.len()) == needle
}

/// The position of the first occurrence of `needle` at or after `i`, if any.
pub open spec fn find_from(hay: Seq<char>, needle: Seq<char>, i: int) -> Option<int>
    decreases hay.len() + 1 - i,
    when 0 <= i
{
    if i + needle.len() > hay.len() {
        None
    } else if occurs_at(hay, needle, i) {
        Some(i)
    } else {
        find_from(hay, needle, i + 1)
    }
}

/// `hay` up to (not counting) the first occurrence of `needle`; all of `hay`
/// when `needle` does not occur.
pub open spec fn prefix_before(hay: Seq<char>, needle: Seq<char>) -> Seq<char> {
    match find_from(hay, needle, 0) {
        Some(k) => hay.take(k),
        None => hay,
    }
}

/// `find_from` yields the least occurrence position at or after `i`.
pub proof fn lemma_find_from(hay: Seq<char>, needle: Seq<char>, i: int)
    requires
        0 <= i,
    ensures
        match find_from(hay, needle, i) {
            Some(k) => i <= k && occurs_at(hay, needle, k)
                && (forall|j: int| i <= j < k ==> !occurs_at(hay, needle, j)),
            None => forall|j: int| j >= i ==> !occurs_at(hay, needle, j),
        },
    decreases hay.len() + 1 - i,
{
    if i + needle.len() > hay.len() {
        assert forall|j: int| j >= i implies !occurs_at(hay, needle, j) by {}
    } else if occurs_at(hay, needle, i) {
    } else {
        lemma_find_from(hay, needle, i + 1);
    }
}

/// The elements of `parts` concatenated with `sep` between neighbours.
pub open spec fn join_with(parts: Seq<Seq<char>>, sep: Seq<char>) -> Seq<char>
    decreases parts.len(),
{
    if parts.len() == 0 {
        Seq::empty()
    } else if parts.len() == 1 {
        parts[0]
    } else {
        parts[0] + sep + join_with(parts.drop_first(), sep)
    }
}

/// Appending one more part extends the joined text by a separator and
/// that part (by the part alone when there was nothing yet).
pub proof fn lemma_join_push(parts: Seq<Seq<char>>, sep: Seq<char>, x: Seq<char>)
    ensures
        parts.len() == 0 ==> join_with(parts.push(x), sep) == x,
        parts.len() > 0 ==> join_with(parts.push(x), sep) == join_with(parts, sep) + sep + x,
    decreases parts.len(),
{
    if parts.len() == 0 {
        assert(parts.push(x)[0] == x);
        assert(join_with(parts.push(x), sep) == x);
    } else {
        lemma_join_push(parts.drop_first(), sep, x);
        assert(parts.push(x).drop_first() =~= parts.drop_first().push(x));
        assert(parts.push(x)[0] == parts[0]);
        if parts.len() == 1 {
            assert(join_with(parts.push(x), sep)
                == parts[0] + sep + join_with(parts.drop_first().push(x), sep));
            assert(join_with(parts.drop_first().push(x), sep) == x);
        } else {
            assert(join_with(parts, sep) + sep + x
                =~= parts[0] + sep + (join_with(parts.drop_first(), sep) + sep + x));
        }
    }
}

/// Whether `needle` occurs in `hay` starting exactly at `i`.
fn match_at(hay: &str, needle: &str, i: usize) -> (r: bool)
    requires
        i + needle@.len() <= hay@.len(),
        hay@.len() <= usize::MAX,
    ensures
        r == occurs_at(hay@, needle@, i as int),
{
    let m = needle.unicode_len();
    for k in 0..m
        invariant
            m == needle@.len(),
            i + m <= hay@.len(),
            hay@.len() <= usize::MAX,
            forall|j: int| 0 <= j < k ==> hay@[i + j] == needle@[j],
    {
        if hay.get_char(i + k) != needle.get_char(k) {
            assert(hay@.subrange(i as int, i + m)[k as int] != needle@[k as int]);
            return false;
        }
    }
    assert(hay@.subrange(i as int, i + m) =~= needle@);
    true
}

/// The least position where `needle` occurs in `hay`, if it occurs at all.
pub fn find_sub(hay: &str, needle: &str) -> (r: Option<usize>)
    ensures
        match r {
            Some(i) => occurs_at(hay@, needle@, i as int)
                && (forall|j: int| 0 <= j < i ==> !occurs_at(hay@, needle@, j)),
            None => forall|j: int| !occurs_at(hay@, needle@, j),
        },
{
    let n = hay.unicode_len();
    let m = needle.unicode_len();
    if m > n {
        assert forall|j: int| !occurs_at(hay@, needle@, j) by {}
        return None;
    }
    if m == 0 {
        assert(hay@.subrange(0, 0) =~= needle@);
        return Some(0);
    }
    let limit = n - m;
    let mut i: usize = 0;
    while i <= limit
        invariant
            n == hay@.len(),
            m == needle@.len(),
            1 <= m <= n,
            limit == n - m,
            i <= limit + 1,
            forall|j: int| 0 <= j < i ==> !occurs_at(hay@, needle@, j),
        decreases limit + 1 - i,
    {
        if match_at(hay, needle, i) {
            return Some(i);
        }
        i = i + 1;
    }
    assert forall|j: int| !occurs_at(hay@, needle@, j) by {
        if j >= i {
            assert(j + needle@.len() > hay@.len());
        }
    }
    None
}

/// `hay` truncated at the first occurrence of `needle`; `hay` itself when
/// `needle` never occurs.
pub fn truncate_before(hay: &str, needle: &str) -> (r: String)
    ensures
        r@ == prefix_before(hay@, needle@),
{
    proof {
        lemma_find_from(hay@, needle@, 0);
    }
    match find_sub(hay, needle) {
        Some(i) => {
            let cut = hay.substring_char(0, i);
            assert(cut@ =~= hay@.take(i as int));
            cut.to_owned()
        }
        None => hay.to_owned(),
    }
}

/// The elements of `parts` joined with `sep` between neighbours.
pub fn join_strings(parts: &Vec<String>, sep: &str) -> (r: String)
    ensures
        r@ == join_with(parts@.map_values(|p: String| p@), sep@),
{
    let ghost views = parts@.map_values(|p: String| p@);
    if parts.len() == 0 {
        assert(join_with(views, sep@) =~= Seq::<char>::empty());
        return String::new();
    }
    let mut acc: String = parts[0].clone();
    assert(views.take(1)[0] == views[0]);
    assert(join_with(views.take(1), sep@) == views[0]);
    for i in 1..parts.len()
        invariant
            views == parts@.map_values(|p: String| p@),
            views.len() == parts@.len(),
            1 <= i <= parts@.len(),
            acc@ == join_with(views.take(i as int), sep@),
    {
        acc.append(sep);
        acc.append(parts[i].as_str());
        proof {
            lemma_join_push(views.take(i as int), sep@, views[i as int]);
            assert(views.take(i as int).push(views[i as int]) =~= views.take(i + 1));
        }
    }
    assert(views.take(parts@.len() as int) =~= views);
    acc
}

/// `suffix` ends `s`.
pub open spec fn is_suffix_of(suffix: Seq<char>, s: Seq<char>) -> bool {
    s.len() >= suffix.len() && s.skip(s.len() - suffix.len()) == suffix
}

/// Whether `s` ends with `suffix`.
pub fn has_suffix(s: &str, suffix: &str) -> (r: bool)
    ensures
        r == is_suffix_of(suffix@, s@),
{
    let n = s.unicode_len();
    let m = suffix.unicode_len();
    if m > n {
        return false;
    }
    let start = n - m;
    if match_at(s, suffix, start) {
        assert(s@.subrange(start as int, start + m) =~= s@.skip(s@.len() - suffix@.len()));
        true
    } else {
        assert(s@.subrange(start as int, start + m) =~= s@.skip(s@.len() - suffix@.len()));
        false
    }
}

} // verus!
