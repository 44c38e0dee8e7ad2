//! Character-sequence helpers: splitting on a separator, exactly as
//! `str::split` with a `char` pattern does.
use vstd::prelude::*;
use vstd::string::*;

verus! {

/// Index of the first occurrence of `sep` in `s`, or `s.len()` when there is none.
pub open spec fn sep_pos(s: Seq<char>, sep: char) -> nat
    decreases s.len(),
{
    if s.len() == 0 {
        0
    } else if s[0] == sep {
        0
    } else {
        1 + sep_pos(s.drop_first(), sep)
    }
}

/// `s` holds no occurrence of `c`.
pub open spec fn lacks(s: Seq<char>, c: char) -> bool {
    forall|k: int| 0 <= k < s.len() ==> s[k] != c
}

/// The pieces that `str::split(sep)` yields on `s`: the text between
/// consecutive separators, including empty pieces, and at least one piece.
pub open spec fn split_on(s: Seq<char>, sep: char) -> Seq<Seq<char>>
    decreases s.len(),
{
    let p = sep_pos(s, sep);
    if p >= s.len() {
        seq![s]
    } else {
        seq![s.take(p as int)] + split_on(s.skip(p + 1int), sep)
    }
}

/// The first separator position is determined by where `sep` first occurs.
pub proof fn lemma_sep_pos_at(s: Seq<char>, sep: char, p: int)
    requires
        0 <= p <= s.len(),
        p < s.len() ==> s[p] == sep,
        forall|k: int| 0 <= k < p ==> s[k] != sep,
    ensures
        sep_pos(s, sep) == p,
    decreases s.len(),
{
    if s.len() > 0 && p > 0 {
        assert forall|k: int| 0 <= k < p - 1 implies s.drop_first()[k] != sep by {
            assert(s.drop_first()[k] == s[k + 1]);
        }
        lemma_sep_pos_at(s.drop_first(), sep, p - 1);
    }
}

/// Splitting a text without the separator gives the text itself.
pub proof fn lemma_split_lacking(s: Seq<char>, sep: char)
    requires
        lacks(s, sep),
    ensures
        split_on(s, sep) == seq![s],
{
    lemma_sep_pos_at(s, sep, s.len() as int);
}

/// Splitting `a + [sep] + b`, where `a` lacks the separator, gives `a` and then
/// the pieces of `b`.
pub proof fn lemma_split_cons(a: Seq<char>, sep: char, b: Seq<char>)
    requires
        lacks(a, sep),
    ensures
        split_on(a + seq![sep] + b, sep) == seq![a] + split_on(b, sep),
{
    let s = a + seq![sep] + b;
    lemma_sep_pos_at(s, sep, a.len() as int);
    assert(s.take(a.len() as int) =~= a);
    assert(s.skip(a.len() + 1int) =~= b);
}

/// Splits `s` on `sep`, as `s.split(sep)` does.
pub fn split(s: &str, sep: char) -> (pieces: Vec<String>)
    ensures
        pieces@.map_values(|p: String| p@) == split_on(s@, sep),
{
    let n = s.unicode_len();
    let mut pieces: Vec<String> = Vec::new();
    let mut start: usize = 0;
    let mut i: usize = 0;
    assert(pieces@.map_values(|p: String| p@) =~= Seq::<Seq<char>>::empty());
    assert(s@.skip(0) =~= s@);
    assert(Seq::<Seq<char>>::empty() + split_on(s@, sep) =~= split_on(s@, sep));
    while i < n
        invariant
            n == s@.len(),
            start <= i <= n,
            forall|k: int| start <= k < i ==> s@[k] != sep,
            pieces@.map_values(|p: String| p@) + split_on(s@.skip(start as int), sep) == split_on(
                s@,
                sep,
            ),
        decreases n - i,
    {
        let c = s.get_char(i);
        if c == sep {
            let piece = s.substring_char(start, i).to_owned();
            proof {
                let rest = s@.skip(start as int);
                let a = s@.subrange(start as int, i as int);
                assert(rest =~= a + seq![sep] + s@.skip(i + 1));
                assert forall|k: int| 0 <= k < a.len() implies a[k] != sep by {
                    assert(a[k] == s@[start + k]);
                }
                lemma_split_cons(a, sep, s@.skip(i + 1));
                assert(pieces@.push(piece).map_values(|p: String| p@) =~= pieces@.map_values(
                    |p: String| p@,
                ).push(a));
            }
            pieces.push(piece);
            start = i + 1;
        }
        i = i + 1;
    }
    let last = s.substring_char(start, n).to_owned();
    proof {
        let rest = s@.skip(start as int);
        assert forall|k: int| 0 <= k < rest.len() implies rest[k] != sep by {
            assert(rest[k] == s@[start + k]);
        }
        lemma_split_lacking(rest, sep);
        assert(last@ =~= rest);
        assert(pieces@.push(last).map_values(|p: String| p@) =~= pieces@.map_values(
            |p: String| p@,
        ).push(rest));
    }
    pieces.push(last);
    pieces
}


/// The text an optional string holds, if any.
pub open spec fn opt_view(o: Option<String>) -> Option<Seq<char>> {
    match o {
        Some(s) => Some(s@),
        None => None,
    }
}

/// Position of the last occurrence of `sep` in `s`, if any.
pub open spec fn last_sep_pos(s: Seq<char>, sep: char) -> Option<int>
    decreases s.len(),
{
    if s.len() == 0 {
        None
    } else if s.last() == sep {
        Some(s.len() - 1)
    } else {
        last_sep_pos(s.drop_last(), sep)
    }
}

/// What the last separator position is.
pub proof fn lemma_last_sep_pos(s: Seq<char>, sep: char)
    ensures
        last_sep_pos(s, sep) matches Some(p) ==> 0 <= p < s.len() && s[p] == sep && forall|k: int|
            p < k < s.len() ==> s[k] != sep,
        last_sep_pos(s, sep) is None ==> lacks(s, sep),
    decreases s.len(),
{
    if s.len() > 0 && s.last() != sep {
        lemma_last_sep_pos(s.drop_last(), sep);
        assert forall|k: int| 0 <= k < s.len() - 1 implies s[k] == s.drop_last()[k] by {}
    }
}

/// In `a + [sep] + b` where `b` lacks the separator, the last separator is
/// the one after `a`.
pub proof fn lemma_last_sep_pos_at(a: Seq<char>, sep: char, b: Seq<char>)
    requires
        lacks(b, sep),
    ensures
        last_sep_pos(a + seq![sep] + b, sep) == Some(a.len() as int),
    decreases b.len(),
{
    let s = a + seq![sep] + b;
    if b.len() > 0 {
        assert(s.drop_last() =~= a + seq![sep] + b.drop_last());
        assert(s.last() == b.last());
        lemma_last_sep_pos_at(a, sep, b.drop_last());
    }
}

/// Finds the last occurrence of `sep` in `s`.
pub fn find_last(s: &str, sep: char) -> (r: Option<usize>)
    ensures
        r matches Some(p) ==> last_sep_pos(s@, sep) == Some(p as int),
        r is None ==> last_sep_pos(s@, sep) is None,
{
    let n = s.unicode_len();
    let mut i: usize = n;
    assert(s@.take(n as int) =~= s@);
    while i > 0
        invariant
            n == s@.len(),
            i <= n,
            last_sep_pos(s@, sep) == last_sep_pos(s@.take(i as int), sep),
        decreases i,
    {
        let c = s.get_char(i - 1);
        assert(s@.take(i as int).last() == c);
        if c == sep {
            return Some(i - 1);
        }
        assert(s@.take(i as int).drop_last() =~= s@.take(i - 1));
        i = i - 1;
    }
    None
}
} // verus!
