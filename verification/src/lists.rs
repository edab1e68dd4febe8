//! The pipe-and-comma list grammar used by the `Hello` and `HelloAck`
//! payloads: splitting a byte sequence on a separator, joining parts with a
//! separator, and the inversion lemmas that relate the two.
//!
//! Because the separators `,` and `|` are meaningful, encoding names are
//! constrained to the alphabet `[A-Za-z0-9_-]+`; [`valid_name`] states that
//! constraint and the inversion lemmas rest on it.

use vstd::prelude::*;

verus! {

/// The list separator `,` as a byte.
pub const COMMA: u8 = 44;

/// The field separator `|` as a byte.
pub const PIPE: u8 = 124;

/// Bytes allowed in an encoding or compression name: `[A-Za-z0-9_-]`.
pub open spec fn name_byte(b: u8) -> bool {
    (97 <= b && b <= 122) || (65 <= b && b <= 90) || (48 <= b && b <= 57) || b == 95 || b == 45
}

/// A well-formed encoding or compression name: non-empty, and made of
/// [`name_byte`]s only, so it cannot contain a list separator.
pub open spec fn valid_name(s: Seq<u8>) -> bool {
    s.len() > 0 && forall|i: int| 0 <= i < s.len() ==> name_byte(#[trigger] s[i])
}

/// Every name of the sequence is a [`valid_name`].
pub open spec fn all_valid_names(names: Seq<Seq<u8>>) -> bool {
    forall|i: int| 0 <= i < names.len() ==> valid_name(#[trigger] names[i])
}

/// The byte `b` occurs nowhere in `s`.
pub open spec fn has_no_byte(s: Seq<u8>, b: u8) -> bool {
    forall|i: int| 0 <= i < s.len() ==> #[trigger] s[i] != b
}

/// Index of the first occurrence of `sep` in `s`, or `-1` when absent.
pub open spec fn first_sep(s: Seq<u8>, sep: u8) -> int
    decreases s.len(),
{
    if s.len() == 0 {
        -1
    } else if s[0] == sep {
        0
    } else {
        let r = first_sep(s.drop_first(), sep);
        if r < 0 {
            -1
        } else {
            r + 1
        }
    }
}

/// `s` split on every occurrence of `sep`; always at least one part.
pub open spec fn split_on(s: Seq<u8>, sep: u8) -> Seq<Seq<u8>>
    decreases s.len(),
{
    let i = first_sep(s, sep);
    if 0 <= i && i < s.len() {
        seq![s.subrange(0, i)] + split_on(s.subrange(i + 1, s.len() as int), sep)
    } else {
        seq![s]
    }
}

/// `s` split on `sep` with one trailing empty element discarded, and an empty
/// `s` giving no parts at all.
pub open spec fn split_term(s: Seq<u8>, sep: u8) -> Seq<Seq<u8>> {
    if s.len() == 0 {
        Seq::empty()
    } else if s.last() == sep {
        split_on(s.take(s.len() - 1), sep)
    } else {
        split_on(s, sep)
    }
}

/// The parts joined with `sep` between each adjacent pair.
pub open spec fn join_with(parts: Seq<Seq<u8>>, sep: u8) -> Seq<u8>
    decreases parts.len(),
{
    if parts.len() == 0 {
        Seq::empty()
    } else if parts.len() == 1 {
        parts[0]
    } else {
        parts[0] + seq![sep] + join_with(parts.drop_first(), sep)
    }
}

/// What `first_sep` returns: `-1` exactly when `sep` is absent, and otherwise
/// the position of the first occurrence.
pub proof fn lemma_first_sep(s: Seq<u8>, sep: u8)
    ensures
        first_sep(s, sep) == -1 ==> has_no_byte(s, sep),
        first_sep(s, sep) != -1 ==> 0 <= first_sep(s, sep) < s.len() && s[first_sep(s, sep)]
            == sep && (forall|i: int| 0 <= i < first_sep(s, sep) ==> #[trigger] s[i] != sep),
    decreases s.len(),
{
    if s.len() == 0 {
    } else if s[0] == sep {
    } else {
        lemma_first_sep(s.drop_first(), sep);
        let r = first_sep(s.drop_first(), sep);
        if r == -1 {
            assert forall|i: int| 0 <= i < s.len() implies #[trigger] s[i] != sep by {
                if i > 0 {
                    assert(s[i] == s.drop_first()[i - 1]);
                }
            }
        } else {
            assert(s[r + 1] == s.drop_first()[r]);
            assert forall|i: int| 0 <= i < r + 1 implies #[trigger] s[i] != sep by {
                if i > 0 {
                    assert(s[i] == s.drop_first()[i - 1]);
                }
            }
        }
    }
}

/// If `sep` first occurs at `j`, then `first_sep` returns `j`.
pub proof fn lemma_first_sep_at(s: Seq<u8>, sep: u8, j: int)
    requires
        0 <= j < s.len(),
        s[j] == sep,
        forall|i: int| 0 <= i < j ==> #[trigger] s[i] != sep,
    ensures
        first_sep(s, sep) == j,
{
    lemma_first_sep(s, sep);
}

/// Splitting a separator-free sequence yields that one part.
pub proof fn lemma_split_on_whole(s: Seq<u8>, sep: u8)
    requires
        has_no_byte(s, sep),
    ensures
        split_on(s, sep) == seq![s],
{
    lemma_first_sep(s, sep);
}

/// Splitting `a + [sep] + rest` with `a` separator-free peels off `a`.
pub proof fn lemma_split_on_step(a: Seq<u8>, rest: Seq<u8>, sep: u8)
    requires
        has_no_byte(a, sep),
    ensures
        split_on(a + seq![sep] + rest, sep) == seq![a] + split_on(rest, sep),
{
    let s = a + seq![sep] + rest;
    assert(s[a.len() as int] == sep);
    assert forall|i: int| 0 <= i < a.len() implies #[trigger] s[i] != sep by {
        assert(s[i] == a[i]);
    }
    lemma_first_sep_at(s, sep, a.len() as int);
    assert(s.subrange(0, a.len() as int) =~= a);
    assert(s.subrange(a.len() as int + 1, s.len() as int) =~= rest);
}

/// A split always has at least one part.
pub proof fn lemma_split_on_nonempty(s: Seq<u8>, sep: u8)
    ensures
        split_on(s, sep).len() >= 1,
{
}

/// Splitting inverts joining, for separator-free parts.
pub proof fn lemma_split_of_join(parts: Seq<Seq<u8>>, sep: u8)
    requires
        parts.len() >= 1,
        forall|i: int| 0 <= i < parts.len() ==> has_no_byte(#[trigger] parts[i], sep),
    ensures
        split_on(join_with(parts, sep), sep) == parts,
    decreases parts.len(),
{
    if parts.len() == 1 {
        lemma_split_on_whole(parts[0], sep);
        assert(seq![parts[0]] =~= parts);
    } else {
        let tail = parts.drop_first();
        assert(forall|i: int| 0 <= i < tail.len() ==> tail[i] == #[trigger] parts[i + 1]);
        lemma_split_of_join(tail, sep);
        lemma_split_on_step(parts[0], join_with(tail, sep), sep);
        assert(seq![parts[0]] + tail =~= parts);
    }
}

/// Joining inverts splitting, unconditionally.
pub proof fn lemma_join_of_split(s: Seq<u8>, sep: u8)
    ensures
        join_with(split_on(s, sep), sep) == s,
    decreases s.len(),
{
    lemma_first_sep(s, sep);
    let i = first_sep(s, sep);
    if 0 <= i && i < s.len() {
        let rest = s.subrange(i + 1, s.len() as int);
        lemma_join_of_split(rest, sep);
        lemma_split_on_nonempty(rest, sep);
        let whole = seq![s.subrange(0, i)] + split_on(rest, sep);
        assert(whole.drop_first() =~= split_on(rest, sep));
        assert(s.subrange(0, i) + seq![sep] + rest =~= s);
    }
}

/// A join of non-empty parts is non-empty and ends as its last part ends.
pub proof fn lemma_join_last(parts: Seq<Seq<u8>>, sep: u8)
    requires
        parts.len() >= 1,
        forall|i: int| 0 <= i < parts.len() ==> (#[trigger] parts[i]).len() > 0,
    ensures
        join_with(parts, sep).len() > 0,
        join_with(parts, sep).last() == parts.last().last(),
    decreases parts.len(),
{
    if parts.len() == 1 {
    } else {
        let tail = parts.drop_first();
        assert(forall|i: int| 0 <= i < tail.len() ==> tail[i] == #[trigger] parts[i + 1]);
        lemma_join_last(tail, sep);
        assert(parts.last() == tail.last());
    }
}

/// A byte absent from every part and different from the separator is absent
/// from the join.
pub proof fn lemma_join_no_byte(parts: Seq<Seq<u8>>, sep: u8, c: u8)
    requires
        c != sep,
        forall|i: int| 0 <= i < parts.len() ==> has_no_byte(#[trigger] parts[i], c),
    ensures
        has_no_byte(join_with(parts, sep), c),
    decreases parts.len(),
{
    if parts.len() == 0 {
    } else if parts.len() == 1 {
        assert(has_no_byte(parts[0], c));
    } else {
        let tail = parts.drop_first();
        assert(forall|i: int| 0 <= i < tail.len() ==> tail[i] == #[trigger] parts[i + 1]);
        lemma_join_no_byte(tail, sep, c);
        let j = join_with(parts, sep);
        let jt = join_with(tail, sep);
        assert(has_no_byte(parts[0], c));
        assert forall|i: int| 0 <= i < j.len() implies #[trigger] j[i] != c by {
            if i < parts[0].len() {
                assert(j[i] == parts[0][i]);
            } else if i == parts[0].len() {
                assert(j[i] == sep);
            } else {
                assert(j[i] == jt[i - parts[0].len() - 1]);
            }
        }
    }
}

/// A valid name contains neither a comma nor a pipe.
pub proof fn lemma_valid_name_no_seps(s: Seq<u8>)
    requires
        valid_name(s),
    ensures
        has_no_byte(s, COMMA),
        has_no_byte(s, PIPE),
{
    assert forall|i: int| 0 <= i < s.len() implies #[trigger] s[i] != COMMA && s[i] != PIPE by {
        assert(name_byte(s[i]));
    }
}

/// `split_term` inverts joining, for lists of valid names.
pub proof fn lemma_split_term_of_join(parts: Seq<Seq<u8>>, sep: u8)
    requires
        sep == COMMA || sep == PIPE,
        all_valid_names(parts),
    ensures
        split_term(join_with(parts, sep), sep) == parts,
{
    if parts.len() == 0 {
        assert(split_term(Seq::<u8>::empty(), sep) =~= Seq::<Seq<u8>>::empty());
    } else {
        assert forall|i: int| 0 <= i < parts.len() implies has_no_byte(
            #[trigger] parts[i],
            sep,
        ) && parts[i].len() > 0 by {
            lemma_valid_name_no_seps(parts[i]);
        }
        lemma_join_last(parts, sep);
        let j = join_with(parts, sep);
        assert(parts.last().last() != sep) by {
            assert(has_no_byte(parts.last(), sep));
            assert(parts.last()[parts.last().len() - 1] != sep);
        }
        lemma_split_of_join(parts, sep);
    }
}

/// A sequence without the separator has no first separator.
pub proof fn lemma_no_byte_no_sep(s: Seq<u8>, sep: u8)
    requires
        has_no_byte(s, sep),
    ensures
        first_sep(s, sep) == -1,
{
    lemma_first_sep(s, sep);
}

/// Appending one more part to a join appends a separator and the part.
pub proof fn lemma_join_push(parts: Seq<Seq<u8>>, x: Seq<u8>, sep: u8)
    ensures
        join_with(parts.push(x), sep) == if parts.len() == 0 {
            x
        } else {
            join_with(parts, sep) + seq![sep] + x
        },
    decreases parts.len(),
{
    if parts.len() == 0 {
        assert(parts.push(x) =~= seq![x]);
    } else if parts.len() == 1 {
        assert(parts.push(x).drop_first() =~= seq![x]);
        assert(parts.push(x)[0] == parts[0]);
        assert(join_with(seq![x], sep) == x);
        assert(join_with(parts.push(x), sep) =~= join_with(parts, sep) + seq![sep] + x);
    } else {
        lemma_join_push(parts.drop_first(), x, sep);
        assert(parts.push(x).drop_first() =~= parts.drop_first().push(x));
        assert(parts.push(x)[0] == parts[0]);
        assert(join_with(parts, sep) == parts[0] + seq![sep] + join_with(parts.drop_first(), sep));
        assert(join_with(parts.push(x), sep) =~= join_with(parts, sep) + seq![sep] + x);
    }
}

/// A sequence whose single separator sits at `i` splits into exactly the two
/// surrounding parts.
pub proof fn lemma_split_two(p: Seq<u8>, sep: u8, i: int)
    requires
        0 <= i < p.len(),
        first_sep(p, sep) == i,
        has_no_byte(p.subrange(i + 1, p.len() as int), sep),
    ensures
        split_on(p, sep) == seq![p.subrange(0, i), p.subrange(i + 1, p.len() as int)],
{
    lemma_split_on_whole(p.subrange(i + 1, p.len() as int), sep);
    assert(split_on(p, sep) =~= seq![p.subrange(0, i), p.subrange(i + 1, p.len() as int)]);
}

/// A sequence with a separator at `i` and another one later splits into at
/// least three parts.
pub proof fn lemma_split_many(p: Seq<u8>, sep: u8, i: int)
    requires
        0 <= i < p.len(),
        first_sep(p, sep) == i,
        !has_no_byte(p.subrange(i + 1, p.len() as int), sep),
    ensures
        split_on(p, sep).len() >= 3,
{
    let rest = p.subrange(i + 1, p.len() as int);
    assert(split_on(p, sep) == seq![p.subrange(0, i)] + split_on(rest, sep));
    lemma_first_sep(rest, sep);
    let j = first_sep(rest, sep);
    assert(j != -1) by {
        if j == -1 {
            assert(has_no_byte(rest, sep));
        }
    }
    let rest2 = rest.subrange(j + 1, rest.len() as int);
    assert(split_on(rest, sep) == seq![rest.subrange(0, j)] + split_on(rest2, sep));
    lemma_split_on_nonempty(rest2, sep);
}

} // verus!
