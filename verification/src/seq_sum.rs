//! Sums of natural numbers and concatenations of character sequences, with the
//! prefix facts that running totals and string builders rely on.

use vstd::prelude::*;

verus! {

/// The sum of a sequence of naturals.
pub open spec fn nat_sum(s: Seq<nat>) -> nat
    decreases s.len(),
{
    if s.len() == 0 {
        0
    } else {
        nat_sum(s.drop_last()) + s.last()
    }
}

/// The concatenation of a sequence of character sequences.
pub open spec fn concat_all(parts: Seq<Seq<char>>) -> Seq<char>
    decreases parts.len(),
{
    if parts.len() == 0 {
        Seq::empty()
    } else {
        concat_all(parts.drop_last()) + parts.last()
    }
}

/// Extending a prefix by one element adds that element to the sum.
pub proof fn lemma_nat_sum_take_step(s: Seq<nat>, i: int)
    requires
        0 <= i < s.len(),
    ensures
        nat_sum(s.take(i + 1)) == nat_sum(s.take(i)) + s[i],
{
    assert(s.take(i + 1).drop_last() =~= s.take(i));
}

/// A whole sequence sums to its full prefix.
pub proof fn lemma_nat_sum_take_all(s: Seq<nat>)
    ensures
        nat_sum(s.take(s.len() as int)) == nat_sum(s),
{
    assert(s.take(s.len() as int) =~= s);
}

/// The sum of a prefix never exceeds the sum of the whole sequence.
pub proof fn lemma_nat_sum_take_le(s: Seq<nat>, i: int)
    requires
        0 <= i <= s.len(),
    ensures
        nat_sum(s.take(i)) <= nat_sum(s),
    decreases s.len() - i,
{
    if i < s.len() {
        lemma_nat_sum_take_step(s, i);
        lemma_nat_sum_take_le(s, i + 1);
    } else {
        lemma_nat_sum_take_all(s);
    }
}

/// Extending a prefix by one part appends that part to the concatenation.
pub proof fn lemma_concat_take_step(parts: Seq<Seq<char>>, i: int)
    requires
        0 <= i < parts.len(),
    ensures
        concat_all(parts.take(i + 1)) == concat_all(parts.take(i)) + parts[i],
{
    assert(parts.take(i + 1).drop_last() =~= parts.take(i));
}

/// A whole sequence of parts concatenates as its full prefix does.
pub proof fn lemma_concat_take_all(parts: Seq<Seq<char>>)
    ensures
        concat_all(parts.take(parts.len() as int)) == concat_all(parts),
{
    assert(parts.take(parts.len() as int) =~= parts);
}

/// Concatenating no parts gives the empty sequence, and one part gives that part.
pub proof fn lemma_concat_empty_and_single(part: Seq<char>)
    ensures
        concat_all(Seq::<Seq<char>>::empty()) == Seq::<char>::empty(),
        concat_all(seq![part]) == part,
{
    assert(seq![part].drop_last() =~= Seq::<Seq<char>>::empty());
    assert(Seq::<char>::empty() + part =~= part);
}

/// Concatenation is taken part by part: the parts of `a` then those of `b`
/// concatenate to the concatenation of `a` followed by that of `b`.
pub proof fn lemma_concat_append(a: Seq<Seq<char>>, b: Seq<Seq<char>>)
    ensures
        concat_all(a + b) == concat_all(a) + concat_all(b),
    decreases b.len(),
{
    if b.len() == 0 {
        assert(a + b =~= a);
        assert(concat_all(a) + Seq::<char>::empty() =~= concat_all(a));
    } else {
        assert((a + b).drop_last() =~= a + b.drop_last());
        lemma_concat_append(a, b.drop_last());
        assert(concat_all(a) + concat_all(b.drop_last()) + b.last() =~= concat_all(a) + (concat_all(b.drop_last()) + b.last()));
    }
}

} // verus!
