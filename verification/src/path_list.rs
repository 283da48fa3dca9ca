//! Splitting a PATH value into its directory names.
//!
//! A PATH value is a byte string; the separator byte divides it into
//! segments, kept in left-to-right order. Splitting never drops a segment:
//! empty segments (from a leading, trailing or doubled separator, or from an
//! empty value) are kept, and the caller treats them like any other
//! directory name that cannot be listed.

use vstd::prelude::*;

verus! {

/// The byte that separates directory names in a PATH value (`:`).
pub const PATH_SEPARATOR: u8 = 58;

/// The segments of `s`, split on `PATH_SEPARATOR`, in order.
///
/// An empty value yields one empty segment, and each separator byte starts a
/// new segment, so the result always holds one segment more than `s` holds
/// separators.
pub open spec fn split_segments(s: Seq<u8>) -> Seq<Seq<u8>>
    decreases s.len(),
{
    if s.len() == 0 {
        seq![Seq::<u8>::empty()]
    } else if s[0] == PATH_SEPARATOR {
        seq![Seq::<u8>::empty()] + split_segments(s.drop_first())
    } else {
        let rest = split_segments(s.drop_first());
        seq![seq![s[0]] + rest[0]] + rest.drop_first()
    }
}

/// The views of a sequence of byte vectors, element by element.
pub open spec fn views_of(v: Seq<Vec<u8>>) -> Seq<Seq<u8>> {
    v.map_values(|x: Vec<u8>| x@)
}

/// Splitting yields at least one segment, whatever the input.
pub proof fn lemma_split_segments_nonempty(s: Seq<u8>)
    ensures
        split_segments(s).len() >= 1,
    decreases s.len(),
{
    if s.len() == 0 {
    } else if s[0] == PATH_SEPARATOR {
    } else {
        lemma_split_segments_nonempty(s.drop_first());
    }
}

/// `current` prefixed onto the first segment of `segs`; the shape of the
/// still-unsplit remainder while a split is in progress.
spec fn prepend_to_first(current: Seq<u8>, segs: Seq<Seq<u8>>) -> Seq<Seq<u8>> {
    seq![current + segs[0]] + segs.drop_first()
}

/// Splits a PATH value on `PATH_SEPARATOR` into its segments, in order.
pub fn split_path(var: &Vec<u8>) -> (segments: Vec<Vec<u8>>)
    ensures
        views_of(segments@) == split_segments(var@),
{
    let mut segments: Vec<Vec<u8>> = Vec::new();
    let mut current: Vec<u8> = Vec::new();
    let mut i: usize = 0;
    proof {
        lemma_split_segments_nonempty(var@);
        let segs = split_segments(var@);
        assert(var@.skip(0) =~= var@);
        assert(Seq::<u8>::empty() + segs[0] =~= segs[0]);
        assert(views_of(segments@) + prepend_to_first(current@, segs) =~= segs);
    }
    while i < var.len()
        invariant
            i <= var.len(),
            split_segments(var@) == views_of(segments@) + prepend_to_first(
                current@,
                split_segments(var@.skip(i as int)),
            ),
        decreases var.len() - i,
    {
        proof {
            assert(var@.skip(i as int).len() == var@.len() - i);
            assert(var@.skip(i as int)[0] == var@[i as int]);
            assert(var@.skip(i as int).drop_first() =~= var@.skip(i + 1));
            lemma_split_segments_nonempty(var@.skip(i + 1));
        }
        let ghost old_segments = segments@;
        let ghost old_current = current@;
        if var[i] == PATH_SEPARATOR {
            segments.push(current);
            current = Vec::new();
            proof {
                assert(views_of(segments@) =~= views_of(old_segments).push(old_current));
                assert(split_segments(var@.skip(i as int)) =~= seq![Seq::<u8>::empty()]
                    + split_segments(var@.skip(i + 1)));
                assert(views_of(segments@) + prepend_to_first(
                    current@,
                    split_segments(var@.skip(i + 1)),
                ) =~= views_of(old_segments) + prepend_to_first(
                    old_current,
                    split_segments(var@.skip(i as int)),
                ));
            }
        } else {
            let b = var[i];
            current.push(b);
            proof {
                let rest = split_segments(var@.skip(i + 1));
                assert(split_segments(var@.skip(i as int)) =~= seq![seq![var@[i as int]]
                    + rest[0]] + rest.drop_first());
                assert(current@ + rest[0] =~= old_current + split_segments(
                    var@.skip(i as int),
                )[0]);
                assert(views_of(segments@) + prepend_to_first(current@, rest)
                    =~= views_of(old_segments) + prepend_to_first(
                    old_current,
                    split_segments(var@.skip(i as int)),
                ));
            }
        }
        i = i + 1;
    }
    proof {
        assert(var@.skip(i as int) =~= Seq::<u8>::empty());
        assert(split_segments(var@.skip(i as int)) == seq![Seq::<u8>::empty()]);
    }
    let ghost old_segments = segments@;
    let ghost old_current = current@;
    segments.push(current);
    proof {
        assert(views_of(segments@) =~= views_of(old_segments).push(old_current));
        assert(prepend_to_first(old_current, seq![Seq::<u8>::empty()]) =~= seq![old_current]);
        assert(views_of(segments@) =~= split_segments(var@));
    }
    segments
}

} // verus!
