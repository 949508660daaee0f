//! Painter's-algorithm ordering: sort the frame's face records so the
//! deepest faces are drawn first and nearer ones overwrite them.
//!
//! The key is the face's depth metric, descending; faces with equal
//! metrics keep the order the culling stage emitted them in (their
//! `rank`). The sort is specified by the recursive insertion
//! [`sort_spec`], whose output is proved sorted and a permutation of its
//! input.

use vstd::prelude::*;
use vstd::multiset::Multiset;
use vstd::seq_lib::lemma_multiset_commutative;
use crate::project::FaceRender;

verus! {

/// `f` is drawn no later than `g`: strictly deeper by the metric, or
/// equally deep and emitted no later by the culling stage. Back-to-front:
/// the deeper face is painted first and overwritten by nearer ones.
pub open spec fn draws_before(f: FaceRender, g: FaceRender) -> bool {
    ||| f.depth > g.depth
    ||| (f.depth == g.depth && f.rank <= g.rank)
}

/// Every pair of the sequence is in draw order: deepest first, ties in
/// emission order.
pub open spec fn sorted_back_to_front(s: Seq<FaceRender>) -> bool {
    forall|i: int, j: int| 0 <= i < j < s.len() ==> draws_before(#[trigger] s[i], #[trigger] s[j])
}

/// `f` inserted into `s` behind every record it does not precede.
pub open spec fn insert_sorted(s: Seq<FaceRender>, f: FaceRender) -> Seq<FaceRender>
    decreases s.len(),
{
    if s.len() == 0 {
        seq![f]
    } else if draws_before(f, s[0]) {
        seq![f] + s
    } else {
        seq![s[0]] + insert_sorted(s.drop_first(), f)
    }
}

/// The stable back-to-front insertion sort of `s`.
pub open spec fn sort_spec(s: Seq<FaceRender>) -> Seq<FaceRender>
    decreases s.len(),
{
    if s.len() == 0 {
        Seq::empty()
    } else {
        insert_sorted(sort_spec(s.drop_last()), s.last())
    }
}

/// Draw order is total: of any two face records, one is drawn no later
/// than the other.
pub proof fn lemma_draw_order_total(f: FaceRender, g: FaceRender)
    ensures
        draws_before(f, g) || draws_before(g, f),
{
}

/// In a sorted sequence the order of any two records is decided by the
/// depth metric, and among equal metrics by emission order: a strictly
/// larger metric, or an equal metric with a smaller rank, puts a record
/// strictly earlier. With the two records' positions this pins where
/// each face is drawn — the deeper face first, so the nearer one
/// overwrites it wherever they overlap.
pub proof fn lemma_draw_order(s: Seq<FaceRender>, i: int, j: int)
    requires
        sorted_back_to_front(s),
        0 <= i < s.len(),
        0 <= j < s.len(),
    ensures
        s[i].depth > s[j].depth ==> i < j,
        s[i].depth == s[j].depth && s[i].rank < s[j].rank ==> i < j,
{
    if i > j {
        assert(draws_before(s[j], s[i]));
    }
}

/// Inserting into a sorted sequence keeps it sorted and adds exactly the
/// new record to its contents.
proof fn lemma_insert_sorted(s: Seq<FaceRender>, f: FaceRender)
    requires
        sorted_back_to_front(s),
    ensures
        sorted_back_to_front(insert_sorted(s, f)),
        insert_sorted(s, f).to_multiset() =~= s.to_multiset().insert(f),
        insert_sorted(s, f).len() == s.len() + 1,
    decreases s.len(),
{
    broadcast use vstd::seq_lib::group_to_multiset_ensures;

    let r = insert_sorted(s, f);
    if s.len() == 0 {
        assert(seq![f] =~= Seq::<FaceRender>::empty().push(f));
        assert(s.to_multiset() =~= Multiset::<FaceRender>::empty());
        assert(r.to_multiset() =~= s.to_multiset().insert(f));
    } else if draws_before(f, s[0]) {
        assert forall|i: int, j: int| 0 <= i < j < r.len() implies draws_before(r[i], r[j]) by {
            if i == 0 {
                if j > 1 {
                    assert(draws_before(s[0], s[j - 1]));
                }
            }
        }
        lemma_multiset_commutative(seq![f], s);
        assert(seq![f].to_multiset() =~= Multiset::<FaceRender>::empty().insert(f));
        assert(r.to_multiset() =~= s.to_multiset().insert(f));
    } else {
        let rest = s.drop_first();
        assert forall|i: int, j: int|
            0 <= i < j < rest.len() implies draws_before(#[trigger] rest[i], #[trigger] rest[j]) by {
            assert(rest[i] == s[i + 1] && rest[j] == s[j + 1]);
            assert(draws_before(s[i + 1], s[j + 1]));
        }
        lemma_insert_sorted(rest, f);
        let ins = insert_sorted(rest, f);
        assert forall|i: int, j: int| 0 <= i < j < r.len() implies draws_before(r[i], r[j]) by {
            if i == 0 {
                let e = ins[j - 1];
                assert(ins.to_multiset().count(e) > 0);
                assert(ins.to_multiset() =~= rest.to_multiset().insert(f));
                if e == f {
                    assert(draws_before(s[0], f));
                } else {
                    assert(rest.to_multiset().count(e) > 0);
                    assert(rest.contains(e));
                    let q = choose|q: int| 0 <= q < rest.len() && rest[q] == e;
                    assert(draws_before(s[0], s[q + 1]));
                }
            } else {
                assert(draws_before(ins[i - 1], ins[j - 1]));
            }
        }
        lemma_multiset_commutative(seq![s[0]], ins);
        lemma_multiset_commutative(seq![s[0]], rest);
        assert(seq![s[0]] + rest =~= s);
        assert(seq![s[0]].to_multiset() =~= Multiset::<FaceRender>::empty().insert(s[0]));
        assert(r.to_multiset() =~= s.to_multiset().insert(f));
    }
}

/// The insertion sort of any sequence is sorted back to front and is a
/// permutation of it: every face record of the frame is drawn exactly
/// once, in total, stable depth order.
pub proof fn lemma_sort_spec_ensures(s: Seq<FaceRender>)
    ensures
        sorted_back_to_front(sort_spec(s)),
        sort_spec(s).to_multiset() =~= s.to_multiset(),
        sort_spec(s).len() == s.len(),
    decreases s.len(),
{
    broadcast use vstd::seq_lib::group_to_multiset_ensures;

    if s.len() == 0 {
        assert(sort_spec(s).to_multiset() =~= s.to_multiset());
    } else {
        let butlast = s.drop_last();
        lemma_sort_spec_ensures(butlast);
        lemma_insert_sorted(sort_spec(butlast), s.last());
        assert(butlast.push(s.last()) =~= s);
        assert(sort_spec(s).to_multiset() =~= s.to_multiset());
    }
}

/// Where `f` belongs in `s`: splitting `s` at the first position whose
/// record `f` precedes and putting `f` there is exactly the sorted
/// insertion.
proof fn lemma_insert_sorted_split(s: Seq<FaceRender>, f: FaceRender, p: int)
    requires
        0 <= p <= s.len(),
        forall|q: int| 0 <= q < p ==> !draws_before(f, #[trigger] s[q]),
        p < s.len() ==> draws_before(f, s[p]),
    ensures
        insert_sorted(s, f) =~= s.insert(p, f),
    decreases s.len(),
{
    if s.len() == 0 {
    } else if p == 0 {
    } else {
        let rest = s.drop_first();
        assert forall|q: int| 0 <= q < p - 1 implies !draws_before(f, #[trigger] rest[q]) by {
            assert(rest[q] == s[q + 1]);
        }
        lemma_insert_sorted_split(rest, f, p - 1);
    }
}

/// Whether `f` is drawn no later than `g`.
fn precedes(f: &FaceRender, g: &FaceRender) -> (b: bool)
    ensures
        b == draws_before(*f, *g),
{
    f.depth > g.depth || (f.depth == g.depth && f.rank <= g.rank)
}

/// Sort the frame's face records back to front, stably: deepest metric
/// first, ties in the order the culling stage emitted them.
pub fn sort_faces(faces: &mut Vec<FaceRender>)
    ensures
        final(faces)@ == sort_spec(old(faces)@),
{
    let ghost orig = faces@;
    let mut out: Vec<FaceRender> = Vec::new();
    let mut i: usize = 0;
    while i < faces.len()
        invariant
            0 <= i <= faces@.len(),
            faces@ == orig,
            out@ == sort_spec(orig.take(i as int)),
        decreases faces@.len() - i,
    {
        let x = faces[i];
        let mut p: usize = 0;
        while p < out.len() && !precedes(&x, &out[p])
            invariant
                0 <= p <= out@.len(),
                forall|q: int| 0 <= q < p ==> !draws_before(x, #[trigger] out@[q]),
            decreases out@.len() - p,
        {
            p = p + 1;
        }
        let ghost out_before = out@;
        out.insert(p, x);
        proof {
            lemma_insert_sorted_split(out_before, x, p as int);
            assert(orig.take(i as int + 1).drop_last() =~= orig.take(i as int));
            assert(orig.take(i as int + 1).last() == orig[i as int]);
        }
        i = i + 1;
    }
    proof {
        assert(orig.take(orig.len() as int) =~= orig);
    }
    *faces = out;
}

} // verus!
