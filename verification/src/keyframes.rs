//! Index bookkeeping of keyframe reduction: which frames of the sampled motion
//! series are kept as keyframes.

use std::collections::BTreeSet;

use vstd::prelude::*;

verus! {

/// The sequence is strictly increasing (hence free of repeats).
pub open spec fn strictly_increasing(s: Seq<usize>) -> bool {
    forall|i: int, j: int| 0 <= i < j < s.len() ==> s[i] < s[j]
}

/// Whether frame `k` is a keyframe of a `total_frames`-frame motion, given the
/// frames proposed by the per-series reductions: with at most two frames every
/// frame is; otherwise the first, the last and every proposed frame are.
pub open spec fn is_keyframe(total_frames: usize, proposed: Seq<usize>, k: usize) -> bool {
    if total_frames <= 2 {
        k < total_frames
    } else {
        k == 0 || k == total_frames - 1 || proposed.contains(k)
    }
}

/// Frame indices are ordered as numbers: the ordering laws that `BTreeSet`
/// relies on hold for `usize`.
proof fn lemma_index_keys_ordered()
    ensures
        vstd::laws_cmp::obeys_cmp::<usize>(),
        vstd::std_specs::btree::key_obeys_cmp_spec::<usize>(),
{
    broadcast use vstd::laws_cmp::group_laws_cmp;
    broadcast use vstd::std_specs::btree::group_btree_axioms;
}

/// The frame indices that `BTreeSet` yields in increasing order are strictly
/// increasing.
proof fn lemma_increasing_indices(s: Seq<&usize>)
    requires
        vstd::std_specs::btree::increasing_seq(s),
    ensures
        strictly_increasing(s.unref()),
{
    broadcast use vstd::laws_cmp::group_laws_cmp;
    broadcast use vstd::std_specs::btree::group_btree_axioms;
    assert forall|i: int, j: int| 0 <= i < j < s.len() implies s.unref()[i] < s.unref()[j] by {
        assert(vstd::std_specs::cmp::OrdSpec::cmp_spec(&s[i], &s[j]) is Less);
    }
}

/// The keyframe indices of a `total_frames`-frame motion, in increasing order and
/// without repeats: all frames when there are at most two, else the first, the
/// last and every frame in `proposed`.
pub fn merge_keyframe_indices(total_frames: usize, proposed: &Vec<usize>) -> (res: Vec<usize>)
    ensures
        strictly_increasing(res@),
        forall|k: usize| res@.contains(k) <==> is_keyframe(total_frames, proposed@, k),
{
    let mut res: Vec<usize> = Vec::new();
    if total_frames <= 2 {
        let mut i: usize = 0;
        while i < total_frames
            invariant
                i <= total_frames,
                res@.len() == i,
                forall|j: int| 0 <= j < i ==> res@[j] == j,
            decreases total_frames - i,
        {
            res.push(i);
            i = i + 1;
        }
        proof {
            assert forall|k: usize| res@.contains(k) <==> k < total_frames by {
                if k < total_frames {
                    assert(res@[k as int] == k);
                }
            }
        }
        return res;
    }
    proof { lemma_index_keys_ordered(); }
    let mut frames: BTreeSet<usize> = BTreeSet::new();
    frames.insert(0);
    frames.insert(total_frames - 1);
    let mut i: usize = 0;
    while i < proposed.len()
        invariant
            2 < total_frames,
            i <= proposed@.len(),
            forall|k: usize| frames@.contains(k) <==> (k == 0 || k == total_frames - 1 || proposed@.take(i as int).contains(k)),
        decreases proposed@.len() - i,
    {
        proof { lemma_index_keys_ordered(); }
        frames.insert(proposed[i]);
        proof {
            let next = proposed@.take(i + 1);
            let prev = proposed@.take(i as int);
            assert forall|k: usize| next.contains(k) <==> (prev.contains(k) || k == proposed@[i as int]) by {
                if next.contains(k) {
                    let j = choose|j: int| 0 <= j < next.len() && #[trigger] next[j] == k;
                    if j < i {
                        assert(prev[j] == k);
                    }
                }
                if prev.contains(k) {
                    let j = choose|j: int| 0 <= j < prev.len() && #[trigger] prev[j] == k;
                    assert(next[j] == k);
                }
                if k == proposed@[i as int] {
                    assert(next[i as int] == k);
                }
            }
        }
        i = i + 1;
    }
    assert(proposed@.take(i as int) =~= proposed@);
    proof { lemma_index_keys_ordered(); }
    broadcast use vstd::std_specs::btree::group_btree_axioms;
    let ghost yielded = vstd::std_specs::iter::IteratorSpec::remaining(&vstd::std_specs::btree::spec_btree_keys_iter(&frames));
    let ghost keys = yielded.unref();
    for x in it: frames.iter()
        invariant
            it.seq().unref() == keys,
            res@.len() == it.index(),
            forall|j: int| 0 <= j < it.index() ==> res@[j] == keys[j],
        ensures
            res@.len() == keys.len(),
    {
        res.push(*x);
    }
    proof {
        assert(res@ =~= keys);
        lemma_increasing_indices(yielded);
        assert forall|k: usize| res@.contains(k) <==> frames@.contains(k) by {
            if frames@.contains(k) {
                assert(keys.to_set().contains(k));
            }
            if res@.contains(k) {
                let j = choose|j: int| 0 <= j < res@.len() && res@[j] == k;
                assert(keys.to_set().contains(keys[j]));
            }
        }
    }
    res
}

/// The frame indices `i` with `keep[i]` set, in increasing order.
pub fn kept_indices(keep: &Vec<bool>) -> (res: Vec<usize>)
    ensures
        strictly_increasing(res@),
        forall|k: usize| res@.contains(k) <==> (k < keep@.len() && keep@[k as int]),
{
    let mut res: Vec<usize> = Vec::new();
    let mut i: usize = 0;
    while i < keep.len()
        invariant
            i <= keep@.len(),
            strictly_increasing(res@),
            forall|j: int| 0 <= j < res@.len() ==> res@[j] < i,
            forall|k: usize| res@.contains(k) <==> (k < i && keep@[k as int]),
        decreases keep@.len() - i,
    {
        if keep[i] {
            let ghost before = res@;
            res.push(i);
            proof {
                assert forall|k: usize| res@.contains(k) <==> (k < i + 1 && keep@[k as int]) by {
                    if k == i {
                        assert(res@[before.len() as int] == k);
                    } else if res@.contains(k) {
                        let j = choose|j: int| 0 <= j < res@.len() && res@[j] == k;
                        assert(j < before.len());
                        assert(before[j] == k);
                    } else if k < i && keep@[k as int] {
                        let j = choose|j: int| 0 <= j < before.len() && before[j] == k;
                        assert(res@[j] == k);
                    }
                }
            }
        }
        i = i + 1;
    }
    res
}

/// The number of frames of a motion: the longest of its five series.
pub fn motion_frame_count(x: usize, y: usize, zoom: usize, rotation: usize, opacity: usize) -> (res: usize)
    ensures
        res >= x && res >= y && res >= zoom && res >= rotation && res >= opacity,
        res == x || res == y || res == zoom || res == rotation || res == opacity,
{
    let mut m = x;
    if y > m {
        m = y;
    }
    if zoom > m {
        m = zoom;
    }
    if rotation > m {
        m = rotation;
    }
    if opacity > m {
        m = opacity;
    }
    m
}

/// How a sampled series is written into a project item.
#[derive(Debug, Clone, Copy, PartialEq, Eq, Structural)]
pub enum PropertyShape {
    /// A single value, without animation.
    Static,
    /// One keyframe per sample.
    Keyframes,
}

/// The shape a series of `len` samples is written in; an empty series is not written.
pub fn property_shape(len: usize) -> (res: Option<PropertyShape>)
    ensures
        len == 0 ==> res is None,
        len == 1 ==> res == Some(PropertyShape::Static),
        len >= 2 ==> res == Some(PropertyShape::Keyframes),
{
    if len == 0 {
        None
    } else if len == 1 {
        Some(PropertyShape::Static)
    } else {
        Some(PropertyShape::Keyframes)
    }
}

/// The `AnimationType` a property is written with: none for a single static
/// value, automatic for keyframed values.
pub open spec fn animation_type_of(shape: PropertyShape) -> Seq<char> {
    match shape {
        PropertyShape::Static => "なし"@,
        PropertyShape::Keyframes => "自動"@,
    }
}

/// Chooses the `AnimationType` of a property written in `shape`.
pub fn animation_type_for(shape: PropertyShape) -> (res: &'static str)
    ensures
        res@ == animation_type_of(shape),
{
    match shape {
        PropertyShape::Static => "なし",
        PropertyShape::Keyframes => "自動",
    }
}

/// The item fields a motion is written into, in the order they are written:
/// position, zoom, rotation and opacity.
pub open spec fn motion_keys() -> Seq<Seq<char>> {
    seq!["X"@, "Y"@, "Zoom"@, "Rotation"@, "Opacity"@]
}

/// The item fields a motion is written into, in writing order.
pub fn motion_property_keys() -> (res: Vec<&'static str>)
    ensures
        res@.map_values(|k: &str| k@) == motion_keys(),
{
    let res = vec!["X", "Y", "Zoom", "Rotation", "Opacity"];
    assert(res@.map_values(|k: &str| k@) =~= motion_keys());
    res
}

/// Keyframe merging keeps both ends of the motion and every proposed frame,
/// proposing a frame twice or in another order changes nothing, and proposals
/// within the motion give keyframes within the motion.
pub proof fn law_keyframes_keep_ends_and_proposals(total_frames: usize, proposed: Seq<usize>, k: usize)
    requires
        total_frames > 2,
    ensures
        is_keyframe(total_frames, proposed, 0),
        is_keyframe(total_frames, proposed, (total_frames - 1) as usize),
        proposed.contains(k) ==> is_keyframe(total_frames, proposed, k),
        is_keyframe(total_frames, proposed + proposed, k) == is_keyframe(total_frames, proposed, k),
        is_keyframe(total_frames, proposed.reverse(), k) == is_keyframe(total_frames, proposed, k),
        (forall|i: int| 0 <= i < proposed.len() ==> #[trigger] proposed[i] < total_frames)
            ==> (is_keyframe(total_frames, proposed, k) ==> k < total_frames),
{
    let d = proposed + proposed;
    if d.contains(k) {
        let i = choose|i: int| 0 <= i < d.len() && d[i] == k;
        if i < proposed.len() {
            assert(proposed[i] == k);
        } else {
            assert(proposed[i - proposed.len()] == k);
        }
    }
    if proposed.contains(k) {
        let i = choose|i: int| 0 <= i < proposed.len() && proposed[i] == k;
        assert(d[i] == k);
        assert(proposed.reverse()[proposed.len() - 1 - i] == k);
    }
    let r = proposed.reverse();
    if r.contains(k) {
        let i = choose|i: int| 0 <= i < r.len() && r[i] == k;
        assert(proposed[proposed.len() - 1 - i] == k);
    }
}

} // verus!
