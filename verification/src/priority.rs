//! The HTTP/2 outbound priority engine: pending frames are keyed by the
//! weight their stream had when they were queued, and drain highest weight
//! first, insertion order within a weight. The ordered set itself is the
//! `rbtree` crate's red-black tree, keyed by `(255 - weight, insertion
//! sequence)` so that the tree's minimum is the next frame to send.

use vstd::prelude::*;
use vstd::seq_lib::group_to_multiset_ensures;
use vstd::multiset::Multiset;
use std::collections::HashMap;
use crate::frame::Frame;
use crate::error::ProtError;

verus! {

broadcast use vstd::std_specs::hash::group_hash_axioms, group_to_multiset_ensures;

/// A queued frame: the inverted weight it was keyed with, its insertion
/// sequence number, and the frame itself.
pub struct QueuedFrame {
    pub inv_weight: u8,
    pub seq: u64,
    pub frame: Frame,
}

/// The ordering key of a queued frame: ascending key order is descending
/// weight, and insertion order within one weight.
pub open spec fn entry_key(e: QueuedFrame) -> (u8, u64) {
    (e.inv_weight, e.seq)
}

/// Lexicographic order on keys, as std defines it for tuples.
pub open spec fn key_le(a: (u8, u64), b: (u8, u64)) -> bool {
    a.0 < b.0 || (a.0 == b.0 && a.1 <= b.1)
}

/// The keys a run of entries carries.
pub open spec fn entry_keys(es: Seq<QueuedFrame>) -> Multiset<(u8, u64)> {
    es.map_values(|e: QueuedFrame| entry_key(e)).to_multiset()
}

#[verifier::external_type_specification]
#[verifier::external_body]
#[verifier::reject_recursive_types(K)]
#[verifier::reject_recursive_types(V)]
pub struct ExRBTree<K: Ord, V>(rbtree::RBTree<K, V>);

/// What the red-black tree holds: the multiset of its keys.
pub uninterp spec fn rbtree_key_multiset(t: rbtree::RBTree<(u8, u64), ()>) -> Multiset<
    (u8, u64),
>;

/// Relies on rbtree::RBTree::new: an empty tree.
#[verifier::external_body]
fn rbtree_new() -> (t: rbtree::RBTree<(u8, u64), ()>)
    ensures
        rbtree_key_multiset(t) == Multiset::<(u8, u64)>::empty(),
{
    rbtree::RBTree::new()
}

/// Relies on rbtree::RBTree::insert: adds one key to the tree (duplicates
/// are kept).
#[verifier::external_body]
fn rbtree_insert(t: &mut rbtree::RBTree<(u8, u64), ()>, k: (u8, u64))
    ensures
        rbtree_key_multiset(*final(t)) == rbtree_key_multiset(*old(t)).insert(k),
{
    t.insert(k, ())
}

/// Relies on rbtree::RBTree::pop_first: removes and returns a key no larger
/// than any other, in the lexicographic tuple order std defines; on an
/// empty tree it returns nothing and changes nothing.
#[verifier::external_body]
fn rbtree_pop_first(t: &mut rbtree::RBTree<(u8, u64), ()>) -> (r: Option<(u8, u64)>)
    ensures
        r is None ==> rbtree_key_multiset(*old(t)) == Multiset::<(u8, u64)>::empty()
            && rbtree_key_multiset(*final(t)) == rbtree_key_multiset(*old(t)),
        r matches Some(k) ==> {
            &&& rbtree_key_multiset(*old(t)).count(k) > 0
            &&& rbtree_key_multiset(*final(t)) == rbtree_key_multiset(*old(t)).remove(k)
            &&& forall|k2: (u8, u64)|
                rbtree_key_multiset(*old(t)).count(k2) > 0 ==> key_le(k, k2)
        },
{
    match t.pop_first() {
        Some((k, _)) => Some(k),
        None => None,
    }
}

/// The weight a stream currently has: what the weight table says, or 0.
pub open spec fn weight_of(w: Map<u32, u8>, id: u32) -> u8 {
    if w.contains_key(id) {
        w[id]
    } else {
        0
    }
}

/// `min(w + 1, 255)`: the floor a parent's weight is raised to.
pub open spec fn bump_weight(w: u8) -> u8 {
    if w == 255 {
        255
    } else {
        (w + 1) as u8
    }
}

/// The weight table after a PRIORITY frame `(id depends on dep, weight w)`:
/// the stream's weight is set, and a non-zero parent's weight is raised to
/// at least `min(w + 1, 255)`, never lowered.
pub open spec fn priority_weights(wm: Map<u32, u8>, id: u32, dep: u32, w: u8) -> Map<u32, u8> {
    let w1 = wm.insert(id, w);
    if dep != 0 {
        let target = bump_weight(w);
        let raised = if w1.contains_key(dep) && w1[dep] > target {
            w1[dep]
        } else {
            target
        };
        w1.insert(dep, raised)
    } else {
        w1
    }
}

/// The weighted ordered set of pending outbound frames.
pub struct PriorityQueue {
    send_queue: rbtree::RBTree<(u8, u64), ()>,
    entries: Vec<QueuedFrame>,
    next_seq: u64,
    hash_weight: HashMap<u32, u8>,
    hash_depend: HashMap<u32, u32>,
}

impl PriorityQueue {
    /// The pending frames, oldest first.
    pub closed spec fn pending(&self) -> Seq<QueuedFrame> {
        self.entries@
    }

    /// The per-stream weight table.
    pub closed spec fn weights(&self) -> Map<u32, u8> {
        self.hash_weight@
    }

    /// The per-stream dependency table.
    pub closed spec fn depends(&self) -> Map<u32, u32> {
        self.hash_depend@
    }

    pub closed spec fn next_seq_spec(&self) -> nat {
        self.next_seq as nat
    }

    pub closed spec fn wf(&self) -> bool {
        &&& rbtree_key_multiset(self.send_queue) == entry_keys(self.entries@)
        &&& forall|i: int, j: int|
            0 <= i < j < self.entries@.len() ==> self.entries@[i].seq < self.entries@[j].seq
        &&& forall|i: int|
            0 <= i < self.entries@.len() ==> #[trigger] self.entries@[i].seq
                < self.next_seq
    }

    /// An empty queue; the synthetic root stream 0 has weight 255.
    pub fn new() -> (r: PriorityQueue)
        ensures
            r.wf(),
            r.pending() == Seq::<QueuedFrame>::empty(),
            r.next_seq_spec() == 0,
            r.weights() == Map::<u32, u8>::empty().insert(0u32, 255u8),
            r.depends() == Map::<u32, u32>::empty(),
    {
        let mut hash_weight: HashMap<u32, u8> = HashMap::new();
        hash_weight.insert(0, 255);
        let r = PriorityQueue {
            send_queue: rbtree_new(),
            entries: Vec::new(),
            next_seq: 0,
            hash_weight,
            hash_depend: HashMap::new(),
        };
        proof {
            assert(entry_keys(r.entries@) =~= Multiset::<(u8, u64)>::empty());
        }
        r
    }

    /// The weight a stream currently has; unknown streams weigh 0.
    pub fn weight(&self, stream_id: u32) -> (w: u8)
        ensures
            w == weight_of(self.weights(), stream_id),
    {
        match self.hash_weight.get(&stream_id) {
            Some(w) => *w,
            None => 0,
        }
    }

    /// Take a PRIORITY frame's word for a stream's weight and parent. The
    /// parent's weight is raised to at least `min(w + 1, 255)` so ancestors
    /// are not starved by their descendants; it is never lowered.
    pub fn priority_recv(&mut self, stream_id: u32, depend_id: u32, weight: u8)
        requires
            old(self).wf(),
        ensures
            final(self).wf(),
            final(self).weights() == priority_weights(old(self).weights(), stream_id,
                depend_id, weight),
            final(self).depends() == (if depend_id != 0 {
                old(self).depends().insert(stream_id, depend_id)
            } else {
                old(self).depends()
            }),
            final(self).pending() == old(self).pending(),
            final(self).next_seq_spec() == old(self).next_seq_spec(),
    {
        self.hash_weight.insert(stream_id, weight);
        if depend_id != 0 {
            self.hash_depend.insert(stream_id, depend_id);
            let target: u8 = if weight == 255 {
                255
            } else {
                weight + 1
            };
            let raised: u8 = match self.hash_weight.get(&depend_id) {
                Some(w) => if *w > target {
                    *w
                } else {
                    target
                },
                None => target,
            };
            self.hash_weight.insert(depend_id, raised);
        }
    }

    /// Queue frames for a stream, keyed by the weight the stream has right
    /// now; a later PRIORITY update does not reorder what is already queued.
    pub fn send_frames(&mut self, stream_id: u32, frames: Vec<Frame>) -> (r: Result<
        (),
        ProtError,
    >)
        requires
            old(self).wf(),
            old(self).next_seq_spec() + frames@.len() <= u64::MAX,
        ensures
            final(self).wf(),
            r is Ok,
            final(self).weights() == old(self).weights(),
            final(self).depends() == old(self).depends(),
            final(self).next_seq_spec() == old(self).next_seq_spec() + frames@.len(),
            final(self).pending().len() == old(self).pending().len() + frames@.len(),
            forall|i: int|
                0 <= i < old(self).pending().len() ==> final(self).pending()[i] == old(
                    self,
                ).pending()[i],
            forall|i: int|
                0 <= i < frames@.len() ==> {
                    let e = #[trigger] final(self).pending()[old(self).pending().len() + i];
                    &&& e.frame == frames@[i]
                    &&& e.inv_weight == 255 - weight_of(old(self).weights(), stream_id)
                    &&& e.seq == old(self).next_seq_spec() + i
                },
    {
        let w = self.weight(stream_id);
        let inv_weight: u8 = 255 - w;
        let ghost pending0 = self.entries@;
        let ghost seq0 = self.next_seq as nat;
        let mut frames = frames;
        let ghost frames0 = frames@;
        let mut idx: usize = 0;
        let n = frames.len();
        while idx < n
            invariant
                self.wf(),
                n == frames0.len(),
                idx <= n,
                frames@ == frames0.skip(idx as int),
                seq0 + n <= u64::MAX,
                self.next_seq as nat == seq0 + idx,
                self.hash_weight@ == old(self).hash_weight@,
                self.hash_depend@ == old(self).hash_depend@,
                self.entries@.len() == pending0.len() + idx,
                forall|i: int| 0 <= i < pending0.len() ==> self.entries@[i] == pending0[i],
                forall|i: int|
                    0 <= i < idx ==> {
                        let e = #[trigger] self.entries@[pending0.len() + i];
                        &&& e.frame == frames0[i]
                        &&& e.inv_weight == inv_weight
                        &&& e.seq == seq0 + i
                    },
            decreases n - idx,
        {
            let ghost entries_prev = self.entries@;
            let f = frames.remove(0);
            proof {
                assert(frames@ =~= frames0.skip(idx + 1));
                assert(f == frames0[idx as int]);
            }
            let seq = self.next_seq;
            rbtree_insert(&mut self.send_queue, (inv_weight, seq));
            let e = QueuedFrame { inv_weight, seq, frame: f };
            self.entries.push(e);
            self.next_seq = self.next_seq + 1;
            proof {
                assert(self.entries@ == entries_prev.push(e));
                assert(self.entries@.map_values(|x: QueuedFrame| entry_key(x))
                    =~= entries_prev.map_values(|x: QueuedFrame| entry_key(x)).push(
                    (inv_weight, seq),
                ));
                assert(entry_keys(self.entries@) =~= entry_keys(entries_prev).insert(
                    (inv_weight, seq),
                ));
            }
            idx = idx + 1;
        }
        Ok(())
    }

    /// Remove and return the queued frame that drains next: among everything
    /// pending, one whose weight is highest, and of those the one queued
    /// first. Nothing else moves.
    pub fn pop_frame(&mut self) -> (r: Option<QueuedFrame>)
        requires
            old(self).wf(),
        ensures
            final(self).wf(),
            final(self).weights() == old(self).weights(),
            final(self).depends() == old(self).depends(),
            final(self).next_seq_spec() == old(self).next_seq_spec(),
            old(self).pending().len() == 0 ==> r is None && final(self).pending() == old(
                self,
            ).pending(),
            old(self).pending().len() > 0 ==> r is Some,
            r matches Some(e) ==> exists|idx: int|
                {
                    &&& 0 <= idx < old(self).pending().len()
                    &&& e == old(self).pending()[idx]
                    &&& final(self).pending() == old(self).pending().remove(idx)
                    &&& forall|j: int|
                        0 <= j < old(self).pending().len() ==> key_le(
                            entry_key(e),
                            entry_key(#[trigger] old(self).pending()[j]),
                        )
                },
    {
        match rbtree_pop_first(&mut self.send_queue) {
            None => {
                proof {
                    if self.entries@.len() > 0 {
                        let m = self.entries@.map_values(|x: QueuedFrame| entry_key(x));
                        assert(m[0] == entry_key(self.entries@[0]));
                        assert(m.contains(m[0]));
                        assert(entry_keys(self.entries@).count(m[0]) > 0);
                    }
                }
                None
            },
            Some(k) => {
                proof {
                    let m = self.entries@.map_values(|x: QueuedFrame| entry_key(x));
                    assert(m.to_multiset().count(k) > 0);
                    assert(m.contains(k));
                }
                let ghost widx = choose|i: int|
                    0 <= i < self.entries@.len() && entry_key(self.entries@[i]) == k;
                let n = self.entries.len();
                let mut i: usize = 0;
                while !(self.entries[i].inv_weight == k.0 && self.entries[i].seq == k.1)
                    invariant
                        n == self.entries@.len(),
                        0 <= widx < n,
                        entry_key(self.entries@[widx]) == k,
                        i <= widx,
                        forall|t: int|
                            0 <= t < i ==> entry_key(#[trigger] self.entries@[t]) != k,
                    decreases widx - i,
                {
                    i = i + 1;
                }
                proof {
                    assert(entry_key(self.entries@[i as int]) == k);
                }
                let ghost entries_prev = self.entries@;
                let e = self.entries.remove(i);
                proof {
                    assert(e == entries_prev[i as int]);
                    assert(self.entries@ == entries_prev.remove(i as int));
                    let m = entries_prev.map_values(|x: QueuedFrame| entry_key(x));
                    assert(self.entries@.map_values(|x: QueuedFrame| entry_key(x)) =~= m.remove(
                        i as int,
                    ));
                    assert(m.remove(i as int).to_multiset() =~= m.to_multiset().remove(
                        m[i as int],
                    ));
                    assert(entry_keys(self.entries@) =~= entry_keys(entries_prev).remove(k));
                    assert forall|j: int| 0 <= j < entries_prev.len() implies key_le(
                        entry_key(e),
                        entry_key(#[trigger] entries_prev[j]),
                    ) by {
                        assert(m[j] == entry_key(entries_prev[j]));
                        assert(m.contains(m[j]));
                        assert(entry_keys(entries_prev).count(m[j]) > 0);
                    }
                    assert(entries_prev == old(self).pending());
                    assert({
                        let idx = i as int;
                        &&& 0 <= idx < old(self).pending().len()
                        &&& e == old(self).pending()[idx]
                        &&& self.entries@ == old(self).pending().remove(idx)
                        &&& forall|j: int|
                            0 <= j < old(self).pending().len() ==> key_le(
                                entry_key(e),
                                entry_key(#[trigger] old(self).pending()[j]),
                            )
                    });
                }
                Some(e)
            },
        }
    }

    /// Drain up to `max` frames in priority order: what comes out is sorted
    /// by descending weight, insertion order within one weight, everything
    /// drained outranks everything left behind, and nothing is lost: the
    /// drained entries and the remaining ones together are exactly what was
    /// pending.
    pub fn poll_handle(&mut self, max: usize) -> (r: Vec<QueuedFrame>)
        requires
            old(self).wf(),
        ensures
            final(self).wf(),
            final(self).weights() == old(self).weights(),
            final(self).depends() == old(self).depends(),
            final(self).next_seq_spec() == old(self).next_seq_spec(),
            r@.len() == min_usize(max as nat, old(self).pending().len()),
            forall|i: int, j: int|
                0 <= i < j < r@.len() ==> key_le(
                    entry_key(#[trigger] r@[i]),
                    entry_key(#[trigger] r@[j]),
                ),
            forall|i: int, j: int|
                0 <= i < r@.len() && 0 <= j < final(self).pending().len() ==> key_le(
                    entry_key(#[trigger] r@[i]),
                    entry_key(#[trigger] final(self).pending()[j]),
                ),
            old(self).pending().to_multiset() == r@.to_multiset().add(
                final(self).pending().to_multiset(),
            ),
    {
        let mut out: Vec<QueuedFrame> = Vec::new();
        let mut k: usize = 0;
        while k < max && self.entries.len() > 0
            invariant
                self.wf(),
                k <= max,
                out@.len() == k,
                self.next_seq as nat == old(self).next_seq_spec(),
                out@.len() + self.entries@.len() == old(self).pending().len(),
                self.hash_weight@ == old(self).hash_weight@,
                self.hash_depend@ == old(self).hash_depend@,
                forall|i: int, j: int|
                    0 <= i < j < out@.len() ==> key_le(
                        entry_key(#[trigger] out@[i]),
                        entry_key(#[trigger] out@[j]),
                    ),
                forall|i: int, j: int|
                    0 <= i < out@.len() && 0 <= j < self.entries@.len() ==> key_le(
                        entry_key(#[trigger] out@[i]),
                        entry_key(#[trigger] self.entries@[j]),
                    ),
                old(self).pending().to_multiset() == out@.to_multiset().add(
                    self.entries@.to_multiset(),
                ),
            decreases max - k,
        {
            let ghost entries_prev = self.entries@;
            let ghost out_prev = out@;
            let e = match self.pop_frame() {
                Some(e) => e,
                None => vstd::pervasive::unreached(),
            };
            out.push(e);
            k = k + 1;
            proof {
                let idx = choose|idx: int|
                    {
                        &&& 0 <= idx < entries_prev.len()
                        &&& e == entries_prev[idx]
                        &&& self.entries@ == entries_prev.remove(idx)
                        &&& forall|j: int|
                            0 <= j < entries_prev.len() ==> key_le(
                                entry_key(e),
                                entry_key(#[trigger] entries_prev[j]),
                            )
                    };
                assert(entries_prev.remove(idx).to_multiset() =~= entries_prev.to_multiset()
                    .remove(entries_prev[idx]));
                assert(out@ == out_prev.push(e));
                assert(out_prev.push(e).to_multiset() =~= out_prev.to_multiset().insert(e));
                assert(out@.to_multiset().add(self.entries@.to_multiset())
                    =~= out_prev.to_multiset().add(entries_prev.to_multiset()));
                assert forall|j: int| 0 <= j < self.entries@.len() implies key_le(
                    entry_key(e),
                    entry_key(#[trigger] self.entries@[j]),
                ) by {
                    if j < idx {
                        assert(self.entries@[j] == entries_prev[j]);
                    } else {
                        assert(self.entries@[j] == entries_prev[j + 1]);
                    }
                }
                assert forall|a: int, b: int| 0 <= a < b < out@.len() implies key_le(
                    entry_key(#[trigger] out@[a]),
                    entry_key(#[trigger] out@[b]),
                ) by {
                    if b == out@.len() - 1 {
                        assert(out@[a] == out_prev[a]);
                        assert(out@[b] == e);
                        assert(key_le(entry_key(out_prev[a]), entry_key(entries_prev[idx])));
                    } else {
                        assert(out@[a] == out_prev[a]);
                        assert(out@[b] == out_prev[b]);
                    }
                }
            }
        }
        out
    }
}

/// Ascending key order is exactly "higher weight first, and first-queued
/// first among equal weights": with `poll_handle`'s sortedness this says its
/// drain order is a stable sort of the pending frames by descending weight.
pub proof fn lemma_key_order_is_stable_weight_order(a: QueuedFrame, b: QueuedFrame)
    ensures
        key_le(entry_key(a), entry_key(b)) <==> {
            let wa: int = 255 - a.inv_weight;
            let wb: int = 255 - b.inv_weight;
            wa > wb || (wa == wb && a.seq <= b.seq)
        },
{
}

/// The smaller of two lengths.
pub open spec fn min_usize(a: nat, b: nat) -> nat {
    if a <= b {
        a
    } else {
        b
    }
}

} // verus!
