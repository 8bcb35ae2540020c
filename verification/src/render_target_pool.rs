//! The rules of the pool of render targets: how its memory is counted, in
//! what order its targets are looked at, and which of them a collection
//! drops.

use smallvec::SmallVec;
use vstd::prelude::*;
use crate::internal_types::{CacheTextureId, FrameId};
use crate::resource_cache::RenderTarget;
use crate::texture_cache::TextureCacheView;

verus! {

/// The GPU memory that the targets of a pool take together.
pub open spec fn pool_bytes(pool: Seq<RenderTarget>) -> int
    decreases pool.len(),
{
    if pool.len() == 0 {
        0
    } else {
        pool_bytes(pool.drop_last()) + pool.last().spec_size_in_bytes()
    }
}

/// Whether the memory of a pool can be counted: that of every target can,
/// and the sum is a `usize`.
pub open spec fn pool_measurable(pool: Seq<RenderTarget>) -> bool {
    &&& forall|i: int| 0 <= i < pool.len() ==> (#[trigger] pool[i]).measurable()
    &&& pool_bytes(pool) <= usize::MAX
}

/// A sorted sequence with one more target: the target goes behind every
/// target that was used no later than itself.
pub open spec fn inserted_by_age(sorted: Seq<RenderTarget>, target: RenderTarget) -> Seq<RenderTarget>
    decreases sorted.len(),
{
    if sorted.len() == 0 {
        seq![target]
    } else if sorted.last().last_frame_used.0 <= target.last_frame_used.0 {
        sorted.push(target)
    } else {
        inserted_by_age(sorted.drop_last(), target).push(sorted.last())
    }
}

/// The targets of a pool, the one that was used longest ago first. Targets
/// that were last used in the same frame keep their order.
pub open spec fn sorted_by_age(pool: Seq<RenderTarget>) -> Seq<RenderTarget>
    decreases pool.len(),
{
    if pool.len() == 0 {
        Seq::empty()
    } else {
        inserted_by_age(sorted_by_age(pool.drop_last()), pool.last())
    }
}

/// Whether a sequence of targets goes from the one used longest ago to the
/// one used last.
pub open spec fn ordered_by_age(pool: Seq<RenderTarget>) -> bool {
    forall|i: int, j: int| 0 <= i <= j < pool.len() ==> pool[i].last_frame_used.0 <= pool[j].last_frame_used.0
}

/// Inserting by age puts the target at one place of the sequence and moves
/// nothing else; a sequence that was ordered by age stays so.
pub proof fn lemma_inserted_by_age(sorted: Seq<RenderTarget>, target: RenderTarget) -> (at: int)
    ensures
        0 <= at <= sorted.len(),
        inserted_by_age(sorted, target) == sorted.insert(at, target),
        forall|i: int| at <= i < sorted.len() ==> sorted[i].last_frame_used.0 > target.last_frame_used.0,
        at > 0 ==> sorted[at - 1].last_frame_used.0 <= target.last_frame_used.0,
        ordered_by_age(sorted) ==> ordered_by_age(inserted_by_age(sorted, target)),
    decreases sorted.len(),
{
    if sorted.len() == 0 {
        assert(seq![target] =~= sorted.insert(0, target));
        0
    } else if sorted.last().last_frame_used.0 <= target.last_frame_used.0 {
        assert(sorted.push(target) =~= sorted.insert(sorted.len() as int, target));
        sorted.len() as int
    } else {
        let at = lemma_inserted_by_age(sorted.drop_last(), target);
        assert(sorted.drop_last().insert(at, target).push(sorted.last()) =~= sorted.insert(at, target));
        assert forall|i: int| at <= i < sorted.len() implies sorted[i].last_frame_used.0
            > target.last_frame_used.0 by {
            if i < sorted.len() - 1 {
                assert(sorted[i] == sorted.drop_last()[i]);
            }
        }
        if at > 0 {
            assert(sorted[at - 1] == sorted.drop_last()[at - 1]);
        }
        if ordered_by_age(sorted) {
            let r = sorted.insert(at, target);
            assert forall|i: int, j: int| 0 <= i <= j < r.len() implies r[i].last_frame_used.0
                <= r[j].last_frame_used.0 by {
                if i < at && j > at {
                    assert(r[i] == sorted[i] && r[j] == sorted[j - 1]);
                } else if i < at && j < at {
                    assert(r[i] == sorted[i] && r[j] == sorted[j]);
                } else if i > at {
                    assert(r[i] == sorted[i - 1] && r[j] == sorted[j - 1]);
                } else if i == at && j > at {
                    assert(r[j] == sorted[j - 1]);
                } else if j == at && i < at {
                    assert(r[i] == sorted[i]);
                    assert(sorted[i].last_frame_used.0 <= sorted[at - 1].last_frame_used.0);
                }
            }
        }
        at
    }
}

/// Sorting by age orders the targets by age, and neither adds a target nor
/// loses one: the sorted pool holds each target as often as the pool.
pub proof fn lemma_sorted_by_age(pool: Seq<RenderTarget>)
    ensures
        ordered_by_age(sorted_by_age(pool)),
        sorted_by_age(pool).len() == pool.len(),
        sorted_by_age(pool).to_multiset() == pool.to_multiset(),
    decreases pool.len(),
{
    broadcast use vstd::seq_lib::group_to_multiset_ensures;

    if pool.len() == 0 {
        assert(sorted_by_age(pool) =~= pool);
    } else {
        lemma_sorted_by_age(pool.drop_last());
        let before = sorted_by_age(pool.drop_last());
        let at = lemma_inserted_by_age(before, pool.last());
        assert(pool =~= pool.drop_last().push(pool.last()));
        assert(before.insert(at, pool.last()).to_multiset() =~= before.to_multiset().insert(pool.last()));
    }
}

/// Whether a collection keeps a target, given the memory that the pool
/// takes at that moment. A target goes if it was not used in this frame,
/// and either the pool is above the red line, or it is above the threshold
/// and the target has not been used for `frames_threshold` frames.
pub open spec fn collection_keeps(
    target: RenderTarget,
    bytes: int,
    current_frame_id: FrameId,
    total_bytes_threshold: usize,
    total_bytes_red_line_threshold: usize,
    frames_threshold: u64,
) -> bool {
    let above_red_line = bytes > total_bytes_red_line_threshold;
    let above_threshold = bytes > total_bytes_threshold;
    let used_recently = target.spec_used_recently(current_frame_id, frames_threshold);
    let used_this_frame = target.last_frame_used == current_frame_id;
    !(!used_this_frame && (above_red_line || (above_threshold && !used_recently)))
}

/// Where a collection stands: the targets that stay, the memory that the
/// pool still takes, and the texture cache.
pub struct Collection {
    pub retained: Seq<RenderTarget>,
    pub bytes: int,
    pub texture_cache: TextureCacheView,
}

impl Collection {
    /// The collection after the first `n` targets of `sorted` were looked
    /// at, in their order: each is kept, or dropped and its texture freed.
    pub open spec fn after(
        sorted: Seq<RenderTarget>,
        n: int,
        texture_cache: TextureCacheView,
        current_frame_id: FrameId,
        total_bytes_threshold: usize,
        total_bytes_red_line_threshold: usize,
        frames_threshold: u64,
    ) -> Collection
        decreases n,
    {
        if n <= 0 {
            Collection { retained: Seq::empty(), bytes: pool_bytes(sorted), texture_cache }
        } else {
            let before = Self::after(
                sorted,
                n - 1,
                texture_cache,
                current_frame_id,
                total_bytes_threshold,
                total_bytes_red_line_threshold,
                frames_threshold,
            );
            let target = sorted[n - 1];
            if collection_keeps(
                target,
                before.bytes,
                current_frame_id,
                total_bytes_threshold,
                total_bytes_red_line_threshold,
                frames_threshold,
            ) {
                Collection { retained: before.retained.push(target), ..before }
            } else {
                Collection {
                    bytes: before.bytes - target.spec_size_in_bytes(),
                    texture_cache: before.texture_cache.render_target_freed(target.texture_id),
                    ..before
                }
            }
        }
    }
}

/// No target of a pool is lent out.
pub open spec fn all_inactive(pool: Seq<RenderTarget>) -> bool {
    forall|i: int| 0 <= i < pool.len() ==> !(#[trigger] pool[i]).is_active
}

/// The targets of a pool are live render targets of the texture cache, and
/// every one stands for another texture.
pub open spec fn pool_backed(pool: Seq<RenderTarget>, texture_cache: TextureCacheView) -> bool {
    &&& forall|i: int| 0 <= i < pool.len() ==> texture_cache.is_render_target((#[trigger] pool[i]).texture_id)
    &&& forall|i: int, j: int|
        0 <= i < j < pool.len() ==> (#[trigger] pool[i]).texture_id != (#[trigger] pool[j]).texture_id
}

/// The textures of the targets of a pool.
pub open spec fn pool_textures(pool: Seq<RenderTarget>) -> Set<CacheTextureId> {
    Set::new(|id: CacheTextureId| exists|i: int| 0 <= i < pool.len() && (#[trigger] pool[i]).texture_id == id)
}

/// The first target of a pool that can be lent out for a size and format:
/// one of that size and format that is not lent out.
pub open spec fn first_available(pool: Seq<RenderTarget>, target: RenderTarget, n: int) -> Option<int>
    decreases n,
{
    if n <= 0 {
        None
    } else {
        match first_available(pool, target, n - 1) {
            Some(i) => Some(i),
            None => if pool[n - 1].size == target.size && pool[n - 1].format == target.format && !pool[n
                - 1].is_active {
                Some(n - 1)
            } else {
                None
            },
        }
    }
}

/// `first_available` finds the first target that can be lent out: if the
/// first `n` targets hold none, the search over more targets finds the
/// first one behind them that fits, and none if none fits.
pub proof fn lemma_first_available(pool: Seq<RenderTarget>, wanted: RenderTarget, n: int)
    requires
        0 <= n <= pool.len(),
        first_available(pool, wanted, n).is_none(),
    ensures
        n < pool.len() && pool[n].size == wanted.size && pool[n].format == wanted.format && !pool[n].is_active
            ==> first_available(pool, wanted, pool.len() as int) == Some(n),
        n == pool.len() ==> first_available(pool, wanted, pool.len() as int).is_none(),
    decreases pool.len() - n,
{
    if n < pool.len() && pool[n].size == wanted.size && pool[n].format == wanted.format && !pool[n].is_active {
        lemma_first_available_stays(pool, wanted, n + 1, pool.len() as int);
    }
}

/// Once `first_available` has found a target, a longer search finds the same.
pub proof fn lemma_first_available_stays(pool: Seq<RenderTarget>, wanted: RenderTarget, n: int, m: int)
    requires
        0 <= n <= m <= pool.len(),
        first_available(pool, wanted, n).is_some(),
    ensures
        first_available(pool, wanted, m) == first_available(pool, wanted, n),
    decreases m - n,
{
    if n < m {
        lemma_first_available_stays(pool, wanted, n, m - 1);
    }
}

/// The position in a pool of the target that stands for a texture.
pub open spec fn position_of(pool: Seq<RenderTarget>, id: CacheTextureId) -> int {
    choose|i: int| 0 <= i < pool.len() && (#[trigger] pool[i]).texture_id == id
}

/// The memory of a pool whose memory can be counted is the sum of the
/// memory of any first part of it and that of the rest, and neither is
/// negative.
pub proof fn lemma_pool_bytes_split(pool: Seq<RenderTarget>, k: int)
    requires
        forall|i: int| 0 <= i < pool.len() ==> (#[trigger] pool[i]).measurable(),
        0 <= k <= pool.len(),
    ensures
        pool_bytes(pool) == pool_bytes(pool.take(k)) + pool_bytes(pool.skip(k)),
        0 <= pool_bytes(pool.take(k)),
        0 <= pool_bytes(pool.skip(k)),
    decreases pool.len(),
{
    if pool.len() == 0 {
        assert(pool.take(k) =~= pool);
        assert(pool.skip(k) =~= pool);
    } else if k == pool.len() {
        assert(pool.take(k) =~= pool);
        assert(pool.skip(k) =~= Seq::empty());
        lemma_pool_bytes_split(pool.drop_last(), k - 1);
        assert(pool.drop_last().take(k - 1) =~= pool.drop_last());
        lemma_size_not_negative(pool.last());
    } else {
        lemma_pool_bytes_split(pool.drop_last(), k);
        assert(pool.drop_last().take(k) =~= pool.take(k));
        assert(pool.skip(k).drop_last() =~= pool.drop_last().skip(k));
        assert(pool.skip(k).last() == pool.last());
        lemma_size_not_negative(pool.last());
    }
}

/// A target whose memory can be counted takes no negative amount of it.
pub proof fn lemma_size_not_negative(target: RenderTarget)
    requires
        target.measurable(),
    ensures
        0 <= target.spec_size_in_bytes(),
{
    assert(0 <= target.size.width * target.size.height * target.format.spec_bytes_per_pixel())
        by (nonlinear_arith)
        requires
            0 <= target.size.width * target.size.height,
            0 <= target.format.spec_bytes_per_pixel(),
    ;
}

/// What holds of every target of a pool, holds of every target of the
/// sorted pool, and the sorted pool takes the same memory.
pub proof fn lemma_sorted_pool(pool: Seq<RenderTarget>, texture_cache: TextureCacheView)
    ensures
        forall|t: RenderTarget| sorted_by_age(pool).contains(t) <==> pool.contains(t),
        pool_backed(pool, texture_cache) ==> pool_backed(sorted_by_age(pool), texture_cache),
        all_inactive(pool) ==> all_inactive(sorted_by_age(pool)),
        pool_bytes(sorted_by_age(pool)) == pool_bytes(pool),
        pool_measurable(pool) ==> pool_measurable(sorted_by_age(pool)),
        pool_textures(sorted_by_age(pool)) == pool_textures(pool),
    decreases pool.len(),
{
    let sorted = sorted_by_age(pool);
    if pool.len() == 0 {
        assert(sorted =~= pool);
    } else {
        let rest = pool.drop_last();
        let last = pool.last();
        lemma_sorted_pool(rest, texture_cache);
        let before = sorted_by_age(rest);
        let at = lemma_inserted_by_age(before, last);
        assert(sorted == before.insert(at, last));
        assert forall|t: RenderTarget| sorted.contains(t) <==> pool.contains(t) by {
            lemma_insert_contains(before, at, last, t);
            lemma_insert_contains(rest, rest.len() as int, last, t);
            assert(rest.insert(rest.len() as int, last) =~= pool);
            assert(before.contains(t) <==> rest.contains(t));
        }
        // memory
        lemma_pool_bytes_insert(before, at, last);
        if all_inactive(pool) {
            assert(all_inactive(rest));
            assert forall|i: int| 0 <= i < sorted.len() implies !(#[trigger] sorted[i]).is_active by {
                assert(sorted.contains(sorted[i]));
                let j = choose|j: int| 0 <= j < pool.len() && pool[j] == sorted[i];
                assert(!pool[j].is_active);
            }
        }
        if pool_measurable(pool) {
            assert forall|i: int| 0 <= i < sorted.len() implies (#[trigger] sorted[i]).measurable() by {
                assert(sorted.contains(sorted[i]));
                let j = choose|j: int| 0 <= j < pool.len() && pool[j] == sorted[i];
                assert(pool[j].measurable());
            }
        }
        if pool_backed(pool, texture_cache) {
            assert(pool_backed(rest, texture_cache)) by {
                assert forall|i: int| 0 <= i < rest.len() implies texture_cache.is_render_target(
                    (#[trigger] rest[i]).texture_id,
                ) by {
                    assert(rest[i] == pool[i]);
                }
                assert forall|i: int, j: int| 0 <= i < j < rest.len() implies (#[trigger] rest[i]).texture_id != (
                #[trigger] rest[j]).texture_id by {
                    assert(rest[i] == pool[i] && rest[j] == pool[j]);
                }
            }
            assert forall|i: int| 0 <= i < before.len() implies (#[trigger] before[i]).texture_id
                != last.texture_id by {
                assert(before.contains(before[i]));
                assert(rest.contains(before[i]));
                let j = choose|j: int| 0 <= j < rest.len() && rest[j] == before[i];
                assert(pool[j] == rest[j]);
                assert(pool[j].texture_id != pool[pool.len() - 1].texture_id);
            }
            assert forall|i: int| 0 <= i < sorted.len() implies texture_cache.is_render_target(
                (#[trigger] sorted[i]).texture_id,
            ) by {
                assert(sorted.contains(sorted[i]));
                let j = choose|j: int| 0 <= j < pool.len() && pool[j] == sorted[i];
                assert(texture_cache.is_render_target(pool[j].texture_id));
            }
            assert forall|i: int, j: int| 0 <= i < j < sorted.len() implies (#[trigger] sorted[i]).texture_id != (
            #[trigger] sorted[j]).texture_id by {
                let bi = if i < at { i } else { i - 1 };
                let bj = if j < at { j } else { j - 1 };
                if i == at {
                    assert(sorted[j] == before[bj]);
                } else if j == at {
                    assert(sorted[i] == before[bi]);
                } else {
                    assert(sorted[i] == before[bi] && sorted[j] == before[bj]);
                }
            }
        }
        assert(pool_textures(sorted) =~= pool_textures(pool)) by {
            assert forall|id: CacheTextureId| pool_textures(sorted).contains(id) <==> pool_textures(
                pool,
            ).contains(id) by {
                if pool_textures(sorted).contains(id) {
                    let i = choose|i: int| 0 <= i < sorted.len() && (#[trigger] sorted[i]).texture_id == id;
                    assert(sorted.contains(sorted[i]));
                    let j = choose|j: int| 0 <= j < pool.len() && pool[j] == sorted[i];
                    assert(pool[j].texture_id == id);
                }
                if pool_textures(pool).contains(id) {
                    let j = choose|j: int| 0 <= j < pool.len() && (#[trigger] pool[j]).texture_id == id;
                    assert(pool.contains(pool[j]));
                    let i = choose|i: int| 0 <= i < sorted.len() && sorted[i] == pool[j];
                    assert(sorted[i].texture_id == id);
                }
            }
        }
    }
}

/// A sequence with one more item somewhere holds that item and what it held.
pub proof fn lemma_insert_contains(s: Seq<RenderTarget>, at: int, x: RenderTarget, t: RenderTarget)
    requires
        0 <= at <= s.len(),
    ensures
        s.insert(at, x).contains(t) <==> (t == x || s.contains(t)),
{
    let r = s.insert(at, x);
    if r.contains(t) {
        let i = choose|i: int| 0 <= i < r.len() && r[i] == t;
        if i < at {
            assert(s[i] == t);
        } else if i > at {
            assert(s[i - 1] == t);
        }
    }
    if t == x {
        assert(r[at] == t);
    }
    if s.contains(t) {
        let j = choose|j: int| 0 <= j < s.len() && s[j] == t;
        if j < at {
            assert(r[j] == t);
        } else {
            assert(r[j + 1] == t);
        }
    }
}

/// A pool with one more target somewhere takes the memory of both.
pub proof fn lemma_pool_bytes_insert(pool: Seq<RenderTarget>, at: int, target: RenderTarget)
    requires
        0 <= at <= pool.len(),
    ensures
        pool_bytes(pool.insert(at, target)) == pool_bytes(pool) + target.spec_size_in_bytes(),
    decreases pool.len() - at,
{
    let r = pool.insert(at, target);
    if at == pool.len() {
        assert(r.drop_last() =~= pool);
    } else {
        assert(r.drop_last() =~= pool.drop_last().insert(at, target));
        assert(r.last() == pool.last());
        lemma_pool_bytes_insert(pool.drop_last(), at, target);
    }
}

/// Puts the targets of a pool in the order of their last use, the one used
/// longest ago first. Targets that were last used in the same frame keep
/// their order.
pub fn sort_by_age(pool: &mut Vec<RenderTarget>)
    ensures
        final(pool)@ == sorted_by_age(old(pool)@),
{
    let mut sorted: Vec<RenderTarget> = Vec::new();
    let mut i: usize = 0;
    proof {
        assert(pool@.take(0) =~= Seq::empty());
    }
    while i < pool.len()
        invariant
            i <= pool@.len(),
            pool@ == old(pool)@,
            sorted@ == sorted_by_age(pool@.take(i as int)),
        decreases pool@.len() - i,
    {
        let target = pool[i];
        let mut at: usize = sorted.len();
        while at > 0 && sorted[at - 1].last_frame_used.0 > target.last_frame_used.0
            invariant
                at <= sorted@.len(),
                forall|k: int| at <= k < sorted@.len() ==> sorted@[k].last_frame_used.0 > target.last_frame_used.0,
            decreases at,
        {
            at = at - 1;
        }
        proof {
            let expected = lemma_inserted_by_age(sorted@, target);
            if expected < at {
                assert(sorted@[at - 1].last_frame_used.0 > target.last_frame_used.0);
            }
            assert(expected == at);
            assert(pool@.take(i + 1).drop_last() =~= pool@.take(i as int));
            assert(pool@.take(i + 1).last() == target);
        }
        sorted.insert(at, target);
        i = i + 1;
    }
    proof {
        assert(pool@.take(i as int) =~= pool@);
    }
    *pool = sorted;
}

/// The targets that a collection keeps, in a `smallvec::SmallVec`: a
/// vector that needs no allocation while it holds eight targets or fewer.
#[verifier::external_body]
pub struct KeptTargets {
    targets: SmallVec<[RenderTarget; 8]>,
}

/// What the `SmallVec` of kept targets holds, oldest item first.
pub uninterp spec fn kept_targets(kept: KeptTargets) -> Seq<RenderTarget>;

impl KeptTargets {
    /// `SmallVec::new`: a vector that holds nothing.
    #[verifier::external_body]
    pub(crate) fn new() -> (kept: KeptTargets)
        ensures
            kept_targets(kept) == Seq::<RenderTarget>::empty(),
    {
        KeptTargets { targets: SmallVec::new() }
    }

    /// `SmallVec::push`: appends one item behind the others.
    #[verifier::external_body]
    pub(crate) fn push(&mut self, target: RenderTarget)
        ensures
            kept_targets(*final(self)) == kept_targets(*old(self)).push(target),
    {
        self.targets.push(target)
    }

    /// `Vec::extend` with a `SmallVec`, which hands its items out from the
    /// first to the last: they are appended to the pool in that order.
    #[verifier::external_body]
    pub(crate) fn extend_into(self, pool: &mut Vec<RenderTarget>)
        ensures
            final(pool)@ == old(pool)@ + kept_targets(self),
    {
        pool.extend(self.targets)
    }
}

} // verus!
