//! Which chunks are wanted, which are being built and which are done.
//!
//! A chunk address is unseen until a query finds it in range. Once in range
//! it is handed out to be built, exactly once, and from then on it is
//! generating until its build is reported finished, after which it is
//! generated for good. Nothing ever leaves the generated list, and leaving
//! the range takes nothing back.

use vstd::prelude::*;
use crate::radius::{chunks_within, tricoord_vec_gen_distance};
use crate::tricoord::{Coord, TriCoord, WORLD_UNIT};

verus! {

/// What steers the streaming of chunks.
#[derive(Copy, Clone, Debug, PartialEq, Eq, Structural)]
pub struct TerrainConfig {
    /// How far from the player chunks are wanted, in fixed-point world
    /// lengths.
    pub chunk_gen_radius: i64,
    /// Whether new chunks are handed out to be built.
    pub active: bool,
}

impl Default for TerrainConfig {
    /// Twenty world units of range, streaming switched on.
    fn default() -> (config: Self)
        ensures
            config.chunk_gen_radius == 20 * WORLD_UNIT,
            config.active,
    {
        TerrainConfig { chunk_gen_radius: 20_000_000_000, active: true }
    }
}

/// Whether new chunks are to be handed out.
pub fn run_if_terrain_active(terrain_config: &TerrainConfig) -> (active: bool)
    ensures
        active == terrain_config.active,
{
    terrain_config.active
}

/// The three lists of a registry, as plain sequences.
pub struct ChunksView {
    pub in_range: Seq<TriCoord<i16>>,
    pub generating: Seq<TriCoord<i16>>,
    pub generated: Seq<TriCoord<i16>>,
}

/// No address is listed twice as generating or twice as generated, and none
/// is both.
pub open spec fn registry_invariant(v: ChunksView) -> bool {
    &&& v.generating.no_duplicates()
    &&& v.generated.no_duplicates()
    &&& forall|t: TriCoord<i16>| !(v.generating.contains(t) && v.generated.contains(t))
}

/// The address is generating or generated, and not both.
pub open spec fn is_tracked(v: ChunksView, t: TriCoord<i16>) -> bool {
    v.generating.contains(t) != v.generated.contains(t)
}

/// The list without every entry equal to `t`, the others in their order.
pub open spec fn without(s: Seq<TriCoord<i16>>, t: TriCoord<i16>) -> Seq<TriCoord<i16>> {
    s.filter(|x: TriCoord<i16>| x != t)
}

/// The addresses handed out while the first `n` entries of the range are
/// gone through: each entry that is neither generating nor generated nor
/// handed out already, in the order of the range.
pub open spec fn dispatched_among(v: ChunksView, n: int) -> Seq<TriCoord<i16>>
    decreases n,
{
    if n <= 0 {
        Seq::empty()
    } else {
        let earlier = dispatched_among(v, n - 1);
        let t = v.in_range[n - 1];
        if v.generating.contains(t) || earlier.contains(t) || v.generated.contains(t) {
            earlier
        } else {
            earlier.push(t)
        }
    }
}

/// The addresses handed out when the whole range is gone through.
pub open spec fn newly_dispatched(v: ChunksView) -> Seq<TriCoord<i16>> {
    dispatched_among(v, v.in_range.len() as int)
}

/// The registry after the range has been gone through: what was handed out is
/// generating, behind what was generating before.
pub open spec fn after_dispatch(v: ChunksView) -> ChunksView {
    ChunksView {
        in_range: v.in_range,
        generating: v.generating + newly_dispatched(v),
        generated: v.generated,
    }
}

/// The registry after the build of `t` was reported finished: `t` is no
/// longer generating and is generated, at the end of the list unless it was
/// in it already.
pub open spec fn after_completion(v: ChunksView, t: TriCoord<i16>) -> ChunksView {
    ChunksView {
        in_range: v.in_range,
        generating: without(v.generating, t),
        generated: if v.generated.contains(t) {
            v.generated
        } else {
            v.generated.push(t)
        },
    }
}

/// The registry after the builds of the first `n` of `finished` were reported,
/// one after the other.
pub open spec fn after_completions(v: ChunksView, finished: Seq<TriCoord<i16>>, n: int) -> ChunksView
    decreases n,
{
    if n <= 0 {
        v
    } else {
        after_completion(after_completions(v, finished, n - 1), finished[n - 1])
    }
}

/// What polling a build found.
#[derive(Copy, Clone, Debug, PartialEq, Eq, Structural)]
pub enum BuildStatus {
    /// The build has not come to an end yet.
    Running,
    /// The build has ended and its chunk is there.
    Finished,
    /// The build has ended without a chunk.
    Failed,
}

/// The registry after one build was polled: a finished build moves its chunk
/// to the generated list; a running build changes nothing, and neither does a
/// failed one, whose chunk stays listed as generating and is not handed out
/// again.
pub open spec fn after_poll(v: ChunksView, t: TriCoord<i16>, status: BuildStatus) -> ChunksView {
    match status {
        BuildStatus::Finished => after_completion(v, t),
        BuildStatus::Running => v,
        BuildStatus::Failed => v,
    }
}

/// The registry after a new range was written into it.
pub open spec fn with_range(v: ChunksView, in_range: Seq<TriCoord<i16>>) -> ChunksView {
    ChunksView { in_range, generating: v.generating, generated: v.generated }
}

/// What one tick makes of the registry before any build is polled. Without a
/// player position nothing happens. With one, the range becomes what the
/// query finds around the player, and if streaming is switched on the range
/// is gone through.
pub open spec fn after_tick(v: ChunksView, config: TerrainConfig, player: Option<Coord<i64>>) -> ChunksView {
    match player {
        None => v,
        Some(position) => {
            let ranged = with_range(v, chunks_within(position, config.chunk_gen_radius));
            if config.active {
                after_dispatch(ranged)
            } else {
                ranged
            }
        },
    }
}

/// What one tick hands out to be built.
pub open spec fn tick_dispatch(v: ChunksView, config: TerrainConfig, player: Option<Coord<i64>>) -> Seq<TriCoord<i16>> {
    match player {
        None => Seq::empty(),
        Some(position) => {
            if config.active {
                newly_dispatched(
                    with_range(v, chunks_within(position, config.chunk_gen_radius)),
                )
            } else {
                Seq::empty()
            }
        },
    }
}

/// Taking `t` out of a list that ends in `x`.
pub proof fn lemma_without_push(s: Seq<TriCoord<i16>>, x: TriCoord<i16>, t: TriCoord<i16>)
    ensures
        without(s.push(x), t) == if x != t {
            without(s, t).push(x)
        } else {
            without(s, t)
        },
{
    reveal(Seq::filter);
    assert(s.push(x).drop_last() =~= s);
}

/// What is left when `t` is taken out of a list: all the others and no `t`,
/// and no entry twice if none was twice before.
#[verifier::rlimit(40)]
pub proof fn lemma_without_members(s: Seq<TriCoord<i16>>, t: TriCoord<i16>)
    ensures
        forall|x: TriCoord<i16>| #[trigger] without(s, t).contains(x) <==> s.contains(x) && x != t,
        s.no_duplicates() ==> without(s, t).no_duplicates(),
        !s.contains(t) ==> without(s, t) == s,
        without(s, t).len() <= s.len(),
        s.contains(t) ==> without(s, t).len() < s.len(),
    decreases s.len(),
{
    reveal(Seq::filter);
    if s.len() > 0 {
        let front = s.drop_last();
        let last = s.last();
        lemma_without_members(front, t);
        assert(s =~= front.push(last));
        lemma_without_push(front, last, t);
        let kept = without(front, t);
        let out = without(s, t);
        assert forall|x: TriCoord<i16>| #[trigger] out.contains(x) <==> s.contains(x) && x != t by {
            if out.contains(x) {
                let j = choose|j: int| 0 <= j < out.len() && out[j] == x;
                if j < kept.len() {
                    assert(kept[j] == x);
                    assert(kept.contains(x));
                    let i = choose|i: int| 0 <= i < front.len() && front[i] == x;
                    assert(s[i] == x);
                } else {
                    assert(x == last);
                    assert(s[s.len() - 1] == x);
                }
            }
            if s.contains(x) && x != t {
                let i = choose|i: int| 0 <= i < s.len() && s[i] == x;
                if i < front.len() {
                    assert(front[i] == x);
                    assert(front.contains(x));
                    assert(kept.contains(x));
                    let j = choose|j: int| 0 <= j < kept.len() && kept[j] == x;
                    assert(out[j] == x);
                } else {
                    assert(out[out.len() - 1] == x);
                }
            }
        }
        if s.no_duplicates() {
            assert forall|i: int, j: int| 0 <= i < front.len() && 0 <= j < front.len() && i != j implies front[i] != front[j] by {
                assert(s[i] != s[j]);
            }
            assert(front.no_duplicates());
            if last != t {
                if kept.contains(last) {
                    let i = choose|i: int| 0 <= i < front.len() && front[i] == last;
                    assert(s[i] == s[s.len() - 1]);
                }
                assert forall|i: int, j: int| 0 <= i < out.len() && 0 <= j < out.len() && i != j implies out[i] != out[j] by {
                    if i < kept.len() && j < kept.len() {
                        assert(kept[i] != kept[j]);
                    } else if i < kept.len() {
                        assert(kept.contains(kept[i]));
                    } else {
                        assert(kept.contains(kept[j]));
                    }
                }
            }
        }
        if !s.contains(t) {
            assert(!front.contains(t)) by {
                if front.contains(t) {
                    let i = choose|i: int| 0 <= i < front.len() && front[i] == t;
                    assert(s[i] == t);
                }
            }
            assert(last != t) by {
                assert(s[s.len() - 1] == last);
            }
            assert(out =~= s);
        }
        if s.contains(t) {
            if last != t {
                let i = choose|i: int| 0 <= i < s.len() && s[i] == t;
                assert(front[i] == t);
                assert(front.contains(t));
            }
        }
    } else {
        assert(without(s, t) =~= s);
    }
}

/// What was handed out: no address twice, each one from the range walked and
/// neither generating nor generated before; and every address of the range
/// walked is generating, generated or handed out.
#[verifier::rlimit(40)]
pub proof fn lemma_dispatched_members(v: ChunksView, n: int)
    requires
        0 <= n <= v.in_range.len(),
    ensures
        dispatched_among(v, n).no_duplicates(),
        forall|t: TriCoord<i16>| #[trigger]
            dispatched_among(v, n).contains(t) ==> v.in_range.contains(t) && !v.generating.contains(
                t,
            ) && !v.generated.contains(t),
        forall|i: int|
            0 <= i < n ==> v.generating.contains(#[trigger] v.in_range[i]) || v.generated.contains(
                v.in_range[i],
            ) || dispatched_among(v, n).contains(v.in_range[i]),
    decreases n,
{
    if n > 0 {
        lemma_dispatched_members(v, n - 1);
        let earlier = dispatched_among(v, n - 1);
        let now = dispatched_among(v, n);
        let t = v.in_range[n - 1];
        assert forall|x: TriCoord<i16>| #[trigger] now.contains(x) implies v.in_range.contains(x)
            && !v.generating.contains(x) && !v.generated.contains(x) by {
            let j = choose|j: int| 0 <= j < now.len() && now[j] == x;
            if j < earlier.len() {
                assert(earlier[j] == x);
                assert(earlier.contains(x));
            } else {
                assert(x == t);
            }
        }
        assert forall|i: int| 0 <= i < n implies v.generating.contains(#[trigger] v.in_range[i])
            || v.generated.contains(v.in_range[i]) || now.contains(v.in_range[i]) by {
            let x = v.in_range[i];
            if earlier.contains(x) {
                let j = choose|j: int| 0 <= j < earlier.len() && earlier[j] == x;
                assert(now[j] == x);
            } else if i == n - 1 && !v.generating.contains(x) && !v.generated.contains(x) {
                assert(now[now.len() - 1] == x);
            }
        }
        assert forall|i: int, j: int| 0 <= i < now.len() && 0 <= j < now.len() && i != j implies now[i] != now[j] by {
            if i < earlier.len() && j < earlier.len() {
                assert(earlier[i] != earlier[j]);
            } else if i < earlier.len() {
                assert(earlier.contains(earlier[i]));
            } else {
                assert(earlier.contains(earlier[j]));
            }
        }
    }
}

/// Going through the range keeps the registry in order, and leaves every
/// address of the range either generating or generated, never both and never
/// neither.
#[verifier::rlimit(40)]
pub proof fn lemma_dispatch_tracks_range(v: ChunksView)
    requires
        registry_invariant(v),
    ensures
        registry_invariant(after_dispatch(v)),
        forall|i: int|
            0 <= i < v.in_range.len() ==> is_tracked(after_dispatch(v), #[trigger] v.in_range[i]),
        forall|t: TriCoord<i16>|
            v.generating.contains(t) ==> #[trigger] after_dispatch(v).generating.contains(t),
{
    let n = v.in_range.len() as int;
    lemma_dispatched_members(v, n);
    let added = newly_dispatched(v);
    let after = after_dispatch(v);
    assert forall|t: TriCoord<i16>| #[trigger]
        after.generating.contains(t) <==> v.generating.contains(t) || added.contains(t) by {
        if after.generating.contains(t) {
            let j = choose|j: int| 0 <= j < after.generating.len() && after.generating[j] == t;
            if j < v.generating.len() {
                assert(v.generating[j] == t);
            } else {
                assert(added[j - v.generating.len()] == t);
            }
        }
        if v.generating.contains(t) {
            let j = choose|j: int| 0 <= j < v.generating.len() && v.generating[j] == t;
            assert(after.generating[j] == t);
        }
        if added.contains(t) {
            let j = choose|j: int| 0 <= j < added.len() && added[j] == t;
            assert(after.generating[v.generating.len() + j] == t);
        }
    }
    assert forall|i: int, j: int| 0 <= i < after.generating.len() && 0 <= j < after.generating.len() && i != j implies after.generating[i] != after.generating[j] by {
        let g = v.generating.len() as int;
        if i < g && j < g {
            assert(v.generating[i] != v.generating[j]);
        } else if i < g {
            assert(v.generating.contains(v.generating[i]));
            assert(added.contains(added[j - g]));
        } else if j < g {
            assert(v.generating.contains(v.generating[j]));
            assert(added.contains(added[i - g]));
        } else {
            assert(added[i - g] != added[j - g]);
        }
    }
    assert forall|i: int| 0 <= i < v.in_range.len() implies is_tracked(after, #[trigger] v.in_range[i]) by {
        let t = v.in_range[i];
        assert(after.generating.contains(t) <==> v.generating.contains(t) || added.contains(t));
    }
    assert forall|t: TriCoord<i16>| !(after.generating.contains(t) && after.generated.contains(t)) by {
        assert(after.generating.contains(t) <==> v.generating.contains(t) || added.contains(t));
    }
}

/// Reporting a build finished keeps the registry in order, takes the address
/// from generating to generated, and moves no other address.
#[verifier::rlimit(40)]
pub proof fn lemma_completion_moves_one(v: ChunksView, t: TriCoord<i16>)
    requires
        registry_invariant(v),
    ensures
        registry_invariant(after_completion(v, t)),
        after_completion(v, t).generated.contains(t),
        !after_completion(v, t).generating.contains(t),
        forall|x: TriCoord<i16>|
            x != t ==> (#[trigger] after_completion(v, t).generating.contains(x)
                <==> v.generating.contains(x)),
        forall|x: TriCoord<i16>|
            x != t ==> (#[trigger] after_completion(v, t).generated.contains(x)
                <==> v.generated.contains(x)),
        forall|x: TriCoord<i16>|
            v.generated.contains(x) ==> #[trigger] after_completion(v, t).generated.contains(x),
{
    lemma_without_members(v.generating, t);
    let after = after_completion(v, t);
    assert forall|x: TriCoord<i16>| #[trigger]
        after.generated.contains(x) <==> v.generated.contains(x) || x == t by {
        if after.generated.contains(x) {
            let j = choose|j: int| 0 <= j < after.generated.len() && after.generated[j] == x;
            if j < v.generated.len() {
                assert(v.generated[j] == x);
            }
        }
        if v.generated.contains(x) {
            let j = choose|j: int| 0 <= j < v.generated.len() && v.generated[j] == x;
            assert(after.generated[j] == x);
        }
        if x == t && !v.generated.contains(t) {
            assert(after.generated[after.generated.len() - 1] == t);
        }
    }
    if !v.generated.contains(t) {
        assert forall|i: int, j: int| 0 <= i < after.generated.len() && 0 <= j < after.generated.len() && i != j implies after.generated[i] != after.generated[j] by {
            let g = v.generated.len() as int;
            if i < g && j < g {
                assert(v.generated[i] != v.generated[j]);
            } else if i < g {
                assert(v.generated.contains(v.generated[i]));
            } else {
                assert(v.generated.contains(v.generated[j]));
            }
        }
    }
    assert forall|x: TriCoord<i16>| !(after.generating.contains(x) && after.generated.contains(x)) by {
        assert(after.generated.contains(x) <==> v.generated.contains(x) || x == t);
    }
}

/// However many builds are reported finished, the registry stays in order,
/// nothing that was generated is lost, and whatever was generating is still
/// generating or is generated.
#[verifier::rlimit(40)]
pub proof fn lemma_completions_lose_nothing(v: ChunksView, finished: Seq<TriCoord<i16>>, n: int)
    requires
        registry_invariant(v),
        0 <= n <= finished.len(),
    ensures
        registry_invariant(after_completions(v, finished, n)),
        after_completions(v, finished, n).in_range == v.in_range,
        forall|x: TriCoord<i16>|
            v.generated.contains(x) ==> #[trigger] after_completions(v, finished, n).generated.contains(x),
        forall|x: TriCoord<i16>|
            is_tracked(v, x) ==> #[trigger] is_tracked(after_completions(v, finished, n), x),
        forall|i: int|
            0 <= i < n ==> after_completions(v, finished, n).generated.contains(#[trigger] finished[i]),
        forall|x: TriCoord<i16>| #[trigger]
            after_completions(v, finished, n).generating.contains(x) ==> v.generating.contains(x),
    decreases n,
{
    if n > 0 {
        lemma_completions_lose_nothing(v, finished, n - 1);
        let before = after_completions(v, finished, n - 1);
        let t = finished[n - 1];
        lemma_completion_moves_one(before, t);
        let after = after_completions(v, finished, n);
        assert forall|x: TriCoord<i16>| is_tracked(v, x) implies #[trigger] is_tracked(after, x) by {
            assert(is_tracked(before, x));
            if x != t {
                assert(after.generating.contains(x) <==> before.generating.contains(x));
                assert(after.generated.contains(x) <==> before.generated.contains(x));
            }
        }
        assert forall|i: int| 0 <= i < n implies after.generated.contains(#[trigger] finished[i]) by {
            if i < n - 1 {
                assert(before.generated.contains(finished[i]));
            }
        }
        assert forall|x: TriCoord<i16>| #[trigger] after.generating.contains(x) implies v.generating.contains(x) by {
            assert(x != t);
            assert(before.generating.contains(x));
        }
        assert forall|x: TriCoord<i16>| v.generated.contains(x) implies #[trigger] after.generated.contains(x) by {
            assert(before.generated.contains(x));
        }
    }
}

/// A tick leaves the registry in order, and what was generating or generated
/// before it is so after it.
pub proof fn lemma_tick_keeps_order(
    v: ChunksView,
    config: TerrainConfig,
    player: Option<Coord<i64>>,
)
    requires
        registry_invariant(v),
    ensures
        registry_invariant(after_tick(v, config, player)),
        after_tick(v, config, player).generated == v.generated,
        forall|t: TriCoord<i16>|
            v.generating.contains(t) ==> #[trigger] after_tick(v, config, player).generating.contains(
                t,
            ),
        player is Some && config.active ==> forall|i: int|
            0 <= i < after_tick(v, config, player).in_range.len() ==> is_tracked(
                after_tick(v, config, player),
                #[trigger] after_tick(v, config, player).in_range[i],
            ),
{
    match player {
        None => {},
        Some(position) => {
            let ranged = with_range(v, chunks_within(position, config.chunk_gen_radius));
            if config.active {
                lemma_dispatch_tracks_range(ranged);
            }
        },
    }
}

/// Once the build of every generating chunk has been reported finished, no
/// chunk is generating any more and each of them is generated.
pub proof fn lemma_all_builds_finish(v: ChunksView)
    requires
        registry_invariant(v),
    ensures
        after_completions(v, v.generating, v.generating.len() as int).generating.len() == 0,
        forall|i: int|
            0 <= i < v.generating.len() ==> after_completions(
                v,
                v.generating,
                v.generating.len() as int,
            ).generated.contains(#[trigger] v.generating[i]),
{
    let n = v.generating.len() as int;
    lemma_completions_lose_nothing(v, v.generating, n);
    let after = after_completions(v, v.generating, n);
    if after.generating.len() > 0 {
        let x = after.generating[0];
        assert(after.generating.contains(x));
        assert(v.generating.contains(x));
        let i = choose|i: int| 0 <= i < v.generating.len() && v.generating[i] == x;
        assert(after.generated.contains(v.generating[i]));
        assert(false);
    }
}

/// A list made of two holds what either holds.
proof fn lemma_concat_contains(
    first: Seq<TriCoord<i16>>,
    second: Seq<TriCoord<i16>>,
    t: TriCoord<i16>,
)
    ensures
        (first + second).contains(t) <==> first.contains(t) || second.contains(t),
{
    let both = first + second;
    if both.contains(t) {
        let j = choose|j: int| 0 <= j < both.len() && both[j] == t;
        if j < first.len() {
            assert(first[j] == t);
        } else {
            assert(second[j - first.len()] == t);
        }
    }
    if first.contains(t) {
        let j = choose|j: int| 0 <= j < first.len() && first[j] == t;
        assert(both[j] == t);
    }
    if second.contains(t) {
        let j = choose|j: int| 0 <= j < second.len() && second[j] == t;
        assert(both[first.len() + j] == t);
    }
}

/// Which chunks are in range, which are being built and which are done.
#[derive(Debug)]
pub struct Chunks {
    in_range: Vec<TriCoord<i16>>,
    generating: Vec<TriCoord<i16>>,
    generated: Vec<TriCoord<i16>>,
}

impl View for Chunks {
    type V = ChunksView;

    closed spec fn view(&self) -> ChunksView {
        ChunksView {
            in_range: self.in_range@,
            generating: self.generating@,
            generated: self.generated@,
        }
    }
}

/// Whether a list holds an address.
pub fn list_contains(list: &Vec<TriCoord<i16>>, tricoord: TriCoord<i16>) -> (found: bool)
    ensures
        found == list@.contains(tricoord),
{
    let mut index: usize = 0;
    while index < list.len()
        invariant
            index <= list@.len(),
            forall|i: int| 0 <= i < index ==> list@[i] != tricoord,
        decreases list@.len() - index,
    {
        if list[index] == tricoord {
            return true;
        }
        index = index + 1;
    }
    false
}

impl Chunks {
    #[verifier::type_invariant]
    spec fn well_formed(self) -> bool {
        registry_invariant(self@)
    }

    /// A registry that has seen nothing yet.
    pub fn new() -> (chunks: Chunks)
        ensures
            chunks@.in_range.len() == 0,
            chunks@.generating.len() == 0,
            chunks@.generated.len() == 0,
            registry_invariant(chunks@),
    {
        Chunks { in_range: Vec::new(), generating: Vec::new(), generated: Vec::new() }
    }

    /// The chunks that the last query found in range.
    pub fn in_range(&self) -> (list: &Vec<TriCoord<i16>>)
        ensures
            list@ == self@.in_range,
    {
        &self.in_range
    }

    /// The chunks handed out to be built and not yet reported finished.
    pub fn generating(&self) -> (list: &Vec<TriCoord<i16>>)
        ensures
            list@ == self@.generating,
            registry_invariant(self@),
    {
        proof {
            use_type_invariant(self);
        }
        &self.generating
    }

    /// The chunks whose build was reported finished.
    pub fn generated(&self) -> (list: &Vec<TriCoord<i16>>)
        ensures
            list@ == self@.generated,
            registry_invariant(self@),
    {
        proof {
            use_type_invariant(self);
        }
        &self.generated
    }

    /// Writes a new range into the registry.
    pub fn set_in_range(&mut self, in_range: Vec<TriCoord<i16>>)
        ensures
            final(self)@ == with_range(old(self)@, in_range@),
    {
        proof {
            use_type_invariant(&*self);
        }
        self.in_range = in_range;
    }

    /// Hands out the chunks of the range that are neither generating nor
    /// generated, and lists them as generating.
    #[verifier::rlimit(40)]
    pub fn begin_generating(self) -> (r: (Chunks, Vec<TriCoord<i16>>))
        ensures
            r.0@ == after_dispatch(self@),
            r.1@ == newly_dispatched(self@),
            registry_invariant(r.0@),
    {
        proof {
            use_type_invariant(&self);
            lemma_dispatch_tracks_range(self@);
        }
        let ghost start = self@;
        let Chunks { in_range, mut generating, generated } = self;
        let mut dispatched: Vec<TriCoord<i16>> = Vec::new();
        let mut index: usize = 0;
        while index < in_range.len()
            invariant
                registry_invariant(start),
                index <= start.in_range.len(),
                in_range@ == start.in_range,
                generated@ == start.generated,
                generating@ == start.generating + dispatched_among(start, index as int),
                dispatched@ == dispatched_among(start, index as int),
            decreases start.in_range.len() - index,
        {
            let tri_chunk = in_range[index];
            let ghost earlier = dispatched_among(start, index as int);
            proof {
                lemma_concat_contains(start.generating, earlier, tri_chunk);
            }
            let listed: bool = list_contains(&generating, tri_chunk) || list_contains(
                &generated,
                tri_chunk,
            );
            if !listed {
                proof {
                    assert((start.generating + earlier).push(tri_chunk) =~= start.generating
                        + earlier.push(tri_chunk));
                }
                dispatched.push(tri_chunk);
                generating.push(tri_chunk);
            }
            index = index + 1;
        }
        (Chunks { in_range, generating, generated }, dispatched)
    }

    /// Records that the build of a chunk has finished: the chunk is taken off
    /// the generating list and put on the generated list, unless it is there
    /// already.
    #[verifier::rlimit(40)]
    pub fn finish(self, tricoord: TriCoord<i16>) -> (chunks: Chunks)
        ensures
            chunks@ == after_completion(self@, tricoord),
            registry_invariant(chunks@),
    {
        proof {
            use_type_invariant(&self);
            lemma_completion_moves_one(self@, tricoord);
        }
        let ghost start = self@;
        let Chunks { in_range, generating, mut generated } = self;
        let mut kept: Vec<TriCoord<i16>> = Vec::with_capacity(generating.len());
        let mut index: usize = 0;
        while index < generating.len()
            invariant
                generating@ == start.generating,
                index <= start.generating.len(),
                kept@ == without(start.generating.take(index as int), tricoord),
            decreases start.generating.len() - index,
        {
            let entry = generating[index];
            proof {
                assert(start.generating.take(index as int + 1) =~= start.generating.take(
                    index as int,
                ).push(entry));
                lemma_without_push(start.generating.take(index as int), entry, tricoord);
            }
            if entry != tricoord {
                kept.push(entry);
            }
            index = index + 1;
        }
        assert(start.generating.take(index as int) =~= start.generating);
        if !list_contains(&generated, tricoord) {
            generated.push(tricoord);
        }
        Chunks { in_range, generating: kept, generated }
    }
}

impl Default for Chunks {
    fn default() -> (chunks: Self)
        ensures
            chunks@.in_range.len() == 0,
            chunks@.generating.len() == 0,
            chunks@.generated.len() == 0,
    {
        Chunks::new()
    }
}

/// Makes the chunks around the player the range of the registry.
pub fn chunks_near_player(
    player: Coord<i64>,
    chunks: &mut Chunks,
    terrain_config: &TerrainConfig,
)
    ensures
        final(chunks)@ == with_range(
            old(chunks)@,
            chunks_within(player, terrain_config.chunk_gen_radius),
        ),
{
    let in_radius_tricoords = tricoord_vec_gen_distance(player, terrain_config.chunk_gen_radius);
    chunks.set_in_range(in_radius_tricoords);
}

/// Goes through the range and hands out, in its order, every chunk that is
/// neither generating nor generated. What is handed out is generating from
/// now on; the caller starts a build for each.
pub fn begin_generating_chunks(chunks: &mut Chunks) -> (dispatched: Vec<TriCoord<i16>>)
    ensures
        final(chunks)@ == after_dispatch(old(chunks)@),
        dispatched@ == newly_dispatched(old(chunks)@),
        registry_invariant(final(chunks)@),
{
    let mut taken = Chunks::new();
    std::mem::swap(chunks, &mut taken);
    let (updated, dispatched) = taken.begin_generating();
    *chunks = updated;
    dispatched
}

/// Takes in what polling the build of one chunk found, and tells whether that
/// build is to be polled again: only a running build is.
pub fn receive_generated_chunk(
    chunks: &mut Chunks,
    tricoord: TriCoord<i16>,
    status: BuildStatus,
) -> (poll_again: bool)
    ensures
        final(chunks)@ == after_poll(old(chunks)@, tricoord, status),
        poll_again == (status is Running),
        registry_invariant(final(chunks)@),
{
    let mut current = Chunks::new();
    std::mem::swap(chunks, &mut current);
    let poll_again = match status {
        BuildStatus::Running => true,
        BuildStatus::Finished => {
            current = current.finish(tricoord);
            false
        },
        BuildStatus::Failed => false,
    };
    proof {
        use_type_invariant(&current);
    }
    *chunks = current;
    poll_again
}

/// Takes in the builds that a poll found finished, in the order given: each
/// chunk leaves the generating list and joins the generated list.
pub fn receive_generated_chunks(chunks: &mut Chunks, finished: &Vec<TriCoord<i16>>)
    ensures
        final(chunks)@ == after_completions(old(chunks)@, finished@, finished@.len() as int),
        registry_invariant(final(chunks)@),
{
    let mut current = Chunks::new();
    std::mem::swap(chunks, &mut current);
    let ghost start = current@;
    let mut index: usize = 0;
    while index < finished.len()
        invariant
            index <= finished@.len(),
            current@ == after_completions(start, finished@, index as int),
        decreases finished@.len() - index,
    {
        current = current.finish(finished[index]);
        index = index + 1;
    }
    proof {
        use_type_invariant(&current);
    }
    *chunks = current;
}

/// The part of a tick that comes before the polling of builds. Without a
/// player position the tick is skipped. With one, the chunks around the
/// player become the range, and if streaming is switched on the range is gone
/// through; what is returned is to be built.
pub fn schedule_tick(
    chunks: &mut Chunks,
    terrain_config: &TerrainConfig,
    player: Option<Coord<i64>>,
) -> (dispatched: Vec<TriCoord<i16>>)
    ensures
        final(chunks)@ == after_tick(old(chunks)@, *terrain_config, player),
        dispatched@ == tick_dispatch(old(chunks)@, *terrain_config, player),
        registry_invariant(final(chunks)@),
{
    match player {
        None => {
            proof {
                use_type_invariant(&*chunks);
            }
            Vec::new()
        },
        Some(position) => {
            chunks_near_player(position, chunks, terrain_config);
            if run_if_terrain_active(terrain_config) {
                begin_generating_chunks(chunks)
            } else {
                proof {
                    use_type_invariant(&*chunks);
                }
                Vec::new()
            }
        },
    }
}

} // verus!
