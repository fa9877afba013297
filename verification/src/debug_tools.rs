//! What the debug panel shows of the player: the world position, the lattice
//! point nearest to it and the chunk that hangs from that point; and the
//! markers that are drawn over the chunks of the registry.

use vstd::prelude::*;
use crate::radius::div_toward_zero;
use crate::registry::{list_contains, Chunks};
use crate::tricoord::{
    anchor_x, anchor_z, lattice_address, trichunk_to_coord, wide_halfsides_altitude_to_tricoord,
    AnchorMode, Coord, TriCoord, CHUNK_ALTITUDE, CHUNK_HALFSIDE, WORLD_UNIT,
};

verus! {

/// The quotient rounded down, whatever the signs.
pub open spec fn floor_div(dividend: int, divisor: int) -> int {
    if divisor > 0 {
        dividend / divisor
    } else {
        (-dividend) / (-divisor)
    }
}

/// The quotient rounded down is the one whole number whose product with the
/// divisor is not past the dividend while that of the next one is.
pub proof fn lemma_floor_div_brackets(dividend: int, divisor: int)
    requires
        divisor != 0,
    ensures
        divisor > 0 ==> floor_div(dividend, divisor) * divisor <= dividend < (floor_div(
            dividend,
            divisor,
        ) + 1) * divisor,
        divisor < 0 ==> floor_div(dividend, divisor) * divisor >= dividend > (floor_div(
            dividend,
            divisor,
        ) + 1) * divisor,
{
    let q = floor_div(dividend, divisor);
    let (k, e) = if divisor > 0 {
        (dividend, divisor)
    } else {
        (-dividend, -divisor)
    };
    vstd::arithmetic::div_mod::lemma_fundamental_div_mod(k, e);
    vstd::arithmetic::div_mod::lemma_mod_bound(k, e);
    assert(q * e <= k < (q + 1) * e) by (nonlinear_arith)
        requires
            k == e * q + k % e,
            0 <= k % e < e,
    ;
    assert(q * divisor == if divisor > 0 {
        q * e
    } else {
        -(q * e)
    }) by (nonlinear_arith)
        requires
            e == if divisor > 0 {
                divisor
            } else {
                -divisor
            },
    ;
    assert((q + 1) * divisor == if divisor > 0 {
        (q + 1) * e
    } else {
        -((q + 1) * e)
    }) by (nonlinear_arith)
        requires
            e == if divisor > 0 {
                divisor
            } else {
                -divisor
            },
    ;
}

/// The quotient of two numbers, rounded down rather than towards zero. The
/// divisor is not zero, and the quotient fits: the least number is not
/// divided by minus one.
#[verifier::rlimit(40)]
pub fn flooring_division(dividend: i16, divisor: i16) -> (r: i16)
    requires
        divisor != 0,
        !(dividend == i16::MIN && divisor == -1),
    ensures
        r == floor_div(dividend as int, divisor as int),
{
    let (quotient, remainder): (i16, i16) = match (
        dividend.checked_div(divisor),
        dividend.checked_rem(divisor),
    ) {
        (Some(quotient), Some(remainder)) => (quotient, remainder),
        _ => (0, 0),
    };
    proof {
        let (n, d) = (dividend as int, divisor as int);
        let m = if n >= 0 {
            n
        } else {
            -n
        };
        let e = if d > 0 {
            d
        } else {
            -d
        };
        let k = if d > 0 {
            n
        } else {
            -n
        };
        let (t, s) = (m / e, m % e);
        vstd::arithmetic::div_mod::lemma_fundamental_div_mod(m, e);
        vstd::arithmetic::div_mod::lemma_mod_bound(m, e);
        assert(0 <= t <= m) by (nonlinear_arith)
            requires
                m == e * t + s,
                0 <= s < e,
                0 <= m,
        ;
        assert(e >= 2 ==> 2 * t <= m) by (nonlinear_arith)
            requires
                m == e * t + s,
                0 <= s,
                0 <= t,
        ;
        assert(e == 1 ==> t == m) by (nonlinear_arith)
            requires
                m == e * t + s,
                0 <= s < e,
        ;
        assert(n * -1 == -n && d * -1 == -d);
        let same_side = (n >= 0) == (d > 0) || n == 0;
        assert(quotient == if same_side {
            t
        } else {
            -t
        });
        assert(remainder == if n >= 0 {
            s
        } else {
            -s
        });
        if k >= 0 {
            assert(k == m);
        } else if s == 0 {
            assert(k == (-t) * e + 0) by (nonlinear_arith)
                requires
                    -k == e * t + s,
                    s == 0,
            ;
            vstd::arithmetic::div_mod::lemma_fundamental_div_mod_converse(k, e, -t, 0);
        } else {
            assert(k == (-t - 1) * e + (e - s)) by (nonlinear_arith)
                requires
                    -k == e * t + s,
            ;
            vstd::arithmetic::div_mod::lemma_fundamental_div_mod_converse(k, e, -t - 1, e - s);
        }
    }
    if remainder != 0 && (dividend < 0) != (divisor < 0) {
        quotient - 1
    } else {
        quotient
    }
}

/// What the debug panel shows of the player.
#[derive(Copy, Clone, Debug)]
pub struct DebugToolsData {
    /// Where the player is in the world.
    pub player_coord: Coord<i64>,
    /// The lattice point nearest to the player, as half-side and altitude
    /// steps cut to 16 bits.
    pub player_halfside_altitude: (i16, i16),
    /// The chunk that hangs from that lattice point.
    pub player_chunk_tricoord: TriCoord<i16>,
}

impl Default for DebugToolsData {
    /// The player at the world's origin.
    fn default() -> (data: Self)
        ensures
            data.player_coord == (Coord::<i64> { z: 0, x: 0 }),
            data.player_halfside_altitude == (0i16, 0i16),
            data.player_chunk_tricoord == (TriCoord::<i16> { a: 0, b: 0, c: 0 }),
    {
        DebugToolsData {
            player_halfside_altitude: (0, 0),
            player_coord: Coord { z: 0, x: 0 },
            player_chunk_tricoord: TriCoord { a: 0, b: 0, c: 0 },
        }
    }
}

/// `value` moved away from zero by half of `padding`.
pub open spec fn padded(value: int, padding: int) -> int {
    if value > 0 {
        value + padding / 2
    } else {
        value - padding / 2
    }
}

/// `value` cut to whole world units, towards zero.
pub open spec fn whole_units(value: int) -> int {
    div_toward_zero(value, WORLD_UNIT as int) * WORLD_UNIT
}

/// The count of steps of length `step` that is shown for a coordinate: the
/// coordinate is padded by half a step, cut to whole world units and divided
/// by the step, the quotient cut towards zero.
pub open spec fn shown_steps(value: int, step: int) -> int {
    div_toward_zero(whole_units(padded(value, step)), step)
}

/// `value` moved away from zero by half of `padding`.
fn pad(value: i64, padding: i64) -> (r: i128)
    requires
        0 < padding,
    ensures
        r == padded(value as int, padding as int),
{
    if value > 0 {
        value as i128 + (padding / 2) as i128
    } else {
        value as i128 - (padding / 2) as i128
    }
}

/// `value` cut to whole world units: down where it is positive, up where it
/// is not.
fn floor_or_ceil(value: i128) -> (r: i128)
    requires
        -0x1_0000_0000_0000_0000 <= value <= 0x1_0000_0000_0000_0000,
    ensures
        r == whole_units(value as int),
{
    (value / (WORLD_UNIT as i128)) * (WORLD_UNIT as i128)
}

/// The debug panel's data for a player at `position`.
pub fn update_tools_data(position: Coord<i64>) -> (data: DebugToolsData)
    ensures
        data.player_coord == position,
        data.player_halfside_altitude.0 == shown_steps(
            position.x as int,
            CHUNK_HALFSIDE as int,
        ) as i16,
        data.player_halfside_altitude.1 == shown_steps(
            position.z as int,
            CHUNK_ALTITUDE as int,
        ) as i16,
        data.player_chunk_tricoord == lattice_address(
            shown_steps(position.x as int, CHUNK_HALFSIDE as int),
            shown_steps(position.z as int, CHUNK_ALTITUDE as int),
        ),
{
    let halfsides: i64 = (floor_or_ceil(pad(position.x, CHUNK_HALFSIDE)) / (
    CHUNK_HALFSIDE as i128)) as i64;
    let altitudes: i64 = (floor_or_ceil(pad(position.z, CHUNK_ALTITUDE)) / (
    CHUNK_ALTITUDE as i128)) as i64;
    DebugToolsData {
        player_coord: position,
        player_halfside_altitude: (
            #[verifier::truncate] (halfsides as i16),
            #[verifier::truncate] (altitudes as i16),
        ),
        player_chunk_tricoord: wide_halfsides_altitude_to_tricoord(halfsides, altitudes),
    }
}

/// How far a chunk has come, as its marker shows it.
#[derive(Copy, Clone, Debug, PartialEq, Eq, Structural)]
pub enum ChunkMark {
    /// Handed out and not yet built.
    Generating,
    /// Built, and within the range asked about.
    GeneratedInRange,
    /// Built, and outside the range asked about.
    GeneratedOutOfRange,
}

/// A marker over a chunk: which chunk, where, and how far it has come.
#[derive(Copy, Clone, Debug, PartialEq, Eq, Structural)]
pub struct ChunkMarker {
    pub tricoord: TriCoord<i16>,
    pub anchor: Coord<i64>,
    pub mark: ChunkMark,
}

/// The marker of a chunk, at the chunk's origin.
pub open spec fn marker_of(t: TriCoord<i16>, mark: ChunkMark) -> ChunkMarker {
    ChunkMarker {
        tricoord: t,
        anchor: Coord {
            z: anchor_z(t, AnchorMode::ChunkOrigin) as i64,
            x: anchor_x(t, AnchorMode::ChunkOrigin) as i64,
        },
        mark,
    }
}

/// The markers of a registry: one for each generating chunk, then one for each
/// generated chunk, which tells whether the chunk is among those `in_radius`.
pub open spec fn markers_of(
    generating: Seq<TriCoord<i16>>,
    generated: Seq<TriCoord<i16>>,
    in_radius: Seq<TriCoord<i16>>,
) -> Seq<ChunkMarker> {
    Seq::new(
        generating.len() + generated.len(),
        |k: int|
            if k < generating.len() {
                marker_of(generating[k], ChunkMark::Generating)
            } else {
                let t = generated[k - generating.len()];
                marker_of(
                    t,
                    if in_radius.contains(t) {
                        ChunkMark::GeneratedInRange
                    } else {
                        ChunkMark::GeneratedOutOfRange
                    },
                )
            },
    )
}

/// The markers to draw over the chunks of a registry.
pub fn chunk_markers(chunks: &Chunks, in_radius: &Vec<TriCoord<i16>>) -> (markers: Vec<ChunkMarker>)
    ensures
        markers@ == markers_of(chunks@.generating, chunks@.generated, in_radius@),
{
    let generating = chunks.generating();
    let generated = chunks.generated();
    let mut markers: Vec<ChunkMarker> = Vec::new();
    let mut index: usize = 0;
    while index < generating.len()
        invariant
            generating@ == chunks@.generating,
            index <= generating@.len(),
            markers@.len() == index,
            forall|k: int|
                0 <= k < index ==> markers@[k] == markers_of(
                    chunks@.generating,
                    chunks@.generated,
                    in_radius@,
                )[k],
        decreases generating@.len() - index,
    {
        let tricoord = generating[index];
        let anchor = trichunk_to_coord(tricoord, AnchorMode::ChunkOrigin);
        markers.push(ChunkMarker { tricoord, anchor, mark: ChunkMark::Generating });
        index = index + 1;
    }
    let mut index: usize = 0;
    while index < generated.len()
        invariant
            generating@ == chunks@.generating,
            generated@ == chunks@.generated,
            index <= generated@.len(),
            markers@.len() == generating@.len() + index,
            forall|k: int|
                0 <= k < generating@.len() + index ==> markers@[k] == markers_of(
                    chunks@.generating,
                    chunks@.generated,
                    in_radius@,
                )[k],
        decreases generated@.len() - index,
    {
        let tricoord = generated[index];
        let anchor = trichunk_to_coord(tricoord, AnchorMode::ChunkOrigin);
        let mark = if list_contains(in_radius, tricoord) {
            ChunkMark::GeneratedInRange
        } else {
            ChunkMark::GeneratedOutOfRange
        };
        markers.push(ChunkMarker { tricoord, anchor, mark });
        index = index + 1;
    }
    assert(markers@ =~= markers_of(chunks@.generating, chunks@.generated, in_radius@));
    markers
}

} // verus!
