//! Three-axis addresses of triangular chunks and their conversion to and from
//! the half-side / altitude grid and fixed-point world coordinates.
//!
//! The plane is tiled by equilateral triangles of side [`CHUNK_SIDE`]. A
//! lattice point is named by two step counts: `halfsides` along x, each half a
//! chunk side long, and `altitudes` along z, each one chunk altitude long. The
//! chunk anchored at a lattice point has a three-axis address `(a, b, c)` with
//! `b = altitudes`, `c - a = halfsides` and `a + b + c` equal to 0 or 1, the
//! chunk's orientation.

use vstd::prelude::*;

verus! {

/// One world unit in fixed-point steps: world lengths carry nine decimals.
pub const WORLD_UNIT: i64 = 1_000_000_000;

/// Side of one mesh triangle.
pub const TRI_SIDE: i64 = 1_000_000_000;

/// Half the side of one mesh triangle.
pub const TRI_HALFSIDE: i64 = 500_000_000;

/// Altitude of one mesh triangle.
pub const TRI_ALTITUDE: i64 = 866_025_404;

/// Half the altitude of one mesh triangle.
pub const TRI_HALF_ALT: i64 = 433_012_702;

/// Apothem of one mesh triangle.
pub const TRI_APOTHEM: i64 = 288_675_135;

/// Mesh triangles along one side of a chunk.
pub const CHUNK_SIDE: i16 = 16;

/// Half the side of a chunk.
pub const CHUNK_HALFSIDE: i64 = 8_000_000_000;

/// Altitude of a chunk.
pub const CHUNK_ALTITUDE: i64 = 13_856_406_461;

/// Half the altitude of a chunk.
pub const CHUNK_HALFALT: i64 = 6_928_203_230;

/// Apothem of a chunk.
pub const CHUNK_APOTHEM: i64 = 4_618_802_154;

/// A point of the plane, or a pair of grid steps, by its two axes.
#[derive(Copy, Clone, Debug, PartialEq, Eq, Structural)]
pub struct Coord<T> {
    pub z: T,
    pub x: T,
}

/// The address of one triangular chunk.
#[derive(Copy, Clone, Debug, PartialEq, Eq, Hash, Structural)]
pub struct TriCoord<T> {
    pub a: T,
    pub b: T,
    pub c: T,
}

/// Which point of a chunk stands for it in world space.
#[derive(Copy, Clone, Debug, PartialEq, Eq, Structural)]
pub enum AnchorMode {
    /// The lattice point the chunk hangs from.
    ChunkOrigin,
    /// The centre of the first mesh triangle, where the drawn mesh is pinned.
    MeshCenter,
    /// The centre of the lattice cell: half a chunk side and half a chunk
    /// altitude from the origin.
    CellCenter,
}

/// Half-side steps from the world origin to the chunk's lattice point.
pub open spec fn halfsides_of(t: TriCoord<i16>) -> int {
    t.c - t.a
}

/// Altitude steps from the world origin to the chunk's lattice point.
pub open spec fn altitudes_of(t: TriCoord<i16>) -> int {
    t.b as int
}

/// Orientation of the chunk at a lattice point: 1 where exactly one of the two
/// step counts is odd, else 0.
pub open spec fn orientation(halfsides: int, altitudes: int) -> int {
    (halfsides + altitudes) % 2
}

/// First axis of the address of a lattice point, before it is cut to 16 bits.
pub open spec fn address_a(halfsides: int, altitudes: int) -> int {
    (orientation(halfsides, altitudes) - altitudes - halfsides) / 2
}

/// Third axis of the address of a lattice point, before it is cut to 16 bits.
pub open spec fn address_c(halfsides: int, altitudes: int) -> int {
    (orientation(halfsides, altitudes) - altitudes + halfsides) / 2
}

/// The lattice point has an address whose three axes fit in 16 bits.
pub open spec fn fits_address(halfsides: int, altitudes: int) -> bool {
    &&& i16::MIN <= address_a(halfsides, altitudes) <= i16::MAX
    &&& i16::MIN <= altitudes <= i16::MAX
    &&& i16::MIN <= address_c(halfsides, altitudes) <= i16::MAX
}

/// The address of the chunk at a lattice point. Each axis keeps its low 16
/// bits; where [`fits_address`] holds nothing is lost.
pub open spec fn lattice_address(halfsides: int, altitudes: int) -> TriCoord<i16> {
    TriCoord {
        a: address_a(halfsides, altitudes) as i16,
        b: altitudes as i16,
        c: address_c(halfsides, altitudes) as i16,
    }
}

/// The triple is the address of a chunk: its axes sum to an orientation.
pub open spec fn is_chunk_address(t: TriCoord<i16>) -> bool {
    0 <= t.a + t.b + t.c <= 1
}

/// World x of the point that `mode` picks, measured from the chunk's origin.
pub open spec fn anchor_offset_x(mode: AnchorMode) -> int {
    match mode {
        AnchorMode::ChunkOrigin => 0,
        AnchorMode::MeshCenter => TRI_SIDE / 2,
        AnchorMode::CellCenter => CHUNK_HALFSIDE as int,
    }
}

/// World z of the point that `mode` picks, measured from the chunk's origin.
pub open spec fn anchor_offset_z(mode: AnchorMode) -> int {
    match mode {
        AnchorMode::ChunkOrigin => 0,
        AnchorMode::MeshCenter => TRI_APOTHEM as int,
        AnchorMode::CellCenter => CHUNK_HALFALT as int,
    }
}

/// World x of a chunk's anchor.
pub open spec fn anchor_x(t: TriCoord<i16>, mode: AnchorMode) -> int {
    anchor_offset_x(mode) + halfsides_of(t) * CHUNK_HALFSIDE
}

/// World z of a chunk's anchor.
pub open spec fn anchor_z(t: TriCoord<i16>, mode: AnchorMode) -> int {
    anchor_offset_z(mode) + altitudes_of(t) * CHUNK_ALTITUDE
}

/// The world position of a chunk's anchor.
///
/// Walks the address back to the origin: the first axis is folded into the
/// third at one chunk side per step, what orientation is left over costs half
/// a side, and the second axis then moves one altitude up and half a side
/// back per step.
pub fn trichunk_to_coord(tricoord: TriCoord<i16>, mode: AnchorMode) -> (r: Coord<i64>)
    ensures
        r.x == anchor_x(tricoord, mode),
        r.z == anchor_z(tricoord, mode),
{
    let (mut z, mut x): (i64, i64) = match mode {
        AnchorMode::ChunkOrigin => (0, 0),
        AnchorMode::MeshCenter => (TRI_APOTHEM, TRI_SIDE / 2),
        AnchorMode::CellCenter => (CHUNK_HALFALT, CHUNK_HALFSIDE),
    };
    let a: i64 = tricoord.a as i64;
    let b: i64 = tricoord.b as i64;
    let c: i64 = tricoord.c as i64;

    // to a == 0: one chunk side per step, the steps going to the third axis
    x = x - a * CHUNK_HALFSIDE * 2;
    let folded: i64 = c + a;

    // what the second and third axes do not cancel is the orientation
    let leftover: i64 = b + folded;
    x = x + leftover * CHUNK_HALFSIDE;

    // to b == 0: one altitude up and half a side back per step
    z = z + b * CHUNK_ALTITUDE;
    x = x - b * CHUNK_HALFSIDE;

    Coord { z, x }
}

/// The lattice point a chunk hangs from, as `(halfsides, altitudes)`.
pub fn tricoord_to_halfside_altitude(tricoord: TriCoord<i16>) -> (r: (i32, i32))
    ensures
        r.0 == halfsides_of(tricoord),
        r.1 == altitudes_of(tricoord),
{
    (tricoord.c as i32 - tricoord.a as i32, tricoord.b as i32)
}

/// The address of the chunk at a lattice point, for step counts of any size.
///
/// The second axis is `altitudes`. The half-side steps are split between the
/// first and third axes, the odd one going to the side the steps point to, and
/// both axes then give way by half the altitude steps.
pub fn wide_halfsides_altitude_to_tricoord(halfsides: i64, altitudes: i64) -> (r: TriCoord<i16>)
    ensures
        r == lattice_address(halfsides as int, altitudes as int),
{
    let h: i128 = halfsides as i128;
    let b: i128 = altitudes as i128;
    let h_magnitude: i128 = if h < 0 { -h } else { h };
    let current_is_odd: i128 = h_magnitude % 2;

    let (mut a, mut c): (i128, i128) = if h < 0 {
        (current_is_odd - h / 2, h / 2)
    } else {
        (-(h / 2), current_is_odd + h / 2)
    };

    let ac_adjustment_value: i128 = if b < 0 {
        (-b + (1 - current_is_odd)) / 2
    } else if b > 0 {
        -((b + current_is_odd) / 2)
    } else {
        0
    };

    a = a + ac_adjustment_value;
    c = c + ac_adjustment_value;

    assert(a == address_a(h as int, b as int));
    assert(c == address_c(h as int, b as int));
    TriCoord {
        a: #[verifier::truncate] (a as i16),
        b: #[verifier::truncate] (b as i16),
        c: #[verifier::truncate] (c as i16),
    }
}

/// The address of the chunk at a lattice point.
///
/// Where the address fits in 16 bits it is the one triple with `altitudes` as
/// its second axis, `halfsides` as the third less the first, and the lattice
/// point's orientation as the sum of all three.
pub fn halfsides_altitude_to_tricoord(halfsides: i32, altitudes: i32) -> (r: TriCoord<i16>)
    ensures
        r == lattice_address(halfsides as int, altitudes as int),
        fits_address(halfsides as int, altitudes as int) ==> {
            &&& halfsides_of(r) == halfsides
            &&& altitudes_of(r) == altitudes
            &&& r.a + r.b + r.c == orientation(halfsides as int, altitudes as int)
        },
{
    wide_halfsides_altitude_to_tricoord(halfsides as i64, altitudes as i64)
}

/// Going from a lattice point to its address and back recovers the point,
/// wherever the address fits in 16 bits.
pub proof fn lemma_halfside_altitude_round_trip(halfsides: int, altitudes: int)
    requires
        fits_address(halfsides, altitudes),
    ensures
        halfsides_of(lattice_address(halfsides, altitudes)) == halfsides,
        altitudes_of(lattice_address(halfsides, altitudes)) == altitudes,
        is_chunk_address(lattice_address(halfsides, altitudes)),
{
}

/// Going from a chunk address to its lattice point and back recovers the
/// address.
pub proof fn lemma_address_round_trip(t: TriCoord<i16>)
    requires
        is_chunk_address(t),
    ensures
        fits_address(halfsides_of(t), altitudes_of(t)),
        lattice_address(halfsides_of(t), altitudes_of(t)) == t,
{
}

/// Two chunk addresses with the same lattice point are the same address.
pub proof fn lemma_address_unique(s: TriCoord<i16>, t: TriCoord<i16>)
    requires
        is_chunk_address(s),
        is_chunk_address(t),
        halfsides_of(s) == halfsides_of(t),
        altitudes_of(s) == altitudes_of(t),
    ensures
        s == t,
{
}

/// The `n`-th triangular number, `0 + 1 + ... + n`.
pub open spec fn triangular_number(n: nat) -> nat
    decreases n,
{
    if n == 0 {
        0
    } else {
        n + triangular_number((n - 1) as nat)
    }
}

/// The closed form agrees with the sum it abbreviates.
pub proof fn lemma_triangular_number_closed_form(n: nat)
    ensures
        2 * triangular_number(n) == n * (n + 1),
    decreases n,
{
    if n > 0 {
        let m = (n - 1) as nat;
        lemma_triangular_number_closed_form(m);
        assert(triangular_number(n) == n + triangular_number(m));
        assert(n * (n + 1) == m * (m + 1) + 2 * n) by (nonlinear_arith)
            requires
                n == m + 1,
        ;
    } else {
        assert(n * (n + 1) == 0) by (nonlinear_arith)
            requires
                n == 0,
        ;
    }
}

/// Number of cells in a triangle of side `n`, by the closed form
/// `n (n + 1) / 2`. The product is taken in 16 bits, and the bounds are
/// those between which it fits: 180 * 181 does, 181 * 182 does not.
pub fn triangular_number_o1(n: i16) -> (r: i16)
    requires
        -181 <= n <= 180,
    ensures
        r == n * (n + 1) / 2,
        n >= 0 ==> r == triangular_number(n as nat),
{
    assert(0 <= n * (n + 1) <= 32580) by (nonlinear_arith)
        requires
            -181 <= n <= 180,
    ;
    proof {
        if n >= 0 {
            lemma_triangular_number_closed_form(n as nat);
        }
    }
    n * (n + 1) / 2
}

} // verus!
