//! Which chunks lie within a distance of a point.
//!
//! The query walks a rectangle of lattice points around the circle, column by
//! column, and keeps the chunk at each point that is no further from the
//! centre than the distance. A chunk counts by the lattice point it hangs
//! from, not by the ground it covers; distances are compared by their exact
//! squares.

use vstd::prelude::*;
use crate::tricoord::{
    altitudes_of, fits_address, halfsides_of, is_chunk_address, lattice_address,
    lemma_address_round_trip, lemma_halfside_altitude_round_trip,
    wide_halfsides_altitude_to_tricoord, Coord, TriCoord, CHUNK_ALTITUDE, CHUNK_HALFSIDE,
};

verus! {

/// Half-side steps that the walk goes on past the right of the circle: as
/// many as half a chunk side has world units.
pub const SCAN_MARGIN_HALFSIDES: i64 = 8;

/// Altitude steps that the walk goes on past the top of the circle: as many
/// as a chunk altitude has whole world units.
pub const SCAN_MARGIN_ALTITUDES: i64 = 13;

/// The quotient of `n` by a positive `d`, rounded towards zero.
pub open spec fn div_toward_zero(n: int, d: int) -> int {
    if n >= 0 {
        n / d
    } else {
        -((-n) / d)
    }
}

/// First column of the walk.
pub open spec fn scan_left(point: Coord<i64>, distance: i64) -> int {
    div_toward_zero(point.x - distance, CHUNK_HALFSIDE as int)
}

/// The column after the last of the walk.
pub open spec fn scan_right(point: Coord<i64>, distance: i64) -> int {
    div_toward_zero(point.x + distance, CHUNK_HALFSIDE as int) + SCAN_MARGIN_HALFSIDES
}

/// First row of the walk.
pub open spec fn scan_bottom(point: Coord<i64>, distance: i64) -> int {
    div_toward_zero(point.z - distance, CHUNK_ALTITUDE as int)
}

/// The row after the last of the walk.
pub open spec fn scan_top(point: Coord<i64>, distance: i64) -> int {
    div_toward_zero(point.z + distance, CHUNK_ALTITUDE as int) + SCAN_MARGIN_ALTITUDES
}

/// The lattice point is no further from `point` than `distance`.
pub open spec fn within_distance(
    point: Coord<i64>,
    distance: i64,
    halfsides: int,
    altitudes: int,
) -> bool {
    let dx = halfsides * CHUNK_HALFSIDE - point.x;
    let dz = altitudes * CHUNK_ALTITUDE - point.z;
    dx * dx + dz * dz <= distance * distance
}

/// The lattice points of one column, rows `bottom` up to but not `top`, that
/// are within the distance, lowest first. A point is `(halfsides, altitudes)`.
pub open spec fn column_cells(
    point: Coord<i64>,
    distance: i64,
    halfsides: int,
    bottom: int,
    top: int,
) -> Seq<(int, int)>
    decreases top - bottom,
{
    if top <= bottom {
        Seq::empty()
    } else {
        let below = column_cells(point, distance, halfsides, bottom, top - 1);
        if within_distance(point, distance, halfsides, top - 1) {
            below.push((halfsides, top - 1))
        } else {
            below
        }
    }
}

/// The lattice points of columns `left` up to but not `right` that are within
/// the distance, leftmost column first.
pub open spec fn cells_in_scan(
    point: Coord<i64>,
    distance: i64,
    left: int,
    right: int,
    bottom: int,
    top: int,
) -> Seq<(int, int)>
    decreases right - left,
{
    if right <= left {
        Seq::empty()
    } else {
        cells_in_scan(point, distance, left, right - 1, bottom, top) + column_cells(
            point,
            distance,
            right - 1,
            bottom,
            top,
        )
    }
}

/// The lattice points that the query keeps, in the order of the walk.
pub open spec fn cells_within(point: Coord<i64>, distance: i64) -> Seq<(int, int)> {
    cells_in_scan(
        point,
        distance,
        scan_left(point, distance),
        scan_right(point, distance),
        scan_bottom(point, distance),
        scan_top(point, distance),
    )
}

/// The chunk that hangs from a lattice point.
pub open spec fn chunk_at(cell: (int, int)) -> TriCoord<i16> {
    lattice_address(cell.0, cell.1)
}

/// The chunks of a list of lattice points.
pub open spec fn chunks_at(cells: Seq<(int, int)>) -> Seq<TriCoord<i16>> {
    cells.map_values(|cell: (int, int)| chunk_at(cell))
}

/// What the query returns: the chunks of the lattice points it keeps.
pub open spec fn chunks_within(point: Coord<i64>, distance: i64) -> Seq<TriCoord<i16>> {
    chunks_at(cells_within(point, distance))
}

/// The lattice point lies in the rectangle that the query walks.
pub open spec fn in_scan(point: Coord<i64>, distance: i64, cell: (int, int)) -> bool {
    &&& scan_left(point, distance) <= cell.0 < scan_right(point, distance)
    &&& scan_bottom(point, distance) <= cell.1 < scan_top(point, distance)
}

/// The first lattice point comes before the second in the walk: it is in a
/// column further left, or lower in the same column.
pub open spec fn walked_before(first: (int, int), second: (int, int)) -> bool {
    first.0 < second.0 || (first.0 == second.0 && first.1 < second.1)
}

/// The anchor of a chunk, taken at its origin, is within the distance.
pub open spec fn anchor_within(point: Coord<i64>, distance: i64, t: TriCoord<i16>) -> bool {
    within_distance(point, distance, halfsides_of(t), altitudes_of(t))
}

proof fn lemma_square_order(p: int, q: int)
    by (nonlinear_arith)
    requires
        0 <= p,
        0 <= q,
    ensures
        p <= q <==> p * p <= q * q,
        0 <= p * p,
{
}

proof fn lemma_square_of_negation(p: int)
    by (nonlinear_arith)
    ensures
        (-p) * (-p) == p * p,
        0 <= p * p,
{
}

/// A column holds exactly its lattice points within the distance, from the
/// lowest to the highest.
#[verifier::rlimit(40)]
proof fn lemma_column_cells(
    point: Coord<i64>,
    distance: i64,
    halfsides: int,
    bottom: int,
    top: int,
)
    ensures
        forall|i: int|
            0 <= i < column_cells(point, distance, halfsides, bottom, top).len() ==> {
                let cell = #[trigger] column_cells(point, distance, halfsides, bottom, top)[i];
                &&& cell.0 == halfsides
                &&& bottom <= cell.1 < top
                &&& within_distance(point, distance, cell.0, cell.1)
            },
        forall|i: int, j: int|
            0 <= i < j < column_cells(point, distance, halfsides, bottom, top).len()
                ==> walked_before(
                #[trigger] column_cells(point, distance, halfsides, bottom, top)[i],
                #[trigger] column_cells(point, distance, halfsides, bottom, top)[j],
            ),
        forall|altitudes: int|
            bottom <= altitudes < top && #[trigger] within_distance(
                point,
                distance,
                halfsides,
                altitudes,
            ) ==> column_cells(point, distance, halfsides, bottom, top).contains(
                (halfsides, altitudes),
            ),
    decreases top - bottom,
{
    if top > bottom {
        lemma_column_cells(point, distance, halfsides, bottom, top - 1);
        let below = column_cells(point, distance, halfsides, bottom, top - 1);
        let column = column_cells(point, distance, halfsides, bottom, top);
        assert forall|altitudes: int|
            bottom <= altitudes < top && #[trigger] within_distance(
                point,
                distance,
                halfsides,
                altitudes,
            ) implies column.contains((halfsides, altitudes)) by {
            if altitudes == top - 1 {
                assert(column[below.len() as int] == (halfsides, altitudes));
            } else {
                assert(below.contains((halfsides, altitudes)));
                let j = choose|j: int| 0 <= j < below.len() && below[j] == (halfsides, altitudes);
                assert(column[j] == (halfsides, altitudes));
            }
        }
    }
}

/// A walk holds exactly the lattice points of its rectangle within the
/// distance, in the order walked.
#[verifier::rlimit(40)]
proof fn lemma_scan_cells(
    point: Coord<i64>,
    distance: i64,
    left: int,
    right: int,
    bottom: int,
    top: int,
)
    ensures
        forall|i: int|
            0 <= i < cells_in_scan(point, distance, left, right, bottom, top).len() ==> {
                let cell = #[trigger] cells_in_scan(point, distance, left, right, bottom, top)[i];
                &&& left <= cell.0 < right
                &&& bottom <= cell.1 < top
                &&& within_distance(point, distance, cell.0, cell.1)
            },
        forall|i: int, j: int|
            0 <= i < j < cells_in_scan(point, distance, left, right, bottom, top).len()
                ==> walked_before(
                #[trigger] cells_in_scan(point, distance, left, right, bottom, top)[i],
                #[trigger] cells_in_scan(point, distance, left, right, bottom, top)[j],
            ),
        forall|halfsides: int, altitudes: int|
            left <= halfsides < right && bottom <= altitudes < top && #[trigger] within_distance(
                point,
                distance,
                halfsides,
                altitudes,
            ) ==> cells_in_scan(point, distance, left, right, bottom, top).contains(
                (halfsides, altitudes),
            ),
    decreases right - left,
{
    if right > left {
        lemma_scan_cells(point, distance, left, right - 1, bottom, top);
        lemma_column_cells(point, distance, right - 1, bottom, top);
        let earlier = cells_in_scan(point, distance, left, right - 1, bottom, top);
        let column = column_cells(point, distance, right - 1, bottom, top);
        let scan = cells_in_scan(point, distance, left, right, bottom, top);
        assert(scan == earlier + column);
        assert forall|i: int| 0 <= i < scan.len() implies {
            let cell = #[trigger] scan[i];
            &&& left <= cell.0 < right
            &&& bottom <= cell.1 < top
            &&& within_distance(point, distance, cell.0, cell.1)
        } by {
            if i < earlier.len() {
                assert(scan[i] == earlier[i]);
            } else {
                assert(scan[i] == column[i - earlier.len()]);
            }
        }
        assert forall|i: int, j: int| 0 <= i < j < scan.len() implies walked_before(
            #[trigger] scan[i],
            #[trigger] scan[j],
        ) by {
            if j < earlier.len() {
                assert(scan[i] == earlier[i] && scan[j] == earlier[j]);
            } else if i < earlier.len() {
                assert(scan[i] == earlier[i]);
                assert(scan[j] == column[j - earlier.len()]);
            } else {
                assert(scan[i] == column[i - earlier.len()]);
                assert(scan[j] == column[j - earlier.len()]);
            }
        }
        assert forall|halfsides: int, altitudes: int|
            left <= halfsides < right && bottom <= altitudes < top && #[trigger] within_distance(
                point,
                distance,
                halfsides,
                altitudes,
            ) implies scan.contains((halfsides, altitudes)) by {
            let cell = (halfsides, altitudes);
            if halfsides == right - 1 {
                assert(column.contains(cell));
                let j = choose|j: int| 0 <= j < column.len() && column[j] == cell;
                assert(scan[earlier.len() + j] == cell);
            } else {
                assert(earlier.contains(cell));
                let j = choose|j: int| 0 <= j < earlier.len() && earlier[j] == cell;
                assert(scan[j] == cell);
            }
        }
    }
}

/// The walk misses no lattice point of the circle: with a distance that is
/// not negative, every lattice point within it lies in the rectangle walked.
pub proof fn lemma_scan_covers_circle(
    point: Coord<i64>,
    distance: i64,
    halfsides: int,
    altitudes: int,
)
    requires
        0 <= distance,
        within_distance(point, distance, halfsides, altitudes),
    ensures
        in_scan(point, distance, (halfsides, altitudes)),
{
    let dx = halfsides * CHUNK_HALFSIDE - point.x;
    let dz = altitudes * CHUNK_ALTITUDE - point.z;
    lemma_square_of_negation(dx);
    lemma_square_of_negation(dz);
    lemma_square_order(vstd::math::abs(dx) as int, distance as int);
    lemma_square_order(vstd::math::abs(dz) as int, distance as int);
    assert(-distance <= dx <= distance);
    assert(-distance <= dz <= distance);
}

/// What the query keeps, said without the walk: the lattice points of the
/// rectangle walked that are within the distance, each once, columns from
/// left to right and each column from bottom to top. With a distance that is
/// not negative these are the lattice points within the distance, all of them.
#[verifier::rlimit(40)]
pub proof fn lemma_query_keeps_the_circle(point: Coord<i64>, distance: i64)
    ensures
        chunks_within(point, distance).len() == cells_within(point, distance).len(),
        forall|i: int|
            0 <= i < cells_within(point, distance).len() ==> {
                let cell = #[trigger] cells_within(point, distance)[i];
                &&& in_scan(point, distance, cell)
                &&& within_distance(point, distance, cell.0, cell.1)
                &&& chunks_within(point, distance)[i] == chunk_at(cell)
            },
        forall|i: int, j: int|
            0 <= i < j < cells_within(point, distance).len() ==> walked_before(
                #[trigger] cells_within(point, distance)[i],
                #[trigger] cells_within(point, distance)[j],
            ),
        forall|halfsides: int, altitudes: int|
            in_scan(point, distance, (halfsides, altitudes)) && #[trigger] within_distance(
                point,
                distance,
                halfsides,
                altitudes,
            ) ==> cells_within(point, distance).contains((halfsides, altitudes)),
        0 <= distance ==> forall|halfsides: int, altitudes: int|
            #[trigger] within_distance(point, distance, halfsides, altitudes) ==> cells_within(
                point,
                distance,
            ).contains((halfsides, altitudes)),
{
    lemma_scan_cells(
        point,
        distance,
        scan_left(point, distance),
        scan_right(point, distance),
        scan_bottom(point, distance),
        scan_top(point, distance),
    );
    if 0 <= distance {
        assert forall|halfsides: int, altitudes: int|
            #[trigger] within_distance(point, distance, halfsides, altitudes) implies cells_within(
            point,
            distance,
        ).contains((halfsides, altitudes)) by {
            lemma_scan_covers_circle(point, distance, halfsides, altitudes);
        }
    }
}

/// Every chunk that the query returns is the chunk of a lattice point within
/// the distance, which is returned as `(halfsides, altitudes)`; and where that
/// point's address fits in 16 bits, the chunk's own anchor is within the
/// distance of the query's centre.
#[verifier::rlimit(40)]
pub proof fn lemma_query_chunk_is_near(point: Coord<i64>, distance: i64, i: int) -> (cell: (
    int,
    int,
))
    requires
        0 <= i < chunks_within(point, distance).len(),
    ensures
        within_distance(point, distance, cell.0, cell.1),
        chunks_within(point, distance)[i] == lattice_address(cell.0, cell.1),
        fits_address(cell.0, cell.1) ==> anchor_within(
            point,
            distance,
            chunks_within(point, distance)[i],
        ),
{
    lemma_scan_cells(
        point,
        distance,
        scan_left(point, distance),
        scan_right(point, distance),
        scan_bottom(point, distance),
        scan_top(point, distance),
    );
    let cell = cells_within(point, distance)[i];
    let chunk = chunks_within(point, distance)[i];
    assert(chunk == chunk_at(cell));
    if fits_address(cell.0, cell.1) {
        lemma_halfside_altitude_round_trip(cell.0, cell.1);
        assert(halfsides_of(chunk) == cell.0);
        assert(altitudes_of(chunk) == cell.1);
    }
    cell
}

/// The query omits no chunk in reach: with a distance that is not negative,
/// every chunk address whose anchor is within the distance of the query's
/// centre is among the chunks returned.
#[verifier::rlimit(40)]
pub proof fn lemma_query_finds_near_chunk(point: Coord<i64>, distance: i64, t: TriCoord<i16>)
    requires
        0 <= distance,
        is_chunk_address(t),
        anchor_within(point, distance, t),
    ensures
        chunks_within(point, distance).contains(t),
{
    lemma_address_round_trip(t);
    lemma_query_keeps_the_circle(point, distance);
    let cells = cells_within(point, distance);
    let cell = (halfsides_of(t), altitudes_of(t));
    assert(cells.contains(cell));
    let i = choose|i: int| 0 <= i < cells.len() && cells[i] == cell;
    assert(chunks_within(point, distance)[i] == t);
}

/// The size of a difference of two 64-bit numbers, the second scaled by a
/// lattice step.
fn offset_size(steps: i64, step: i64, origin: i64) -> (r: u128)
    requires
        0 < step <= 0x4_0000_0000,
    ensures
        r == vstd::math::abs(steps * step - origin),
{
    assert(-0x8000_0000_0000_0000 * step <= steps * step <= 0x8000_0000_0000_0000 * step)
        by (nonlinear_arith)
        requires
            -0x8000_0000_0000_0000 <= steps <= 0x8000_0000_0000_0000,
            0 < step,
    ;
    let offset: i128 = (steps as i128) * (step as i128) - (origin as i128);
    if offset < 0 {
        (-offset) as u128
    } else {
        offset as u128
    }
}

/// Whether a lattice point is within `distance` of `point`.
#[verifier::rlimit(40)]
pub fn lattice_point_within(point: Coord<i64>, distance: i64, halfsides: i64, altitudes: i64) -> (r:
    bool)
    ensures
        r == within_distance(point, distance, halfsides as int, altitudes as int),
{
    let reach: u128 = if distance < 0 {
        (-(distance as i128)) as u128
    } else {
        distance as u128
    };
    let across: u128 = offset_size(halfsides, CHUNK_HALFSIDE, point.x);
    let along: u128 = offset_size(altitudes, CHUNK_ALTITUDE, point.z);
    proof {
        let dx = halfsides * CHUNK_HALFSIDE - point.x;
        let dz = altitudes * CHUNK_ALTITUDE - point.z;
        lemma_square_of_negation(dx);
        lemma_square_of_negation(dz);
        lemma_square_of_negation(distance as int);
        assert(across * across == dx * dx);
        assert(along * along == dz * dz);
        assert(reach * reach == distance * distance);
        lemma_square_order(across as int, reach as int);
        lemma_square_order(along as int, reach as int);
        lemma_square_order(reach as int, 0x8000_0000_0000_0000);
    }
    if across > reach || along > reach {
        return false;
    }
    assert(across * across <= 0x4000_0000_0000_0000_0000_0000_0000_0000);
    assert(along * along <= 0x4000_0000_0000_0000_0000_0000_0000_0000);
    across * across + along * along <= reach * reach
}

/// The chunks within `distance` of `point`.
///
/// Walks the lattice points from the column left of the circle to a margin
/// past its right, and in each column from the row below the circle to a
/// margin past its top, and keeps the chunk at each point whose distance from
/// `point` is at most `distance`.
#[verifier::rlimit(40)]
pub fn tricoord_vec_gen_distance(point: Coord<i64>, distance: i64) -> (v: Vec<TriCoord<i16>>)
    ensures
        v@ == chunks_within(point, distance),
{
    let (x, z, reach): (i128, i128, i128) = (point.x as i128, point.z as i128, distance as i128);
    let half_side: i128 = CHUNK_HALFSIDE as i128;
    let altitude: i128 = CHUNK_ALTITUDE as i128;

    // how many half sides it takes to get to the leftmost point within the
    // distance, and so on for the other three sides
    let leftmost_half_side: i64 = ((x - reach) / half_side) as i64;
    let rightmost_half_side: i64 = ((x + reach) / half_side) as i64 + SCAN_MARGIN_HALFSIDES;
    let botmost_altitude: i64 = ((z - reach) / altitude) as i64;
    let topmost_altitude: i64 = ((z + reach) / altitude) as i64 + SCAN_MARGIN_ALTITUDES;
    assert(leftmost_half_side == scan_left(point, distance));
    assert(rightmost_half_side == scan_right(point, distance));
    assert(botmost_altitude == scan_bottom(point, distance));
    assert(topmost_altitude == scan_top(point, distance));

    let mut v: Vec<TriCoord<i16>> = Vec::new();
    let mut half_side_index: i64 = leftmost_half_side;
    while half_side_index < rightmost_half_side
        invariant
            -0x1_0000_0000 <= leftmost_half_side <= half_side_index,
            rightmost_half_side <= 0x1_0000_0000,
            half_side_index <= rightmost_half_side || half_side_index == leftmost_half_side,
            -0x1_0000_0000 <= botmost_altitude,
            topmost_altitude <= 0x1_0000_0000,
            v@ == chunks_at(
                cells_in_scan(
                    point,
                    distance,
                    leftmost_half_side as int,
                    half_side_index as int,
                    botmost_altitude as int,
                    topmost_altitude as int,
                ),
            ),
        decreases rightmost_half_side - half_side_index,
    {
        let ghost before = cells_in_scan(
            point,
            distance,
            leftmost_half_side as int,
            half_side_index as int,
            botmost_altitude as int,
            topmost_altitude as int,
        );
        let mut altitude_index: i64 = botmost_altitude;
        while altitude_index < topmost_altitude
            invariant
                -0x1_0000_0000 <= half_side_index <= 0x1_0000_0000,
                -0x1_0000_0000 <= botmost_altitude <= altitude_index,
                topmost_altitude <= 0x1_0000_0000,
                altitude_index <= topmost_altitude || altitude_index == botmost_altitude,
                v@ == chunks_at(
                    before + column_cells(
                        point,
                        distance,
                        half_side_index as int,
                        botmost_altitude as int,
                        altitude_index as int,
                    ),
                ),
            decreases topmost_altitude - altitude_index,
        {
            let ghost column = column_cells(
                point,
                distance,
                half_side_index as int,
                botmost_altitude as int,
                altitude_index as int,
            );
            if lattice_point_within(point, distance, half_side_index, altitude_index) {
                v.push(wide_halfsides_altitude_to_tricoord(half_side_index, altitude_index));
                assert(v@ =~= chunks_at(
                    before + column.push((half_side_index as int, altitude_index as int)),
                ));
            }
            altitude_index = altitude_index + 1;
        }
        assert(column_cells(
            point,
            distance,
            half_side_index as int,
            botmost_altitude as int,
            altitude_index as int,
        ) == column_cells(
            point,
            distance,
            half_side_index as int,
            botmost_altitude as int,
            topmost_altitude as int,
        ));
        half_side_index = half_side_index + 1;
    }
    v
}

} // verus!
