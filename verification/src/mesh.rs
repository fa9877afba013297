//! The mesh of one chunk: where its vertices stand, which way its faces look,
//! in what order its corners are drawn and how they are tinted.
//!
//! A chunk is a triangle of `CHUNK_SIDE` rows of small triangles. Row `r` has
//! `2 (CHUNK_SIDE - r) - 1` of them, alternately standing on their base and on
//! their tip. Every corner of every small triangle sits on a cell of the
//! height field: the cell's column fixes its x, the cell's row its z and the
//! cell's sample its height. No corner is shared: each triangle brings its own
//! three vertices, so that each can carry its own face normal.

use vstd::prelude::*;
use crate::error::TerrainError;
use crate::height_field::{height_of, map_noise_to_height, HeightField, FIELD_SIDE};
use crate::tricoord::{
    anchor_x, anchor_z, trichunk_to_coord, AnchorMode, Coord, TriCoord,
    CHUNK_SIDE, TRI_ALTITUDE, TRI_HALFSIDE, TRI_HALF_ALT, TRI_SIDE, WORLD_UNIT,
};

verus! {

/// Small triangles in a chunk.
pub const TRIANGLES_PER_CHUNK: usize = 256;

/// Vertices in a chunk's mesh, three to a triangle.
pub const VERTICES_PER_CHUNK: usize = 768;

/// A position in the chunk's own frame, in fixed-point world lengths. `y` is
/// up.
#[derive(Copy, Clone, Debug, PartialEq, Eq, Structural)]
pub struct Vertex {
    pub x: i64,
    pub y: i64,
    pub z: i64,
}

/// Small triangles in row `row` of a chunk.
pub open spec fn row_triangles(row: int) -> int {
    (CHUNK_SIDE - (row + 1)) * 2 + 1
}

/// Small triangles in the rows before `row`.
pub open spec fn row_start(row: int) -> int {
    row * (2 * CHUNK_SIDE - row)
}

/// The cell of the height field, as `(row, column)`, under corner `slot` of
/// the small triangle `col` of row `row`.
///
/// A triangle on its base lists its left, right and far corner; one on its tip
/// lists its near, far right and far left corner. In a chunk of orientation 0
/// the rows start at the last row of the field and the far side is two rows
/// down; in a chunk of orientation 1 they start at the first and the far side
/// is two rows up.
pub open spec fn vertex_cell(odd: bool, row: int, col: int, slot: int) -> (int, int) {
    let near = if odd {
        2 * row
    } else {
        2 * CHUNK_SIDE - 2 * row
    };
    let far = if odd {
        near + 2
    } else {
        near - 2
    };
    let left = row + col;
    if col % 2 == 0 {
        if slot == 0 {
            (near, left)
        } else if slot == 1 {
            (near, left + 2)
        } else {
            (far, left + 1)
        }
    } else {
        if slot == 0 {
            (near, left + 1)
        } else if slot == 1 {
            (far, left + 2)
        } else {
            (far, left)
        }
    }
}

/// World x, in the chunk's frame, of a column of the height field.
pub open spec fn cell_x(col: int) -> int {
    (col - CHUNK_SIDE) * TRI_HALFSIDE
}

/// World z, in the chunk's frame, of a row of the height field.
pub open spec fn cell_z(row: int) -> int {
    (row - CHUNK_SIDE) * TRI_HALF_ALT
}

/// The vertex that stands on a cell of the height field.
pub open spec fn vertex_on_cell(field: HeightField, cell: (int, int)) -> Vertex {
    Vertex {
        x: cell_x(cell.1) as i64,
        y: height_of(field.at(cell.0, cell.1) as int) as i64,
        z: cell_z(cell.0) as i64,
    }
}

/// The three vertices of one small triangle.
pub open spec fn triangle_vertices(field: HeightField, odd: bool, row: int, col: int) -> Seq<
    Vertex,
> {
    seq![
        vertex_on_cell(field, vertex_cell(odd, row, col, 0)),
        vertex_on_cell(field, vertex_cell(odd, row, col, 1)),
        vertex_on_cell(field, vertex_cell(odd, row, col, 2)),
    ]
}

/// The vertices of the first `cols` small triangles of a row.
pub open spec fn row_vertices(field: HeightField, odd: bool, row: int, cols: int) -> Seq<Vertex>
    decreases cols,
{
    if cols <= 0 {
        Seq::empty()
    } else {
        row_vertices(field, odd, row, cols - 1) + triangle_vertices(field, odd, row, cols - 1)
    }
}

/// The vertices of the first `rows` rows of a chunk.
pub open spec fn rows_vertices(field: HeightField, odd: bool, rows: int) -> Seq<Vertex>
    decreases rows,
{
    if rows <= 0 {
        Seq::empty()
    } else {
        rows_vertices(field, odd, rows - 1) + row_vertices(
            field,
            odd,
            rows - 1,
            row_triangles(rows - 1),
        )
    }
}

/// The vertices of a chunk's mesh: row by row, triangle by triangle, corner by
/// corner.
pub open spec fn mesh_vertices(field: HeightField, odd: bool) -> Seq<Vertex> {
    rows_vertices(field, odd, CHUNK_SIDE as int)
}

/// Every corner of every small triangle sits on a cell of the window that
/// the mesh reads.
pub proof fn lemma_vertex_cell_in_window(odd: bool, row: int, col: int, slot: int)
    requires
        0 <= row < CHUNK_SIDE,
        0 <= col < row_triangles(row),
        0 <= slot < 3,
    ensures
        0 <= vertex_cell(odd, row, col, slot).0 < FIELD_SIDE,
        0 <= vertex_cell(odd, row, col, slot).1 < FIELD_SIDE,
{
}

/// The vertex on a cell of the field, at the place worked out for it.
fn vertex_from_sample(noise_map: &HeightField, row: i64, col: i64, x: i64, z: i64) -> (r: Result<
    Vertex,
    TerrainError,
>)
    requires
        noise_map.is_chunk_window(),
        0 <= row < FIELD_SIDE,
        0 <= col < FIELD_SIDE,
        x == cell_x(col as int),
        z == cell_z(row as int),
    ensures
        r == Ok::<Vertex, TerrainError>(vertex_on_cell(*noise_map, (row as int, col as int))),
{
    match noise_map.sample(row as usize, col as usize) {
        Ok(value) => Ok(Vertex { x, y: map_noise_to_height(value), z }),
        Err(e) => Err(e),
    }
}

/// The vertices of a chunk's mesh, three for each small triangle, or the
/// failure to build them from a height field that is not exactly the window
/// read: no field of another size, smaller or larger, is read at all.
#[verifier::rlimit(40)]
pub fn generate_vertices_3s(noise_map: &HeightField, odd: bool) -> (r: Result<
    Vec<Vertex>,
    TerrainError,
>)
    ensures
        match r {
            Ok(v) => noise_map.is_chunk_window() && v@ == mesh_vertices(*noise_map, odd),
            Err(e) => !noise_map.is_chunk_window() && e == (TerrainError::FieldSize {
                rows: noise_map.rows() as usize,
                cols: noise_map.cols() as usize,
            }),
        },
{
    if noise_map.row_count() != FIELD_SIDE || noise_map.col_count() != FIELD_SIDE {
        return Err(
            TerrainError::FieldSize {
                rows: noise_map.row_count(),
                cols: noise_map.col_count(),
            },
        );
    }
    let mut v: Vec<Vertex> = Vec::with_capacity(VERTICES_PER_CHUNK);

    let chunk_side: i64 = CHUNK_SIDE as i64;
    let origin_offset_x: i64 = (chunk_side / 2) * TRI_SIDE;
    let (z_alt, z_halfalt, z_noise_augmenter, z_noise_start, origin_offset_z): (
        i64,
        i64,
        i64,
        i64,
        i64,
    ) = if !odd {
        (-TRI_ALTITUDE, -TRI_HALF_ALT, -2, 2 * chunk_side, -(chunk_side / 2) * TRI_ALTITUDE)
    } else {
        (TRI_ALTITUDE, TRI_HALF_ALT, 2, 0, (chunk_side / 2) * TRI_ALTITUDE)
    };

    let mut row_index: i64 = 0;
    while row_index < chunk_side
        invariant
            noise_map.is_chunk_window(),
            chunk_side == CHUNK_SIDE,
            origin_offset_x == 8 * TRI_SIDE,
            odd ==> z_alt == TRI_ALTITUDE && z_halfalt == TRI_HALF_ALT && z_noise_augmenter == 2
                && z_noise_start == 0 && origin_offset_z == 8 * TRI_ALTITUDE,
            !odd ==> z_alt == -TRI_ALTITUDE && z_halfalt == -TRI_HALF_ALT && z_noise_augmenter
                == -2 && z_noise_start == 32 && origin_offset_z == -8 * TRI_ALTITUDE,
            0 <= row_index <= chunk_side,
            v@ == rows_vertices(*noise_map, odd, row_index as int),
        decreases chunk_side - row_index,
    {
        let ghost before = v@;
        let x_row_offset: i64 = row_index * TRI_HALFSIDE + TRI_HALFSIDE;
        let col_max: i64 = ((chunk_side - (row_index + 1)) * 2) + 1;
        let mut col_index: i64 = 0;
        while col_index < col_max
            invariant
                noise_map.is_chunk_window(),
                chunk_side == CHUNK_SIDE,
                origin_offset_x == 8 * TRI_SIDE,
                odd ==> z_alt == TRI_ALTITUDE && z_halfalt == TRI_HALF_ALT && z_noise_augmenter
                    == 2 && z_noise_start == 0 && origin_offset_z == 8 * TRI_ALTITUDE,
                !odd ==> z_alt == -TRI_ALTITUDE && z_halfalt == -TRI_HALF_ALT
                    && z_noise_augmenter == -2 && z_noise_start == 32 && origin_offset_z == -8
                    * TRI_ALTITUDE,
                0 <= row_index < chunk_side,
                x_row_offset == row_index * TRI_HALFSIDE + TRI_HALFSIDE,
                col_max == row_triangles(row_index as int),
                0 <= col_index <= col_max,
                v@ == before + row_vertices(*noise_map, odd, row_index as int, col_index as int),
            decreases col_max - col_index,
        {
            let z_col_offset: i64 = (row_index * z_alt) + z_alt / 2;
            let x_base: i64 = -origin_offset_x + x_row_offset + col_index * TRI_HALFSIDE;
            let z_base: i64 = -origin_offset_z + z_col_offset;

            let x_noise_base: i64 = row_index + col_index;
            let z_noise_base: i64 = z_noise_start + z_noise_augmenter * row_index;

            let ghost row_so_far = row_vertices(
                *noise_map,
                odd,
                row_index as int,
                col_index as int,
            );
            let corners: (Vertex, Vertex, Vertex) = if col_index % 2 == 0 {
                // a triangle on its base: left, right and far corner
                let left = vertex_from_sample(
                    noise_map,
                    z_noise_base,
                    x_noise_base,
                    x_base - TRI_HALFSIDE,
                    z_base - z_halfalt,
                )?;
                let right = vertex_from_sample(
                    noise_map,
                    z_noise_base,
                    x_noise_base + 2,
                    x_base + TRI_HALFSIDE,
                    z_base - z_halfalt,
                )?;
                let altitude = vertex_from_sample(
                    noise_map,
                    z_noise_base + z_noise_augmenter,
                    x_noise_base + 1,
                    x_base,
                    z_base + z_halfalt,
                )?;
                (left, right, altitude)
            } else {
                // a triangle on its tip: near, far right and far left corner
                let altitude = vertex_from_sample(
                    noise_map,
                    z_noise_base,
                    x_noise_base + 1,
                    x_base,
                    z_base - z_halfalt,
                )?;
                let right = vertex_from_sample(
                    noise_map,
                    z_noise_base + z_noise_augmenter,
                    x_noise_base + 2,
                    x_base + TRI_HALFSIDE,
                    z_base + z_halfalt,
                )?;
                let left = vertex_from_sample(
                    noise_map,
                    z_noise_base + z_noise_augmenter,
                    x_noise_base,
                    x_base - TRI_HALFSIDE,
                    z_base + z_halfalt,
                )?;
                (altitude, right, left)
            };
            v.push(corners.0);
            v.push(corners.1);
            v.push(corners.2);
            proof {
                let triangle = triangle_vertices(
                    *noise_map,
                    odd,
                    row_index as int,
                    col_index as int,
                );
                assert(triangle =~= seq![corners.0, corners.1, corners.2]);
                assert(v@ =~= before + (row_so_far + triangle));
            }
            col_index = col_index + 1;
        }
        row_index = row_index + 1;
    }
    Ok(v)
}

/// The cross product of two edges of a triangle, its size not brought to one:
/// the direction its face looks in when its corners are taken in this order.
#[derive(Copy, Clone, Debug, PartialEq, Eq, Structural)]
pub struct Normal {
    pub x: i128,
    pub y: i128,
    pub z: i128,
}

/// A tint, each channel a fixed-point number with nine decimals.
#[derive(Copy, Clone, Debug, PartialEq, Eq, Structural)]
pub struct Color {
    pub r: i64,
    pub g: i64,
    pub b: i64,
    pub a: i64,
}

/// Largest size of a coordinate for which normals are worked out: products
/// of two differences of such coordinates, and the difference of two such
/// products, still fit in 128 bits.
pub const COORDINATE_LIMIT: i64 = 0x2000_0000_0000_0000;

impl Vertex {
    /// No coordinate exceeds `COORDINATE_LIMIT` in size.
    pub open spec fn in_range(self) -> bool {
        &&& -COORDINATE_LIMIT <= self.x <= COORDINATE_LIMIT
        &&& -COORDINATE_LIMIT <= self.y <= COORDINATE_LIMIT
        &&& -COORDINATE_LIMIT <= self.z <= COORDINATE_LIMIT
    }
}

/// Every vertex of the sequence is in range.
pub open spec fn all_in_range(vertices: Seq<Vertex>) -> bool {
    forall|i: int| 0 <= i < vertices.len() ==> (#[trigger] vertices[i]).in_range()
}

/// The cross product of the edges from `v0` to `v1` and from `v0` to `v2`.
#[verifier::opaque]
pub open spec fn cross_of(v0: Vertex, v1: Vertex, v2: Vertex) -> Normal {
    let (e1x, e1y, e1z) = (v1.x - v0.x, v1.y - v0.y, v1.z - v0.z);
    let (e2x, e2y, e2z) = (v2.x - v0.x, v2.y - v0.y, v2.z - v0.z);
    Normal {
        x: (e1y * e2z - e1z * e2y) as i128,
        y: (e1z * e2x - e1x * e2z) as i128,
        z: (e1x * e2y - e1y * e2x) as i128,
    }
}

/// The normal of face `face` of a list of triangles. In a chunk of
/// orientation 1 the first two corners change places, which keeps the face
/// looking the same way as in its mirror image of orientation 0.
pub open spec fn face_normal(vertices: Seq<Vertex>, odd: bool, face: int) -> Normal {
    if odd {
        cross_of(vertices[3 * face + 1], vertices[3 * face], vertices[3 * face + 2])
    } else {
        cross_of(vertices[3 * face], vertices[3 * face + 1], vertices[3 * face + 2])
    }
}

/// One normal for each vertex of each whole triangle: that of its face.
pub open spec fn normals_of(vertices: Seq<Vertex>, odd: bool) -> Seq<Normal> {
    Seq::new((vertices.len() / 3 * 3) as nat, |k: int| face_normal(vertices, odd, k / 3))
}

/// The vertex drawn in place `k`. A chunk of orientation 0 draws its vertices
/// as they come; one of orientation 1 draws the first two corners of each
/// triangle the other way round.
pub open spec fn assignment(odd: bool, k: int) -> int {
    if !odd {
        k
    } else if k % 3 == 0 {
        k + 1
    } else if k % 3 == 1 {
        k - 1
    } else {
        k
    }
}

/// The order in which the vertices of a chunk are drawn.
pub open spec fn assignments(odd: bool) -> Seq<u16> {
    Seq::new(VERTICES_PER_CHUNK as nat, |k: int| assignment(odd, k) as u16)
}

/// The tint of a vertex: red falls with z, green falls and blue rises with x,
/// none goes under zero.
pub open spec fn color_of(position: Vertex) -> Color {
    Color {
        r: (if WORLD_UNIT - position.z < 0 {
            0
        } else {
            WORLD_UNIT - position.z
        }) as i64,
        g: (if WORLD_UNIT - position.x < 0 {
            0
        } else {
            WORLD_UNIT - position.x
        }) as i64,
        b: (if WORLD_UNIT + position.x < 0 {
            0
        } else {
            WORLD_UNIT + position.x
        }) as i64,
        a: WORLD_UNIT,
    }
}

/// The three channels of the vertex's tint that depend on its position fit
/// in 64 bits.
pub open spec fn tint_fits(position: Vertex) -> bool {
    &&& WORLD_UNIT - position.z <= i64::MAX
    &&& WORLD_UNIT - position.x <= i64::MAX
    &&& WORLD_UNIT + position.x <= i64::MAX
}

/// The tints of a list of vertices.
pub open spec fn colors_of(vertices: Seq<Vertex>) -> Seq<Color> {
    Seq::new(vertices.len(), |k: int| color_of(vertices[k]))
}

/// The product of two differences of coordinates in range.
fn edge_product(p: i128, q: i128) -> (r: i128)
    requires
        -2 * COORDINATE_LIMIT <= p <= 2 * COORDINATE_LIMIT,
        -2 * COORDINATE_LIMIT <= q <= 2 * COORDINATE_LIMIT,
    ensures
        r == p * q,
        -0x1000_0000_0000_0000_0000_0000_0000_0000 <= r <= 0x1000_0000_0000_0000_0000_0000_0000_0000,
{
    assert(-0x1000_0000_0000_0000_0000_0000_0000_0000 <= p * q
        <= 0x1000_0000_0000_0000_0000_0000_0000_0000) by (nonlinear_arith)
        requires
            -0x4000_0000_0000_0000 <= p <= 0x4000_0000_0000_0000,
            -0x4000_0000_0000_0000 <= q <= 0x4000_0000_0000_0000,
    ;
    p * q
}

/// The direction a triangle faces: the cross product of its edges from `v0`.
pub fn calculate_normal(v0: Vertex, v1: Vertex, v2: Vertex) -> (normal: Normal)
    requires
        v0.in_range(),
        v1.in_range(),
        v2.in_range(),
    ensures
        normal == cross_of(v0, v1, v2),
{
    reveal(cross_of);
    let edge1_x: i128 = v1.x as i128 - v0.x as i128;
    let edge1_y: i128 = v1.y as i128 - v0.y as i128;
    let edge1_z: i128 = v1.z as i128 - v0.z as i128;
    let edge2_x: i128 = v2.x as i128 - v0.x as i128;
    let edge2_y: i128 = v2.y as i128 - v0.y as i128;
    let edge2_z: i128 = v2.z as i128 - v0.z as i128;

    Normal {
        x: edge_product(edge1_y, edge2_z) - edge_product(edge1_z, edge2_y),
        y: edge_product(edge1_z, edge2_x) - edge_product(edge1_x, edge2_z),
        z: edge_product(edge1_x, edge2_y) - edge_product(edge1_y, edge2_x),
    }
}

/// The normals of a list of triangles given corner by corner, one for each
/// vertex: all three vertices of a triangle get the normal of its face.
/// Vertices left over after the last whole triangle get none.
pub fn generate_normals_from_trimesh(vertices: &Vec<Vertex>, odd: bool) -> (v: Vec<Normal>)
    requires
        all_in_range(vertices@),
    ensures
        v@ == normals_of(vertices@, odd),
{
    let mut v: Vec<Normal> = Vec::with_capacity(vertices.len());
    let faces: usize = vertices.len() / 3;
    let mut index: usize = 0;
    while index < faces
        invariant
            all_in_range(vertices@),
            vertices@.len() <= usize::MAX,
            faces == vertices@.len() / 3,
            index <= faces,
            v@.len() == 3 * index,
            forall|k: int| 0 <= k < v@.len() ==> v@[k] == face_normal(vertices@, odd, k / 3),
        decreases faces - index,
    {
        let normal = if !odd {
            calculate_normal(vertices[index * 3], vertices[index * 3 + 1], vertices[index * 3 + 2])
        } else {
            calculate_normal(vertices[index * 3 + 1], vertices[index * 3], vertices[index * 3 + 2])
        };
        v.push(normal);
        v.push(normal);
        v.push(normal);
        index = index + 1;
    }
    assert(v@ =~= normals_of(vertices@, odd));
    v
}

/// The order in which the vertices of a chunk are drawn.
pub fn generate_assignments(odd: bool) -> (v: Vec<u16>)
    ensures
        v@ == assignments(odd),
{
    let side: usize = CHUNK_SIDE as usize;
    assert(side * side == 256) by (nonlinear_arith)
        requires
            side == 16,
    ;
    let size: usize = side * side * 3;
    let mut v: Vec<u16> = Vec::with_capacity(size);
    if !odd {
        let mut index: usize = 0;
        while index < size
            invariant
                size == VERTICES_PER_CHUNK,
                !odd,
                index <= size,
                v@.len() == index,
                forall|k: int| 0 <= k < index ==> v@[k] == assignment(odd, k),
            decreases size - index,
        {
            v.push(index as u16);
            index = index + 1;
        }
    } else {
        let mut index: usize = 0;
        while index < size / 3
            invariant
                size == VERTICES_PER_CHUNK,
                odd,
                index <= size / 3,
                v@.len() == 3 * index,
                forall|k: int| 0 <= k < 3 * index ==> v@[k] == assignment(odd, k),
            decreases size / 3 - index,
        {
            v.push((index * 3 + 1) as u16);
            v.push((index * 3) as u16);
            v.push((index * 3 + 2) as u16);
            index = index + 1;
        }
    }
    assert(v@ =~= assignments(odd));
    v
}

/// The tint of a vertex. The three channels have to fit in 64 bits.
pub fn vertex_color(position: Vertex) -> (color: Color)
    requires
        tint_fits(position),
    ensures
        color == color_of(position),
{
    let min: i128 = 0;
    let unit: i128 = WORLD_UNIT as i128;
    let r: i128 = clamp_min(unit - position.z as i128, min);
    let g: i128 = clamp_min(unit - position.x as i128, min);
    let b: i128 = clamp_min(unit + position.x as i128, min);
    Color { r: r as i64, g: g as i64, b: b as i64, a: WORLD_UNIT }
}

/// `value`, or `min` where `value` is under it.
fn clamp_min(value: i128, min: i128) -> (r: i128)
    ensures
        r == if value < min {
            min
        } else {
            value
        },
{
    if value < min {
        min
    } else {
        value
    }
}

/// The tints of a list of vertices, each of which has to fit.
pub fn generate_colors(positions: &Vec<Vertex>) -> (colors: Vec<Color>)
    requires
        forall|k: int| 0 <= k < positions@.len() ==> tint_fits(#[trigger] positions@[k]),
    ensures
        colors@ == colors_of(positions@),
{
    let mut colors: Vec<Color> = Vec::with_capacity(positions.len());
    let mut index: usize = 0;
    while index < positions.len()
        invariant
            forall|k: int| 0 <= k < positions@.len() ==> tint_fits(#[trigger] positions@[k]),
            index <= positions@.len(),
            colors@.len() == index,
            forall|k: int| 0 <= k < index ==> colors@[k] == color_of(positions@[k]),
        decreases positions@.len() - index,
    {
        colors.push(vertex_color(positions[index]));
        index = index + 1;
    }
    assert(colors@ =~= colors_of(positions@));
    colors
}

/// What is drawn for one chunk.
#[derive(Debug)]
pub struct ChunkMesh {
    /// Where each vertex stands, in the chunk's own frame.
    pub positions: Vec<Vertex>,
    /// For each vertex the normal of the one face it belongs to.
    pub normals: Vec<Normal>,
    /// The order in which the vertices are drawn, three to a triangle.
    pub indices: Vec<u16>,
    /// The tint of each vertex.
    pub colors: Vec<Color>,
}

/// The orientation that the mesh builder reads off an address: 1 unless the
/// three axes sum to zero.
pub open spec fn is_odd_chunk(t: TriCoord<i16>) -> bool {
    t.a + t.b + t.c != 0
}

/// `mesh` is the mesh of a chunk of the given orientation over `field`.
pub open spec fn is_mesh_of(mesh: ChunkMesh, field: HeightField, odd: bool) -> bool {
    &&& mesh.positions@ == mesh_vertices(field, odd)
    &&& mesh.normals@ == normals_of(mesh_vertices(field, odd), odd)
    &&& mesh.indices@ == assignments(odd)
    &&& mesh.colors@ == colors_of(mesh_vertices(field, odd))
}

/// The mesh of a chunk over its height field, or the failure to build it from
/// a height field that is not exactly the window read.
pub fn generate_mesh(chunk_tricoord: &TriCoord<i16>, noise_map: &HeightField) -> (r: Result<
    ChunkMesh,
    TerrainError,
>)
    ensures
        match r {
            Ok(mesh) => {
                &&& noise_map.is_chunk_window()
                &&& is_mesh_of(mesh, *noise_map, is_odd_chunk(*chunk_tricoord))
                &&& mesh.positions@.len() == VERTICES_PER_CHUNK
                &&& mesh.normals@.len() == VERTICES_PER_CHUNK
                &&& mesh.indices@.len() == VERTICES_PER_CHUNK
                &&& mesh.colors@.len() == VERTICES_PER_CHUNK
            },
            Err(e) => !noise_map.is_chunk_window() && e == (TerrainError::FieldSize {
                rows: noise_map.rows() as usize,
                cols: noise_map.cols() as usize,
            }),
        },
{
    let odd: bool = chunk_tricoord.a as i32 + chunk_tricoord.b as i32 + chunk_tricoord.c as i32
        != 0;
    let vertices = generate_vertices_3s(noise_map, odd)?;
    proof {
        lemma_mesh_vertices_shape(*noise_map, odd);
    }
    let normals = generate_normals_from_trimesh(&vertices, odd);
    let assignments = generate_assignments(odd);
    let colors = generate_colors(&vertices);
    Ok(ChunkMesh { positions: vertices, normals, indices: assignments, colors })
}

/// A finished chunk: its address, where its mesh is to be placed, and the
/// mesh.
#[derive(Debug)]
pub struct ChunkData {
    pub tricoord: TriCoord<i16>,
    pub xy_coord: Coord<i64>,
    pub mesh: ChunkMesh,
}

/// Builds a chunk from its address and its height field, or fails where the
/// height field is not exactly the window read.
pub fn create_chunk_data(tricoord: TriCoord<i16>, noise_map: &HeightField) -> (r: Result<
    ChunkData,
    TerrainError,
>)
    ensures
        match r {
            Ok(data) => {
                &&& noise_map.is_chunk_window()
                &&& data.tricoord == tricoord
                &&& data.xy_coord.x == anchor_x(tricoord, AnchorMode::ChunkOrigin)
                &&& data.xy_coord.z == anchor_z(tricoord, AnchorMode::ChunkOrigin)
                &&& is_mesh_of(data.mesh, *noise_map, is_odd_chunk(tricoord))
            },
            Err(e) => !noise_map.is_chunk_window() && e == (TerrainError::FieldSize {
                rows: noise_map.rows() as usize,
                cols: noise_map.cols() as usize,
            }),
        },
{
    let chunk_coord = trichunk_to_coord(tricoord, AnchorMode::ChunkOrigin);
    let terrain_mesh = generate_mesh(&tricoord, noise_map)?;
    Ok(ChunkData { tricoord, xy_coord: chunk_coord, mesh: terrain_mesh })
}

proof fn lemma_row_vertices_len(field: HeightField, odd: bool, row: int, cols: int)
    requires
        0 <= cols,
    ensures
        row_vertices(field, odd, row, cols).len() == 3 * cols,
    decreases cols,
{
    if cols > 0 {
        lemma_row_vertices_len(field, odd, row, cols - 1);
    }
}

proof fn lemma_row_vertex_place(
    field: HeightField,
    odd: bool,
    row: int,
    cols: int,
    col: int,
    slot: int,
)
    requires
        0 <= col < cols,
        0 <= slot < 3,
    ensures
        row_vertices(field, odd, row, cols)[3 * col + slot] == vertex_on_cell(
            field,
            vertex_cell(odd, row, col, slot),
        ),
    decreases cols,
{
    lemma_row_vertices_len(field, odd, row, cols - 1);
    let before = row_vertices(field, odd, row, cols - 1);
    let triangle = triangle_vertices(field, odd, row, cols - 1);
    assert(row_vertices(field, odd, row, cols) == before + triangle);
    if col < cols - 1 {
        lemma_row_vertex_place(field, odd, row, cols - 1, col, slot);
        assert((before + triangle)[3 * col + slot] == before[3 * col + slot]);
    } else {
        assert((before + triangle)[3 * col + slot] == triangle[slot]);
    }
}

#[verifier::rlimit(40)]
proof fn lemma_rows_vertex_place(
    field: HeightField,
    odd: bool,
    rows: int,
    row: int,
    col: int,
    slot: int,
)
    requires
        0 <= row < rows <= CHUNK_SIDE,
        0 <= col < row_triangles(row),
        0 <= slot < 3,
    ensures
        rows_vertices(field, odd, rows).len() == 3 * row_start(rows),
        0 <= 3 * (row_start(row) + col) + slot < 3 * row_start(rows),
        rows_vertices(field, odd, rows)[3 * (row_start(row) + col) + slot] == vertex_on_cell(
            field,
            vertex_cell(odd, row, col, slot),
        ),
    decreases rows,
{
    lemma_rows_look_up(field, odd, rows);
    lemma_rows_look_up(field, odd, rows - 1);
    let before = rows_vertices(field, odd, rows - 1);
    let last = row_vertices(field, odd, rows - 1, row_triangles(rows - 1));
    lemma_row_vertices_len(field, odd, rows - 1, row_triangles(rows - 1));
    assert(rows_vertices(field, odd, rows) == before + last);
    let place = 3 * (row_start(row) + col) + slot;
    if row < rows - 1 {
        lemma_rows_vertex_place(field, odd, rows - 1, row, col, slot);
        assert((before + last)[place] == before[place]);
    } else {
        lemma_row_vertex_place(field, odd, row, row_triangles(row), col, slot);
        assert(0 <= row_start(row)) by (nonlinear_arith)
            requires
                0 <= row <= 16,
                row_start(row) == row * (32 - row),
        ;
        assert((before + last)[place] == last[3 * col + slot]);
    }
}

/// Where each vertex of a chunk's mesh stands: corner `slot` of the small
/// triangle `col` of row `row` is vertex `3 (row_start(row) + col) + slot`,
/// and it stands on the cell of the height field that `vertex_cell` names.
pub proof fn lemma_mesh_vertex_place(field: HeightField, odd: bool, row: int, col: int, slot: int)
    requires
        0 <= row < CHUNK_SIDE,
        0 <= col < row_triangles(row),
        0 <= slot < 3,
    ensures
        0 <= 3 * (row_start(row) + col) + slot < VERTICES_PER_CHUNK,
        mesh_vertices(field, odd)[3 * (row_start(row) + col) + slot] == vertex_on_cell(
            field,
            vertex_cell(odd, row, col, slot),
        ),
{
    lemma_rows_vertex_place(field, odd, CHUNK_SIDE as int, row, col, slot);
    assert(row_start(16) == 256) by (nonlinear_arith)
        requires
            row_start(16) == 16 * (32 - 16),
    ;
}

/// Two meshes built for one chunk over one height field are the same, list
/// for list: the mesh depends on nothing else.
pub proof fn lemma_meshes_of_one_chunk_agree(
    first: ChunkMesh,
    second: ChunkMesh,
    field: HeightField,
    odd: bool,
)
    requires
        is_mesh_of(first, field, odd),
        is_mesh_of(second, field, odd),
    ensures
        first.positions@ == second.positions@,
        first.normals@ == second.normals@,
        first.indices@ == second.indices@,
        first.colors@ == second.colors@,
{
}

/// The y of every face normal of a chunk: twice the area of a small triangle.
pub open spec fn face_lift() -> int {
    TRI_SIDE * TRI_ALTITUDE
}

/// The list is made of whole triangles, its vertices are in range, and every
/// face looks up by the same amount.
pub open spec fn faces_look_up(vertices: Seq<Vertex>, odd: bool) -> bool {
    &&& vertices.len() % 3 == 0
    &&& all_in_range(vertices)
    &&& forall|face: int|
        0 <= face < vertices.len() / 3 ==> (#[trigger] face_normal(vertices, odd, face)).y
            == face_lift()
}

#[verifier::rlimit(40)]
proof fn lemma_faces_look_up_concat(first: Seq<Vertex>, second: Seq<Vertex>, odd: bool)
    requires
        faces_look_up(first, odd),
        faces_look_up(second, odd),
    ensures
        faces_look_up(first + second, odd),
{
    let both = first + second;
    let shift = first.len() / 3;
    assert forall|i: int| 0 <= i < both.len() implies (#[trigger] both[i]).in_range() by {
        if i < first.len() {
            assert(both[i] == first[i]);
        } else {
            assert(both[i] == second[i - first.len()]);
        }
    }
    assert forall|face: int| 0 <= face < both.len() / 3 implies (#[trigger] face_normal(
        both,
        odd,
        face,
    )).y == face_lift() by {
        if face < shift {
            assert(both[3 * face] == first[3 * face]);
            assert(both[3 * face + 1] == first[3 * face + 1]);
            assert(both[3 * face + 2] == first[3 * face + 2]);
            assert(face_normal(both, odd, face) == face_normal(first, odd, face));
        } else {
            let inner = face - shift;
            assert(both[3 * face] == second[3 * inner]);
            assert(both[3 * face + 1] == second[3 * inner + 1]);
            assert(both[3 * face + 2] == second[3 * inner + 2]);
            assert(face_normal(both, odd, face) == face_normal(second, odd, inner));
        }
    }
}

/// The face of every small triangle looks up, whatever the heights under it:
/// taken in the order in which its normal is worked out, its corners turn the
/// same way in both orientations.
#[verifier::rlimit(40)]
pub proof fn lemma_triangle_looks_up(field: HeightField, odd: bool, row: int, col: int)
    requires
        0 <= row < CHUNK_SIDE,
        0 <= col < row_triangles(row),
    ensures
        faces_look_up(triangle_vertices(field, odd, row, col), odd),
        face_normal(triangle_vertices(field, odd, row, col), odd, 0).y == face_lift(),
        face_lift() > 0,
{
    reveal(cross_of);
    let triangle = triangle_vertices(field, odd, row, col);
    lemma_vertex_cell_in_window(odd, row, col, 0);
    lemma_vertex_cell_in_window(odd, row, col, 1);
    lemma_vertex_cell_in_window(odd, row, col, 2);
    let (first, second) = if odd {
        (triangle[1], triangle[0])
    } else {
        (triangle[0], triangle[1])
    };
    let third = triangle[2];
    let (e1x, e1z) = (second.x - first.x, second.z - first.z);
    let (e2x, e2z) = (third.x - first.x, third.z - first.z);
    assert(e1z * e2x - e1x * e2z == TRI_SIDE * TRI_ALTITUDE) by (nonlinear_arith)
        requires
            (e1x == TRI_SIDE && e1z == 0 && e2x == TRI_HALFSIDE && e2z == -TRI_ALTITUDE) || (e1x
                == TRI_HALFSIDE && e1z == -TRI_ALTITUDE && e2x == -TRI_HALFSIDE && e2z
                == -TRI_ALTITUDE) || (e1x == -TRI_SIDE && e1z == 0 && e2x == -TRI_HALFSIDE && e2z
                == TRI_ALTITUDE) || (e1x == -TRI_HALFSIDE && e1z == -TRI_ALTITUDE && e2x
                == -TRI_SIDE && e2z == 0),
            TRI_SIDE == 2 * TRI_HALFSIDE,
    ;
    assert(face_lift() == 866_025_404_000_000_000) by (nonlinear_arith)
        requires
            face_lift() == TRI_SIDE * TRI_ALTITUDE,
            TRI_SIDE == 1_000_000_000,
            TRI_ALTITUDE == 866_025_404,
    ;
    assert(face_normal(triangle, odd, 0).y == face_lift());
    assert forall|face: int| 0 <= face < triangle.len() / 3 implies (#[trigger] face_normal(
        triangle,
        odd,
        face,
    )).y == face_lift() by {
        assert(face == 0);
    }
}

proof fn lemma_row_looks_up(field: HeightField, odd: bool, row: int, cols: int)
    requires
        0 <= row < CHUNK_SIDE,
        0 <= cols <= row_triangles(row),
    ensures
        faces_look_up(row_vertices(field, odd, row, cols), odd),
        row_vertices(field, odd, row, cols).len() == 3 * cols,
    decreases cols,
{
    if cols > 0 {
        lemma_row_looks_up(field, odd, row, cols - 1);
        lemma_triangle_looks_up(field, odd, row, cols - 1);
        lemma_faces_look_up_concat(
            row_vertices(field, odd, row, cols - 1),
            triangle_vertices(field, odd, row, cols - 1),
            odd,
        );
    }
}

proof fn lemma_rows_look_up(field: HeightField, odd: bool, rows: int)
    requires
        0 <= rows <= CHUNK_SIDE,
    ensures
        faces_look_up(rows_vertices(field, odd, rows), odd),
        rows_vertices(field, odd, rows).len() == 3 * row_start(rows),
    decreases rows,
{
    if rows > 0 {
        lemma_rows_look_up(field, odd, rows - 1);
        lemma_row_looks_up(field, odd, rows - 1, row_triangles(rows - 1));
        lemma_faces_look_up_concat(
            rows_vertices(field, odd, rows - 1),
            row_vertices(field, odd, rows - 1, row_triangles(rows - 1)),
            odd,
        );
        assert(row_start(rows) == row_start(rows - 1) + row_triangles(rows - 1))
            by (nonlinear_arith)
            requires
                row_start(rows) == rows * (32 - rows),
                row_start(rows - 1) == (rows - 1) * (32 - (rows - 1)),
                row_triangles(rows - 1) == (16 - rows) * 2 + 1,
        ;
    } else {
        assert(row_start(rows) == 0) by (nonlinear_arith)
            requires
                rows == 0,
                row_start(rows) == rows * (32 - rows),
        ;
    }
}

/// A chunk's mesh has three vertices for each of its 256 small triangles, all
/// in range.
pub proof fn lemma_mesh_vertices_shape(field: HeightField, odd: bool)
    ensures
        mesh_vertices(field, odd).len() == VERTICES_PER_CHUNK,
        VERTICES_PER_CHUNK == 3 * TRIANGLES_PER_CHUNK,
        all_in_range(mesh_vertices(field, odd)),
{
    lemma_rows_look_up(field, odd, CHUNK_SIDE as int);
    assert(row_start(16) == 256) by (nonlinear_arith)
        requires
            row_start(16) == 16 * (32 - 16),
    ;
}

/// Every normal of a chunk's mesh looks up: its y is the same positive number
/// for every vertex, in both orientations and over every height field.
pub proof fn lemma_mesh_normals_look_up(field: HeightField, odd: bool, k: int)
    requires
        0 <= k < VERTICES_PER_CHUNK,
    ensures
        normals_of(mesh_vertices(field, odd), odd).len() == VERTICES_PER_CHUNK,
        normals_of(mesh_vertices(field, odd), odd)[k].y == face_lift(),
        face_lift() > 0,
{
    lemma_rows_look_up(field, odd, CHUNK_SIDE as int);
    lemma_mesh_vertices_shape(field, odd);
    lemma_triangle_looks_up(field, odd, 0, 0);
    let vertices = mesh_vertices(field, odd);
    assert(face_normal(vertices, odd, k / 3).y == face_lift());
}

/// The drawing order of a chunk names every vertex once: drawing order twice
/// over gives back the place started from, and no place is sent out of the
/// mesh.
pub proof fn lemma_assignment_is_permutation(odd: bool, k: int)
    requires
        0 <= k < VERTICES_PER_CHUNK,
    ensures
        0 <= assignment(odd, k) < VERTICES_PER_CHUNK,
        assignment(odd, assignment(odd, k)) == k,
        assignment(odd, k) / 3 == k / 3,
{
}

/// The corners of each triangle are drawn in the order in which its normal is
/// worked out.
pub proof fn lemma_drawn_as_faced(vertices: Seq<Vertex>, odd: bool, face: int)
    requires
        0 <= face < TRIANGLES_PER_CHUNK,
    ensures
        face_normal(vertices, odd, face) == cross_of(
            vertices[assignment(odd, 3 * face)],
            vertices[assignment(odd, 3 * face + 1)],
            vertices[assignment(odd, 3 * face + 2)],
        ),
{
}

} // verus!
