use tri_terrain::debug_tools::{
    chunk_markers, flooring_division, update_tools_data, ChunkMark, ChunkMarker, DebugToolsData,
};
use tri_terrain::registry::{begin_generating_chunks, receive_generated_chunks, Chunks};
use tri_terrain::tribool::{chunks_gizmo_enabled, origin_gizmo_enabled, GizmoConfig, TriBool};
use tri_terrain::tricoord::{Coord, TriCoord, WORLD_UNIT};

#[test]
fn wildcard_equals_everything() {
    assert!(TriBool::Wildcard == TriBool::True);
    assert!(TriBool::Wildcard == TriBool::False);
    assert!(TriBool::Wildcard == TriBool::Wildcard);
    assert!(TriBool::True == TriBool::Wildcard);
    assert!(TriBool::False == TriBool::Wildcard);
}

#[test]
fn on_and_off_equal_themselves_only() {
    assert!(TriBool::True == TriBool::True);
    assert!(TriBool::False == TriBool::False);
    assert!(TriBool::True != TriBool::False);
    assert!(TriBool::False != TriBool::True);
}

#[test]
fn switch_to_bool() {
    assert!(TriBool::True.to_bool());
    assert!(!TriBool::False.to_bool());
    assert!(TriBool::Wildcard.to_bool());
    assert!(bool::from(TriBool::True));
    assert!(!bool::from(TriBool::False));
    assert!(bool::from(TriBool::Wildcard));
}

#[test]
fn bool_to_switch_and_back() {
    assert!(matches!(TriBool::from(true), TriBool::True));
    assert!(matches!(TriBool::from(false), TriBool::False));
    for value in [true, false] {
        assert_eq!(TriBool::from(value).to_bool(), value);
        assert_eq!(bool::from(TriBool::from(value)), value);
    }
}

#[test]
fn default_markers() {
    let config = GizmoConfig::default();
    assert!(matches!(config.origin_gizmo, TriBool::True));
    assert!(matches!(config.chunks_gizmo, TriBool::False));
    assert!(origin_gizmo_enabled(&config));
    assert!(!chunks_gizmo_enabled(&config));
}

#[test]
fn markers_are_switched_one_by_one() {
    let both = GizmoConfig { origin_gizmo: TriBool::True, chunks_gizmo: TriBool::True };
    let none = GizmoConfig { origin_gizmo: TriBool::False, chunks_gizmo: TriBool::False };
    let chunks = GizmoConfig { origin_gizmo: TriBool::False, chunks_gizmo: TriBool::True };
    assert!(origin_gizmo_enabled(&both) && chunks_gizmo_enabled(&both));
    assert!(!origin_gizmo_enabled(&none) && !chunks_gizmo_enabled(&none));
    assert!(!origin_gizmo_enabled(&chunks) && chunks_gizmo_enabled(&chunks));
    assert!(both != none);
    assert!(chunks != both);
    assert!(both == GizmoConfig { origin_gizmo: TriBool::Wildcard, chunks_gizmo: TriBool::True });
    assert!(none == GizmoConfig { origin_gizmo: TriBool::False, chunks_gizmo: TriBool::Wildcard });
}

#[test]
fn quotient_rounded_down() {
    assert_eq!(flooring_division(7, 2), 3);
    assert_eq!(flooring_division(-7, 2), -4);
    assert_eq!(flooring_division(7, -2), -4);
    assert_eq!(flooring_division(-7, -2), 3);
    assert_eq!(flooring_division(6, 3), 2);
    assert_eq!(flooring_division(-6, 3), -2);
    assert_eq!(flooring_division(6, -3), -2);
    assert_eq!(flooring_division(0, 5), 0);
    assert_eq!(flooring_division(0, -5), 0);
    assert_eq!(flooring_division(-1, 16), -1);
    assert_eq!(flooring_division(15, 16), 0);
    assert_eq!(flooring_division(-17, 16), -2);
}

#[test]
fn quotient_rounded_down_at_the_ends() {
    assert_eq!(flooring_division(i16::MIN, 1), i16::MIN);
    assert_eq!(flooring_division(i16::MAX, -1), -i16::MAX);
    assert_eq!(flooring_division(i16::MIN, i16::MAX), -2);
    assert_eq!(flooring_division(i16::MAX, i16::MIN), -1);
    assert_eq!(flooring_division(i16::MIN, i16::MIN), 1);
    assert_eq!(flooring_division(i16::MIN, 2), -16384);
    assert_eq!(flooring_division(i16::MIN, -2), 16384);
}

#[test]
fn quotient_rounded_down_brackets_the_dividend() {
    for dividend in -200..=200i32 {
        for divisor in (-20..=20i32).filter(|d| *d != 0) {
            let q = flooring_division(dividend as i16, divisor as i16) as i32;
            if divisor > 0 {
                assert!(q * divisor <= dividend && dividend < (q + 1) * divisor);
            } else {
                assert!(q * divisor >= dividend && dividend > (q + 1) * divisor);
            }
        }
    }
}

#[test]
fn panel_data_starts_at_the_origin() {
    let data = DebugToolsData::default();
    assert_eq!(data.player_coord, Coord { z: 0, x: 0 });
    assert_eq!(data.player_halfside_altitude, (0, 0));
    assert_eq!(data.player_chunk_tricoord, TriCoord { a: 0, b: 0, c: 0 });
    let shown = update_tools_data(Coord { z: 0, x: 0 });
    assert_eq!(shown.player_halfside_altitude, (0, 0));
    assert_eq!(shown.player_chunk_tricoord, TriCoord { a: 0, b: 0, c: 0 });
}

#[test]
fn panel_shows_the_nearest_lattice_point() {
    let at = |x_milli: i64, z_milli: i64| {
        update_tools_data(Coord { z: z_milli * 1_000_000, x: x_milli * 1_000_000 })
    };
    assert_eq!(at(12_000, 0).player_halfside_altitude, (2, 0));
    assert_eq!(at(11_900, 0).player_halfside_altitude, (1, 0));
    assert_eq!(at(-12_000, 0).player_halfside_altitude, (-2, 0));
    assert_eq!(at(-11_900, 0).player_halfside_altitude, (-1, 0));
    assert_eq!(at(3_999, 0).player_halfside_altitude, (0, 0));
    assert_eq!(at(4_000, 0).player_halfside_altitude, (1, 0));
    assert_eq!(at(0, 7_000).player_halfside_altitude, (0, 0));
    assert_eq!(at(0, 8_000).player_halfside_altitude, (0, 1));
    assert_eq!(at(0, -8_000).player_halfside_altitude, (0, -1));
    let data = at(12_000, 8_000);
    assert_eq!(data.player_coord, Coord { z: 8 * WORLD_UNIT, x: 12 * WORLD_UNIT });
    assert_eq!(data.player_halfside_altitude, (2, 1));
    assert_eq!(data.player_chunk_tricoord, TriCoord { a: -1, b: 1, c: 1 });
}

#[test]
fn panel_data_far_out() {
    let data = update_tools_data(Coord { z: i64::MIN, x: i64::MAX });
    // 9223372036.854775807 + 4 units, cut to whole units, in steps of 8
    assert_eq!(data.player_halfside_altitude.0, (1_152_921_505i64 as i16));
    assert_eq!(data.player_coord, Coord { z: i64::MIN, x: i64::MAX });
}

#[test]
fn markers_tell_how_far_each_chunk_has_come() {
    let near = TriCoord { a: 0, b: 0, c: 0 };
    let far = TriCoord { a: -1, b: 0, c: 2 };
    let building = TriCoord { a: 0, b: 1, c: 0 };
    let mut chunks = Chunks::new();
    chunks.set_in_range(vec![near, far, building]);
    begin_generating_chunks(&mut chunks);
    receive_generated_chunks(&mut chunks, &vec![far, near]);
    let markers = chunk_markers(&chunks, &vec![near, building]);
    assert_eq!(
        markers,
        vec![
            ChunkMarker {
                tricoord: building,
                anchor: Coord { z: 13_856_406_461, x: 0 },
                mark: ChunkMark::Generating
            },
            ChunkMarker {
                tricoord: far,
                anchor: Coord { z: 0, x: 24_000_000_000 },
                mark: ChunkMark::GeneratedOutOfRange
            },
            ChunkMarker {
                tricoord: near,
                anchor: Coord { z: 0, x: 0 },
                mark: ChunkMark::GeneratedInRange
            },
        ]
    );
    assert!(chunk_markers(&Chunks::new(), &vec![near]).is_empty());
}
