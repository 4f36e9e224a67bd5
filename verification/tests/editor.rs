use psx_raster::editor::{EditorTool, Selection};

#[test]
fn tools_are_told_apart() {
    let tools = [
        EditorTool::Select,
        EditorTool::DrawFloor,
        EditorTool::DrawWall,
        EditorTool::DrawCeiling,
        EditorTool::PlacePortal,
        EditorTool::PlaceObject,
    ];
    for (i, a) in tools.iter().enumerate() {
        for (j, b) in tools.iter().enumerate() {
            assert_eq!(a == b, i == j);
        }
    }
}

#[test]
fn selections_carry_their_places() {
    let edge = Selection::Edge { room: 2, v0: 3, v1: 5 };
    assert_eq!(edge, Selection::Edge { room: 2, v0: 3, v1: 5 });
    assert!(edge != Selection::Edge { room: 2, v0: 5, v1: 3 });
    assert!(Selection::Room(1) != Selection::Room(2));
    assert!(Selection::Face { room: 1, face: 4 } != Selection::Portal { room: 1, portal: 4 });
    assert!(Selection::Vertex { room: 0, vertex: 0 } != Selection::Nothing);
    let picked = Selection::Vertex { room: 7, vertex: 9 };
    match picked {
        Selection::Vertex { room, vertex } => assert_eq!((room, vertex), (7, 9)),
        _ => panic!("a vertex was picked"),
    }
}
