use nif_viewer::export::{obj_text, ObjShape};

fn shape(entity: u32, vertex_count: usize, normals: bool, indices: Option<Vec<u32>>) -> ObjShape {
    ObjShape {
        entity,
        vertex_lines: (0..vertex_count).map(|i| format!("v {i} 0 0\n")).collect(),
        normal_lines: if normals { Some((0..vertex_count).map(|_| "vn 0 0 1\n".to_string()).collect()) } else { None },
        vertex_count,
        indices,
    }
}

#[test]
fn an_empty_export_is_just_the_comment() {
    assert_eq!(obj_text(&vec![]), "# Exported by esp-viewer\n");
}

#[test]
fn faces_are_numbered_across_shapes() {
    let shapes = vec![
        shape(4, 3, false, Some(vec![0, 1, 2])),
        shape(9, 4, true, Some(vec![0, 1, 2, 2, 3, 0, 1])),
    ];
    assert_eq!(
        obj_text(&shapes),
        "# Exported by esp-viewer\n\
         o nif_shape_4\nv 0 0 0\nv 1 0 0\nv 2 0 0\nf 1 2 3\n\
         o nif_shape_9\nv 0 0 0\nv 1 0 0\nv 2 0 0\nv 3 0 0\n\
         vn 0 0 1\nvn 0 0 1\nvn 0 0 1\nvn 0 0 1\n\
         f 4//4 5//5 6//6\nf 6//6 7//7 4//4\n"
    );
}

#[test]
fn shapes_without_a_triangle_are_left_out() {
    let shapes = vec![
        shape(1, 2, false, Some(vec![0, 1])),
        shape(2, 3, false, None),
        shape(3, 2, false, None),
    ];
    assert_eq!(
        obj_text(&shapes),
        "# Exported by esp-viewer\no nif_shape_2\nv 0 0 0\nv 1 0 0\nv 2 0 0\nf 1 2 3\n"
    );
}
