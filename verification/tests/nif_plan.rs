use nif_viewer::nif::{build_hierarchy, plan_shapes, NifAlpha, NifObject, NifShape, NifShapeData};
use nif_viewer::view::{AlphaTestFunction, BlendMode, CullFace, DrawMode};

fn object(key: u64, type_label: &str, links: &[u64]) -> NifObject {
    NifObject {
        key,
        type_label: type_label.to_string(),
        fields: format!("{type_label} fields"),
        links: links.to_vec(),
    }
}

fn shape_data(vertex_count: usize, triangles: &[(u16, u16, u16)]) -> NifShapeData {
    NifShapeData {
        vertex_count,
        normal_count: vertex_count,
        uv_count: 0,
        color_count: vertex_count,
        triangles: triangles.to_vec(),
    }
}

fn shape(key: u64, data: Option<NifShapeData>) -> NifShape {
    NifShape { key, data, stencil_draw_mode: None, alpha: None, texture_path: None }
}

#[test]
fn hierarchy_links_children_by_position() {
    let objects = vec![
        object(10, "NiNode", &[30, 20, 99]),
        object(20, "NiTriShape", &[]),
        object(30, "NiNode", &[20]),
    ];
    let (infos, roots) = build_hierarchy(&objects, &vec![10, 77]);
    assert_eq!(infos.len(), 3);
    assert_eq!(infos[0].type_label, "NiNode");
    assert_eq!(infos[0].fields, "NiNode fields");
    assert_eq!(infos[0].children, vec![2, 1]);
    assert_eq!(infos[1].children, Vec::<usize>::new());
    assert_eq!(infos[2].children, vec![1]);
    assert_eq!(roots, vec![0]);
}

#[test]
fn a_repeated_key_links_to_its_last_object() {
    let objects = vec![object(5, "A", &[6]), object(6, "B", &[]), object(6, "C", &[])];
    let (infos, roots) = build_hierarchy(&objects, &vec![6]);
    assert_eq!(infos[0].children, vec![2]);
    assert_eq!(roots, vec![2]);
}

#[test]
fn shapes_are_planned_with_index_lists() {
    let objects = vec![object(1, "NiNode", &[2, 3]), object(2, "NiTriShape", &[]), object(3, "NiTriShape", &[])];
    let mut first = shape(2, Some(shape_data(4, &[(0, 1, 2), (2, 3, 0)])));
    first.stencil_draw_mode = Some(DrawMode::Both);
    first.alpha = Some(NifAlpha { blending: true, testing: true, function: AlphaTestFunction::Greater, test_ref: 128 });
    first.texture_path = Some("textures\\bark.dds".to_string());
    let mut second = shape(3, Some(shape_data(3, &[(0, 1, 2)])));
    second.alpha = Some(NifAlpha { blending: true, testing: false, function: AlphaTestFunction::Always, test_ref: 0 });
    let shapes = vec![first, second];

    let (count, plans) = plan_shapes(&shapes, &objects, &vec![3]).unwrap();
    assert_eq!(count, 3);
    assert_eq!(plans.len(), 2);

    assert_eq!(plans[0].node_index, 1);
    assert_eq!(plans[0].indices, vec![0, 1, 2, 2, 3, 0]);
    assert_eq!(plans[0].wireframe_indices, vec![0, 1, 1, 2, 2, 0, 2, 3, 3, 0, 0, 2]);
    assert!(plans[0].has_normals);
    assert!(!plans[0].has_uvs);
    assert!(plans[0].has_vertex_colors);
    assert_eq!(plans[0].cull, None);
    assert_eq!(plans[0].blend, BlendMode::Mask);
    assert_eq!(plans[0].alpha_test, Some((4, 128)));
    assert_eq!(plans[0].texture_path, Some("textures\\bark.dds".to_string()));
    assert!(!plans[0].is_collision);

    assert_eq!(plans[1].node_index, 2);
    assert_eq!(plans[1].cull, Some(CullFace::Back));
    assert_eq!(plans[1].blend, BlendMode::Blend);
    assert_eq!(plans[1].alpha_test, None);
    assert!(plans[1].is_collision);
}

#[test]
fn shapes_without_geometry_are_skipped() {
    let objects = vec![object(1, "NiTriShape", &[]), object(2, "NiTriShape", &[]), object(3, "NiTriShape", &[])];
    let shapes = vec![
        shape(1, None),
        shape(2, Some(shape_data(0, &[(0, 0, 0)]))),
        shape(3, Some(shape_data(3, &[]))),
        shape(9, Some(shape_data(3, &[(0, 1, 2)]))),
    ];
    assert_eq!(
        plan_shapes(&shapes, &objects, &vec![]).err(),
        Some("No renderable meshes were found in NIF file!".to_string())
    );
}
