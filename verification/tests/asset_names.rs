use nif_viewer::assets::{export_file_name, texture_extension, texture_lookup_paths, unparented_nodes};

#[test]
fn bmp_and_tga_textures_are_tried_as_dds_first() {
    assert_eq!(
        texture_lookup_paths("textures\\tx_bark.TGA"),
        vec!["textures\\tx_bark.dds".to_string(), "textures\\tx_bark.TGA".to_string()]
    );
    assert_eq!(
        texture_lookup_paths("a.b\\leaf.bmp"),
        vec!["a.b\\leaf.dds".to_string(), "a.b\\leaf.bmp".to_string()]
    );
    assert_eq!(texture_lookup_paths("textures\\tx.dds"), vec!["textures\\tx.dds".to_string()]);
    assert_eq!(texture_lookup_paths("textures\\noext"), vec!["textures\\noext".to_string()]);
}

#[test]
fn texture_extension_is_lower_case() {
    assert_eq!(texture_extension("textures\\Bark.DDS"), "dds");
    assert_eq!(texture_extension("a.tar.TGA"), "tga");
    assert_eq!(texture_extension("NoDot"), "nodot");
    assert_eq!(texture_extension("trailing."), "");
}

#[test]
fn export_names_use_the_file_stem() {
    assert_eq!(export_file_name(Some("meshes\\x\\tree.nif")), "tree.obj");
    assert_eq!(export_file_name(Some("meshes/rock.v2.nif")), "rock.v2.obj");
    assert_eq!(export_file_name(Some("meshes\\.nif")), "mesh.obj");
    assert_eq!(export_file_name(Some("meshes\\noext")), "mesh.obj");
    assert_eq!(export_file_name(None), "mesh.obj");
}

#[test]
fn unparented_nodes_are_neither_roots_nor_children() {
    let children = vec![vec![1], vec![], vec![], vec![2]];
    assert_eq!(unparented_nodes(&children, &vec![0]), vec![3]);
    assert_eq!(unparented_nodes(&children, &vec![]), vec![0, 3]);
    assert_eq!(unparented_nodes(&vec![], &vec![]), Vec::<usize>::new());
}
