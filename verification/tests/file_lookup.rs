use nif_viewer::files::{find_file, HashmapFS, NullFS};
use nif_viewer::paths::{get_nif_base_dir, normalize_path};
use nif_viewer::shared::SharedBytes;

fn file_system(paths: &[(&str, &[u8])]) -> HashmapFS {
    HashmapFS::new(
        String::new(),
        paths
            .iter()
            .map(|(path, bytes)| (normalize_path(path), SharedBytes::from_slice(bytes)))
            .collect(),
    )
}

#[test]
fn finds_asset_below_the_nif_directory() {
    let file_system = file_system(&[("mods/example/textures/tree.dds", b"nearest")]);

    assert_eq!(
        find_file(
            &file_system,
            "mods/example/meshes/tree.nif",
            "textures/tree.dds",
        ),
        Some(b"nearest".to_vec()),
    );
}

#[test]
fn finds_asset_below_a_parent_directory() {
    let file_system = file_system(&[("mods/textures/tree.dds", b"parent")]);

    assert_eq!(
        find_file(
            &file_system,
            "mods/example/meshes/tree.nif",
            "textures/tree.dds",
        ),
        Some(b"parent".to_vec()),
    );
}

#[test]
fn resolves_parent_segments_relative_to_the_nif_directory() {
    let file_system = file_system(&[("mods/example/textures/tree.dds", b"relative")]);

    assert_eq!(
        find_file(
            &file_system,
            "mods/example/meshes/tree.nif",
            "../textures/tree.dds",
        ),
        Some(b"relative".to_vec()),
    );
}

#[test]
fn prefers_the_nearest_folder_and_misses_unknown_assets() {
    let file_system = file_system(&[
        ("mods/textures/tree.dds", b"far"),
        ("mods/example/textures/tree.dds", b"near"),
    ]);
    assert_eq!(
        find_file(&file_system, "mods/example/meshes/tree.nif", "Textures\\Tree.DDS"),
        Some(b"near".to_vec()),
    );
    assert_eq!(
        find_file(&file_system, "mods/example/meshes/tree.nif", "textures/rock.dds"),
        None,
    );
}

#[test]
fn test_get_nif_base_dir() {
    assert_eq!(get_nif_base_dir("mods/example/meshes/tree.nif"), "mods/example");
    assert_eq!(get_nif_base_dir("mods/example/meshes/"), "mods/example");
    assert_eq!(get_nif_base_dir("mods/example/meshes"), "mods/example");
    assert_eq!(get_nif_base_dir("tree.nif"), "");
    assert_eq!(get_nif_base_dir(""), "");
}

#[test]
fn base_dir_matches_meshes_in_any_case_and_keeps_other_separators() {
    assert_eq!(get_nif_base_dir("Data Files\\Meshes\\x.nif"), "Data Files");
    assert_eq!(get_nif_base_dir("meshes/x.nif"), "");
    assert_eq!(get_nif_base_dir("abcMESHES/x.nif"), "abc");
    assert_eq!(get_nif_base_dir("textures/x.dds"), "");
}

#[test]
fn normalizes_separators_dots_and_case() {
    assert_eq!(normalize_path("Meshes/TR/./f//Tree.NIF"), "meshes\\tr\\f\\tree.nif");
    assert_eq!(normalize_path("a/b/../c"), "a\\c");
    assert_eq!(normalize_path("../../a"), "a");
    assert_eq!(normalize_path(""), "");
    assert_eq!(normalize_path("\\\\"), "");
    assert_eq!(normalize_path("ÄB/c"), "Äb\\c");
}

#[test]
fn archive_reads_are_absolute_or_relative_to_the_base() {
    let mut fs = HashmapFS::new_from_vec(
        String::new(),
        vec![
            ("mods/example/a.nif".to_string(), b"one".to_vec()),
            ("a.nif".to_string(), b"two".to_vec()),
            ("a.nif".to_string(), b"three".to_vec()),
        ],
    );
    assert!(fs.has_base());
    assert_eq!(fs.read("a.nif", false).map(|b| b.to_vec()), Some(b"three".to_vec()));
    fs.rebase_to_file("mods/example/meshes/tree.nif");
    assert_eq!(fs.read("a.nif", false).map(|b| b.to_vec()), Some(b"one".to_vec()));
    assert_eq!(fs.read("a.nif", true).map(|b| b.to_vec()), Some(b"three".to_vec()));
    let mut paths = fs.absolute_paths();
    paths.sort();
    assert_eq!(paths, vec!["a.nif".to_string(), "mods/example/a.nif".to_string()]);
    let null = NullFS;
    assert!(null.read("a.nif", true).is_none());
    assert!(null.absolute_paths().is_empty());
    assert!(!null.has_base());
}

#[test]
fn normalizing_twice_changes_nothing() {
    for path in ["Meshes/./A/../b.NIF", "..\\..\\x", "", "a//B\\\\c/", "./.", "x/../.."] {
        let once = normalize_path(path);
        assert_eq!(normalize_path(&once), once);
    }
}

#[test]
fn the_base_dir_is_a_prefix_of_the_path() {
    for path in ["a/b/MESHES/c.nif", "meshes/x.nif", "a\\meshes", "nothing.nif"] {
        assert!(path.starts_with(get_nif_base_dir(path)));
    }
}

#[test]
fn resource_paths_split_into_folders_and_file() {
    let (folders, file) = nif_viewer::paths::resource_path_parts("textures//sub\\bark.dds").unwrap();
    assert_eq!(folders, vec!["textures".to_string(), "sub".to_string()]);
    assert_eq!(file, "bark.dds");
    let (folders, file) = nif_viewer::paths::resource_path_parts("/a.dds/").unwrap();
    assert!(folders.is_empty());
    assert_eq!(file, "a.dds");
    assert!(nif_viewer::paths::resource_path_parts("//\\").is_none());
    assert!(nif_viewer::paths::resource_path_parts("").is_none());
}

#[test]
fn slash_direction_and_case_do_not_change_the_normalized_path() {
    for path in ["Meshes\\Trees/./Oak.NIF", "a\\..\\B\\c", "x/Y/z", "..\\Up"] {
        let slashed = path.replace('\\', "/");
        let upper = path.to_ascii_uppercase();
        assert_eq!(normalize_path(&slashed), normalize_path(path));
        assert_eq!(normalize_path(&upper), normalize_path(path));
    }
    assert_eq!(normalize_path("MESHES/Trees/Oak.nif"), "meshes\\trees\\oak.nif");
}

#[test]
fn normalizing_the_leading_part_first_changes_nothing() {
    for (a, b) in [("Mods/./X/../Y", "Meshes/a.nif"), ("..", "../b"), ("", "C/d"), ("a\\b", "..\\..\\..\\e")] {
        let whole = normalize_path(&format!("{a}/{b}"));
        let prefixed = normalize_path(&format!("{}/{b}", normalize_path(a)));
        assert_eq!(whole, prefixed);
    }
    assert_eq!(normalize_path("Mods/./X/../Y/Meshes/a.nif"), "mods\\y\\meshes\\a.nif");
}
