use nif_viewer::files::{rebuild_resources, FSState, HashmapFS};
use nif_viewer::textures::{sorted_names, PendingTextureLoads};

fn disk(path: &str) -> Option<Vec<u8>> {
    match path {
        "/res/textures/rock.tga" => Some(b"tga".to_vec()),
        _ => None,
    }
}

fn viewer_files() -> FSState {
    let mut state = FSState::new();
    state.file_system = Some(HashmapFS::new_from_vec(
        String::new(),
        vec![("textures\\bark.dds".to_string(), b"dds".to_vec())],
    ));
    rebuild_resources(&mut state, &["/res".to_string()]);
    state
}

#[test]
fn a_tga_reference_is_found_as_dds_first() {
    let mut files = viewer_files();
    let mut loads = PendingTextureLoads::new();
    loads.request(&mut files, "textures\\bark.tga".to_string(), 7, &disk);
    let done = loads.take_completed();
    assert_eq!(done.len(), 1);
    assert_eq!(done[0].path, "textures\\bark.dds");
    assert_eq!(done[0].bytes.as_ref().map(|b| b.to_vec()), Some(b"dds".to_vec()));
    assert_eq!(done[0].material, 7);
    assert!(loads.take_completed().is_empty());
}

#[test]
fn the_written_reference_is_tried_after_the_dds() {
    let mut files = viewer_files();
    let mut loads = PendingTextureLoads::new();
    loads.request(&mut files, "textures/rock.tga".to_string(), 1, &disk);
    let done = loads.take_completed();
    assert_eq!(done[0].path, "textures/rock.tga");
    assert_eq!(done[0].bytes.as_ref().map(|b| b.to_vec()), Some(b"tga".to_vec()));
}

#[test]
fn a_texture_found_nowhere_keeps_its_reference() {
    let mut files = viewer_files();
    let mut loads = PendingTextureLoads::new();
    loads.request(&mut files, "textures\\gone.bmp".to_string(), 3, &disk);
    let done = loads.take_completed();
    assert_eq!(done[0].path, "textures\\gone.bmp");
    assert!(done[0].bytes.is_none());
}

#[test]
fn missing_paths_are_listed_once_in_order() {
    let mut loads = PendingTextureLoads::new();
    loads.record_missing("textures\\b.dds".to_string());
    loads.record_missing("textures\\a.dds".to_string());
    loads.record_missing("textures\\b.dds".to_string());
    loads.record_missing("Textures\\c.dds".to_string());
    assert_eq!(
        loads.missing_paths(),
        vec!["Textures\\c.dds".to_string(), "textures\\a.dds".to_string(), "textures\\b.dds".to_string()]
    );
    loads.clear_missing_paths();
    assert!(loads.missing_paths().is_empty());
}

#[test]
fn applied_textures_are_remembered_per_material() {
    let mut loads = PendingTextureLoads::new();
    assert_eq!(loads.texture_for(5), None);
    loads.record_texture(5, 42, "textures\\bark.dds".to_string());
    loads.record_texture(5, 43, "textures\\bark2.dds".to_string());
    assert_eq!(loads.texture_for(5), Some(43));
    assert_eq!(loads.texture_path_for(5), Some("textures\\bark2.dds".to_string()));
    assert_eq!(loads.texture_path_for(6), None);
}

#[test]
fn sorted_names_keeps_every_name() {
    let names = vec!["b".to_string(), "a".to_string(), "b".to_string(), "A".to_string()];
    assert_eq!(
        sorted_names(&names),
        vec!["A".to_string(), "a".to_string(), "b".to_string(), "b".to_string()]
    );
}

#[test]
fn applying_reads_records_missing_and_decoded_textures() {
    let mut files = viewer_files();
    let mut loads = PendingTextureLoads::new();
    loads.request(&mut files, "textures\\gone.bmp".to_string(), 3, &disk);
    loads.request(&mut files, "textures\\bark.tga".to_string(), 7, &disk);
    loads.request(&mut files, "textures/rock.tga".to_string(), 9, &disk);
    let mut done = loads.take_completed().into_iter();
    let missing = done.next().unwrap();
    assert_eq!(loads.apply_completed(missing, Some(5)), None);
    assert_eq!(loads.missing_paths(), vec!["textures\\gone.bmp".to_string()]);
    assert_eq!(loads.texture_for(3), None);
    let decoded = done.next().unwrap();
    assert_eq!(loads.apply_completed(decoded, Some(0)), Some(0));
    assert_eq!(loads.texture_for(7), Some(0));
    assert_eq!(loads.texture_path_for(7), Some("textures\\bark.dds".to_string()));
    let undecodable = done.next().unwrap();
    assert_eq!(loads.apply_completed(undecodable, None), None);
    assert_eq!(loads.texture_for(9), None);
    assert_eq!(loads.missing_paths(), vec!["textures\\gone.bmp".to_string()]);
    assert!(loads.take_completed().is_empty());
}
