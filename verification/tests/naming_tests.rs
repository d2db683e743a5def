use cliobulk_core::naming::file_name_of;
use cliobulk_core::naming::is_raw_path;
use cliobulk_core::naming::output_file_name;

#[test]
fn raw_extensions_route_to_the_raw_decoder() {
    assert!(is_raw_path("shot.arw"));
    assert!(is_raw_path("shot.cr2"));
    assert!(is_raw_path("shot.nef"));
    assert!(is_raw_path("shot.dng"));
    assert!(is_raw_path("SHOT.DNG"));
    assert!(is_raw_path("Mixed.Cr2"));
}

#[test]
fn other_names_route_to_the_generic_decoder() {
    assert!(!is_raw_path("photo.jpg"));
    assert!(!is_raw_path("photo.png"));
    assert!(!is_raw_path("dng"));
    assert!(!is_raw_path("x.cr3"));
    assert!(!is_raw_path("arw"));
    assert!(!is_raw_path(""));
    assert!(!is_raw_path("shotdng"));
}

#[test]
fn file_name_takes_the_part_after_the_last_slash() {
    assert_eq!(file_name_of("/data/in/pic.jpg"), "pic.jpg");
    assert_eq!(file_name_of("pic.jpg"), "pic.jpg");
    assert_eq!(file_name_of("a/b/c.dng"), "c.dng");
}

#[test]
fn pathological_paths_fall_back_to_unknown() {
    assert_eq!(file_name_of(""), "unknown");
    assert_eq!(file_name_of("dir/"), "unknown");
    assert_eq!(file_name_of(".."), "unknown");
    assert_eq!(file_name_of("a/.."), "unknown");
    assert_eq!(file_name_of("."), "unknown");
}

#[test]
fn output_names_keep_the_full_source_name() {
    assert_eq!(output_file_name("pic.jpg"), "processed_pic.jpg.jpg");
    assert_eq!(output_file_name("shot.dng"), "processed_shot.dng.jpg");
    assert_eq!(output_file_name("x"), "processed_x.jpg");
}
