use buscador_duplicados::pathname::display_name_of;
use buscador_duplicados::pathname::last_segment_of;

#[test]
fn plain_file_name() {
    assert_eq!(display_name_of("/home/user/photo.jpg"), "photo.jpg");
    assert_eq!(display_name_of("notes.txt"), "notes.txt");
}

#[test]
fn trailing_separators_are_ignored() {
    assert_eq!(display_name_of("/home/user/album/"), "album");
    assert_eq!(display_name_of("dir///"), "dir");
}

#[test]
fn no_segment_falls_back_to_the_full_path() {
    assert_eq!(display_name_of(""), "");
    assert_eq!(display_name_of("/"), "/");
    assert_eq!(display_name_of("///"), "///");
}

#[test]
fn segment_extraction_reports_failure() {
    assert!(last_segment_of("/").is_none());
    assert_eq!(last_segment_of("/a/b").as_deref(), Some("b"));
}

#[test]
fn non_ascii_names_survive() {
    assert_eq!(display_name_of("/tmp/ma\u{f1}ana.txt"), "ma\u{f1}ana.txt");
}
