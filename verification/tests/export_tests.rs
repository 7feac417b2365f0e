use buscador_duplicados::export::export_file_name;
use buscador_duplicados::export::export_row;
use buscador_duplicados::export::store_file_name;
use buscador_duplicados::hashing::fingerprint_bytes;
use buscador_duplicados::index::FileRecord;

#[test]
fn artifact_names_share_the_stem() {
    assert_eq!(store_file_name(1700000000123), "1700000000123.sqlite");
    assert_eq!(export_file_name(1700000000123), "1700000000123.csv");
}

#[test]
fn export_row_columns() {
    let fp = fingerprint_bytes(b"hello");
    let r = FileRecord { path: "/data/greeting.txt".to_string(), size: 1500, digest: fp.digest };
    let row = export_row(&r);
    assert_eq!(row.len(), 5);
    assert_eq!(row[0], "greeting.txt");
    assert_eq!(row[1], "/data/greeting.txt");
    assert_eq!(row[2], "1500");
    assert_eq!(row[3], "1.50 KB");
    assert_eq!(row[4], "5d41402abc4b2a76b9719d911017c592");
}

#[test]
fn export_row_without_extractable_name() {
    let r = FileRecord { path: "///".to_string(), size: 0, digest: 0 };
    let row = export_row(&r);
    assert_eq!(row[0], "///");
    assert_eq!(row[2], "0");
    assert_eq!(row[3], "0 bytes");
    assert_eq!(row[4], "00000000000000000000000000000000");
}
