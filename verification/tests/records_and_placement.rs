use blob_store::names::generate_random_alphanumeric_string;
use blob_store::placement::{first_fit, has_room, name_taken, next_key};
use blob_store::records::{prefixed_size, vertex_data_size, BinData, BinaryDataInfo, Storage, TestBinData};
use blob_store::rows::is_well_framed;
use std::path::PathBuf;

fn listing() -> Vec<(u64, String, u64)> {
    vec![(0, "a".to_string(), 90), (1, "b".to_string(), 40), (4, "c".to_string(), 100), (5, "d".to_string(), 0)]
}

#[test]
fn construct_path_joins_base_and_name() {
    let storage = Storage { relative_path: "abc123".to_string(), current_size: 12 };
    assert_eq!(storage.construct_path(PathBuf::from("/srv/blobs")), PathBuf::from("/srv/blobs/abc123"));
    assert_eq!(storage.construct_path(PathBuf::from("/srv/blobs/")), PathBuf::from("/srv/blobs/abc123"));
    assert_eq!(storage.construct_path(PathBuf::from("")), PathBuf::from("abc123"));
}

#[test]
fn a_storage_clone_is_equal() {
    let storage = Storage { relative_path: "abc123".to_string(), current_size: 12 };
    assert_eq!(storage.clone(), storage);
}

#[test]
fn a_byte_payload_declares_its_length_and_a_prefix() {
    assert_eq!(TestBinData { binary: vec![0u8; 4096] }.calc_size(), 4104);
    assert_eq!(TestBinData { binary: Vec::new() }.calc_size(), 8);
}

#[test]
fn a_location_is_plain_data() {
    let info = BinaryDataInfo { is_vertex: false, storage_id: 3, offset: 10, size: 20 };
    let copy = info;
    assert_eq!(copy, info);
    assert_ne!(copy, BinaryDataInfo { is_vertex: true, storage_id: 3, offset: 10, size: 20 });
}

#[test]
fn room_is_size_plus_request_within_threshold() {
    assert!(has_room(0, 0, 0));
    assert!(has_room(60, 40, 100));
    assert!(!has_room(60, 41, 100));
    assert!(!has_room(101, 0, 100));
    assert!(has_room(0, usize::MAX, usize::MAX));
    assert!(!has_room(1, usize::MAX, usize::MAX));
    assert!(!has_room(u64::MAX, 1, usize::MAX));
}

#[test]
fn first_fit_is_the_first_row_with_room() {
    assert_eq!(first_fit(&listing(), 10, 100), Some(0));
    assert_eq!(first_fit(&listing(), 11, 100), Some(1));
    assert_eq!(first_fit(&listing(), 61, 100), Some(3));
    assert_eq!(first_fit(&listing(), 101, 100), None);
    assert_eq!(first_fit(&listing(), 0, 100), Some(0));
    assert_eq!(first_fit(&Vec::new(), 0, 100), None);
}

#[test]
fn next_key_follows_the_last_key() {
    assert_eq!(next_key(&Vec::new()), Some(0));
    assert_eq!(next_key(&listing()), Some(6));
    assert_eq!(next_key(&vec![(u64::MAX - 1, "x".to_string(), 0)]), Some(u64::MAX));
    assert_eq!(next_key(&vec![(0, "w".to_string(), 0), (u64::MAX, "x".to_string(), 0)]), None);
}

#[test]
fn a_name_is_taken_where_a_row_has_it() {
    assert!(name_taken(&listing(), &"c".to_string()));
    assert!(!name_taken(&listing(), &"e".to_string()));
    assert!(!name_taken(&Vec::new(), &"a".to_string()));
}

#[test]
fn random_names_have_the_length_asked_for() {
    for len in [0usize, 1, 32, 100] {
        let name = generate_random_alphanumeric_string(len);
        assert_eq!(name.len(), len);
        assert!(name.chars().all(|c| c.is_ascii_alphanumeric()));
    }
    assert_ne!(generate_random_alphanumeric_string(32), generate_random_alphanumeric_string(32));
}

#[test]
fn a_row_is_well_framed_where_it_can_hold_the_length_it_begins_with() {
    assert!(is_well_framed(&[]));
    assert!(is_well_framed(&[9, 9, 9]));
    assert!(is_well_framed(&[8, 0, 0, 0, 0, 0, 0, 0]));
    assert!(!is_well_framed(&[9, 0, 0, 0, 0, 0, 0, 0]));
    assert!(!is_well_framed(&[0, 1, 0, 0, 0, 0, 0, 0, 7]));
    assert!(is_well_framed(&[2, 0, 0, 0, 0, 0, 0, 0, b'a', b'b', 1, 0, 0, 0, 0, 0, 0, 0]));
    assert!(!is_well_framed(&[0xff; 16]));
}

#[test]
fn a_prefixed_size_is_eight_more_than_the_length() {
    assert_eq!(prefixed_size(0), 8);
    assert_eq!(prefixed_size(4096), 4104);
    assert_eq!(prefixed_size(usize::MAX - 8), usize::MAX);
    assert_eq!(prefixed_size(usize::MAX - 7), usize::MAX);
    assert_eq!(prefixed_size(usize::MAX), usize::MAX);
}

#[test]
fn a_vertex_buffer_declares_header_vertices_and_indices() {
    assert_eq!(vertex_data_size(0, 0, 0), Some(16));
    assert_eq!(vertex_data_size(1, 104, 0), Some(120));
    assert_eq!(vertex_data_size(500_000, 104, 500_000), Some(54_000_016));
    assert_eq!(vertex_data_size(7, 0, 3), Some(28));
    assert_eq!(vertex_data_size(usize::MAX, 2, 0), None);
    assert_eq!(vertex_data_size(usize::MAX, usize::MAX, usize::MAX), None);
    assert_eq!(vertex_data_size(0, 8, usize::MAX / 4), None);
    assert_eq!(vertex_data_size(0, 8, (usize::MAX - 16) / 4), Some(16 + (usize::MAX - 16) / 4 * 4));
    assert_eq!(vertex_data_size(1, usize::MAX - 16, 0), Some(usize::MAX));
    assert_eq!(vertex_data_size(1, usize::MAX - 15, 0), None);
}
