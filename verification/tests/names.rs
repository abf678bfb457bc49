//! Numbers, names, places and checksums.

use piece_cache::checksum::{blake3_hash_list, checksum_matches, piece_checksum, same_bytes};
use piece_cache::paths::{piece_of_file_name, piece_path, piece_url};
use piece_cache::primitives::{Piece, PieceIndex, SegmentIndex, PIECE_SIZE};
use piece_cache::text::{contains, decimal, parse_u64};

#[test]
fn decimal_text_has_no_leading_zeros() {
    assert_eq!(decimal(0), "0");
    assert_eq!(decimal(10), "10");
    assert_eq!(decimal(1048672), "1048672");
    assert_eq!(decimal(u64::MAX), "18446744073709551615");
}

#[test]
fn decimal_text_is_read_back() {
    for n in [0, 7, 255, 256, 1_000_000_007, u64::MAX] {
        assert_eq!(parse_u64(&decimal(n)), Some(n));
    }
}

#[test]
fn numbers_are_read_as_std_reads_them() {
    for text in [
        "", "+", "-", "0", "007", "+7", "-7", "++7", "7+", " 7", "7 ", "12a", "1_000",
        "18446744073709551615", "18446744073709551616", "99999999999999999999999", "\u{0}1", "٣",
    ] {
        assert_eq!(parse_u64(text), text.parse::<u64>().ok(), "{text:?}");
    }
}

#[test]
fn contains_finds_what_occurs() {
    assert!(contains("12.checksum", ".checksum"));
    assert!(contains(".checksum.bak", ".checksum"));
    assert!(!contains("12.checksu", ".checksum"));
    assert!(contains("anything", ""));
    assert!(!contains("", "x"));
}

#[test]
fn segments_hold_256_pieces() {
    assert_eq!(PieceIndex::from(0).segment_index().value, 0);
    assert_eq!(PieceIndex::from(255).segment_index().value, 0);
    assert_eq!(PieceIndex::from(256).segment_index().value, 1);
    let segment = SegmentIndex::from(3);
    assert_eq!(segment.first_piece_index().value, 768);
    assert_eq!(segment.last_piece_index().value, 1023);
    let indexes = segment.segment_piece_indexes();
    assert_eq!(indexes.len(), 256);
    assert!(indexes.iter().all(|i| i.segment_index() == segment));
    assert_eq!(SegmentIndex::last_of_history(4).value, 3);
}

#[test]
fn index_bytes_are_little_endian() {
    assert_eq!(PieceIndex::from(258).to_bytes(), vec![2, 1, 0, 0, 0, 0, 0, 0]);
    let n: u64 = 0x0123_4567_89ab_cdef;
    assert_eq!(PieceIndex::from(n).to_bytes(), n.to_le_bytes().to_vec());
}

#[test]
fn a_piece_has_one_size() {
    assert_eq!(PIECE_SIZE, 1_048_672);
    assert!(Piece::try_from(vec![7; PIECE_SIZE - 1]).is_none());
    assert!(Piece::try_from(vec![7; PIECE_SIZE + 1]).is_none());
    assert!(Piece::try_from(Vec::new()).is_none());
    let piece = Piece::try_from(vec![7; PIECE_SIZE]).unwrap();
    assert_eq!(piece.as_bytes(), &vec![7; PIECE_SIZE]);
    assert_eq!(piece.clone().into_bytes(), vec![7; PIECE_SIZE]);
}

#[test]
fn a_piece_is_kept_in_the_directory_of_its_segment() {
    let path = piece_path(PieceIndex::from(1000));
    assert_eq!(path.segment_dir, "3");
    assert_eq!((path.piece.dir.as_str(), path.piece.name.as_str()), ("3", "1000"));
    assert_eq!((path.checksum.dir.as_str(), path.checksum.name.as_str()), ("3", "1000.checksum"));
}

#[test]
fn the_server_is_asked_by_segment_and_piece() {
    let url = piece_url("http://127.0.0.1:8080/", PieceIndex::from(1000));
    assert_eq!(url, "http://127.0.0.1:8080/3/1000");
}

#[test]
fn file_names_tell_pieces() {
    assert_eq!(piece_of_file_name("1000"), Some(PieceIndex::from(1000)));
    assert_eq!(piece_of_file_name("0012"), Some(PieceIndex::from(12)));
    assert_eq!(piece_of_file_name("+12"), Some(PieceIndex::from(12)));
    assert_eq!(piece_of_file_name("1000.checksum"), None);
    assert_eq!(piece_of_file_name("1000.tmp"), None);
    assert_eq!(piece_of_file_name(""), None);
}

#[test]
fn a_list_is_hashed_as_one_run_of_bytes() {
    let expected = "6437b3ac38465133ffb63b75273a8db548c558465d79db03fd359c6cd5bd9d85";
    assert_eq!(hex::encode(blake3_hash_list(&[b"a", b"bc"])), expected);
    assert_eq!(hex::encode(blake3_hash_list(&[b"", b"abc", b""])), expected);
    let of_nothing = "af1349b9f5f9a1a6a0404dea36dcc9499bcb25c9adc112b7cc9a93cae41f3262";
    assert_eq!(hex::encode(blake3_hash_list(&[])), of_nothing);
}

#[test]
fn the_checksum_covers_index_and_content() {
    let mut whole = 258u64.to_le_bytes().to_vec();
    whole.extend_from_slice(b"content");
    let checksum = piece_checksum(PieceIndex::from(258), b"content");
    assert_eq!(checksum, blake3::hash(&whole).as_bytes().to_vec());
    assert!(checksum_matches(PieceIndex::from(258), b"content", &checksum));
    assert!(!checksum_matches(PieceIndex::from(259), b"content", &checksum));
    assert!(!checksum_matches(PieceIndex::from(258), b"contents", &checksum));
    assert!(!checksum_matches(PieceIndex::from(258), b"content", &checksum[..31]));
}

#[test]
fn bytes_are_the_same_only_in_full() {
    assert!(same_bytes(&[], &[]));
    assert!(same_bytes(&[1, 2], &[1, 2]));
    assert!(!same_bytes(&[1, 2], &[1, 3]));
    assert!(!same_bytes(&[1], &[1, 2]));
}

#[test]
fn no_two_pieces_share_an_address() {
    let urls: Vec<String> =
        (0..3000).map(|i| piece_url("http://server/", PieceIndex::from(i))).collect();
    let different: std::collections::HashSet<&String> = urls.iter().collect();
    assert_eq!(different.len(), 3000);
}

#[test]
fn no_two_files_share_a_place() {
    let mut places = std::collections::HashSet::new();
    for i in [0, 1, 10, 11, 100, 110, 255, 256, 25600, u64::MAX] {
        let path = piece_path(PieceIndex::from(i));
        assert!(places.insert((path.piece.dir, path.piece.name)));
        assert!(places.insert((path.checksum.dir, path.checksum.name)));
    }
}
