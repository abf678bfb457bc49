//! The cache and its files, on a disk in memory.

use piece_cache::cache::MyPieceCache;
use piece_cache::checksum::piece_checksum;
use piece_cache::disk::{DirEntry, DiskAction, DiskReply, EntryKind, FilePath};
use piece_cache::load::LoadEnd;
use piece_cache::primitives::{Piece, PieceIndex, PIECE_SIZE};
use piece_cache::read::{CacheFault, ReadError};
use std::collections::BTreeMap;

struct Memory {
    dirs: BTreeMap<String, BTreeMap<String, Vec<u8>>>,
    log: Vec<String>,
    broken: Vec<&'static str>,
}

impl Memory {
    fn new() -> Memory {
        Memory { dirs: BTreeMap::new(), log: Vec::new(), broken: Vec::new() }
    }

    fn put(&mut self, dir: &str, name: &str, content: Vec<u8>) {
        self.dirs.entry(dir.to_string()).or_default().insert(name.to_string(), content);
    }

    fn get(&self, dir: &str, name: &str) -> Option<&Vec<u8>> {
        self.dirs.get(dir)?.get(name)
    }

    fn file(&self, path: &FilePath) -> Option<&Vec<u8>> {
        self.get(&path.dir, &path.name)
    }

    fn perform(&mut self, action: DiskAction) -> DiskReply {
        let text = match &action {
            DiskAction::ListRoot => "list".to_string(),
            DiskAction::ListDir(dir) => format!("list {dir}"),
            DiskAction::DirExists(dir) => format!("find {dir}"),
            DiskAction::CreateDir(dir) => format!("create {dir}"),
            DiskAction::FileSize(path) => format!("size {}/{}", path.dir, path.name),
            DiskAction::IsFile(path) => format!("file? {}/{}", path.dir, path.name),
            DiskAction::FileExists(path) => format!("find {}/{}", path.dir, path.name),
            DiskAction::ReadFile(path) => format!("read {}/{}", path.dir, path.name),
            DiskAction::WriteFile(path, _) => format!("write {}/{}", path.dir, path.name),
            DiskAction::RemoveFile(path) => format!("remove {}/{}", path.dir, path.name),
        };
        self.log.push(text.clone());
        if self.broken.contains(&text.as_str()) {
            return DiskReply::Failed;
        }
        match action {
            DiskAction::ListRoot => {
                let mut entries = vec![
                    DirEntry { name: "readme".to_string(), kind: EntryKind::Other },
                    DirEntry { name: "lost".to_string(), kind: EntryKind::Unreadable },
                ];
                for dir in self.dirs.keys() {
                    entries.push(DirEntry { name: dir.clone(), kind: EntryKind::Directory });
                }
                DiskReply::Listing(entries)
            }
            DiskAction::ListDir(dir) => match self.dirs.get(&dir) {
                Some(files) => {
                    let mut entries = vec![
                        DirEntry { name: "5".to_string(), kind: EntryKind::Directory },
                        DirEntry { name: "6".to_string(), kind: EntryKind::Unreadable },
                    ];
                    for name in files.keys() {
                        entries.push(DirEntry { name: name.clone(), kind: EntryKind::Other });
                    }
                    DiskReply::Listing(entries)
                }
                None => DiskReply::Failed,
            },
            DiskAction::DirExists(dir) => DiskReply::Answer(self.dirs.contains_key(&dir)),
            DiskAction::CreateDir(dir) => {
                if self.dirs.contains_key(&dir) {
                    DiskReply::Failed
                } else {
                    self.dirs.insert(dir, BTreeMap::new());
                    DiskReply::Done
                }
            }
            DiskAction::FileSize(path) => match self.file(&path) {
                Some(content) => DiskReply::Size(content.len() as u64),
                None => DiskReply::Failed,
            },
            DiskAction::IsFile(path) | DiskAction::FileExists(path) => {
                DiskReply::Answer(self.file(&path).is_some())
            }
            DiskAction::ReadFile(path) => match self.file(&path) {
                Some(content) => DiskReply::Content(content.clone()),
                None => DiskReply::Failed,
            },
            DiskAction::WriteFile(path, content) => match self.dirs.get_mut(&path.dir) {
                Some(files) => {
                    files.insert(path.name, content);
                    DiskReply::Done
                }
                None => DiskReply::Failed,
            },
            DiskAction::RemoveFile(path) => {
                let removed = self.dirs.get_mut(&path.dir).and_then(|f| f.remove(&path.name));
                if removed.is_some() {
                    DiskReply::Done
                } else {
                    DiskReply::Failed
                }
            }
        }
    }
}

fn piece(byte: u8) -> Piece {
    Piece::try_from(vec![byte; PIECE_SIZE]).unwrap()
}

fn save(cache: &mut MyPieceCache, disk: &mut Memory, index: u64, piece: Piece) -> bool {
    let mut save = cache.save_piece(PieceIndex::from(index), piece);
    while let Some(action) = save.action() {
        save = save.advance(disk.perform(action));
    }
    cache.finish_save(save)
}

fn load(cache: &mut MyPieceCache, disk: &mut Memory, verify: bool) -> LoadEnd {
    let mut load = cache.load_piece(verify);
    while let Some(action) = load.action() {
        load = load.advance(disk.perform(action));
    }
    cache.finish_load(load)
}

fn get(
    cache: &MyPieceCache,
    disk: &mut Memory,
    index: u64,
) -> Result<Option<Vec<u8>>, ReadError> {
    let mut get = cache.get_piece(&PieceIndex::from(index));
    while let Some(action) = get.action() {
        get = get.advance(disk.perform(action));
    }
    get.result().map(|piece| piece.map(Piece::into_bytes))
}

fn check(cache: &mut MyPieceCache, disk: &mut Memory, index: u64) -> Result<Vec<u8>, ReadError> {
    let mut check = cache.get_piece_and_check(&PieceIndex::from(index));
    while let Some(action) = check.action() {
        check = check.advance(disk.perform(action));
    }
    cache.finish_check(check).map(Piece::into_bytes)
}

#[test]
fn a_new_cache_holds_nothing() {
    let cache = MyPieceCache::new();
    assert_eq!(cache.piece_count(), 0);
    assert_eq!(cache.max_piece_index(), PieceIndex::from(0));
    assert!(!cache.has_piece(&PieceIndex::from(0)));
    assert!(cache.record(b"key").is_none());
}

#[test]
fn a_saved_piece_is_held_and_read_back() {
    let (mut cache, mut disk) = (MyPieceCache::new(), Memory::new());
    assert!(save(&mut cache, &mut disk, 1000, piece(9)));
    assert!(cache.has_piece(&PieceIndex::from(1000)));
    assert_eq!(get(&cache, &mut disk, 1000), Ok(Some(vec![9; PIECE_SIZE])));
    assert_eq!(check(&mut cache, &mut disk, 1000), Ok(vec![9; PIECE_SIZE]));
    let checksum = piece_checksum(PieceIndex::from(1000), &vec![9; PIECE_SIZE]);
    assert_eq!(disk.get("3", "1000.checksum"), Some(&checksum));
}

#[test]
fn saving_creates_the_directory_and_writes_the_checksum_first() {
    let (mut cache, mut disk) = (MyPieceCache::new(), Memory::new());
    assert!(save(&mut cache, &mut disk, 257, piece(1)));
    assert_eq!(
        disk.log,
        vec!["find 1", "create 1", "find 1/257", "write 1/257.checksum", "write 1/257"]
    );
    disk.log.clear();
    assert!(save(&mut cache, &mut disk, 256, piece(2)));
    assert_eq!(
        disk.log,
        vec!["find 1", "find 1/256", "write 1/256.checksum", "write 1/256"]
    );
}

#[test]
fn saving_again_writes_nothing() {
    let (mut cache, mut disk) = (MyPieceCache::new(), Memory::new());
    assert!(save(&mut cache, &mut disk, 0, piece(1)));
    disk.log.clear();
    assert!(save(&mut cache, &mut disk, 0, piece(2)));
    assert_eq!(disk.log, vec!["find 0", "find 0/0"]);
    assert_eq!(get(&cache, &mut disk, 0), Ok(Some(vec![1; PIECE_SIZE])));
    assert_eq!(cache.piece_count(), 1);
}

#[test]
fn a_piece_that_cannot_be_saved_is_not_held() {
    for broken in ["create 0", "write 0/7.checksum", "write 0/7"] {
        let (mut cache, mut disk) = (MyPieceCache::new(), Memory::new());
        disk.broken.push(broken);
        assert!(!save(&mut cache, &mut disk, 7, piece(1)), "{broken}");
        assert!(!cache.has_piece(&PieceIndex::from(7)));
        assert_eq!(disk.log.last().map(String::as_str), Some(broken));
        disk.broken.clear();
        assert!(save(&mut cache, &mut disk, 7, piece(1)));
        assert_eq!(check(&mut cache, &mut disk, 7), Ok(vec![1; PIECE_SIZE]));
    }
}

#[test]
fn reading_a_missing_piece_is_an_error() {
    let (mut cache, mut disk) = (MyPieceCache::new(), Memory::new());
    assert_eq!(get(&cache, &mut disk, 3), Err(ReadError::NotAFile));
    assert_eq!(check(&mut cache, &mut disk, 3), Err(ReadError::NotAFile));
    assert_eq!(ReadError::NotAFile.message(), Some("piece not file or not exit"));
}

#[test]
fn reading_says_what_went_wrong() {
    let (cache, mut disk) = (MyPieceCache::new(), Memory::new());
    disk.put("0", "3", vec![0; 10]);
    assert_eq!(get(&cache, &mut disk, 3), Err(ReadError::NotAPiece));
    disk.broken = vec!["find 0/3"];
    assert_eq!(get(&cache, &mut disk, 3), Err(ReadError::Io));
    disk.broken = vec!["read 0/3"];
    assert_eq!(
        get(&cache, &mut disk, 3),
        Err(ReadError::Fault(CacheFault::PieceUnreadable))
    );
    assert_eq!(ReadError::Io.message(), None);
    assert_eq!(ReadError::NotAPiece.message(), Some("()"));
    assert_eq!(ReadError::Fault(CacheFault::PieceUnreadable).message(), Some("Piece file exit"));
}

#[test]
fn a_file_that_vanishes_is_no_piece() {
    let cache = MyPieceCache::new();
    let get = cache.get_piece(&PieceIndex::from(3));
    let get = get.advance(DiskReply::Answer(true)).advance(DiskReply::Answer(false));
    assert!(get.action().is_none());
    assert!(matches!(get.result(), Ok(None)));
}

#[test]
fn checked_reading_removes_a_corrupt_piece() {
    let (mut cache, mut disk) = (MyPieceCache::new(), Memory::new());
    assert!(save(&mut cache, &mut disk, 5, piece(1)));
    assert!(save(&mut cache, &mut disk, 6, piece(2)));
    disk.put("0", "5", vec![3; PIECE_SIZE]);
    assert_eq!(check(&mut cache, &mut disk, 5), Err(ReadError::ChecksumMismatch));
    assert_eq!(ReadError::ChecksumMismatch.message(), Some("piece check doesn't match"));
    assert!(!cache.has_piece(&PieceIndex::from(5)));
    assert_eq!(disk.get("0", "5"), None);
    assert_eq!(disk.get("0", "5.checksum"), None);
    assert_eq!(check(&mut cache, &mut disk, 6), Ok(vec![2; PIECE_SIZE]));
}

#[test]
fn checked_reading_says_what_went_wrong() {
    let cases = [
        ("read 0/5.checksum", CacheFault::ChecksumUnreadable, "Piece checkksum exit"),
        ("read 0/5", CacheFault::PieceUnreadable, "Piece file exit"),
        ("remove 0/5", CacheFault::InvalidFileStays, "Remove invalid file"),
        ("remove 0/5.checksum", CacheFault::InvalidFileStays, "Remove invalid file"),
    ];
    for (broken, fault, text) in cases {
        let (mut cache, mut disk) = (MyPieceCache::new(), Memory::new());
        assert!(save(&mut cache, &mut disk, 5, piece(1)));
        disk.put("0", "5", vec![3; PIECE_SIZE]);
        disk.broken.push(broken);
        assert_eq!(check(&mut cache, &mut disk, 5), Err(ReadError::Fault(fault)), "{broken}");
        assert_eq!(fault.message(), text);
        assert!(cache.has_piece(&PieceIndex::from(5)));
    }
}

#[test]
fn a_short_piece_with_its_own_checksum_is_no_piece() {
    let (mut cache, mut disk) = (MyPieceCache::new(), Memory::new());
    disk.put("0", "5", b"short".to_vec());
    disk.put("0", "5.checksum", piece_checksum(PieceIndex::from(5), b"short"));
    assert_eq!(check(&mut cache, &mut disk, 5), Err(ReadError::NotAPiece));
    assert!(disk.get("0", "5").is_some());
}

#[test]
fn loading_finds_what_was_saved() {
    for verify in [false, true] {
        let (mut before, mut disk) = (MyPieceCache::new(), Memory::new());
        for index in [0, 255, 256, 70000] {
            assert!(save(&mut before, &mut disk, index, piece(index as u8)));
        }
        let mut cache = MyPieceCache::new();
        assert_eq!(load(&mut cache, &mut disk, verify), LoadEnd::Loaded);
        assert_eq!(cache.piece_count(), 4);
        assert_eq!(cache.max_piece_index(), PieceIndex::from(70000));
        let files = disk.dirs.clone();
        assert_eq!(load(&mut cache, &mut disk, verify), LoadEnd::Loaded);
        assert_eq!(cache.piece_count(), 4);
        assert_eq!(disk.dirs, files);
    }
}

#[test]
fn loading_removes_files_of_a_wrong_size() {
    let (mut cache, mut disk) = (MyPieceCache::new(), Memory::new());
    disk.put("0", "1", vec![1; PIECE_SIZE]);
    disk.put("0", "2", vec![1; PIECE_SIZE - 1]);
    disk.put("0", "2.checksum", vec![1; 32]);
    disk.put("0", "notes", vec![1; 3]);
    assert_eq!(load(&mut cache, &mut disk, false), LoadEnd::Loaded);
    assert!(cache.has_piece(&PieceIndex::from(1)));
    assert!(!cache.has_piece(&PieceIndex::from(2)));
    assert_eq!(disk.get("0", "2"), None);
    assert!(disk.get("0", "2.checksum").is_some());
    assert!(disk.get("0", "notes").is_some());
}

#[test]
fn verified_loading_removes_corrupt_pieces() {
    let (mut before, mut disk) = (MyPieceCache::new(), Memory::new());
    for index in [1, 2, 3] {
        assert!(save(&mut before, &mut disk, index, piece(4)));
    }
    disk.put("0", "2", vec![5; PIECE_SIZE]);
    disk.put("0", "3.checksum", vec![0; 31]);
    let mut plain = MyPieceCache::new();
    assert_eq!(load(&mut plain, &mut disk, false), LoadEnd::Loaded);
    assert_eq!(plain.piece_count(), 3);
    let mut cache = MyPieceCache::new();
    assert_eq!(load(&mut cache, &mut disk, true), LoadEnd::Loaded);
    assert!(cache.has_piece(&PieceIndex::from(1)));
    assert_eq!(cache.piece_count(), 1);
    for name in ["2", "2.checksum", "3", "3.checksum"] {
        assert_eq!(disk.get("0", name), None);
    }
}

#[test]
fn corrupt_pieces_that_stay_are_passed_over() {
    let (mut before, mut disk) = (MyPieceCache::new(), Memory::new());
    assert!(save(&mut before, &mut disk, 1, piece(4)));
    assert!(save(&mut before, &mut disk, 2, piece(4)));
    disk.put("0", "1", vec![5; PIECE_SIZE]);
    disk.broken = vec!["remove 0/1", "remove 0/1.checksum"];
    let mut cache = MyPieceCache::new();
    assert_eq!(load(&mut cache, &mut disk, true), LoadEnd::Loaded);
    assert!(!cache.has_piece(&PieceIndex::from(1)));
    assert!(cache.has_piece(&PieceIndex::from(2)));
}

#[test]
fn loading_says_what_went_wrong() {
    let cases = [
        ("list", LoadEnd::Failed),
        ("list 0", LoadEnd::Fault(CacheFault::SegmentUnreadable)),
        ("remove 0/9", LoadEnd::Fault(CacheFault::InvalidFileStays)),
        ("read 0/1.checksum", LoadEnd::Fault(CacheFault::ChecksumUnreadable)),
        ("read 0/1", LoadEnd::Fault(CacheFault::PieceUnreadable)),
        ("size 0/9", LoadEnd::Loaded),
    ];
    for (broken, end) in cases {
        let (mut before, mut disk) = (MyPieceCache::new(), Memory::new());
        assert!(save(&mut before, &mut disk, 1, piece(4)));
        disk.put("0", "9", vec![1]);
        disk.broken.push(broken);
        let mut cache = MyPieceCache::new();
        assert_eq!(load(&mut cache, &mut disk, true), end, "{broken}");
    }
    assert_eq!(CacheFault::SegmentUnreadable.message(), "read sub directory");
}

#[test]
fn a_file_under_another_name_counts_for_its_number() {
    let (mut cache, mut disk) = (MyPieceCache::new(), Memory::new());
    disk.put("backup", "0042", vec![1; PIECE_SIZE]);
    assert_eq!(load(&mut cache, &mut disk, false), LoadEnd::Loaded);
    assert!(cache.has_piece(&PieceIndex::from(42)));
    let mut verified = MyPieceCache::new();
    assert_eq!(
        load(&mut verified, &mut disk, true),
        LoadEnd::Fault(CacheFault::ChecksumUnreadable)
    );
    assert_eq!(verified.piece_count(), 0);
}

#[test]
fn held_pieces_are_named_in_order() {
    let (mut cache, mut disk) = (MyPieceCache::new(), Memory::new());
    for index in [1, 5, 9] {
        assert!(save(&mut cache, &mut disk, index, piece(1)));
    }
    let asked: Vec<PieceIndex> = [9, 2, 1, 9, 7].iter().map(|i| PieceIndex::from(*i)).collect();
    let held: Vec<u64> = cache.has_pieces(asked).iter().map(|i| i.value).collect();
    assert_eq!(held, vec![9, 1, 9]);
}

#[test]
fn the_cache_knows_where_it_keeps_a_piece() {
    let path = MyPieceCache::new().piece_path(&PieceIndex::from(513));
    assert_eq!(path.segment_dir, "2");
    assert_eq!(path.piece.name, "513");
    assert_eq!(path.checksum.name, "513.checksum");
}

#[test]
fn an_interrupted_save_does_no_harm() {
    for actions in 0..6 {
        let (mut cache, mut disk) = (MyPieceCache::new(), Memory::new());
        assert!(save(&mut cache, &mut disk, 1, piece(1)));
        let mut second = cache.save_piece(PieceIndex::from(600), piece(2));
        for _ in 0..actions {
            if let Some(action) = second.action() {
                second = second.advance(disk.perform(action));
            }
        }
        drop(second);
        let mut later = MyPieceCache::new();
        assert_eq!(load(&mut later, &mut disk, true), LoadEnd::Loaded);
        assert!(later.has_piece(&PieceIndex::from(1)));
        assert_eq!(later.has_piece(&PieceIndex::from(600)), actions >= 5);
        assert!(save(&mut later, &mut disk, 600, piece(3)));
        let byte = if actions >= 5 { 2 } else { 3 };
        assert_eq!(check(&mut later, &mut disk, 600), Ok(vec![byte; PIECE_SIZE]));
    }
}

#[test]
fn saving_leaves_other_files_alone() {
    let (mut cache, mut disk) = (MyPieceCache::new(), Memory::new());
    assert!(save(&mut cache, &mut disk, 1, piece(1)));
    disk.put("0", "notes", vec![1, 2, 3]);
    let before = disk.dirs.clone();
    assert!(save(&mut cache, &mut disk, 11, piece(2)));
    for (name, content) in &before["0"] {
        assert_eq!(disk.get("0", name), Some(content));
    }
}

#[test]
fn plain_loading_goes_by_name_and_size_alone() {
    let (mut cache, mut disk) = (MyPieceCache::new(), Memory::new());
    disk.put("backup", "0042", vec![1; PIECE_SIZE]);
    disk.put("backup", "+7", vec![1; 9]);
    disk.put("9", "3", vec![1; PIECE_SIZE]);
    disk.put("9", "notes", vec![1; 9]);
    assert_eq!(load(&mut cache, &mut disk, false), LoadEnd::Loaded);
    assert_eq!(cache.piece_count(), 2);
    assert!(cache.has_piece(&PieceIndex::from(42)));
    assert!(cache.has_piece(&PieceIndex::from(3)));
    assert_eq!(disk.get("backup", "+7"), None);
    let files = disk.dirs.clone();
    let mut again = MyPieceCache::new();
    assert_eq!(load(&mut again, &mut disk, false), LoadEnd::Loaded);
    assert_eq!(again.piece_count(), 2);
    assert_eq!(disk.dirs, files);
}

#[test]
fn verified_loading_bears_copies_and_misfits() {
    let (mut before, mut disk) = (MyPieceCache::new(), Memory::new());
    assert!(save(&mut before, &mut disk, 1, piece(4)));
    assert!(save(&mut before, &mut disk, 2, piece(5)));
    disk.put("backup", "01", vec![9; PIECE_SIZE]);
    disk.put("backup", "02", vec![9; 9]);
    disk.put("0", "2", vec![6; PIECE_SIZE]);
    let mut cache = MyPieceCache::new();
    assert_eq!(load(&mut cache, &mut disk, true), LoadEnd::Loaded);
    assert_eq!(cache.piece_count(), 1);
    assert!(cache.has_piece(&PieceIndex::from(1)));
    assert!(disk.get("backup", "01").is_some());
    assert_eq!(disk.get("backup", "02"), None);
    assert_eq!(disk.get("0", "2"), None);
    assert_eq!(disk.get("0", "2.checksum"), None);
    let files = disk.dirs.clone();
    assert_eq!(load(&mut cache, &mut disk, true), LoadEnd::Loaded);
    assert_eq!(disk.dirs, files);
}
