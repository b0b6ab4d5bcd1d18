use rustus::errors::StorageError;
use rustus::file_info::FileInfo;
use rustus::file_storage::FileStorage;
use rustus::null_storage::NullStorage;
use rustus::store::Store;

fn record(id: &str) -> FileInfo {
    FileInfo::new(id.to_owned(), None, None)
}

#[test]
fn test_atomic_create() {
    let mut store = Store::new();
    let backend = NullStorage::new("/data".to_owned(), "shard".to_owned());
    let info = record("upload-1");
    let first = backend.create_file(&mut store, &info, "shard");
    assert_eq!(first, Ok("/data/shard/upload-1".to_owned()));
    let second = backend.create_file(&mut store, &info, "shard");
    assert_eq!(second, Err(StorageError::UnitAlreadyExists));
}

#[test]
fn test_precondition_enforcement_discard() {
    let mut store = Store::new();
    let backend = NullStorage::new("/data".to_owned(), "shard".to_owned());
    let info = record("never-created");
    assert_eq!(backend.add_bytes(&mut store, &info, b"abc"), Err(StorageError::MissingStoragePath));
    assert_eq!(
        backend.concat_files(&mut store, &info, &Vec::new()),
        Err(StorageError::MissingStoragePath)
    );
    assert!(matches!(
        backend.get_contents(&store, &info),
        Err(StorageError::MissingStoragePath)
    ));
    assert_eq!(backend.remove_file(&mut store, &info), Err(StorageError::MissingStoragePath));
}

#[test]
fn test_precondition_enforcement_persistent() {
    let mut store = Store::new();
    let backend = FileStorage::new("/data".to_owned(), "shard".to_owned());
    let info = record("never-created");
    assert_eq!(backend.add_bytes(&mut store, &info, b"abc"), Err(StorageError::MissingStoragePath));
    assert_eq!(
        backend.concat_files(&mut store, &info, &Vec::new()),
        Err(StorageError::MissingStoragePath)
    );
    assert!(matches!(
        backend.get_contents(&store, &info),
        Err(StorageError::MissingStoragePath)
    ));
    assert_eq!(backend.remove_file(&mut store, &info), Err(StorageError::MissingStoragePath));
}

#[test]
fn test_concatenation_order() {
    let mut store = Store::new();
    let backend = FileStorage::new("/data".to_owned(), "shard".to_owned());
    let mut target = record("final");
    let path = backend.create_file(&mut store, &target, "shard").unwrap();
    target.set_path(path);
    let mut parts = Vec::new();
    for (id, payload) in [("part-a", b"AAA".as_slice()), ("part-b", b"bb".as_slice()), (
        "part-c",
        b"cccc".as_slice(),
    )] {
        let mut part = record(id);
        let part_path = backend.create_file(&mut store, &part, "shard").unwrap();
        part.set_path(part_path);
        backend.add_bytes(&mut store, &part, payload).unwrap();
        parts.push(part);
    }
    backend.concat_files(&mut store, &target, &parts).unwrap();
    let delivery = backend.get_contents(&store, &target).unwrap();
    assert_eq!(delivery.body, b"AAAbbcccc".to_vec());
}

#[test]
fn test_concatenation_leaves_target_untouched_on_missing_part() {
    let mut store = Store::new();
    let backend = FileStorage::new("/data".to_owned(), "shard".to_owned());
    let mut target = record("final");
    let path = backend.create_file(&mut store, &target, "shard").unwrap();
    target.set_path(path);
    let mut good = record("part-a");
    let good_path = backend.create_file(&mut store, &good, "shard").unwrap();
    good.set_path(good_path);
    backend.add_bytes(&mut store, &good, b"AAA").unwrap();
    // this part record claims a unit that was never created in the store
    let mut missing = record("part-b");
    missing.set_path("/data/shard/part-b".to_owned());
    let parts = vec![good, missing];
    assert_eq!(
        backend.concat_files(&mut store, &target, &parts),
        Err(StorageError::UnitNotFound)
    );
    let delivery = backend.get_contents(&store, &target).unwrap();
    assert_eq!(delivery.body, Vec::<u8>::new());
}

#[test]
fn test_remove_semantics() {
    let mut store = Store::new();
    let backend = NullStorage::new("/data".to_owned(), "shard".to_owned());
    // a record whose path is set but whose unit is absent from the store
    let mut tampered = record("gone");
    tampered.set_path("/data/shard/gone".to_owned());
    assert_eq!(backend.remove_file(&mut store, &tampered), Err(StorageError::UnitNotFound));
    // an existing unit is removed once, then every later operation fails
    let mut info = record("upload-2");
    let path = backend.create_file(&mut store, &info, "shard").unwrap();
    info.set_path(path);
    assert_eq!(backend.remove_file(&mut store, &info), Ok(()));
    assert_eq!(backend.remove_file(&mut store, &info), Err(StorageError::UnitNotFound));
    assert!(matches!(backend.get_contents(&store, &info), Err(StorageError::UnitNotFound)));
}

#[test]
fn test_discard_round_trip() {
    let mut store = Store::new();
    let backend = NullStorage::new("/data".to_owned(), "shard".to_owned());
    let mut info = record("upload-3");
    let path = backend.create_file(&mut store, &info, "shard").unwrap();
    info.set_path(path);
    assert_eq!(backend.add_bytes(&mut store, &info, b"payload"), Ok(()));
    let delivery = backend.get_contents(&store, &info).unwrap();
    // the unit exists, but the payload was dropped: the body is empty
    assert_eq!(delivery.body, Vec::<u8>::new());
}

#[test]
fn test_persistent_append_grows_unit() {
    let mut store = Store::new();
    let backend = FileStorage::new("/data".to_owned(), "shard".to_owned());
    let mut info = record("upload-4");
    let path = backend.create_file(&mut store, &info, "shard").unwrap();
    info.set_path(path);
    backend.add_bytes(&mut store, &info, b"hello ").unwrap();
    backend.add_bytes(&mut store, &info, b"world").unwrap();
    let delivery = backend.get_contents(&store, &info).unwrap();
    assert_eq!(delivery.body, b"hello world".to_vec());
}

#[test]
fn test_data_file_path() {
    let mut store = Store::new();
    let backend = NullStorage::new("/base".to_owned(), "tpl".to_owned());
    let path = backend.data_file_path(&mut store, "2024/01", "id-9");
    assert_eq!(path, "/base/2024/01/id-9");
}

#[test]
fn test_prepare_is_idempotent() {
    let mut store = Store::new();
    let mut backend = NullStorage::new("/data".to_owned(), "shard".to_owned());
    assert_eq!(backend.prepare(&mut store), Ok(()));
    assert_eq!(backend.prepare(&mut store), Ok(()));
}

#[test]
fn test_get_name() {
    let null_backend = NullStorage::new("/data".to_owned(), "shard".to_owned());
    let file_backend = FileStorage::new("/data".to_owned(), "shard".to_owned());
    assert_eq!(null_backend.get_name(), "file");
    assert_eq!(file_backend.get_name(), "file");
}

#[test]
fn test_disposition_filename() {
    let named = FileInfo::new("id-1".to_owned(), None, Some("report.pdf".to_owned()));
    assert_eq!(named.get_filename(), "report.pdf");
    let unnamed = record("id-2");
    assert_eq!(unnamed.get_filename(), "id-2");
}

#[test]
fn test_error_categories() {
    assert!(StorageError::MissingStoragePath.is_precondition());
    assert!(!StorageError::UnitNotFound.is_precondition());
    assert_eq!(StorageError::MissingStoragePath.name(), "missing storage path");
    assert_eq!(StorageError::UnitNotFound.name(), "unit not found");
    assert_eq!(StorageError::UnitAlreadyExists.name(), "unit already exists");
    assert_eq!(StorageError::BackendFault.name(), "backend fault");
}

#[test]
fn test_discard_concat_validates_target() {
    let mut store = Store::new();
    let backend = NullStorage::new("/data".to_owned(), "shard".to_owned());
    let mut target = record("final");
    let path = backend.create_file(&mut store, &target, "shard").unwrap();
    target.set_path(path);
    assert_eq!(backend.concat_files(&mut store, &target, &Vec::new()), Ok(()));
}
