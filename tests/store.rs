use content_service::{
    BatchItem, DataProcessor, FileOp, FileProcessor, IoKind, ListedEntry, ReadPlan, ServiceError, WritePlan,
};

#[test]
fn new_store_is_empty_with_default_limit() {
    let store = FileProcessor::new("/data".to_string());
    assert_eq!(store.base_path(), "/data");
    assert_eq!(store.max_file_size(), 1048576);
    assert_eq!(store.begin_read("a.txt"), Ok(ReadPlan::Load("/data/a.txt".to_string())));
}

#[test]
fn write_then_read_hits_cache() {
    let mut store = FileProcessor::with_limit("/data".to_string(), 16);
    assert_eq!(store.commit_write("a.txt", "hello".to_string(), Ok(())), Ok(()));
    assert_eq!(store.begin_read("a.txt"), Ok(ReadPlan::Cached("hello".to_string())));
    assert_eq!(store.commit_write("a.txt", "again".to_string(), Ok(())), Ok(()));
    assert_eq!(store.begin_read("a.txt"), Ok(ReadPlan::Cached("again".to_string())));
}

#[test]
fn oversized_write_then_read_is_too_large() {
    let mut store = FileProcessor::with_limit("/data".to_string(), 4);
    assert_eq!(store.commit_write("a.txt", "hello".to_string(), Ok(())), Ok(()));
    assert_eq!(store.begin_read("a.txt"), Ok(ReadPlan::Load("/data/a.txt".to_string())));
    assert_eq!(store.check_size(5), Err(ServiceError::TooLarge { actual: 5, limit: 4 }));
    assert_eq!(store.check_size(4), Ok(()));
    assert_eq!(
        store.finish_read("a.txt", Ok("hello".to_string())),
        Err(ServiceError::TooLarge { actual: 5, limit: 4 })
    );
    assert_eq!(store.begin_read("a.txt"), Ok(ReadPlan::Load("/data/a.txt".to_string())));
}

#[test]
fn size_counts_bytes_not_characters() {
    let mut store = FileProcessor::with_limit("/d".to_string(), 3);
    assert_eq!(
        store.finish_read("e.txt", Ok("éé".to_string())),
        Err(ServiceError::TooLarge { actual: 4, limit: 3 })
    );
    assert_eq!(store.finish_read("f.txt", Ok("abc".to_string())), Ok("abc".to_string()));
}

#[test]
fn oversized_write_drops_old_cache_entry() {
    let mut store = FileProcessor::with_limit("/data".to_string(), 4);
    store.commit_write("a.txt", "ok".to_string(), Ok(())).unwrap();
    store.commit_write("a.txt", "too long".to_string(), Ok(())).unwrap();
    assert_eq!(store.begin_read("a.txt"), Ok(ReadPlan::Load("/data/a.txt".to_string())));
}

#[test]
fn failed_write_keeps_old_content() {
    let mut store = FileProcessor::new("/data".to_string());
    store.commit_write("a.txt", "old".to_string(), Ok(())).unwrap();
    let failure = ServiceError::IoFailure { key: "a.txt".to_string(), cause: "disk full".to_string() };
    assert_eq!(store.commit_write("a.txt", "new".to_string(), Err(failure.clone())), Err(failure));
    assert_eq!(store.begin_read("a.txt"), Ok(ReadPlan::Cached("old".to_string())));
}

#[test]
fn write_goes_through_temporary_file() {
    let store = FileProcessor::new("/data".to_string());
    assert_eq!(
        store.prepare_write("a.txt"),
        Ok(WritePlan {
            temp_dir: "/data/.tmp".to_string(),
            temp_path: "/data/.tmp/a.txt".to_string(),
            final_path: "/data/a.txt".to_string(),
        })
    );
}

#[test]
fn names_leaving_the_directory_are_refused() {
    let mut store = FileProcessor::new("/data".to_string());
    for bad in ["", ".", "..", "../etc/passwd", "a/b", "a\\b", "..\\x", "a\0b"] {
        let denied = ServiceError::PermissionDenied { key: bad.to_string() };
        assert_eq!(store.begin_read(bad), Err(denied.clone()));
        assert_eq!(store.file_path(bad), Err(denied.clone()));
        assert_eq!(store.prepare_write(bad), Err(denied.clone()));
        assert_eq!(store.commit_write(bad, "x".to_string(), Ok(())), Err(denied.clone()));
        assert_eq!(store.finish_read(bad, Ok("x".to_string())), Err(denied));
    }
    assert_eq!(store.file_path("ok.txt"), Ok("/data/ok.txt".to_string()));
    assert_eq!(store.file_path(".env"), Ok("/data/.env".to_string()));
    assert_eq!(store.file_path("...x"), Ok("/data/...x".to_string()));
    assert_eq!(store.file_path("a.tmp"), Ok("/data/a.tmp".to_string()));
    assert_eq!(store.file_path(".tmp"), Ok("/data/.tmp".to_string()));
    assert_eq!(store.file_path(".a.tmp"), Ok("/data/.a.tmp".to_string()));
}

#[test]
fn read_miss_is_cached_after_load() {
    let mut store = FileProcessor::new("/data".to_string());
    assert_eq!(store.finish_read("a.txt", Ok("body".to_string())), Ok("body".to_string()));
    assert_eq!(store.begin_read("a.txt"), Ok(ReadPlan::Cached("body".to_string())));
}

#[test]
fn failed_load_is_passed_on_and_not_cached() {
    let mut store = FileProcessor::new("/data".to_string());
    let err = ServiceError::InvalidEncoding { key: "b.bin".to_string() };
    assert_eq!(store.finish_read("b.bin", Err(err.clone())), Err(err));
    assert_eq!(store.begin_read("b.bin"), Ok(ReadPlan::Load("/data/b.bin".to_string())));
}

#[test]
fn delete_missing_twice_is_not_found_both_times() {
    let mut store = FileProcessor::new("/data".to_string());
    store.commit_write("gone.txt", "x".to_string(), Ok(())).unwrap();
    let missing = ServiceError::NotFound { key: "gone.txt".to_string() };
    assert_eq!(store.finish_delete("gone.txt", Err(missing.clone())), Err(missing.clone()));
    assert_eq!(store.finish_delete("gone.txt", Err(missing.clone())), Err(missing));
    assert_eq!(store.begin_read("gone.txt"), Ok(ReadPlan::Load("/data/gone.txt".to_string())));
}

#[test]
fn delete_removes_cache_entry() {
    let mut store = FileProcessor::new("/data".to_string());
    store.commit_write("a.txt", "x".to_string(), Ok(())).unwrap();
    assert_eq!(store.finish_delete("a.txt", Ok(())), Ok(()));
    assert_eq!(store.begin_read("a.txt"), Ok(ReadPlan::Load("/data/a.txt".to_string())));
}

#[test]
fn batch_reports_each_name_in_order() {
    let mut pipeline = DataProcessor::new();
    pipeline.add_rule("o".to_string(), "0".to_string());
    let reads = vec![
        ("a".to_string(), Ok("foo".to_string())),
        ("missing".to_string(), Err(ServiceError::NotFound { key: "missing".to_string() })),
        ("b".to_string(), Ok("boo".to_string())),
    ];
    let results = FileProcessor::process_batch_results(&reads, &pipeline);
    assert_eq!(
        results,
        vec![
            BatchItem { name: "a".to_string(), outcome: Ok("f00".to_string()) },
            BatchItem {
                name: "missing".to_string(),
                outcome: Err(ServiceError::NotFound { key: "missing".to_string() }),
            },
            BatchItem { name: "b".to_string(), outcome: Ok("b00".to_string()) },
        ]
    );
}

#[test]
fn empty_batch_is_empty() {
    let pipeline = DataProcessor::new();
    assert!(FileProcessor::process_batch_results(&Vec::new(), &pipeline).is_empty());
}

#[test]
fn transform_content_rewrites() {
    let store = FileProcessor::new("/data".to_string());
    assert_eq!(store.transform_content("hello world\nbye"), "HELLO_WORLD\\nBYE");
    assert_eq!(store.transform_content(""), "");
}

#[test]
fn listing_keeps_valid_regular_files() {
    let entries = vec![
        ListedEntry { name: Some("a.txt".to_string()), is_file: true },
        ListedEntry { name: Some("sub".to_string()), is_file: false },
        ListedEntry { name: None, is_file: true },
        ListedEntry { name: Some(".tmp".to_string()), is_file: false },
        ListedEntry { name: Some(".a.txt.tmp".to_string()), is_file: true },
        ListedEntry { name: Some("b.txt".to_string()), is_file: true },
        ListedEntry { name: Some(".env".to_string()), is_file: true },
    ];
    assert_eq!(
        FileProcessor::list_names(&entries),
        vec!["a.txt".to_string(), ".a.txt.tmp".to_string(), "b.txt".to_string(), ".env".to_string()]
    );
}

#[test]
fn io_failures_are_classified() {
    let key = || "k".to_string();
    let cause = || "boom".to_string();
    let io = |op, kind| ServiceError::from_io(op, kind, key(), cause());
    let failure = ServiceError::IoFailure { key: key(), cause: cause() };
    assert_eq!(io(FileOp::Read, IoKind::NotFound), ServiceError::NotFound { key: key() });
    assert_eq!(io(FileOp::Read, IoKind::PermissionDenied), ServiceError::PermissionDenied { key: key() });
    assert_eq!(io(FileOp::Read, IoKind::InvalidData), ServiceError::InvalidEncoding { key: key() });
    assert_eq!(io(FileOp::Read, IoKind::Other), failure);
    assert_eq!(io(FileOp::Write, IoKind::PermissionDenied), ServiceError::PermissionDenied { key: key() });
    assert_eq!(io(FileOp::Write, IoKind::NotFound), failure);
    assert_eq!(io(FileOp::Write, IoKind::InvalidData), failure);
    assert_eq!(io(FileOp::Delete, IoKind::NotFound), ServiceError::NotFound { key: key() });
    assert_eq!(io(FileOp::Delete, IoKind::PermissionDenied), failure);
    assert_eq!(io(FileOp::Delete, IoKind::Other), failure);
}
