use group_commit::reaper::{BatchReport, Reaper, ReapError};
use group_commit::request::{Verdict, Waiter, WriteRequest};
use group_commit::store::Write;
use redb::backends::InMemoryBackend;
use redb::{Database, ReadableTableMetadata, TableDefinition, TableError};

fn database() -> Database {
    Database::builder().create_with_backend(InMemoryBackend::new()).unwrap()
}

fn transact(db: &Database, writes: Vec<Write>, fail_at: Option<usize>) -> Result<(), String> {
    let tx = db.begin_write().map_err(|e| e.to_string())?;
    for (at, write) in writes.into_iter().enumerate() {
        if fail_at == Some(at) {
            return Err(format!("insert {} refused", at));
        }
        let def: TableDefinition<u64, Vec<u8>> = TableDefinition::new(&write.namespace);
        let mut table = tx.open_table(def).map_err(|e| e.to_string())?;
        table.insert(write.key, write.value).map_err(|e| e.to_string())?;
    }
    tx.commit().map_err(|e| e.to_string())
}

fn value_of(db: &Database, namespace: &str, key: u64) -> Option<Vec<u8>> {
    let def: TableDefinition<u64, Vec<u8>> = TableDefinition::new(namespace);
    let tx = db.begin_read().unwrap();
    match tx.open_table(def) {
        Ok(table) => table.get(key).unwrap().map(|guard| guard.value()),
        Err(TableError::TableDoesNotExist(_)) => None,
        Err(e) => panic!("unexpected error: {}", e),
    }
}

fn rows_in(db: &Database, namespace: &str) -> u64 {
    let def: TableDefinition<u64, Vec<u8>> = TableDefinition::new(namespace);
    let tx = db.begin_read().unwrap();
    match tx.open_table(def) {
        Ok(table) => table.len().unwrap(),
        Err(TableError::TableDoesNotExist(_)) => 0,
        Err(e) => panic!("unexpected error: {}", e),
    }
}

fn submit(tx: &flume::Sender<WriteRequest>, namespace: &str, key: u64, value: &[u8]) -> Waiter {
    let (request, waiter) = WriteRequest::new(String::from(namespace), key, value.to_vec());
    tx.send(request).unwrap();
    waiter
}

#[test]
fn a_batch_is_committed_to_the_database_as_a_whole() {
    let db = database();
    let (tx, rx) = flume::unbounded();
    let reaper = Reaper::new(rx);
    let waiters = vec![
        submit(&tx, "id=0", 0, b"zero"),
        submit(&tx, "id=1", 0, b"one"),
        submit(&tx, "id=0", 1, b"two"),
    ];
    let commit = |writes: Vec<Write>| transact(&db, writes, None);
    assert_eq!(reaper.reap(&commit).unwrap(), BatchReport { size: 3, delivered: 3 });
    assert_eq!(value_of(&db, "id=0", 0), Some(b"zero".to_vec()));
    assert_eq!(value_of(&db, "id=1", 0), Some(b"one".to_vec()));
    assert_eq!(value_of(&db, "id=0", 1), Some(b"two".to_vec()));
    assert_eq!(rows_in(&db, "id=0"), 2);
    assert_eq!(rows_in(&db, "id=1"), 1);
    for waiter in waiters {
        assert_eq!(waiter.wait(), Some(Verdict::Committed));
    }
}

#[test]
fn a_batch_that_fails_half_way_leaves_the_database_untouched() {
    let db = database();
    let (tx, rx) = flume::unbounded();
    let reaper = Reaper::new(rx);
    let kept = submit(&tx, "id=0", 0, b"kept");
    let commit = |writes: Vec<Write>| transact(&db, writes, None);
    assert_eq!(reaper.reap(&commit).unwrap().size, 1);
    assert_eq!(kept.wait(), Some(Verdict::Committed));

    let waiters = vec![
        submit(&tx, "id=0", 1, b"a"),
        submit(&tx, "id=1", 0, b"b"),
        submit(&tx, "id=0", 0, b"overwritten"),
    ];
    let refuse = |writes: Vec<Write>| transact(&db, writes, Some(2));
    match reaper.reap(&refuse) {
        Err(ReapError::Backend(e)) => assert_eq!(e, "insert 2 refused"),
        other => panic!("unexpected result: {:?}", other),
    }
    assert_eq!(value_of(&db, "id=0", 0), Some(b"kept".to_vec()));
    assert_eq!(value_of(&db, "id=0", 1), None);
    assert_eq!(value_of(&db, "id=1", 0), None);
    assert_eq!(rows_in(&db, "id=0"), 1);
    for waiter in waiters {
        assert_eq!(waiter.wait(), Some(Verdict::Abandoned));
    }
}
