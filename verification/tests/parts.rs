use portal_storage::disk::{data_dir_fits, DiskEntry, DiskNode};
use portal_storage::distance::{Distance, XorMetric};
use portal_storage::error::{DatabaseError, PortalStorageError};
use portal_storage::events::{handle_state_talk_request, state_action, StateAction, StateEvent};
use portal_storage::storage::PortalStorage;

fn distance(last: u8) -> Distance {
    let mut bytes = [0u8; 32];
    bytes[31] = last;
    Distance { bytes }
}

#[test]
fn distance_is_the_exclusive_or() {
    let mut x = [0u8; 32];
    let mut y = [0u8; 32];
    x[0] = 0b1100;
    y[0] = 0b1010;
    x[31] = 0xff;
    let expected = XorMetric::distance(&x, &y);
    assert_eq!(expected.bytes[0], 0b0110);
    assert_eq!(expected.bytes[31], 0xff);
    assert_eq!(expected.bytes[1], 0);
    assert!(XorMetric::distance(&y, &x) == expected);
    assert!(XorMetric::distance(&x, &x) == distance(0));
    assert!(expected <= Distance::max_value());
}

#[test]
fn distances_are_ordered_as_numbers() {
    let mut high = [0u8; 32];
    high[0] = 1;
    let high = Distance { bytes: high };
    assert!(distance(255) < high);
    assert!(distance(1) < distance(2));
    assert!(distance(2) > distance(1));
    assert!(distance(2) >= distance(2));
    assert!(distance(2) != distance(3));
    assert!(high < Distance::max_value());
}

#[test]
fn database_errors_become_storage_errors() {
    assert_eq!(
        PortalStorageError::from(DatabaseError::RocksDB("a".to_string())),
        PortalStorageError::RocksDB("a".to_string())
    );
    assert_eq!(
        PortalStorageError::from(DatabaseError::Sqlite("b".to_string())),
        PortalStorageError::Sqlite("b".to_string())
    );
    assert_eq!(
        PortalStorageError::from(DatabaseError::SqliteConnectionPool("c".to_string())),
        PortalStorageError::SqliteConnectionPool("c".to_string())
    );
}

fn named(name: &str, node: DiskNode) -> DiskEntry {
    DiskEntry::Found { name: name.to_string(), node }
}

fn file(len: u64) -> DiskEntry {
    named("file", DiskNode::File { len })
}

#[test]
fn disk_usage_adds_up_files_and_directories() {
    let tree = DiskNode::Directory {
        len: 4096,
        entries: vec![
            file(10),
            named("rocksdb", DiskNode::Directory { len: 4096, entries: vec![file(1), file(2)] }),
            named("gone", DiskNode::Missing),
            file(100),
        ],
    };
    assert_eq!(PortalStorage::get_total_storage_usage_in_bytes_on_disk(&tree), Ok(8305));
    assert_eq!(PortalStorage::get_total_storage_usage_in_bytes_on_disk(&DiskNode::Missing), Ok(0));
}

#[test]
fn accumulator_database_is_not_counted() {
    let accumulator = || DiskNode::Directory {
        len: 4096,
        entries: vec![file(7), DiskEntry::Unreadable("locked".to_string())],
    };
    let tree = DiskNode::Directory {
        len: 4096,
        entries: vec![
            named("trin.sqlite", DiskNode::File { len: 10 }),
            named("accumulatordb", accumulator()),
            named("rocksdb", DiskNode::Directory { len: 5, entries: vec![file(3)] }),
        ],
    };
    assert_eq!(PortalStorage::get_total_storage_usage_in_bytes_on_disk(&tree), Ok(4114));
    assert_eq!(
        PortalStorage::get_total_size_of_directory_in_bytes(&tree),
        Err(PortalStorageError::IOError("locked".to_string()))
    );
    // only the data directory itself has an accumulator database
    let deeper = DiskNode::Directory {
        len: 1,
        entries: vec![named(
            "rocksdb",
            DiskNode::Directory { len: 2, entries: vec![named("accumulatordb", DiskNode::File { len: 4 })] },
        )],
    };
    assert_eq!(PortalStorage::get_total_storage_usage_in_bytes_on_disk(&deeper), Ok(7));
}

#[test]
fn sums_beyond_64_bits_are_found() {
    let tree = |entries| DiskNode::Directory { len: 1, entries };
    let top = u64::MAX - 1;
    assert!(data_dir_fits(&DiskNode::Missing));
    assert!(data_dir_fits(&DiskNode::File { len: u64::MAX }));
    assert!(data_dir_fits(&tree(vec![file(top)])));
    assert_eq!(
        PortalStorage::get_total_storage_usage_in_bytes_on_disk(&tree(vec![file(top)])),
        Ok(u64::MAX)
    );
    assert!(!data_dir_fits(&tree(vec![file(top), file(1)])));
    // the accumulator database is not added up
    assert!(data_dir_fits(&tree(vec![
        named("accumulatordb", DiskNode::File { len: top }),
        file(top),
    ])));
    // deeper directories are, whatever their entries are called
    assert!(!data_dir_fits(&tree(vec![named(
        "rocksdb",
        DiskNode::Directory {
            len: 1,
            entries: vec![named("accumulatordb", DiskNode::File { len: top }), file(1)],
        },
    )])));
    // nothing is added up past an error
    assert!(data_dir_fits(&tree(vec![
        file(top),
        DiskEntry::Unreadable("locked".to_string()),
        file(1),
    ])));
}

#[test]
fn first_disk_error_is_returned() {
    let tree = DiskNode::Directory {
        len: 1,
        entries: vec![
            file(10),
            named(
                "rocksdb",
                DiskNode::Directory {
                    len: 1,
                    entries: vec![DiskEntry::NotUnicode("x".to_string())],
                },
            ),
            DiskEntry::Unreadable("y".to_string()),
        ],
    };
    assert_eq!(
        PortalStorage::get_total_size_of_directory_in_bytes(&tree),
        Err(PortalStorageError::StringError {
            function_name: "get_total_size_of_directory_in_bytes".to_string(),
            error: "x".to_string(),
        })
    );
    let tree = DiskNode::Directory { len: 1, entries: vec![DiskEntry::Unreadable("y".to_string())] };
    assert_eq!(
        PortalStorage::get_total_size_of_directory_in_bytes(&tree),
        Err(PortalStorageError::IOError("y".to_string()))
    );
    let tree = DiskNode::UnreadableDirectory { len: 1, error: "z".to_string() };
    assert_eq!(
        PortalStorage::get_total_size_of_directory_in_bytes(&tree),
        Err(PortalStorageError::IOError("z".to_string()))
    );
}

#[test]
fn events_are_dispatched() {
    let talk: StateEvent<u8, char> = StateEvent::TalkRequest(7);
    assert_eq!(state_action(talk), StateAction::HandleTalkRequest(7));
    let utp: StateEvent<u8, char> = StateEvent::UtpEvent('u');
    assert_eq!(state_action(utp), StateAction::ProcessUtpEvent('u'));
}

#[test]
fn refused_request_is_answered_with_its_error() {
    assert_eq!(handle_state_talk_request(Ok(vec![1, 2, 3])), vec![1, 2, 3]);
    let reply = handle_state_talk_request(Err("no such content: é".to_string()));
    assert_eq!(String::from_utf8(reply).unwrap(), "no such content: é");
}
