use std::collections::HashMap;

use rusqlite::types::ToSql;
use rusqlite::Connection;

use portal_storage::distance::Distance;
use portal_storage::error::{DatabaseError, PortalStorageError};
use portal_storage::operation::{NewOp, StoreOp, StorePhase};
use portal_storage::request::{Step, StorageReply, StorageRequest, CREATE_QUERY};
use portal_storage::storage::{
    ContentKey, DistanceFunction, NodeId, PortalStorage, PortalStorageConfig,
    LATEST_MASTER_ACC_CONTENT_ID,
};

const CAPACITY: u64 = 100;

/// Which request fails, as a function of the request.
type Failing = fn(&StorageRequest) -> bool;

/// A real SQLite table, and maps in place of the key-value databases.
struct Backend {
    content: HashMap<[u8; 32], Vec<u8>>,
    accumulator: HashMap<[u8; 32], Vec<u8>>,
    metadata: Connection,
    failing: Failing,
    served: usize,
}

fn nothing_fails(_: &StorageRequest) -> bool {
    false
}

fn sqlite(error: rusqlite::Error) -> DatabaseError {
    DatabaseError::Sqlite(error.to_string())
}

impl Backend {
    fn new() -> Backend {
        let metadata = Connection::open_in_memory().unwrap();
        metadata.execute(CREATE_QUERY, []).unwrap();
        Backend {
            content: HashMap::new(),
            accumulator: HashMap::new(),
            metadata,
            failing: nothing_fails,
            served: 0,
        }
    }

    fn serve(&mut self, request: StorageRequest) -> StorageReply {
        self.served += 1;
        let fails = (self.failing)(&request);
        let statement = request.statement();
        match request {
            StorageRequest::PutContent { content_id, value } => {
                if fails {
                    return StorageReply::Written(Err(DatabaseError::RocksDB("put".to_string())));
                }
                self.content.insert(content_id, value);
                StorageReply::Written(Ok(()))
            }
            StorageRequest::HasContent { content_id } => {
                if fails {
                    return StorageReply::Held(Err(DatabaseError::RocksDB("has".to_string())));
                }
                StorageReply::Held(Ok(self.content.contains_key(&content_id)))
            }
            StorageRequest::GetContent { content_id } => {
                if fails {
                    return StorageReply::Bytes(Err(DatabaseError::RocksDB("get".to_string())));
                }
                StorageReply::Bytes(Ok(self.content.get(&content_id).cloned()))
            }
            StorageRequest::DeleteContent { content_id } => {
                if fails {
                    return StorageReply::Written(Err(DatabaseError::RocksDB("delete".to_string())));
                }
                self.content.remove(&content_id);
                StorageReply::Written(Ok(()))
            }
            StorageRequest::PutAccumulator { content_id, value } => {
                if fails {
                    return StorageReply::Written(Err(DatabaseError::RocksDB("put".to_string())));
                }
                self.accumulator.insert(content_id, value);
                StorageReply::Written(Ok(()))
            }
            StorageRequest::GetAccumulator { content_id } => {
                StorageReply::Bytes(Ok(self.accumulator.get(&content_id).cloned()))
            }
            StorageRequest::InsertMetadata { row } => {
                if fails {
                    return StorageReply::Written(Err(DatabaseError::SqliteConnectionPool(
                        "pool".to_string(),
                    )));
                }
                let fields: [&dyn ToSql; 4] = [
                    &row.content_id_long,
                    &row.content_id_short,
                    &row.content_key,
                    &row.content_size,
                ];
                let done = self.metadata.execute(statement.unwrap(), fields);
                StorageReply::Written(done.map(|_| ()).map_err(sqlite))
            }
            StorageRequest::RemoveMetadata { content_id } => {
                if fails {
                    return StorageReply::Written(Err(DatabaseError::Sqlite("remove".to_string())));
                }
                let done = self.metadata.execute(statement.unwrap(), [content_id.to_vec()]);
                StorageReply::Written(done.map(|_| ()).map_err(sqlite))
            }
            StorageRequest::TotalSize => {
                if fails {
                    return StorageReply::Total(Err(DatabaseError::Sqlite("total".to_string())));
                }
                let mut query = self.metadata.prepare(statement.unwrap()).unwrap();
                let mut rows = query.query_map([], |row| row.get::<_, u64>(0)).unwrap();
                StorageReply::Total(rows.next().transpose().map_err(sqlite))
            }
            StorageRequest::FindFarthest { node_id_short } => {
                if fails {
                    return StorageReply::Ids(Err(DatabaseError::Sqlite("find".to_string())));
                }
                let mut query = self.metadata.prepare(statement.unwrap()).unwrap();
                let rows = query
                    .query_map([node_id_short], |row| row.get::<_, Vec<u8>>(0))
                    .unwrap();
                StorageReply::Ids(rows.collect::<Result<Vec<_>, _>>().map_err(sqlite))
            }
        }
    }

    fn open(&mut self, capacity_kb: u64, node_id: NodeId) -> Result<PortalStorage, PortalStorageError> {
        let mut step = PortalStorage::new(PortalStorageConfig::new(capacity_kb, node_id));
        loop {
            match step {
                Step::Ask { request, then } => {
                    let reply = self.serve(request);
                    step = PortalStorage::new_reply(then, reply);
                }
                Step::Done { result } => return result,
            }
        }
    }

    fn store(
        &mut self,
        storage: &mut PortalStorage,
        key: &ContentKey,
        value: &Vec<u8>,
    ) -> Result<(), PortalStorageError> {
        let mut step = storage.store(key, value);
        loop {
            match step {
                Step::Ask { request, then } => {
                    let reply = self.serve(request);
                    step = storage.store_reply(then, reply);
                }
                Step::Done { result } => return result,
            }
        }
    }

    fn should_store(
        &mut self,
        storage: &PortalStorage,
        key: &ContentKey,
    ) -> Result<bool, PortalStorageError> {
        match storage.should_store(key) {
            Step::Ask { request, then } => {
                let reply = self.serve(request);
                storage.should_store_reply(then, reply)
            }
            Step::Done { result } => result,
        }
    }

    fn store_if_should(
        &mut self,
        storage: &mut PortalStorage,
        key: &ContentKey,
        value: &Vec<u8>,
    ) -> Result<bool, PortalStorageError> {
        let mut step = storage.store_if_should(key, value);
        loop {
            match step {
                Step::Ask { request, then } => {
                    let reply = self.serve(request);
                    step = storage.store_if_should_reply(then, reply);
                }
                Step::Done { result } => return result,
            }
        }
    }

    fn get(
        &mut self,
        storage: &PortalStorage,
        key: &ContentKey,
    ) -> Result<Option<Vec<u8>>, PortalStorageError> {
        let reply = self.serve(storage.get(key));
        PortalStorage::get_reply(reply)
    }

    fn total(&mut self) -> Result<u64, PortalStorageError> {
        let reply = self.serve(PortalStorage::get_total_storage_usage_in_bytes_from_network());
        PortalStorage::get_total_storage_usage_in_bytes_from_network_reply(reply)
    }

    fn rows(&self) -> u64 {
        self.metadata
            .query_row("SELECT COUNT(*) FROM content_metadata", [], |row| row.get(0))
            .unwrap()
    }

    fn farthest(
        &mut self,
        storage: &PortalStorage,
    ) -> Result<Option<[u8; 32]>, PortalStorageError> {
        let reply = self.serve(storage.find_farthest_content_id());
        storage.find_farthest_content_id_reply(reply)
    }
}

/// A generator of identifiers that spread over the whole key space.
struct Identifiers {
    state: u64,
}

impl Identifiers {
    fn new(seed: u64) -> Identifiers {
        Identifiers { state: seed }
    }

    fn next(&mut self) -> [u8; 32] {
        let mut id = [0u8; 32];
        for byte in id.iter_mut() {
            self.state ^= self.state << 13;
            self.state ^= self.state >> 7;
            self.state ^= self.state << 17;
            *byte = (self.state >> 24) as u8;
        }
        id
    }

    fn key(&mut self) -> ContentKey {
        identity_key(self.next())
    }

    fn node_id(&mut self) -> NodeId {
        NodeId { raw: self.next() }
    }
}

/// The key whose encoding is its own content id.
fn identity_key(content_id: [u8; 32]) -> ContentKey {
    ContentKey { content_id, encoded: content_id.to_vec() }
}

/// The id whose first byte is given and whose other bytes are zero.
fn id(first: u8) -> [u8; 32] {
    let mut id = [0u8; 32];
    id[0] = first;
    id
}

/// A storage for the node whose id is zero, so that a distance is the content id itself.
fn zero_node(capacity: u64) -> PortalStorage {
    PortalStorage {
        node_id: NodeId { raw: [0u8; 32] },
        storage_capacity_in_bytes: capacity,
        data_radius: Distance::max_value(),
        farthest_content_id: None,
        distance_function: DistanceFunction::Xor,
    }
}

#[test]
fn test_new() {
    let node_id = Identifiers::new(1).node_id();
    let storage = Backend::new().open(CAPACITY, node_id).unwrap();

    assert_eq!(storage.node_id, node_id);
    assert_eq!(storage.storage_capacity_in_bytes, CAPACITY * 1000);
    assert!(storage.radius() == Distance::max_value());
    assert_eq!(storage.farthest_content_id, None);
}

#[test]
fn test_store() {
    let mut ids = Identifiers::new(2);
    for _ in 0..10 {
        let mut backend = Backend::new();
        let mut storage = backend.open(CAPACITY, ids.node_id()).unwrap();
        let key = ids.key();
        let value = ids.next();
        backend.store(&mut storage, &key, &value.to_vec()).unwrap();
    }
}

#[test]
fn test_get_data() {
    let mut ids = Identifiers::new(3);
    let mut backend = Backend::new();
    let mut storage = backend.open(CAPACITY, ids.node_id()).unwrap();
    let content_key = ids.key();
    let value: Vec<u8> = "OGFWs179fWnqmjvHQFGHszXloc3Wzdb4".into();
    backend.store(&mut storage, &content_key, &value).unwrap();

    let result = backend.get(&storage, &content_key).unwrap().unwrap();

    assert_eq!(result, value);
}

#[test]
fn get_master_accumulator_from_accumulator_db() {
    let mut ids = Identifiers::new(4);
    let mut backend = Backend::new();
    let mut storage = backend.open(10, ids.node_id()).unwrap();
    let macc_key = identity_key(LATEST_MASTER_ACC_CONTENT_ID);
    let macc_value: Vec<u8> = "OGFWs179fWnqmjvHQFGHszXloc3Wzdb4".into();

    assert!(backend.should_store(&storage, &macc_key).unwrap());
    backend.store(&mut storage, &macc_key, &macc_value).unwrap();
    let result = backend.get(&storage, &macc_key).unwrap().unwrap();
    assert_eq!(result, macc_value);

    // fill up data storage until the master accumulator is outside the radius
    while storage.distance_to_content_id(&macc_key.content_id) <= storage.data_radius {
        let key = ids.key();
        let value: Vec<u8> = "abcdefghijklmnopqrstuvwxyz1234567890".into();
        let _ = backend.store(&mut storage, &key, &value);
    }

    // the master accumulator is still available
    assert!(backend.should_store(&storage, &macc_key).unwrap());
    let result = backend.get(&storage, &macc_key).unwrap().unwrap();
    assert_eq!(result, macc_value);
}

#[test]
fn test_get_total_storage() {
    let mut ids = Identifiers::new(5);
    let mut backend = Backend::new();
    let mut storage = backend.open(CAPACITY, ids.node_id()).unwrap();

    let value: Vec<u8> = "OGFWs179fWnqmjvHQFGHszXloc3Wzdb4".into();
    backend.store(&mut storage, &ids.key(), &value).unwrap();

    let bytes = backend.total().unwrap();

    assert_eq!(32, bytes);
}

#[test]
fn test_find_farthest_empty_db() {
    let mut backend = Backend::new();
    let storage = backend.open(CAPACITY, Identifiers::new(6).node_id()).unwrap();

    let result = backend.farthest(&storage).unwrap();
    assert!(result.is_none());
}

#[test]
fn test_find_farthest() {
    let mut ids = Identifiers::new(7);
    for _ in 0..100 {
        let (x, y) = (ids.key(), ids.key());
        let mut backend = Backend::new();
        let val = vec![0x00, 0x01, 0x02, 0x03, 0x04];
        let mut storage = backend.open(CAPACITY, ids.node_id()).unwrap();
        backend.store(&mut storage, &x, &val).unwrap();
        backend.store(&mut storage, &y, &val).unwrap();

        let expected_farthest = if storage.distance_to_content_id(&x.content_id)
            > storage.distance_to_content_id(&y.content_id)
        {
            x.content_id
        } else {
            y.content_id
        };

        let farthest = backend.farthest(&storage);
        assert_eq!(farthest.unwrap().unwrap(), expected_farthest);
    }
}

#[test]
fn config_measures_by_xor() {
    let node_id = NodeId { raw: id(9) };
    let config = PortalStorageConfig::new(7, node_id);
    assert_eq!(config.storage_capacity_kb, 7);
    assert_eq!(config.node_id, node_id);
    assert_eq!(config.distance_function, DistanceFunction::Xor);
}

#[test]
fn new_takes_up_content_that_fits() {
    let mut backend = Backend::new();
    let mut storage = zero_node(1000);
    for first in [3u8, 9, 5] {
        backend.store(&mut storage, &identity_key(id(first)), &vec![0; 100]).unwrap();
    }
    let reopened = backend.open(1, NodeId { raw: [0u8; 32] }).unwrap();
    assert_eq!(reopened.farthest_content_id, Some(id(9)));
    assert!(reopened.radius() == Distance::max_value());
}

#[test]
fn new_over_capacity_sets_the_radius() {
    let mut backend = Backend::new();
    let mut storage = zero_node(10_000);
    for first in [3u8, 9, 5] {
        backend.store(&mut storage, &identity_key(id(first)), &vec![0; 400]).unwrap();
    }
    let reopened = backend.open(1, NodeId { raw: [0u8; 32] }).unwrap();
    assert_eq!(reopened.farthest_content_id, Some(id(9)));
    assert!(reopened.radius() == Distance { bytes: id(9) });
}

#[test]
fn new_passes_failures_on() {
    let node_id = NodeId { raw: [0u8; 32] };
    let mut backend = Backend::new();
    backend.failing = |request| matches!(request, StorageRequest::FindFarthest { .. });
    assert_eq!(
        backend.open(1, node_id).err(),
        Some(PortalStorageError::Sqlite("find".to_string()))
    );

    backend.failing = nothing_fails;
    backend.store(&mut zero_node(1000), &identity_key(id(1)), &vec![0; 10]).unwrap();
    backend.failing = |request| matches!(request, StorageRequest::TotalSize);
    assert_eq!(
        backend.open(1, node_id).err(),
        Some(PortalStorageError::Sqlite("total".to_string()))
    );
}

#[test]
fn new_over_capacity_by_one_byte() {
    let storage = zero_node(1000);
    let farthest = id(4);
    let fits = NewOp::Measure { storage, farthest };
    match PortalStorage::new_reply(fits, StorageReply::Total(Ok(Some(1000)))) {
        Step::Done { result: Ok(storage) } => assert!(storage.radius() == Distance::max_value()),
        _ => panic!("the storage has started"),
    }
    let exceeds = NewOp::Measure { storage, farthest };
    match PortalStorage::new_reply(exceeds, StorageReply::Total(Ok(Some(1001)))) {
        Step::Done { result: Ok(storage) } => {
            assert!(storage.radius() == Distance { bytes: farthest })
        }
        _ => panic!("the storage has started"),
    }
}

#[test]
fn farthest_id_of_wrong_size_is_an_error() {
    let storage = zero_node(100);
    let reply = StorageReply::Ids(Ok(vec![vec![7; 32], vec![1, 2, 3], vec![1, 2], vec![9; 32]]));
    assert_eq!(
        storage.find_farthest_content_id_reply(reply),
        Err(PortalStorageError::DataSizeError {
            doing: "finding farthest content id".to_string(),
            expected: 32,
            actual: 3,
        })
    );
    let reply = StorageReply::Ids(Ok(vec![vec![7; 32]]));
    assert_eq!(storage.find_farthest_content_id_reply(reply), Ok(Some([7; 32])));
}

#[test]
fn missing_sum_is_an_error() {
    let storage = zero_node(10);
    assert_eq!(
        storage.capacity_reached(StorageReply::Total(Ok(None))),
        Err(PortalStorageError::SumError)
    );
    assert_eq!(storage.capacity_reached(StorageReply::Total(Ok(Some(10)))), Ok(false));
    assert_eq!(storage.capacity_reached(StorageReply::Total(Ok(Some(11)))), Ok(true));
}

#[test]
fn sum_over_an_empty_table_fails() {
    assert!(matches!(Backend::new().total(), Err(PortalStorageError::Sqlite(_))));
}

#[test]
fn first_four_bytes_make_the_short_id() {
    assert_eq!(PortalStorage::byte_vector_to_u32(&vec![]), 0);
    assert_eq!(PortalStorage::byte_vector_to_u32(&vec![1, 2, 3]), 0);
    assert_eq!(PortalStorage::byte_vector_to_u32(&vec![1, 2, 3, 4]), 0x01020304);
    assert_eq!(PortalStorage::byte_vector_to_u32(&vec![255, 254, 253, 252, 251]), 0xfffefdfc);
}

#[test]
fn metadata_row_describes_the_content() {
    let mut content_id = [0u8; 32];
    content_id[..4].copy_from_slice(&[0xc0, 0xba, 0x8a, 0x33]);
    let key = ContentKey { content_id, encoded: vec![0x00, 0x0f, 0xf0, 0xab, 0xff] };
    match PortalStorage::meta_db_insert(&key, &vec![9; 17]) {
        StorageRequest::InsertMetadata { row } => {
            assert_eq!(row.content_id_long, content_id.to_vec());
            assert_eq!(row.content_id_short, 0xc0ba8a33);
            assert_eq!(row.content_key, "000ff0abff");
            assert_eq!(row.content_size, 17);
        }
        _ => panic!("a row is inserted"),
    }
}

#[test]
fn stored_key_is_hexadecimal_in_the_table() {
    let mut backend = Backend::new();
    let key = ContentKey { content_id: id(1), encoded: vec![0xde, 0xad, 0x01] };
    backend.store(&mut zero_node(100), &key, &vec![1]).unwrap();
    let text: String = backend
        .metadata
        .query_row("SELECT content_key FROM content_metadata", [], |row| row.get(0))
        .unwrap();
    assert_eq!(text, "dead01");
}

#[test]
fn any_content_should_be_stored_while_the_radius_is_largest() {
    let mut backend = Backend::new();
    let storage = zero_node(100);
    assert_eq!(backend.should_store(&storage, &identity_key([255; 32])), Ok(true));
}

#[test]
fn content_nearer_than_the_radius_should_be_stored() {
    let mut backend = Backend::new();
    let mut storage = zero_node(100);
    storage.data_radius = Distance { bytes: id(5) };
    assert_eq!(backend.should_store(&storage, &identity_key(id(4))), Ok(true));
    assert_eq!(backend.should_store(&storage, &identity_key(id(5))), Ok(false));
    assert_eq!(backend.should_store(&storage, &identity_key(id(6))), Ok(false));
}

#[test]
fn held_content_should_not_be_stored_again() {
    let mut backend = Backend::new();
    let mut storage = zero_node(100);
    let key = identity_key(id(1));
    backend.store(&mut storage, &key, &vec![1]).unwrap();
    assert_eq!(backend.should_store(&storage, &key), Ok(false));
}

#[test]
fn failure_to_look_content_up_is_passed_on() {
    let mut backend = Backend::new();
    backend.failing = |request| matches!(request, StorageRequest::HasContent { .. });
    assert_eq!(
        backend.should_store(&zero_node(100), &identity_key(id(1))),
        Err(PortalStorageError::RocksDB("has".to_string()))
    );
}

#[test]
fn content_outside_the_radius_is_refused_untouched() {
    let mut backend = Backend::new();
    let mut storage = zero_node(100);
    storage.data_radius = Distance { bytes: id(5) };
    assert_eq!(
        backend.store(&mut storage, &identity_key(id(6)), &vec![1]),
        Err(PortalStorageError::OutsideDistanceError)
    );
    assert_eq!(backend.served, 0);
    // content at the radius itself is not refused
    assert_eq!(backend.store(&mut storage, &identity_key(id(5)), &vec![1]), Ok(()));
}

#[test]
fn farthest_content_is_dropped_first() {
    let mut backend = Backend::new();
    let mut storage = zero_node(100);
    for first in [10u8, 40, 20, 30] {
        backend.store(&mut storage, &identity_key(id(first)), &vec![first; 25]).unwrap();
    }
    assert!(storage.radius() == Distance::max_value());
    assert_eq!(storage.farthest_content_id, Some(id(40)));

    backend.store(&mut storage, &identity_key(id(15)), &vec![15; 30]).unwrap();

    assert_eq!(backend.get(&storage, &identity_key(id(40))), Ok(None));
    assert_eq!(backend.get(&storage, &identity_key(id(30))), Ok(None));
    for first in [10u8, 20] {
        assert_eq!(backend.get(&storage, &identity_key(id(first))), Ok(Some(vec![first; 25])));
    }
    assert_eq!(backend.get(&storage, &identity_key(id(15))), Ok(Some(vec![15; 30])));
    assert_eq!(backend.total(), Ok(80));
    assert_eq!(storage.farthest_content_id, Some(id(20)));
    assert!(storage.radius() == Distance { bytes: id(20) });
}

#[test]
fn content_that_fits_exactly_drops_nothing() {
    let mut backend = Backend::new();
    let mut storage = zero_node(100);
    backend.store(&mut storage, &identity_key(id(1)), &vec![0; 60]).unwrap();
    backend.store(&mut storage, &identity_key(id(2)), &vec![0; 40]).unwrap();
    assert_eq!(backend.total(), Ok(100));
    assert!(storage.radius() == Distance::max_value());
    assert_eq!(backend.content.len(), 2);
}

#[test]
fn content_that_can_never_fit_leaves_nothing() {
    let mut backend = Backend::new();
    let mut storage = zero_node(10);
    let key = identity_key(id(1));
    assert_eq!(backend.store(&mut storage, &key, &vec![0; 11]), Ok(()));
    assert_eq!(backend.get(&storage, &key), Ok(None));
    assert_eq!(storage.farthest_content_id, None);
    assert!(storage.radius() == Distance::max_value());
    assert_eq!(backend.farthest(&storage), Ok(None));
}

#[test]
fn nearer_content_does_not_replace_the_farthest() {
    let mut backend = Backend::new();
    let mut storage = zero_node(100);
    backend.store(&mut storage, &identity_key(id(7)), &vec![0]).unwrap();
    backend.store(&mut storage, &identity_key(id(3)), &vec![0]).unwrap();
    assert_eq!(storage.farthest_content_id, Some(id(7)));
    backend.store(&mut storage, &identity_key(id(8)), &vec![0]).unwrap();
    assert_eq!(storage.farthest_content_id, Some(id(8)));
}

#[test]
fn storing_again_replaces_the_value_and_the_record() {
    let mut backend = Backend::new();
    let mut storage = backend.open(100, NodeId { raw: [0u8; 32] }).unwrap();
    let key = identity_key([7; 32]);
    backend.store(&mut storage, &key, &vec![0; 10]).unwrap();
    backend.store(&mut storage, &key, &vec![0; 20]).unwrap();
    assert_eq!(backend.get(&storage, &key), Ok(Some(vec![0; 20])));
    assert_eq!(backend.total(), Ok(20));
    assert_eq!(backend.rows(), 1);

    backend.store(&mut storage, &key, &vec![0; 5]).unwrap();
    assert_eq!(backend.total(), Ok(5));
    assert_eq!(backend.rows(), 1);
}

#[test]
fn storing_again_makes_room_for_a_larger_value() {
    let mut backend = Backend::new();
    let mut storage = zero_node(10);
    backend.store(&mut storage, &identity_key(id(1)), &vec![1; 4]).unwrap();
    backend.store(&mut storage, &identity_key(id(2)), &vec![2; 4]).unwrap();
    backend.store(&mut storage, &identity_key(id(1)), &vec![3; 7]).unwrap();
    assert_eq!(backend.get(&storage, &identity_key(id(1))), Ok(Some(vec![3; 7])));
    assert_eq!(backend.get(&storage, &identity_key(id(2))), Ok(None));
    assert_eq!(backend.total(), Ok(7));
    assert!(storage.radius() == Distance { bytes: id(1) });
}

#[test]
fn master_accumulator_is_stored_from_outside_the_radius() {
    let mut backend = Backend::new();
    let mut storage = zero_node(100);
    storage.data_radius = Distance { bytes: id(1) };
    let key = identity_key(LATEST_MASTER_ACC_CONTENT_ID);
    assert_eq!(backend.store(&mut storage, &key, &vec![3; 5]), Ok(()));
    assert_eq!(backend.accumulator.get(&LATEST_MASTER_ACC_CONTENT_ID), Some(&vec![3; 5]));
    assert_eq!(backend.content.get(&LATEST_MASTER_ACC_CONTENT_ID), Some(&vec![3; 5]));
    assert_eq!(storage.farthest_content_id, Some(LATEST_MASTER_ACC_CONTENT_ID));
    assert_eq!(backend.get(&storage, &key), Ok(Some(vec![3; 5])));
}

#[test]
fn failed_insert_is_taken_back() {
    let mut backend = Backend::new();
    let mut storage = zero_node(100);
    backend.failing = |request| matches!(request, StorageRequest::InsertMetadata { .. });
    let key = identity_key(id(2));
    assert_eq!(
        backend.store(&mut storage, &key, &vec![1]),
        Err(PortalStorageError::InsertError { content_id: id(2).to_vec() })
    );
    assert!(backend.content.is_empty());
    assert_eq!(storage.farthest_content_id, None);
}

#[test]
fn failed_insert_brings_back_what_was_held() {
    let mut backend = Backend::new();
    let mut storage = zero_node(100);
    let key = identity_key(id(2));
    backend.store(&mut storage, &key, &vec![1; 4]).unwrap();
    backend.store(&mut storage, &identity_key(id(1)), &vec![9]).unwrap();
    backend.failing = |request| matches!(request, StorageRequest::InsertMetadata { .. });
    assert_eq!(
        backend.store(&mut storage, &key, &vec![2; 6]),
        Err(PortalStorageError::InsertError { content_id: id(2).to_vec() })
    );
    assert_eq!(backend.content.len(), 2);
    assert_eq!(backend.content[&id(2)], vec![1; 4]);
    assert_eq!(backend.content[&id(1)], vec![9]);
    assert_eq!(backend.total(), Ok(5));
    assert_eq!(storage.farthest_content_id, Some(id(2)));
    assert!(storage.radius() == Distance::max_value());
}

#[test]
fn failure_to_read_what_is_held_does_not_keep_content_out() {
    let mut backend = Backend::new();
    let mut storage = zero_node(100);
    backend.store(&mut storage, &identity_key(id(1)), &vec![7; 3]).unwrap();
    backend.failing = |request| matches!(request, StorageRequest::GetContent { .. });
    assert_eq!(backend.store(&mut storage, &identity_key(id(1)), &vec![1]), Ok(()));
    assert_eq!(backend.store(&mut storage, &identity_key(id(2)), &vec![2]), Ok(()));
    assert_eq!(backend.content[&id(1)], vec![1]);
    assert_eq!(backend.content[&id(2)], vec![2]);
    assert_eq!(backend.total(), Ok(2));
}

#[test]
fn failed_insert_deletes_what_could_not_be_read() {
    let mut backend = Backend::new();
    let mut storage = zero_node(100);
    backend.store(&mut storage, &identity_key(id(1)), &vec![7; 3]).unwrap();
    backend.failing = |request| {
        matches!(
            request,
            StorageRequest::GetContent { .. } | StorageRequest::InsertMetadata { .. }
        )
    };
    assert_eq!(
        backend.store(&mut storage, &identity_key(id(1)), &vec![1]),
        Err(PortalStorageError::InsertError { content_id: id(1).to_vec() })
    );
    assert!(backend.content.is_empty());
}

#[test]
fn failures_while_writing_are_passed_on() {
    let mut backend = Backend::new();
    let mut storage = zero_node(100);
    backend.failing = |request| {
        matches!(
            request,
            StorageRequest::PutContent { .. } | StorageRequest::PutAccumulator { .. }
        )
    };
    let put = Err(PortalStorageError::RocksDB("put".to_string()));
    assert_eq!(backend.store(&mut storage, &identity_key(id(1)), &vec![1]), put);
    let macc = identity_key(LATEST_MASTER_ACC_CONTENT_ID);
    assert_eq!(
        backend.store(&mut storage, &macc, &vec![1]),
        Err(PortalStorageError::RocksDB("put".to_string()))
    );
    assert!(backend.accumulator.is_empty());

    backend.failing = |request| {
        matches!(
            request,
            StorageRequest::InsertMetadata { .. } | StorageRequest::DeleteContent { .. }
        )
    };
    assert_eq!(
        backend.store(&mut storage, &identity_key(id(1)), &vec![1]),
        Err(PortalStorageError::RocksDB("delete".to_string()))
    );
}

#[test]
fn failures_while_dropping_are_passed_on() {
    let failing: [(Failing, PortalStorageError); 3] = [
        (
            |request| matches!(request, StorageRequest::TotalSize),
            PortalStorageError::Sqlite("total".to_string()),
        ),
        (
            |request| matches!(request, StorageRequest::DeleteContent { .. }),
            PortalStorageError::RocksDB("delete".to_string()),
        ),
        (
            |request| matches!(request, StorageRequest::FindFarthest { .. }),
            PortalStorageError::Sqlite("find".to_string()),
        ),
    ];
    for (failing, error) in failing {
        let mut backend = Backend::new();
        let mut storage = zero_node(10);
        backend.store(&mut storage, &identity_key(id(1)), &vec![0; 6]).unwrap();
        backend.failing = failing;
        assert_eq!(backend.store(&mut storage, &identity_key(id(2)), &vec![0; 6]), Err(error));
        assert_eq!(storage.farthest_content_id, Some(id(2)));
    }
}

#[test]
fn failure_to_read_the_farthest_content_is_passed_on() {
    let mut backend = Backend::new();
    let mut storage = zero_node(10);
    backend.store(&mut storage, &identity_key(id(2)), &vec![2; 6]).unwrap();
    backend.failing = |request| {
        matches!(request, StorageRequest::GetContent { content_id } if *content_id == id(2))
    };
    assert_eq!(
        backend.store(&mut storage, &identity_key(id(1)), &vec![1; 6]),
        Err(PortalStorageError::RocksDB("get".to_string()))
    );
    assert_eq!(backend.content.len(), 2);
}

#[test]
fn failed_removal_of_the_new_content_is_taken_back() {
    let mut backend = Backend::new();
    let mut storage = zero_node(10);
    backend.store(&mut storage, &identity_key(id(1)), &vec![1; 6]).unwrap();
    backend.failing = |request| matches!(request, StorageRequest::RemoveMetadata { .. });
    assert_eq!(
        backend.store(&mut storage, &identity_key(id(2)), &vec![2; 6]),
        Err(PortalStorageError::RemoveError { content_id: id(2).to_vec() })
    );
    assert_eq!(backend.content.get(&id(1)), Some(&vec![1; 6]));
    assert_eq!(backend.content.get(&id(2)), Some(&vec![2; 6]));
    assert_eq!(backend.total(), Ok(12));
}

#[test]
fn failed_removal_of_other_content_is_taken_back() {
    let mut backend = Backend::new();
    let mut storage = zero_node(10);
    backend.store(&mut storage, &identity_key(id(2)), &vec![2; 6]).unwrap();
    backend.failing = |request| matches!(request, StorageRequest::RemoveMetadata { .. });
    assert_eq!(
        backend.store(&mut storage, &identity_key(id(1)), &vec![1; 6]),
        Err(PortalStorageError::RemoveError { content_id: id(2).to_vec() })
    );
    assert_eq!(backend.content.len(), 2);
    assert_eq!(backend.content[&id(2)], vec![2; 6]);
    assert_eq!(backend.content[&id(1)], vec![1; 6]);
    assert_eq!(backend.total(), Ok(12));
    assert!(storage.radius() == Distance::max_value());
}

#[test]
fn failed_removal_takes_back_the_last_drop_only() {
    let mut backend = Backend::new();
    let mut storage = zero_node(10);
    for first in [1u8, 2, 3] {
        backend.store(&mut storage, &identity_key(id(first)), &vec![first; 3]).unwrap();
    }
    backend.failing = |request| {
        matches!(request, StorageRequest::RemoveMetadata { content_id } if *content_id == id(2))
    };
    assert_eq!(
        backend.store(&mut storage, &identity_key(id(0)), &vec![9; 7]),
        Err(PortalStorageError::RemoveError { content_id: id(2).to_vec() })
    );
    assert_eq!(backend.content.len(), 3);
    assert_eq!(backend.content[&id(2)], vec![2; 3]);
    assert_eq!(backend.content[&id(1)], vec![1; 3]);
    assert_eq!(backend.content[&id(0)], vec![9; 7]);
    assert_eq!(backend.rows(), 3);
    assert_eq!(storage.farthest_content_id, Some(id(2)));
    assert!(storage.radius() == Distance { bytes: id(2) });
}

#[test]
fn failed_write_back_is_passed_on() {
    let mut storage = zero_node(10);
    for phase in [StorePhase::RevertRemove { farthest: id(2) }, StorePhase::RevertInsert] {
        let op = StoreOp { key: identity_key(id(1)), value: vec![1], phase };
        let reply = StorageReply::Written(Err(DatabaseError::RocksDB("put".to_string())));
        match storage.store_reply(op, reply) {
            Step::Done { result } => {
                assert_eq!(result, Err(PortalStorageError::RocksDB("put".to_string())))
            }
            Step::Ask { .. } => panic!("the operation is over"),
        }
    }
}

#[test]
fn storage_recovers_from_a_farthest_content_that_is_gone() {
    let mut backend = Backend::new();
    let mut storage = zero_node(10);
    backend.store(&mut storage, &identity_key(id(9)), &vec![9; 6]).unwrap();
    backend.failing = |request| matches!(request, StorageRequest::FindFarthest { .. });
    assert!(backend.store(&mut storage, &identity_key(id(1)), &vec![1; 6]).is_err());
    // the farthest content has been dropped, but the storage does not know the next one
    assert_eq!(storage.farthest_content_id, Some(id(9)));

    backend.failing = nothing_fails;
    backend.store(&mut storage, &identity_key(id(2)), &vec![2; 6]).unwrap();
    assert_eq!(backend.get(&storage, &identity_key(id(2))), Ok(None));
    assert_eq!(backend.get(&storage, &identity_key(id(1))), Ok(Some(vec![1; 6])));
    assert_eq!(storage.farthest_content_id, Some(id(1)));
}

#[test]
fn store_if_should_stores_once() {
    let mut backend = Backend::new();
    let mut storage = zero_node(100);
    let key = identity_key(id(1));
    assert_eq!(backend.store_if_should(&mut storage, &key, &vec![1]), Ok(true));
    assert_eq!(backend.store_if_should(&mut storage, &key, &vec![2]), Ok(false));
    assert_eq!(backend.get(&storage, &key), Ok(Some(vec![1])));

    let macc = identity_key(LATEST_MASTER_ACC_CONTENT_ID);
    assert_eq!(backend.store_if_should(&mut storage, &macc, &vec![3]), Ok(true));
    assert_eq!(backend.store_if_should(&mut storage, &macc, &vec![4]), Ok(true));
    assert_eq!(backend.get(&storage, &macc), Ok(Some(vec![4])));
}

#[test]
fn store_if_should_ends_as_store_does() {
    for capacity in [5u64, 12, 100] {
        let mut ids = Identifiers::new(10);
        let (mut plain, mut decided) = (Backend::new(), Backend::new());
        let mut storage = zero_node(capacity);
        let mut other = zero_node(capacity);
        for _ in 0..30 {
            let key = ids.key();
            if decided.store_if_should(&mut other, &key, &vec![1; 4]).unwrap() {
                plain.store(&mut storage, &key, &vec![1; 4]).unwrap();
            }
            assert_eq!(plain.content, decided.content);
            assert_eq!(storage.farthest_content_id, other.farthest_content_id);
            assert!(storage.radius() == other.radius());
        }
    }
}

#[test]
fn store_if_should_is_never_refused() {
    let mut ids = Identifiers::new(8);
    let mut backend = Backend::new();
    let mut storage = backend.open(1, ids.node_id()).unwrap();
    let mut stored: usize = 0;
    for _ in 0..200 {
        let key = ids.key();
        if backend.store_if_should(&mut storage, &key, &vec![0; 50]).unwrap() {
            stored += 1;
        }
    }
    assert!(stored > 20);
    assert_eq!(backend.total(), Ok(1000));
}

#[test]
fn store_if_should_passes_failures_on() {
    let mut backend = Backend::new();
    let mut storage = zero_node(100);
    backend.failing = |request| matches!(request, StorageRequest::HasContent { .. });
    assert_eq!(
        backend.store_if_should(&mut storage, &identity_key(id(1)), &vec![1]),
        Err(PortalStorageError::RocksDB("has".to_string()))
    );
    backend.failing = |request| matches!(request, StorageRequest::PutContent { .. });
    assert_eq!(
        backend.store_if_should(&mut storage, &identity_key(id(1)), &vec![1]),
        Err(PortalStorageError::RocksDB("put".to_string()))
    );
}

#[test]
fn storing_much_keeps_every_promise() {
    let mut ids = Identifiers::new(9);
    let mut backend = Backend::new();
    let mut storage = backend.open(1, ids.node_id()).unwrap();
    let mut radius = storage.radius();
    for round in 0..300 {
        let key = ids.key();
        let value = vec![0u8; 20 + round % 70];
        let rows = backend.content.len();
        backend.served = 0;
        let distance = storage.distance_to_content_id(&key.content_id);
        match backend.store(&mut storage, &key, &value) {
            Ok(()) => {
                assert!(distance <= radius);
                assert!(backend.served <= 5 * rows + 15);
                assert!(backend.total().unwrap() <= 1000);
                let held: usize = backend.content.values().map(|value| value.len()).sum();
                assert_eq!(backend.total(), Ok(held as u64));
                assert!(storage.radius() <= radius);
                for content_id in backend.content.keys() {
                    assert!(storage.distance_to_content_id(content_id) <= storage.radius());
                }
                if let Some(held) = backend.get(&storage, &key).unwrap() {
                    assert_eq!(held, value);
                }
            }
            Err(error) => {
                assert_eq!(error, PortalStorageError::OutsideDistanceError);
                assert!(distance > radius);
            }
        }
        assert_eq!(backend.farthest(&storage), Ok(storage.farthest_content_id));
        radius = storage.radius();
    }
    assert!(radius < Distance::max_value());
}

/// Ids that begin alike, from the nearest to the node whose id is zero to the farthest.
fn alike() -> [[u8; 32]; 3] {
    let mut ids = [id(5); 3];
    ids[0][31] = 1;
    ids[1][31] = 2;
    ids[2][4] = 1;
    ids
}

#[test]
fn ids_that_begin_alike_are_told_apart() {
    let [near, middle, far] = alike();
    for order in [[near, middle, far], [far, near, middle], [middle, far, near]] {
        let mut backend = Backend::new();
        let mut storage = zero_node(1000);
        backend.store(&mut storage, &identity_key(id(4)), &vec![1]).unwrap();
        for content_id in order {
            backend.store(&mut storage, &identity_key(content_id), &vec![1]).unwrap();
        }
        assert_eq!(storage.farthest_content_id, Some(far));
        assert_eq!(backend.farthest(&storage), Ok(Some(far)));
    }
}

#[test]
fn ids_that_begin_alike_are_dropped_farthest_first() {
    let [near, middle, far] = alike();
    let mut backend = Backend::new();
    let mut storage = zero_node(10);
    for content_id in [middle, near, far] {
        backend.store(&mut storage, &identity_key(content_id), &vec![1; 3]).unwrap();
    }
    backend.store(&mut storage, &identity_key(id(1)), &vec![1; 3]).unwrap();
    assert_eq!(backend.get(&storage, &identity_key(far)), Ok(None));
    assert_eq!(backend.content.len(), 3);
    assert_eq!(storage.farthest_content_id, Some(middle));
    assert!(storage.radius() == Distance { bytes: middle });
    backend.store(&mut storage, &identity_key(id(2)), &vec![1; 3]).unwrap();
    assert_eq!(backend.get(&storage, &identity_key(middle)), Ok(None));
    assert!(storage.radius() == Distance { bytes: near });
}

#[test]
fn new_takes_up_the_farthest_of_ids_that_begin_alike() {
    let [near, middle, far] = alike();
    let mut backend = Backend::new();
    let mut storage = zero_node(10_000);
    for content_id in [near, far, middle] {
        backend.store(&mut storage, &identity_key(content_id), &vec![0; 400]).unwrap();
    }
    let reopened = backend.open(1, NodeId { raw: [0u8; 32] }).unwrap();
    assert_eq!(reopened.farthest_content_id, Some(far));
    assert!(reopened.radius() == Distance { bytes: far });
}

#[test]
fn requests_are_answered_by_their_own_kind() {
    let written = StorageReply::Written(Ok(()));
    let total = StorageReply::Total(Ok(Some(1)));
    let held = StorageReply::Held(Ok(true));
    let bytes = StorageReply::Bytes(Ok(None));
    let delete = StorageRequest::DeleteContent { content_id: id(1) };
    assert!(delete.is_answered_by(&written));
    assert!(!delete.is_answered_by(&total));
    assert!(StorageRequest::TotalSize.is_answered_by(&total));
    assert!(StorageRequest::HasContent { content_id: id(1) }.is_answered_by(&held));
    let find = StorageRequest::FindFarthest { node_id_short: 0 };
    let ids = StorageReply::Ids(Ok(vec![]));
    assert!(find.is_answered_by(&ids));
    assert!(!find.is_answered_by(&bytes));
    assert!(StorageRequest::GetContent { content_id: id(1) }.is_answered_by(&bytes));
}
