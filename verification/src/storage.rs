//! The storage of one node: which content it takes, and which it drops.

use vstd::prelude::*;
use vstd::slice::slice_to_vec;

use crate::distance::{be_value, max_distance, xor_distance, Distance, XorMetric};
use crate::error::{ErrorView, PortalStorageError};
use crate::hex_text::{hex_chars, hex_digit, hex_encode};
use crate::hex_text::{law_hex_text_determines_bytes, law_hex_text_spells_every_byte};
use crate::request::{ids_view, same_failure, MetadataRow, MetadataRowView};
use crate::request::{ReplyKind, ReplyView, RequestView, StorageReply, StorageRequest};

verus! {

/// The content id of the latest master accumulator, which every node keeps.
pub const LATEST_MASTER_ACC_CONTENT_ID: [u8; 32] = [
    192, 186, 138, 51, 172, 103, 244, 74, 191, 245, 152, 77, 251, 182, 245, 108, 70, 184, 128, 172,
    43, 134, 225, 242, 62, 127, 169, 196, 2, 197, 58, 231,
];

/// Whether an id is that of the master accumulator.
pub open spec fn is_master_accumulator(content_id: Seq<u8>) -> bool {
    content_id == LATEST_MASTER_ACC_CONTENT_ID@
}

/// The number that the most significant four bytes of an id stand for; 0 if it has fewer.
pub open spec fn short_id(id: Seq<u8>) -> u32 {
    if id.len() < 4 {
        0
    } else {
        be_value(id.take(4)) as u32
    }
}

/// The most significant four bytes, added up, are the short id.
pub(crate) proof fn lemma_short_id_value(id: Seq<u8>)
    requires
        id.len() >= 4,
    ensures
        short_id(id) == be_value(id.take(4)),
        short_id(id) == id[0] * 0x1000000 + id[1] * 0x10000 + id[2] * 0x100 + id[3],
{
    reveal_with_fuel(be_value, 5);
    let prefix = id.take(4);
    assert(prefix.drop_last().drop_last().drop_last().drop_last().len() == 0);
}

/// The identity of a node.
#[derive(Clone, Copy, Debug, PartialEq, Eq)]
pub struct NodeId {
    pub raw: [u8; 32],
}

/// What a distance is measured by.
#[derive(Copy, Clone, Debug, PartialEq, Eq, Structural)]
pub enum DistanceFunction {
    Xor,
}

/// What a storage is set up with.
#[derive(Clone, Copy, Debug)]
pub struct PortalStorageConfig {
    pub storage_capacity_kb: u64,
    pub node_id: NodeId,
    pub distance_function: DistanceFunction,
}

/// A content key: the id that it hashes to, and its encoding.
#[derive(Debug, PartialEq, Eq)]
pub struct ContentKey {
    pub content_id: [u8; 32],
    pub encoded: Vec<u8>,
}

/// A content key, for use in contracts.
#[verifier::ext_equal]
pub struct ContentKeyView {
    pub content_id: Seq<u8>,
    pub encoded: Seq<u8>,
}

impl View for ContentKey {
    type V = ContentKeyView;

    open spec fn view(&self) -> ContentKeyView {
        ContentKeyView { content_id: self.content_id@, encoded: self.encoded@ }
    }
}

/// The storage of one node. It decides which content the node stores, and keeps the node within
/// its capacity.
#[derive(Clone, Copy, Debug)]
pub struct PortalStorage {
    pub node_id: NodeId,
    pub storage_capacity_in_bytes: u64,
    /// Content farther away than this is not stored.
    pub data_radius: Distance,
    /// The farthest content that is stored, and the next to be dropped.
    pub farthest_content_id: Option<[u8; 32]>,
    pub distance_function: DistanceFunction,
}

/// The state of a storage, for use in contracts.
#[verifier::ext_equal]
pub struct StorageState {
    pub node_id: Seq<u8>,
    pub capacity: nat,
    pub radius: nat,
    pub farthest: Option<Seq<u8>>,
    pub distance_function: DistanceFunction,
}

impl View for PortalStorage {
    type V = StorageState;

    open spec fn view(&self) -> StorageState {
        StorageState {
            node_id: self.node_id.raw@,
            capacity: self.storage_capacity_in_bytes as nat,
            radius: self.data_radius@,
            farthest: match self.farthest_content_id {
                Some(content_id) => Some(content_id@),
                None => None,
            },
            distance_function: self.distance_function,
        }
    }
}

impl StorageState {
    /// How far the node is from some content.
    pub open spec fn distance_to(self, content_id: Seq<u8>) -> nat {
        match self.distance_function {
            DistanceFunction::Xor => xor_distance(content_id, self.node_id),
        }
    }

    /// Whether the node takes content that it does not hold yet: any content while the radius is
    /// the largest distance, and content nearer than the radius after that.
    pub open spec fn wants(self, content_id: Seq<u8>) -> bool {
        self.radius < max_distance() ==> self.distance_to(content_id) < self.radius
    }

    /// The farthest content once some content has been added: the added content if it is farther
    /// than the farthest so far, or the first.
    pub open spec fn farthest_with(self, content_id: Seq<u8>) -> Seq<u8> {
        match self.farthest {
            Some(farthest) if self.distance_to(content_id) <= self.distance_to(farthest) =>
                farthest,
            _ => content_id,
        }
    }

    /// The farthest of some ids, if there are any. An id that has not 32 bytes is an error, and the
    /// first such id is the one that counts.
    pub open spec fn farthest_of(self, ids: Seq<Seq<u8>>) -> Result<Option<Seq<u8>>, ErrorView>
        decreases ids.len(),
    {
        if ids.len() == 0 {
            Ok(None)
        } else {
            let id = ids.last();
            match self.farthest_of(ids.drop_last()) {
                Err(error) => Err(error),
                Ok(_) if id.len() != 32 => Err(
                    ErrorView::DataSizeError {
                        doing: "finding farthest content id"@,
                        expected: 32,
                        actual: id.len(),
                    },
                ),
                Ok(Some(farthest)) if self.distance_to(id) <= self.distance_to(farthest) => Ok(
                    Some(farthest),
                ),
                Ok(_) => Ok(Some(id)),
            }
        }
    }

    /// The request for the farthest content.
    pub open spec fn find_farthest_request(self) -> RequestView {
        RequestView::FindFarthest { node_id_short: short_id(self.node_id) }
    }
}

/// The metadata row of some content.
pub open spec fn metadata_row(key: ContentKeyView, value: Seq<u8>) -> MetadataRowView {
    MetadataRowView {
        content_id_long: key.content_id,
        content_id_short: short_id(key.content_id),
        content_key: hex_chars(key.encoded),
        content_size: value.len(),
    }
}

/// Whether an id is the first in a list that has not 32 bytes.
pub open spec fn is_first_misfit(ids: Seq<Seq<u8>>, i: int) -> bool {
    &&& 0 <= i < ids.len()
    &&& ids[i].len() != 32
    &&& forall|j: int| 0 <= j < i ==> (#[trigger] ids[j]).len() == 32
}

/// The farthest content that the metadata database named, if it named any.
pub open spec fn farthest_in(state: StorageState, reply: ReplyView) -> Result<
    Option<Seq<u8>>,
    ErrorView,
> {
    match reply.ids() {
        Ok(ids) => state.farthest_of(ids),
        Err(error) => Err(error),
    }
}

/// The farthest of some ids is one of them, and none of them is farther. There is one unless there
/// are no ids, or one of them has not 32 bytes: then the error gives the size of the first of these.
pub proof fn law_farthest_of_is_farthest(state: StorageState, ids: Seq<Seq<u8>>)
    ensures
        match state.farthest_of(ids) {
            Ok(Some(farthest)) => {
                &&& ids.contains(farthest)
                &&& forall|i: int|
                    0 <= i < ids.len() ==> (#[trigger] ids[i]).len() == 32 && state.distance_to(
                        ids[i],
                    ) <= state.distance_to(farthest)
            },
            Ok(None) => ids.len() == 0,
            Err(error) => exists|i: int| #[trigger]
                is_first_misfit(ids, i) && error == (ErrorView::DataSizeError {
                    doing: "finding farthest content id"@,
                    expected: 32,
                    actual: ids[i].len(),
                }),
        },
    decreases ids.len(),
{
    if ids.len() > 0 {
        let rest = ids.drop_last();
        law_farthest_of_is_farthest(state, rest);
        assert(ids[ids.len() - 1] == ids.last());
        assert forall|i: int| 0 <= i < rest.len() implies #[trigger] rest[i] == ids[i] by {}
        assert forall|i: int| 0 <= i < ids.len() - 1 implies #[trigger] ids[i] == rest[i] by {}
        match state.farthest_of(rest) {
            Ok(Some(farthest)) => {
                let i = rest.index_of(farthest);
                assert(ids[i] == farthest);
                if ids.last().len() != 32 {
                    assert(is_first_misfit(ids, ids.len() - 1));
                }
            },
            Ok(None) => {
                if ids.last().len() != 32 {
                    assert(is_first_misfit(ids, ids.len() - 1));
                }
            },
            Err(error) => {
                let i = choose|i: int| #[trigger]
                    is_first_misfit(rest, i) && error == (ErrorView::DataSizeError {
                        doing: "finding farthest content id"@,
                        expected: 32,
                        actual: rest[i].len(),
                    });
                assert(is_first_misfit(ids, i));
            },
        }
    }
}

/// Whether the content sizes that the metadata database added up exceed the capacity.
pub open spec fn over_capacity(state: StorageState, reply: ReplyView) -> Result<bool, ErrorView> {
    match reply.total() {
        Ok(total) => Ok(total > state.capacity),
        Err(error) => Err(error),
    }
}

/// Whether two ids are the same.
pub(crate) fn same_id(x: &[u8; 32], y: &[u8; 32]) -> (same: bool)
    ensures
        same == (x@ == y@),
{
    let mut i: usize = 0;
    while i < 32
        invariant
            i <= 32,
            forall|j: int| 0 <= j < i ==> x@[j] == y@[j],
        decreases 32 - i,
    {
        if x[i] != y[i] {
            return false;
        }
        i = i + 1;
    }
    assert(x@ =~= y@);
    true
}

/// Reads a content id, which has 32 bytes.
fn content_id_in(bytes: &Vec<u8>) -> (result: Result<[u8; 32], PortalStorageError>)
    ensures
        match result {
            Ok(id) => id@ == bytes@,
            Err(error) => bytes@.len() != 32 && error@ == (ErrorView::DataSizeError {
                doing: "finding farthest content id"@,
                expected: 32,
                actual: bytes@.len(),
            }),
        },
{
    if bytes.len() != 32 {
        return Err(
            PortalStorageError::DataSizeError {
                doing: "finding farthest content id".to_owned(),
                expected: 32,
                actual: bytes.len(),
            },
        );
    }
    let mut content_id: [u8; 32] = [0u8; 32];
    let mut i: usize = 0;
    while i < 32
        invariant
            i <= 32,
            bytes@.len() == 32,
            forall|j: int| 0 <= j < i ==> content_id@[j] == bytes@[j],
        decreases 32 - i,
    {
        content_id[i] = bytes[i];
        i = i + 1;
    }
    assert(content_id@ =~= bytes@);
    Ok(content_id)
}

/// An id that has not 32 bytes is an error whatever ids follow it.
proof fn lemma_first_error_counts(state: StorageState, ids: Seq<Seq<u8>>, i: int)
    requires
        0 <= i <= ids.len(),
        state.farthest_of(ids.take(i)) is Err,
    ensures
        state.farthest_of(ids) == state.farthest_of(ids.take(i)),
    decreases ids.len(),
{
    if i == ids.len() {
        assert(ids.take(i) =~= ids);
    } else {
        assert(ids.drop_last().take(i) =~= ids.take(i));
        lemma_first_error_counts(state, ids.drop_last(), i);
    }
}

/// A copy of a byte vector.
pub(crate) fn copy_bytes(bytes: &Vec<u8>) -> (copy: Vec<u8>)
    ensures
        copy@ == bytes@,
{
    let copy = bytes.clone();
    assert(copy@ =~= bytes@);
    copy
}

impl PortalStorageConfig {
    /// The configuration of a storage that measures by the xor metric.
    pub fn new(storage_capacity_kb: u64, node_id: NodeId) -> (config: PortalStorageConfig)
        ensures
            config.storage_capacity_kb == storage_capacity_kb,
            config.node_id == node_id,
            config.distance_function == DistanceFunction::Xor,
    {
        PortalStorageConfig { storage_capacity_kb, node_id, distance_function: DistanceFunction::Xor }
    }
}

impl PortalStorage {
    /// Returns the node's current radius.
    pub fn radius(&self) -> (radius: Distance)
        ensures
            radius == self.data_radius,
            radius@ == self@.radius,
    {
        self.data_radius
    }

    /// Returns the distance between the node's id and a content id.
    pub fn distance_to_content_id(&self, content_id: &[u8; 32]) -> (distance: Distance)
        ensures
            distance@ == self@.distance_to(content_id@),
            forall|i: int|
                0 <= i < 32 ==> #[trigger] distance.bytes@[i] == content_id@[i]
                    ^ self.node_id.raw@[i],
    {
        match self.distance_function {
            DistanceFunction::Xor => XorMetric::distance(content_id, &self.node_id.raw),
        }
    }

    /// Converts the most significant four bytes of a vector to a number. A vector of fewer than
    /// four bytes gives 0.
    pub fn byte_vector_to_u32(vec: &Vec<u8>) -> (number: u32)
        ensures
            number == short_id(vec@),
            vec@.len() < 4 ==> number == 0,
            vec@.len() >= 4 ==> number == vec@[0] * 0x1000000 + vec@[1] * 0x10000 + vec@[2] * 0x100
                + vec@[3],
    {
        if vec.len() < 4 {
            return 0;
        }
        proof {
            lemma_short_id_value(vec@);
        }
        vec[0] as u32 * 0x1000000 + vec[1] as u32 * 0x10000 + vec[2] as u32 * 0x100 + vec[3] as u32
    }

    /// Makes the metadata row under which some content is recorded.
    pub fn meta_db_insert(key: &ContentKey, value: &Vec<u8>) -> (request: StorageRequest)
        ensures
            request@ == (RequestView::InsertMetadata { row: metadata_row(key@, value@) }),
            request matches StorageRequest::InsertMetadata { row } && {
                &&& row.content_id_long@ == key.content_id@
                &&& row.content_id_short == key.content_id@[0] * 0x1000000 + key.content_id@[1]
                    * 0x10000 + key.content_id@[2] * 0x100 + key.content_id@[3]
                &&& row.content_key@.len() == 2 * key.encoded@.len()
                &&& forall|i: int| #![trigger key.encoded@[i]]
                    0 <= i < key.encoded@.len() ==> {
                        &&& row.content_key@[2 * i] == hex_digit(key.encoded@[i] as int / 16)
                        &&& row.content_key@[2 * i + 1] == hex_digit(key.encoded@[i] as int % 16)
                    }
                &&& row.content_size == value@.len()
            },
    {
        proof {
            law_hex_text_spells_every_byte(key.encoded@);
        }
        let content_id_long = slice_to_vec(key.content_id.as_slice());
        let content_id_short = PortalStorage::byte_vector_to_u32(&content_id_long);
        let content_key = hex_encode(&key.encoded);
        StorageRequest::InsertMetadata {
            row: MetadataRow {
                content_id_long,
                content_id_short,
                content_key,
                content_size: value.len(),
            },
        }
    }

    /// The request that removes some content's metadata.
    pub fn meta_db_remove(content_id: &[u8; 32]) -> (request: StorageRequest)
        ensures
            request@ == (RequestView::RemoveMetadata { content_id: content_id@ }),
            request == (StorageRequest::RemoveMetadata { content_id: *content_id }),
    {
        StorageRequest::RemoveMetadata { content_id: *content_id }
    }

    /// The request that writes some content into the content database.
    pub fn db_insert(content_id: &[u8; 32], value: &Vec<u8>) -> (request: StorageRequest)
        ensures
            request@ == (RequestView::PutContent { content_id: content_id@, value: value@ }),
            request matches StorageRequest::PutContent { content_id: id, value: bytes } && id
                == *content_id && bytes@ == value@,
    {
        StorageRequest::PutContent { content_id: *content_id, value: copy_bytes(value) }
    }

    /// The request that measures the total amount of requestable data that the node is storing.
    pub fn get_total_storage_usage_in_bytes_from_network() -> (request: StorageRequest)
        ensures
            request@ == RequestView::TotalSize,
            request is TotalSize,
    {
        StorageRequest::TotalSize
    }

    /// Reads the total amount of requestable data that the node is storing.
    pub fn get_total_storage_usage_in_bytes_from_network_reply(reply: StorageReply) -> (result:
        Result<u64, PortalStorageError>)
        requires
            reply@.kind() == ReplyKind::Total,
        ensures
            match result {
                Ok(total) => reply@.total() == Ok::<u64, ErrorView>(total),
                Err(error) => reply@.total() == Err::<u64, ErrorView>(error@),
            },
            match reply {
                StorageReply::Total(Ok(Some(total))) => result == Ok::<u64, PortalStorageError>(
                    total,
                ),
                StorageReply::Total(Ok(None)) => result == Err::<u64, PortalStorageError>(
                    PortalStorageError::SumError,
                ),
                StorageReply::Total(Err(error)) => result matches Err(passed) && same_failure(
                    passed,
                    error,
                ),
                _ => false,
            },
    {
        reply.into_total()
    }

    /// Determines whether the node is over capacity.
    pub fn capacity_reached(&self, reply: StorageReply) -> (result: Result<
        bool,
        PortalStorageError,
    >)
        requires
            reply@.kind() == ReplyKind::Total,
        ensures
            match result {
                Ok(reached) => over_capacity(self@, reply@) == Ok::<bool, ErrorView>(reached),
                Err(error) => over_capacity(self@, reply@) == Err::<bool, ErrorView>(error@),
            },
            match reply {
                StorageReply::Total(Ok(Some(total))) => result == Ok::<bool, PortalStorageError>(
                    total > self.storage_capacity_in_bytes,
                ),
                StorageReply::Total(Ok(None)) => result == Err::<bool, PortalStorageError>(
                    PortalStorageError::SumError,
                ),
                StorageReply::Total(Err(error)) => result matches Err(passed) && same_failure(
                    passed,
                    error,
                ),
                _ => false,
            },
    {
        match PortalStorage::get_total_storage_usage_in_bytes_from_network_reply(reply) {
            Ok(storage_usage) => Ok(storage_usage > self.storage_capacity_in_bytes),
            Err(error) => Err(error),
        }
    }

    /// The request for the stored content that is farthest from the node.
    pub fn find_farthest_content_id(&self) -> (request: StorageRequest)
        ensures
            request@ == self@.find_farthest_request(),
            request matches StorageRequest::FindFarthest { node_id_short } && node_id_short
                == self.node_id.raw@[0] * 0x1000000 + self.node_id.raw@[1] * 0x10000
                + self.node_id.raw@[2] * 0x100 + self.node_id.raw@[3],
    {
        match self.distance_function {
            DistanceFunction::Xor => {
                let node_id = slice_to_vec(self.node_id.raw.as_slice());
                StorageRequest::FindFarthest {
                    node_id_short: PortalStorage::byte_vector_to_u32(&node_id),
                }
            },
        }
    }

    /// Reads which stored content is farthest from the node, if there is any: of the ids that the
    /// metadata database cannot tell apart, the one at the largest distance.
    pub fn find_farthest_content_id_reply(&self, reply: StorageReply) -> (result: Result<
        Option<[u8; 32]>,
        PortalStorageError,
    >)
        requires
            reply@.kind() == ReplyKind::Ids,
        ensures
            match result {
                Ok(Some(id)) => farthest_in(self@, reply@) == Ok::<Option<Seq<u8>>, ErrorView>(
                    Some(id@),
                ),
                Ok(None) => farthest_in(self@, reply@) == Ok::<Option<Seq<u8>>, ErrorView>(None),
                Err(error) => farthest_in(self@, reply@) == Err::<Option<Seq<u8>>, ErrorView>(
                    error@,
                ),
            },
            result matches Ok(Some(id)) ==> {
                &&& reply@.ids() matches Ok(ids)
                &&& ids.contains(id@)
                &&& forall|i: int|
                    0 <= i < ids.len() ==> self@.distance_to(#[trigger] ids[i])
                        <= self@.distance_to(id@)
            },
            match reply {
                StorageReply::Ids(Ok(ids)) => match result {
                    Ok(Some(id)) => {
                        &&& exists|k: int| 0 <= k < ids@.len() && (#[trigger] ids@[k])@ == id@
                        &&& forall|i: int|
                            0 <= i < ids@.len() ==> {
                                &&& (#[trigger] ids@[i])@.len() == 32
                                &&& xor_distance(ids@[i]@, self.node_id.raw@) <= xor_distance(
                                    id@,
                                    self.node_id.raw@,
                                )
                            }
                    },
                    Ok(None) => ids@.len() == 0,
                    Err(error) => exists|k: int| #[trigger]
                        is_first_misfit(ids_view(ids), k) && error@ == (ErrorView::DataSizeError {
                            doing: "finding farthest content id"@,
                            expected: 32,
                            actual: ids@[k]@.len(),
                        }),
                },
                StorageReply::Ids(Err(error)) => result matches Err(passed) && same_failure(
                    passed,
                    error,
                ),
                _ => false,
            },
    {
        let ids = match reply.into_ids() {
            Ok(ids) => ids,
            Err(error) => {
                return Err(error);
            },
        };
        let ghost all = ids_view(ids);
        let mut farthest: Option<[u8; 32]> = None;
        let mut i: usize = 0;
        while i < ids.len()
            invariant
                i <= ids@.len(),
                all == ids_view(ids),
                reply == StorageReply::Ids(Ok(ids)),
                reply@.ids() == Ok::<Seq<Seq<u8>>, ErrorView>(all),
                self@.farthest_of(all.take(i as int)) == Ok::<Option<Seq<u8>>, ErrorView>(
                    match farthest {
                        Some(id) => Some(id@),
                        None => None,
                    },
                ),
            decreases ids.len() - i,
        {
            proof {
                assert(all.take(i + 1).drop_last() =~= all.take(i as int));
            }
            let id = match content_id_in(&ids[i]) {
                Ok(id) => id,
                Err(error) => {
                    proof {
                        lemma_first_error_counts(self@, all, i + 1);
                        law_farthest_of_is_farthest(self@, all);
                    }
                    return Err(error);
                },
            };
            farthest = match farthest {
                Some(previous) if self.distance_to_content_id(&id) <= self.distance_to_content_id(
                    &previous,
                ) => Some(previous),
                _ => Some(id),
            };
            i = i + 1;
        }
        proof {
            assert(all.take(ids@.len() as int) =~= all);
            law_farthest_of_is_farthest(self@, all);
            if let Some(id) = farthest {
                let k = all.index_of(id@);
                assert(all[k] == ids@[k]@);
                assert forall|j: int| 0 <= j < ids@.len() implies {
                    &&& (#[trigger] ids@[j])@.len() == 32
                    &&& xor_distance(ids@[j]@, self.node_id.raw@) <= xor_distance(
                        id@,
                        self.node_id.raw@,
                    )
                } by {
                    assert(all[j] == ids@[j]@);
                }
            }
        }
        Ok(farthest)
    }
}

/// The master accumulator is the content with this one id.
pub proof fn law_master_accumulator_has_one_id(content_id: Seq<u8>)
    ensures
        is_master_accumulator(content_id) <==> content_id == seq![
            192u8, 186, 138, 51, 172, 103, 244, 74, 191, 245, 152, 77, 251, 182, 245, 108,
            70, 184, 128, 172, 43, 134, 225, 242, 62, 127, 169, 196, 2, 197, 58, 231,
        ],
{
    assert(LATEST_MASTER_ACC_CONTENT_ID@ =~= seq![
        192u8, 186, 138, 51, 172, 103, 244, 74, 191, 245, 152, 77, 251, 182, 245, 108,
        70, 184, 128, 172, 43, 134, 225, 242, 62, 127, 169, 196, 2, 197, 58, 231,
    ]);
}

/// How far content is from a node depends on the two ids alone: it is their xor distance, whatever
/// else the storage's state holds.
pub proof fn law_distance_depends_on_the_ids_alone(state: StorageState, content_id: Seq<u8>)
    ensures
        state.distance_to(content_id) == xor_distance(content_id, state.node_id),
{
}

/// What contracts say of a storage is said of its own id, capacity, radius and farthest content.
pub proof fn law_storage_view_keeps_everything(storage: PortalStorage)
    ensures
        storage@.node_id == storage.node_id.raw@,
        storage@.capacity == storage.storage_capacity_in_bytes,
        storage@.radius == be_value(storage.data_radius.bytes@),
        storage.farthest_content_id matches Some(id) ==> storage@.farthest == Some(id@),
        storage.farthest_content_id is None ==> storage@.farthest is None,
{
}

/// What contracts say of a content key is said of its own id and encoding.
pub proof fn law_key_view_keeps_everything(key: ContentKey)
    ensures
        key@.content_id == key.content_id@,
        key@.encoded == key.encoded@,
{
}

/// The row under which content is recorded holds the content's whole id, the first four bytes of it
/// as a number, the hexadecimal digits of every byte of the encoded key, and the size of the value.
pub proof fn law_row_describes_its_content(key: ContentKeyView, value: Seq<u8>)
    requires
        key.content_id.len() == 32,
    ensures
        ({
            let row = metadata_row(key, value);
            &&& row.content_id_long == key.content_id
            &&& row.content_id_short == key.content_id[0] * 0x1000000 + key.content_id[1] * 0x10000
                + key.content_id[2] * 0x100 + key.content_id[3]
            &&& row.content_key.len() == 2 * key.encoded.len()
            &&& forall|i: int| #![trigger key.encoded[i]]
                0 <= i < key.encoded.len() ==> {
                    &&& row.content_key[2 * i] == hex_digit(key.encoded[i] as int / 16)
                    &&& row.content_key[2 * i + 1] == hex_digit(key.encoded[i] as int % 16)
                }
            &&& row.content_size == value.len()
        }),
{
    lemma_short_id_value(key.content_id);
    law_hex_text_spells_every_byte(key.encoded);
}

/// Different encoded keys are recorded as different texts.
pub proof fn law_rows_tell_keys_apart(
    x: ContentKeyView,
    x_value: Seq<u8>,
    y: ContentKeyView,
    y_value: Seq<u8>,
)
    requires
        x.encoded != y.encoded,
    ensures
        metadata_row(x, x_value).content_key != metadata_row(y, y_value).content_key,
{
    if metadata_row(x, x_value).content_key == metadata_row(y, y_value).content_key {
        law_hex_text_determines_bytes(x.encoded, y.encoded);
    }
}

} // verus!
