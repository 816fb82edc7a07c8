//! A model of the databases behind a storage: what they hold, and how they answer.
//!
//! The laws of the storage are stated about operations whose requests are answered in this way.

use vstd::prelude::*;

use crate::distance::law_coarse_order_is_distance_order;
use crate::distance::{coarse, lemma_coarse_is_prefix, xor_bytes};
use crate::error::DatabaseErrorView;
use crate::request::{MetadataRowView, ReplyView, RequestView};
use crate::storage::{farthest_in, law_farthest_of_is_farthest, lemma_short_id_value};
use crate::storage::{short_id, StorageState};

verus! {

/// What the databases hold.
#[verifier::ext_equal]
pub struct Databases {
    /// The content database: a value for each content id.
    pub content: Map<Seq<u8>, Seq<u8>>,
    /// The accumulator database.
    pub accumulator: Map<Seq<u8>, Seq<u8>>,
    /// The metadata table: a row for each content id.
    pub metadata: Map<Seq<u8>, MetadataRowView>,
}

/// What a database holds under an id.
pub open spec fn lookup(database: Map<Seq<u8>, Seq<u8>>, content_id: Seq<u8>) -> Option<Seq<u8>> {
    if database.contains_key(content_id) {
        Some(database[content_id])
    } else {
        None
    }
}

/// Whether one table holds nothing that another does not hold.
pub open spec fn part_of<V>(part: Map<Seq<u8>, V>, whole: Map<Seq<u8>, V>) -> bool {
    forall|id: Seq<u8>| #[trigger]
        part.contains_key(id) ==> whole.contains_key(id) && part[id] == whole[id]
}

/// The number that `XOR_FIND_FARTHEST_QUERY` computes for a row.
pub open spec fn sort_key(node_id_short: u32, content_id_short: u32) -> int {
    (node_id_short | content_id_short) - (node_id_short & content_id_short)
}

/// The sum of the content sizes in a table.
pub open spec fn total_size(metadata: Map<Seq<u8>, MetadataRowView>) -> nat
    decreases metadata.dom().len(),
    when metadata.dom().finite()
{
    if metadata.dom().len() == 0 {
        0
    } else {
        let content_id = metadata.dom().choose();
        total_size(metadata.remove(content_id)) + metadata[content_id].content_size
    }
}

/// The failure that a reply reports, if it reports one.
pub open spec fn failure(reply: ReplyView) -> Option<DatabaseErrorView> {
    match reply {
        ReplyView::Written(Err(error)) => Some(error),
        ReplyView::Held(Err(error)) => Some(error),
        ReplyView::Bytes(Err(error)) => Some(error),
        ReplyView::Total(Err(error)) => Some(error),
        ReplyView::Ids(Err(error)) => Some(error),
        _ => None,
    }
}

/// Whether a reply reports a failure.
pub open spec fn is_failure(reply: ReplyView) -> bool {
    failure(reply) is Some
}

/// Whether a request may fail in some way: one to the metadata database with a failure of that
/// database or of its connections, any other with a failure of the key-value database.
pub open spec fn fails_with(request: RequestView, error: DatabaseErrorView) -> bool {
    match request {
        RequestView::InsertMetadata { .. } => error !is RocksDB,
        RequestView::RemoveMetadata { .. } => error !is RocksDB,
        RequestView::TotalSize => error !is RocksDB,
        RequestView::FindFarthest { .. } => error !is RocksDB,
        _ => error is RocksDB,
    }
}

impl Databases {
    /// Every row of the metadata table is recorded under its content's id, with the beginning of
    /// that id beside it.
    pub open spec fn well_formed(self) -> bool {
        &&& self.metadata.dom().finite()
        &&& forall|id: Seq<u8>| #[trigger]
            self.metadata.contains_key(id) ==> {
                &&& id.len() == 32
                &&& self.metadata[id].content_id_long == id
                &&& self.metadata[id].content_id_short == short_id(id)
            }
    }

    /// The content database and the metadata table list the same content.
    pub open spec fn mirrored(self) -> bool {
        self.content.dom() == self.metadata.dom()
    }

    /// Whether some content is recorded, and `XOR_FIND_FARTHEST_QUERY` computes a larger number for
    /// no other.
    pub open spec fn leads(self, node_id_short: u32, id: Seq<u8>) -> bool {
        &&& self.metadata.contains_key(id)
        &&& forall|other: Seq<u8>| #[trigger]
            self.metadata.contains_key(other) ==> sort_key(
                node_id_short,
                self.metadata[other].content_id_short,
            ) <= sort_key(node_id_short, self.metadata[id].content_id_short)
    }

    /// Whether the databases, asked a request, may answer it with a reply and hold `after` from
    /// then on. A request that fails changes nothing. The sum over an empty table is null, which
    /// is no number: asking for it fails.
    pub open spec fn answer(self, request: RequestView, reply: ReplyView, after: Databases) -> bool {
        &&& reply.kind() == request.reply_kind()
        &&& if let Some(error) = failure(reply) {
            &&& after == self
            &&& fails_with(request, error)
        } else {
            match request {
                RequestView::PutContent { content_id, value } => after == (Databases {
                    content: self.content.insert(content_id, value),
                    ..self
                }),
                RequestView::HasContent { content_id } => {
                    &&& after == self
                    &&& reply == ReplyView::Held(Ok(self.content.contains_key(content_id)))
                },
                RequestView::GetContent { content_id } => {
                    &&& after == self
                    &&& reply == ReplyView::Bytes(Ok(lookup(self.content, content_id)))
                },
                RequestView::DeleteContent { content_id } => after == (Databases {
                    content: self.content.remove(content_id),
                    ..self
                }),
                RequestView::PutAccumulator { content_id, value } => after == (Databases {
                    accumulator: self.accumulator.insert(content_id, value),
                    ..self
                }),
                RequestView::GetAccumulator { content_id } => {
                    &&& after == self
                    &&& reply == ReplyView::Bytes(Ok(lookup(self.accumulator, content_id)))
                },
                RequestView::InsertMetadata { row } => after == (Databases {
                    metadata: self.metadata.insert(row.content_id_long, row),
                    ..self
                }),
                RequestView::RemoveMetadata { content_id } => after == (Databases {
                    metadata: self.metadata.remove(content_id),
                    ..self
                }),
                RequestView::TotalSize => {
                    &&& after == self
                    &&& self.metadata.dom().len() > 0
                    &&& reply matches ReplyView::Total(Ok(Some(total)))
                    &&& total == total_size(self.metadata)
                },
                RequestView::FindFarthest { node_id_short } => {
                    &&& after == self
                    &&& reply matches ReplyView::Ids(Ok(ids))
                    &&& ids.len() == 0 <==> self.metadata.dom().len() == 0
                    &&& forall|id: Seq<u8>|
                        #[trigger] ids.contains(id) <==> self.leads(node_id_short, id)
                },
            }
        }
    }
}

/// A table's total size is what it is without one of its rows, and that row's size.
pub(crate) proof fn lemma_total_size_remove(metadata: Map<Seq<u8>, MetadataRowView>, id: Seq<u8>)
    requires
        metadata.dom().finite(),
        metadata.contains_key(id),
    ensures
        total_size(metadata) == total_size(metadata.remove(id)) + metadata[id].content_size,
    decreases metadata.dom().len(),
{
    let first = metadata.dom().choose();
    assert(metadata.dom().len() > 0);
    assert(metadata.contains_key(first));
    if first != id {
        lemma_total_size_remove(metadata.remove(first), id);
        lemma_total_size_remove(metadata.remove(id), first);
        assert(metadata.remove(first).remove(id) =~= metadata.remove(id).remove(first));
    }
}

/// Recording content adds its size to the total, in place of what was recorded of it before.
pub proof fn law_total_size_of_recorded_content(
    metadata: Map<Seq<u8>, MetadataRowView>,
    row: MetadataRowView,
)
    requires
        metadata.dom().finite(),
    ensures
        total_size(Map::empty()) == 0,
        total_size(metadata.insert(row.content_id_long, row)) == total_size(metadata)
            + row.content_size - if metadata.contains_key(row.content_id_long) {
            metadata[row.content_id_long].content_size
        } else {
            0
        },
{
    let id = row.content_id_long;
    let recorded = metadata.insert(id, row);
    lemma_total_size_remove(recorded, id);
    assert(recorded.remove(id) =~= metadata.remove(id));
    if metadata.contains_key(id) {
        lemma_total_size_remove(metadata, id);
    } else {
        assert(metadata.remove(id) =~= metadata);
    }
}

/// Four bytes as one number.
spec fn word(b0: u8, b1: u8, b2: u8, b3: u8) -> u32 {
    ((b0 as u32) << 24) | ((b1 as u32) << 16) | ((b2 as u32) << 8) | (b3 as u32)
}

proof fn lemma_word(b0: u8, b1: u8, b2: u8, b3: u8)
    by (bit_vector)
    ensures
        word(b0, b1, b2, b3) == b0 * 0x1000000 + b1 * 0x10000 + b2 * 0x100 + b3,
{
}

proof fn lemma_word_xor(a0: u8, a1: u8, a2: u8, a3: u8, b0: u8, b1: u8, b2: u8, b3: u8)
    by (bit_vector)
    ensures
        (word(a0, a1, a2, a3) | word(b0, b1, b2, b3)) - (word(a0, a1, a2, a3) & word(
            b0,
            b1,
            b2,
            b3,
        )) == word(b0 ^ a0, b1 ^ a1, b2 ^ a2, b3 ^ a3),
{
}

/// The number that the farthest-content query computes for a row is the beginning of the distance.
pub proof fn law_sort_key_is_coarse_distance(state: StorageState, id: Seq<u8>)
    requires
        state.node_id.len() == 32,
        id.len() == 32,
    ensures
        sort_key(short_id(state.node_id), short_id(id)) == coarse(state.distance_to(id)),
{
    let n = state.node_id;
    lemma_coarse_is_prefix(xor_bytes(id, n));
    lemma_short_id_value(n);
    lemma_short_id_value(id);
    lemma_short_id_value(xor_bytes(id, n));
    lemma_word(n[0], n[1], n[2], n[3]);
    lemma_word(id[0], id[1], id[2], id[3]);
    let x = xor_bytes(id, n);
    lemma_word(x[0], x[1], x[2], x[3]);
    lemma_word_xor(n[0], n[1], n[2], n[3], id[0], id[1], id[2], id[3]);
}

/// What is found to be farthest is recorded, and no recorded content is farther from the node.
/// Nothing is found only where nothing is recorded, and an id of a wrong size never is.
pub proof fn law_find_farthest(
    databases: Databases,
    state: StorageState,
    reply: ReplyView,
    after: Databases,
)
    requires
        databases.well_formed(),
        state.node_id.len() == 32,
        databases.answer(state.find_farthest_request(), reply, after),
        !is_failure(reply),
    ensures
        after == databases,
        match farthest_in(state, reply) {
            Ok(Some(farthest)) => {
                &&& databases.metadata.contains_key(farthest)
                &&& forall|id: Seq<u8>| #[trigger]
                    databases.metadata.contains_key(id) ==> state.distance_to(id)
                        <= state.distance_to(farthest)
            },
            Ok(None) => databases.metadata.dom().len() == 0,
            Err(_) => false,
        },
{
    let ids = reply->Ids_0->Ok_0;
    let short = short_id(state.node_id);
    law_farthest_of_is_farthest(state, ids);
    assert forall|i: int| 0 <= i < ids.len() implies (#[trigger] ids[i]).len() == 32 by {
        assert(ids.contains(ids[i]));
    }
    if let Ok(Some(farthest)) = farthest_in(state, reply) {
        assert(databases.leads(short, farthest));
        law_sort_key_is_coarse_distance(state, farthest);
        assert forall|id: Seq<u8>| #[trigger] databases.metadata.contains_key(id) implies {
            state.distance_to(id) <= state.distance_to(farthest)
        } by {
            if databases.leads(short, id) {
                assert(ids.contains(id));
                assert(ids[ids.index_of(id)] == id);
            } else {
                let other = choose|other: Seq<u8>| #[trigger]
                    databases.metadata.contains_key(other) && sort_key(
                        short,
                        databases.metadata[other].content_id_short,
                    ) > sort_key(short, databases.metadata[id].content_id_short);
                law_sort_key_is_coarse_distance(state, id);
                law_sort_key_is_coarse_distance(state, other);
                law_coarse_order_is_distance_order(
                    state.distance_to(id),
                    state.distance_to(farthest),
                );
            }
        }
    }
}

} // verus!
