//! The asset registry: append-only, versioned rows per index, changed inside
//! transactions that either commit whole or leave no trace.

use vstd::prelude::*;
use vstd::string::*;
use crate::asset::{duplicate_rows, records, AssetRecord, IndexAsset, IndexAssetType};
use crate::error::{ApiError, ApiFault};
use crate::text::text_eq;

verus! {

/// The highest version among the rows of one lineage, 0 where it has none.
pub open spec fn latest_version(
    rows: Seq<AssetRecord>,
    namespace: Seq<char>,
    identifier: Seq<char>,
    asset_type: IndexAssetType,
) -> nat
    decreases rows.len(),
{
    if rows.len() == 0 {
        0
    } else {
        let before = latest_version(rows.drop_last(), namespace, identifier, asset_type);
        let last = rows.last();
        if last.of_lineage(namespace, identifier, asset_type) && last.version > before {
            last.version
        } else {
            before
        }
    }
}

/// Whether some row belongs to the index.
pub open spec fn has_index(
    rows: Seq<AssetRecord>,
    namespace: Seq<char>,
    identifier: Seq<char>,
) -> bool {
    exists|i: int| 0 <= i < rows.len() && (#[trigger] rows[i]).of_index(namespace, identifier)
}

/// The rows that are left when an index's whole history is deleted.
pub open spec fn without_index(
    rows: Seq<AssetRecord>,
    namespace: Seq<char>,
    identifier: Seq<char>,
) -> Seq<AssetRecord> {
    rows.filter(|row: AssetRecord| !row.of_index(namespace, identifier))
}

/// Whether a list of rows can be the content of a registry that will hand
/// out `next_id` next and holds at most `capacity` rows: the row numbers grow
/// along the list and lie below `next_id`, and within one lineage the
/// versions start at 1 or above and grow along the list.
pub open spec fn rows_ok(rows: Seq<AssetRecord>, next_id: nat, capacity: nat) -> bool {
    &&& rows.len() <= capacity
    &&& forall|i: int| 0 <= i < rows.len() ==> (#[trigger] rows[i]).id < next_id
    &&& forall|i: int| 0 <= i < rows.len() ==> (#[trigger] rows[i]).version >= 1
    &&& forall|i: int, j: int|
        0 <= i < j < rows.len() ==> (#[trigger] rows[i]).id < (#[trigger] rows[j]).id
    &&& forall|i: int, j: int|
        0 <= i < j < rows.len() && (#[trigger] rows[i]).of_lineage(
            rows[j].namespace,
            rows[j].identifier,
            rows[j].asset_type,
        ) ==> rows[i].version < (#[trigger] rows[j]).version
}

/// The mathematical value of an [`AssetRegistry`].
pub ghost struct RegistryState {
    /// The rows that a reader sees, oldest first.
    pub rows: Seq<AssetRecord>,
    /// Inside a transaction, the rows as they were when it began.
    pub saved: Option<Seq<AssetRecord>>,
    /// The number that the next row gets.
    pub next_id: nat,
    /// The number of rows that the store accepts.
    pub capacity: nat,
    /// Whether the store can be reached.
    pub online: bool,
}

impl RegistryState {
    /// The invariant of a registry. A store that cannot be reached holds no
    /// open transaction.
    pub open spec fn wf(self) -> bool {
        &&& rows_ok(self.rows, self.next_id, self.capacity)
        &&& self.saved matches Some(saved) ==> rows_ok(saved, self.next_id, self.capacity)
        &&& !self.online ==> self.saved is None
    }

    /// Whether the store takes one more row of the given lineage.
    pub open spec fn accepts(
        self,
        namespace: Seq<char>,
        identifier: Seq<char>,
        asset_type: IndexAssetType,
    ) -> bool {
        &&& self.online
        &&& self.rows.len() < self.capacity
        &&& self.next_id < u64::MAX
        &&& latest_version(self.rows, namespace, identifier, asset_type) < u64::MAX
    }

    /// The row that a registration writes.
    pub open spec fn next_record(
        self,
        namespace: Seq<char>,
        identifier: Seq<char>,
        asset_type: IndexAssetType,
        bytes: Seq<u8>,
        now: nat,
    ) -> AssetRecord {
        AssetRecord {
            id: self.next_id,
            namespace,
            identifier,
            asset_type,
            bytes,
            version: latest_version(self.rows, namespace, identifier, asset_type) + 1,
            created_at: now,
        }
    }

    /// The state after `row` was written.
    pub open spec fn with_row(self, row: AssetRecord) -> RegistryState {
        RegistryState { rows: self.rows.push(row), next_id: self.next_id + 1, ..self }
    }
}

/// No row of a lineage has a version above the lineage's latest.
pub proof fn lemma_latest_version_bounds(
    rows: Seq<AssetRecord>,
    namespace: Seq<char>,
    identifier: Seq<char>,
    asset_type: IndexAssetType,
)
    ensures
        forall|i: int|
            0 <= i < rows.len() && (#[trigger] rows[i]).of_lineage(
                namespace,
                identifier,
                asset_type,
            ) ==> rows[i].version <= latest_version(rows, namespace, identifier, asset_type),
    decreases rows.len(),
{
    if rows.len() > 0 {
        lemma_latest_version_bounds(rows.drop_last(), namespace, identifier, asset_type);
        assert forall|i: int|
            0 <= i < rows.len() && (#[trigger] rows[i]).of_lineage(
                namespace,
                identifier,
                asset_type,
            ) implies rows[i].version <= latest_version(
            rows,
            namespace,
            identifier,
            asset_type,
        ) by {
            if i < rows.len() - 1 {
                assert(rows.drop_last()[i] == rows[i]);
            }
        }
    }
}

/// The latest version of a lineage is 0 or the version of one of its rows.
pub proof fn lemma_latest_version_is_held(
    rows: Seq<AssetRecord>,
    namespace: Seq<char>,
    identifier: Seq<char>,
    asset_type: IndexAssetType,
)
    ensures
        latest_version(rows, namespace, identifier, asset_type) == 0 || exists|i: int|
            0 <= i < rows.len() && (#[trigger] rows[i]).of_lineage(
                namespace,
                identifier,
                asset_type,
            ) && rows[i].version == latest_version(rows, namespace, identifier, asset_type),
    decreases rows.len(),
{
    if rows.len() > 0 {
        let before = rows.drop_last();
        lemma_latest_version_is_held(before, namespace, identifier, asset_type);
        let latest = latest_version(rows, namespace, identifier, asset_type);
        if latest != 0 {
            if latest == latest_version(before, namespace, identifier, asset_type) {
                let i = choose|i: int|
                    0 <= i < before.len() && (#[trigger] before[i]).of_lineage(
                        namespace,
                        identifier,
                        asset_type,
                    ) && before[i].version == latest;
                assert(rows[i] == before[i]);
            } else {
                assert(rows[rows.len() - 1].version == latest);
            }
        }
    }
}

/// Versions only grow: the row that a registration writes has a version above
/// that of every row which its lineage holds already.
pub proof fn lemma_versions_grow(
    state: RegistryState,
    namespace: Seq<char>,
    identifier: Seq<char>,
    asset_type: IndexAssetType,
    bytes: Seq<u8>,
    now: nat,
)
    ensures
        forall|i: int|
            0 <= i < state.rows.len() && (#[trigger] state.rows[i]).of_lineage(
                namespace,
                identifier,
                asset_type,
            ) ==> state.rows[i].version < state.next_record(
                namespace,
                identifier,
                asset_type,
                bytes,
                now,
            ).version,
{
    lemma_latest_version_bounds(state.rows, namespace, identifier, asset_type);
}

/// An index without rows begins anew: the first row of each of its
/// lineages has version 1, whatever was registered and deleted before.
pub proof fn lemma_fresh_lineage(
    state: RegistryState,
    namespace: Seq<char>,
    identifier: Seq<char>,
    asset_type: IndexAssetType,
    bytes: Seq<u8>,
    now: nat,
)
    requires
        !has_index(state.rows, namespace, identifier),
    ensures
        state.next_record(namespace, identifier, asset_type, bytes, now).version == 1,
{
    lemma_latest_version_is_held(state.rows, namespace, identifier, asset_type);
}

/// The asset registry of one service.
pub struct AssetRegistry {
    rows: Vec<IndexAsset>,
    saved: Option<Vec<IndexAsset>>,
    next_id: u64,
    capacity: usize,
    online: bool,
}

impl View for AssetRegistry {
    type V = RegistryState;

    closed spec fn view(&self) -> RegistryState {
        RegistryState {
            rows: records(self.rows@),
            saved: match self.saved {
                Some(saved) => Some(records(saved@)),
                None => None,
            },
            next_id: self.next_id as nat,
            capacity: self.capacity as nat,
            online: self.online,
        }
    }
}

impl AssetRegistry {
    /// An empty registry that can be reached and holds as many rows as the
    /// machine allows.
    pub fn new() -> (registry: AssetRegistry)
        ensures
            registry@.wf(),
            registry@ == (RegistryState {
                rows: Seq::empty(),
                saved: None,
                next_id: 1,
                capacity: usize::MAX as nat,
                online: true,
            }),
    {
        AssetRegistry::with_capacity(usize::MAX)
    }

    /// An empty registry that can be reached and refuses to hold more than
    /// `capacity` rows.
    pub fn with_capacity(capacity: usize) -> (registry: AssetRegistry)
        ensures
            registry@.wf(),
            registry@ == (RegistryState {
                rows: Seq::empty(),
                saved: None,
                next_id: 1,
                capacity: capacity as nat,
                online: true,
            }),
    {
        let registry = AssetRegistry {
            rows: Vec::new(),
            saved: None,
            next_id: 1,
            capacity,
            online: true,
        };
        assert(records(registry.rows@) =~= Seq::empty());
        registry
    }

    /// Whether the store can be reached.
    pub fn is_connected(&self) -> (online: bool)
        ensures
            online == self@.online,
    {
        self.online
    }

    /// Whether a transaction is open.
    pub fn in_transaction(&self) -> (open: bool)
        ensures
            open == (self@.saved is Some),
    {
        self.saved.is_some()
    }

    /// Records that the store was lost or found again. Losing it ends an open
    /// transaction as a rollback does.
    pub fn set_connected(&mut self, online: bool)
        requires
            old(self)@.wf(),
        ensures
            final(self)@.wf(),
            final(self)@ == (RegistryState {
                rows: if !online && old(self)@.saved is Some {
                    old(self)@.saved->0
                } else {
                    old(self)@.rows
                },
                saved: if online {
                    old(self)@.saved
                } else {
                    None
                },
                online,
                ..old(self)@
            }),
    {
        if !online {
            match self.saved.take() {
                Some(saved) => {
                    self.rows = saved;
                },
                None => {},
            }
        }
        self.online = online;
    }

    /// The number of rows.
    pub fn len(&self) -> (n: usize)
        ensures
            n == self@.rows.len(),
    {
        self.rows.len()
    }

    /// A copy of every row, oldest first.
    pub fn assets(&self) -> (rows: Vec<IndexAsset>)
        ensures
            records(rows@) == self@.rows,
    {
        duplicate_rows(&self.rows)
    }

    /// The highest version that the lineage has reached, 0 where it has no row.
    pub fn latest_version(
        &self,
        namespace: &str,
        identifier: &str,
        asset_type: IndexAssetType,
    ) -> (latest: u64)
        ensures
            latest == latest_version(self@.rows, namespace@, identifier@, asset_type),
    {
        let mut latest: u64 = 0;
        let mut i: usize = 0;
        while i < self.rows.len()
            invariant
                i <= self.rows.len(),
                latest == latest_version(
                    records(self.rows@).take(i as int),
                    namespace@,
                    identifier@,
                    asset_type,
                ),
            decreases self.rows.len() - i,
        {
            let row = &self.rows[i];
            proof {
                let upto = records(self.rows@).take(i + 1);
                assert(upto.drop_last() =~= records(self.rows@).take(i as int));
                assert(upto.last() == row@);
            }
            if row.asset_type == asset_type && text_eq(row.namespace.as_str(), namespace)
                && text_eq(row.identifier.as_str(), identifier) && row.version > latest {
                latest = row.version;
            }
            i += 1;
        }
        assert(records(self.rows@).take(i as int) =~= records(self.rows@));
        latest
    }

    /// Whether the index has any row.
    pub fn has_index(&self, namespace: &str, identifier: &str) -> (found: bool)
        ensures
            found == has_index(self@.rows, namespace@, identifier@),
    {
        let mut i: usize = 0;
        while i < self.rows.len()
            invariant
                i <= self.rows.len(),
                forall|k: int|
                    0 <= k < i ==> !(#[trigger] records(self.rows@)[k]).of_index(
                        namespace@,
                        identifier@,
                    ),
            decreases self.rows.len() - i,
        {
            let row = &self.rows[i];
            if text_eq(row.namespace.as_str(), namespace) && text_eq(
                row.identifier.as_str(),
                identifier,
            ) {
                assert(records(self.rows@)[i as int].of_index(namespace@, identifier@));
                return true;
            }
            i += 1;
        }
        false
    }

    /// Opens a transaction. The store refuses where it cannot be reached or a
    /// transaction is open already, and nothing changes then.
    pub fn start_transaction(&mut self) -> (begun: Result<(), ApiError>)
        requires
            old(self)@.wf(),
        ensures
            final(self)@.wf(),
            begun is Ok <==> old(self)@.online && old(self)@.saved is None,
            begun is Ok ==> final(self)@ == (RegistryState {
                saved: Some(old(self)@.rows),
                ..old(self)@
            }),
            begun matches Err(e) ==> e@ == ApiFault::Persistence && final(self)@ == old(self)@,
    {
        if !self.online || self.saved.is_some() {
            return Err(ApiError::Persistence);
        }
        self.saved = Some(duplicate_rows(&self.rows));
        Ok(())
    }

    /// Ends the open transaction and keeps what it wrote. Fails where no
    /// transaction is open, and nothing changes then.
    pub fn commit_transaction(&mut self) -> (done: Result<(), ApiError>)
        requires
            old(self)@.wf(),
        ensures
            final(self)@.wf(),
            done is Ok <==> old(self)@.saved is Some,
            done is Ok ==> final(self)@ == (RegistryState { saved: None, ..old(self)@ }),
            done matches Err(e) ==> e@ == ApiFault::Persistence && final(self)@ == old(self)@,
    {
        if self.saved.is_none() {
            return Err(ApiError::Persistence);
        }
        self.saved = None;
        Ok(())
    }

    /// Ends the open transaction and brings back the rows as they were when
    /// it began. Fails where no transaction is open, and nothing changes then.
    pub fn revert_transaction(&mut self) -> (done: Result<(), ApiError>)
        requires
            old(self)@.wf(),
        ensures
            final(self)@.wf(),
            done is Ok <==> old(self)@.saved is Some,
            done is Ok ==> final(self)@ == (RegistryState {
                rows: old(self)@.saved->0,
                saved: None,
                ..old(self)@
            }),
            done matches Err(e) ==> e@ == ApiFault::Persistence && final(self)@ == old(self)@,
    {
        match self.saved.take() {
            Some(saved) => {
                self.rows = saved;
                Ok(())
            },
            None => Err(ApiError::Persistence),
        }
    }

    /// Writes a new row for the lineage, one version above its latest. The
    /// store refuses where it cannot be reached, is full, or has run out of
    /// row numbers or versions; nothing changes then.
    pub fn register(
        &mut self,
        namespace: &str,
        identifier: &str,
        asset_type: IndexAssetType,
        bytes: Vec<u8>,
        now: u64,
    ) -> (written: Result<IndexAsset, ApiError>)
        requires
            old(self)@.wf(),
        ensures
            final(self)@.wf(),
            written is Ok <==> old(self)@.accepts(namespace@, identifier@, asset_type),
            written matches Ok(asset) ==> asset@ == old(self)@.next_record(
                namespace@,
                identifier@,
                asset_type,
                bytes@,
                now as nat,
            ) && final(self)@ == old(self)@.with_row(asset@),
            written matches Err(e) ==> e@ == ApiFault::Persistence && final(self)@ == old(self)@,
    {
        if !self.online || self.rows.len() >= self.capacity || self.next_id == u64::MAX {
            return Err(ApiError::Persistence);
        }
        let latest = self.latest_version(namespace, identifier, asset_type);
        if latest == u64::MAX {
            return Err(ApiError::Persistence);
        }
        let row = IndexAsset {
            id: self.next_id,
            namespace: String::from_str(namespace),
            identifier: String::from_str(identifier),
            asset_type,
            bytes,
            version: latest + 1,
            created_at: now,
        };
        let asset = row.duplicate();
        proof {
            lemma_latest_version_bounds(old(self)@.rows, namespace@, identifier@, asset_type);
            assert(records(self.rows@.push(row)) =~= records(self.rows@).push(row@));
        }
        self.next_id = self.next_id + 1;
        self.rows.push(row);
        Ok(asset)
    }

    /// Deletes every row of the index. Fails with `Persistence` where the
    /// store cannot be reached, and with `NotFound`, which names the index,
    /// where the index has no row; nothing changes then.
    pub fn remove(&mut self, namespace: &str, identifier: &str) -> (removed: Result<(), ApiError>)
        requires
            old(self)@.wf(),
        ensures
            final(self)@.wf(),
            removed is Ok <==> old(self)@.online && has_index(
                old(self)@.rows,
                namespace@,
                identifier@,
            ),
            removed is Ok ==> final(self)@ == (RegistryState {
                rows: without_index(old(self)@.rows, namespace@, identifier@),
                ..old(self)@
            }),
            removed is Err ==> final(self)@ == old(self)@,
            removed matches Err(e) ==> e@ == (if old(self)@.online {
                ApiFault::NotFound(index_label(namespace@, identifier@))
            } else {
                ApiFault::Persistence
            }),
    {
        if !self.online {
            return Err(ApiError::Persistence);
        }
        if !self.has_index(namespace, identifier) {
            let mut label = String::from_str(namespace);
            label.append("/");
            label.append(identifier);
            return Err(ApiError::NotFound(label));
        }
        let ghost pred = |row: AssetRecord| !row.of_index(namespace@, identifier@);
        let ghost before = records(self.rows@);
        let mut kept: Vec<IndexAsset> = Vec::new();
        let ghost mut origin: Seq<int> = Seq::empty();
        let mut i: usize = 0;
        proof {
            reveal(Seq::filter);
            assert(before.take(0).filter(pred) =~= Seq::empty());
        }
        while i < self.rows.len()
            invariant
                i <= self.rows.len(),
                before == records(self.rows@),
                pred == |row: AssetRecord| !row.of_index(namespace@, identifier@),
                records(kept@) == before.take(i as int).filter(pred),
                origin.len() == kept.len(),
                forall|k: int|
                    0 <= k < origin.len() ==> 0 <= (#[trigger] origin[k]) < i && records(
                        kept@,
                    )[k] == before[origin[k]],
                forall|k: int, l: int|
                    0 <= k < l < origin.len() ==> (#[trigger] origin[k]) < (#[trigger] origin[l]),
            decreases self.rows.len() - i,
        {
            let row = &self.rows[i];
            proof {
                reveal(Seq::filter);
                assert(before.take(i + 1).drop_last() =~= before.take(i as int));
                assert(before.take(i + 1).last() == row@);
            }
            if !(text_eq(row.namespace.as_str(), namespace) && text_eq(
                row.identifier.as_str(),
                identifier,
            )) {
                let copy = row.duplicate();
                proof {
                    assert(records(kept@.push(copy)) =~= records(kept@).push(row@));
                    origin = origin.push(i as int);
                }
                kept.push(copy);
            }
            i += 1;
        }
        proof {
            assert(before.take(i as int) =~= before);
            let rows = records(kept@);
            assert forall|a: int, b: int|
                0 <= a < b < rows.len() && (#[trigger] rows[a]).of_lineage(
                    rows[b].namespace,
                    rows[b].identifier,
                    rows[b].asset_type,
                ) implies rows[a].version < (#[trigger] rows[b]).version by {
                assert(origin[a] < origin[b]);
                assert(before[origin[a]].of_lineage(
                    before[origin[b]].namespace,
                    before[origin[b]].identifier,
                    before[origin[b]].asset_type,
                ));
            }
            assert forall|a: int, b: int| 0 <= a < b < rows.len() implies (#[trigger] rows[a]).id
                < (#[trigger] rows[b]).id by {
                assert(origin[a] < origin[b]);
            }
            assert forall|a: int| 0 <= a < rows.len() implies (#[trigger] rows[a]).id
                < self.next_id && rows[a].version >= 1 by {
                assert(rows[a] == before[origin[a]]);
            }
            before.lemma_filter_len(pred);
        }
        self.rows = kept;
        Ok(())
    }
}

/// The text that names an index in a message: namespace, a slash, identifier.
pub open spec fn index_label(namespace: Seq<char>, identifier: Seq<char>) -> Seq<char> {
    namespace + "/"@ + identifier
}

} // verus!
