//! Assets: the artifacts that make up one index.

use vstd::prelude::*;
use vstd::string::*;
use crate::text::{copy_bytes, copy_text, text_eq};

verus! {

/// The kind of one asset of an index.
#[derive(Clone, Copy, Debug, PartialEq, Eq, Structural)]
pub enum IndexAssetType {
    /// The compiled execution module.
    Wasm,
    /// The manifest that describes the index.
    Manifest,
    /// The GraphQL schema of the indexed data.
    Schema,
}

/// The asset type that an upload part's name stands for: exactly one of the
/// lower-case words `wasm`, `manifest` and `schema`.
pub open spec fn asset_type_named(name: Seq<char>) -> Option<IndexAssetType> {
    if name == "wasm"@ {
        Some(IndexAssetType::Wasm)
    } else if name == "manifest"@ {
        Some(IndexAssetType::Manifest)
    } else if name == "schema"@ {
        Some(IndexAssetType::Schema)
    } else {
        None
    }
}

impl IndexAssetType {
    /// The name under which a part of this type is uploaded.
    pub open spec fn name(self) -> Seq<char> {
        match self {
            IndexAssetType::Wasm => "wasm"@,
            IndexAssetType::Manifest => "manifest"@,
            IndexAssetType::Schema => "schema"@,
        }
    }

    /// The name under which a part of this type is uploaded.
    pub fn as_str(&self) -> (name: &'static str)
        ensures
            name@ == self.name(),
    {
        match self {
            IndexAssetType::Wasm => "wasm",
            IndexAssetType::Manifest => "manifest",
            IndexAssetType::Schema => "schema",
        }
    }

    /// Reads an asset type from the name of an upload part.
    pub fn from_name(name: &str) -> (found: Option<IndexAssetType>)
        ensures
            found == asset_type_named(name@),
    {
        if text_eq(name, "wasm") {
            Some(IndexAssetType::Wasm)
        } else if text_eq(name, "manifest") {
            Some(IndexAssetType::Manifest)
        } else if text_eq(name, "schema") {
            Some(IndexAssetType::Schema)
        } else {
            None
        }
    }
}

/// Every asset type is found again under its own name.
pub proof fn lemma_name_round_trip(asset_type: IndexAssetType)
    ensures
        asset_type_named(asset_type.name()) == Some(asset_type),
{
    reveal_strlit("wasm");
    reveal_strlit("manifest");
    reveal_strlit("schema");
    assert("wasm"@.len() != "manifest"@.len());
    assert("wasm"@.len() != "schema"@.len());
    assert("manifest"@.len() != "schema"@.len());
}

/// One stored artifact of an index. A row is written once and never changed.
#[derive(Clone, Debug, PartialEq, Eq)]
pub struct IndexAsset {
    /// The row's number, unique in its registry.
    pub id: u64,
    pub namespace: String,
    pub identifier: String,
    pub asset_type: IndexAssetType,
    pub bytes: Vec<u8>,
    /// Counts the uploads of this type for this index, from 1.
    pub version: u64,
    /// When the row was written, as the caller's clock gave it.
    pub created_at: u64,
}

/// The mathematical value of an [`IndexAsset`].
pub ghost struct AssetRecord {
    pub id: nat,
    pub namespace: Seq<char>,
    pub identifier: Seq<char>,
    pub asset_type: IndexAssetType,
    pub bytes: Seq<u8>,
    pub version: nat,
    pub created_at: nat,
}

impl AssetRecord {
    /// Whether the row belongs to the index `(namespace, identifier)`.
    pub open spec fn of_index(self, namespace: Seq<char>, identifier: Seq<char>) -> bool {
        self.namespace == namespace && self.identifier == identifier
    }

    /// Whether the row is an asset of the given type of the given index.
    pub open spec fn of_lineage(
        self,
        namespace: Seq<char>,
        identifier: Seq<char>,
        asset_type: IndexAssetType,
    ) -> bool {
        self.of_index(namespace, identifier) && self.asset_type == asset_type
    }
}

impl View for IndexAsset {
    type V = AssetRecord;

    open spec fn view(&self) -> AssetRecord {
        AssetRecord {
            id: self.id as nat,
            namespace: self.namespace@,
            identifier: self.identifier@,
            asset_type: self.asset_type,
            bytes: self.bytes@,
            version: self.version as nat,
            created_at: self.created_at as nat,
        }
    }
}

impl IndexAsset {
    /// A copy of the row, equal to it in every field.
    pub fn duplicate(&self) -> (copy: IndexAsset)
        ensures
            copy@ == self@,
    {
        IndexAsset {
            id: self.id,
            namespace: copy_text(&self.namespace),
            identifier: copy_text(&self.identifier),
            asset_type: self.asset_type,
            bytes: copy_bytes(&self.bytes),
            version: self.version,
            created_at: self.created_at,
        }
    }
}

/// The mathematical values of a list of rows, in order.
pub open spec fn records(rows: Seq<IndexAsset>) -> Seq<AssetRecord> {
    rows.map_values(|row: IndexAsset| row@)
}

/// A copy of a list of rows, equal to it row by row.
pub fn duplicate_rows(rows: &Vec<IndexAsset>) -> (copy: Vec<IndexAsset>)
    ensures
        records(copy@) == records(rows@),
{
    let mut copy: Vec<IndexAsset> = Vec::new();
    let mut i: usize = 0;
    while i < rows.len()
        invariant
            i <= rows.len(),
            copy.len() == i,
            forall|k: int| 0 <= k < i ==> copy@[k]@ == rows@[k]@,
        decreases rows.len() - i,
    {
        copy.push(rows[i].duplicate());
        i += 1;
    }
    assert(records(copy@) =~= records(rows@));
    copy
}

} // verus!
