//! Deploying an index: the request that uploads an index's assets to a
//! running service.

use vstd::prelude::*;
use vstd::string::*;
use crate::asset::{asset_type_named, IndexAssetType};
use crate::upload::{part_specs, PartSpec, UploadPart};

verus! {

/// Deploy an index asset bundle to a remote or locally running indexer server.
#[derive(Clone, Debug, PartialEq, Eq)]
pub struct Command {
    /// URL at which to upload index assets
    pub url: String,
    /// Path of the index manifest to upload
    pub manifest: String,
    /// Authentication header value
    pub auth: Option<String>,
}

/// The assets of one index as they were read from where the manifest points.
#[derive(Clone, Debug, PartialEq, Eq)]
pub struct AssetBundle {
    pub namespace: String,
    pub identifier: String,
    pub manifest: Vec<u8>,
    pub schema: Vec<u8>,
    pub wasm: Vec<u8>,
}

/// One upload, ready to be sent.
#[derive(Clone, Debug, PartialEq, Eq)]
pub struct Deployment {
    /// Where the upload goes.
    pub target: String,
    /// The value of the authorization header, where the upload carries one.
    pub authorization: Option<String>,
    /// The parts of the upload's body, in order.
    pub parts: Vec<UploadPart>,
}

/// The address that takes the uploads for an index: the index's namespace
/// and identifier are the last two segments of its path.
pub open spec fn upload_target(url: Seq<char>, namespace: Seq<char>, identifier: Seq<char>) -> Seq<
    char,
> {
    url + "/api/index/"@ + namespace + "/"@ + identifier
}

/// The parts that a bundle is uploaded as: manifest, schema and module, each
/// under the name of its asset type.
pub open spec fn bundle_parts(manifest: Seq<u8>, schema: Seq<u8>, wasm: Seq<u8>) -> Seq<PartSpec> {
    seq![
        PartSpec { name: IndexAssetType::Manifest.name(), data: manifest },
        PartSpec { name: IndexAssetType::Schema.name(), data: schema },
        PartSpec { name: IndexAssetType::Wasm.name(), data: wasm },
    ]
}

/// The service knows the name of every part that a bundle is uploaded as.
pub proof fn lemma_bundle_parts_are_known(manifest: Seq<u8>, schema: Seq<u8>, wasm: Seq<u8>)
    ensures
        forall|i: int|
            0 <= i < 3 ==> asset_type_named(
                (#[trigger] bundle_parts(manifest, schema, wasm)[i]).name,
            ) is Some,
{
    crate::asset::lemma_name_round_trip(IndexAssetType::Manifest);
    crate::asset::lemma_name_round_trip(IndexAssetType::Schema);
    crate::asset::lemma_name_round_trip(IndexAssetType::Wasm);
}

/// Builds the upload that deploys `bundle` as the command asks: to the
/// command's URL, under the bundle's namespace and identifier, with the
/// command's authorization. Sending it is the caller's part.
pub fn exec(command: Command, bundle: AssetBundle) -> (deployment: Deployment)
    ensures
        deployment.target@ == upload_target(command.url@, bundle.namespace@, bundle.identifier@),
        deployment.authorization == command.auth,
        part_specs(deployment.parts@) == bundle_parts(
            bundle.manifest@,
            bundle.schema@,
            bundle.wasm@,
        ),
{
    let mut target = command.url;
    target.append("/api/index/");
    target.append(bundle.namespace.as_str());
    target.append("/");
    target.append(bundle.identifier.as_str());
    let mut parts: Vec<UploadPart> = Vec::new();
    parts.push(
        UploadPart {
            name: String::from_str(IndexAssetType::Manifest.as_str()),
            data: bundle.manifest,
        },
    );
    parts.push(
        UploadPart {
            name: String::from_str(IndexAssetType::Schema.as_str()),
            data: bundle.schema,
        },
    );
    parts.push(
        UploadPart { name: String::from_str(IndexAssetType::Wasm.as_str()), data: bundle.wasm },
    );
    assert(part_specs(parts@) =~= bundle_parts(bundle.manifest@, bundle.schema@, bundle.wasm@));
    Deployment { target, authorization: command.auth, parts }
}

} // verus!
