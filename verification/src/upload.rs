//! The upload of an index's assets: every part of one upload is registered
//! inside one transaction, a schema part is compiled and installed as it
//! comes, and the execution pool is told once the transaction has committed.

use vstd::prelude::*;
use vstd::string::*;
use vstd::utf8::*;
use crate::asset::{asset_type_named, records, AssetRecord, IndexAsset, IndexAssetType};
use crate::control::{channel_state, ChannelState, ControlChannel, ServiceNotice, ServiceRequest};
use crate::error::{ApiError, ApiFault};
use crate::manager::SchemaManager;
use crate::registry::{AssetRegistry, RegistryState};
use crate::schema::{schema_of_text, SchemaSpec};
use crate::text::{copy_bytes, copy_text};

verus! {

/// One part of an upload: the name says which asset the bytes are.
#[derive(Clone, Debug, PartialEq, Eq)]
pub struct UploadPart {
    pub name: String,
    pub data: Vec<u8>,
}

/// The mathematical value of an [`UploadPart`].
pub ghost struct PartSpec {
    pub name: Seq<char>,
    pub data: Seq<u8>,
}

impl View for UploadPart {
    type V = PartSpec;

    open spec fn view(&self) -> PartSpec {
        PartSpec { name: self.name@, data: self.data@ }
    }
}

/// The mathematical values of the parts of an upload, in order.
pub open spec fn part_specs(parts: Seq<UploadPart>) -> Seq<PartSpec> {
    parts.map_values(|part: UploadPart| part@)
}

/// The mathematical value of an upload's body, which may be missing.
pub open spec fn body_spec(parts: Option<Vec<UploadPart>>) -> Option<Seq<PartSpec>> {
    match parts {
        Some(parts) => Some(part_specs(parts@)),
        None => None,
    }
}

/// The mathematical value of what an upload returns.
pub open spec fn upload_result(done: Result<Vec<IndexAsset>, ApiError>) -> Result<
    Seq<AssetRecord>,
    ApiFault,
> {
    match done {
        Ok(assets) => Ok(records(assets@)),
        Err(e) => Err(e@),
    }
}

/// The text that bytes are read as when they need not be UTF-8: what
/// `String::from_utf8_lossy` makes of them.
pub uninterp spec fn lossy_text(bytes: Seq<u8>) -> Seq<char>;

/// Calls `String::from_utf8_lossy`. Two things are taken on trust: that the
/// text is a function of the bytes alone, which `lossy_text` names, and that
/// bytes which are UTF-8 are decoded as they stand. What the call puts in the
/// place of ill-formed bytes is not stated here.
#[verifier::external_body]
fn decode_lossy(bytes: &[u8]) -> (text: String)
    ensures
        text@ == lossy_text(bytes@),
        valid_utf8(bytes@) ==> text@ == decode_utf8(bytes@),
{
    String::from_utf8_lossy(bytes).into_owned()
}

/// What an upload has done so far.
pub ghost struct UploadState {
    pub registry: RegistryState,
    pub schemas: Map<Seq<char>, SchemaSpec>,
    /// The rows written so far, in the order of their parts.
    pub assets: Seq<AssetRecord>,
}

/// The state after one more part, and why the part failed if it did. A part
/// fails where its name is no asset type, where the store refuses the row, or
/// where it is a schema that does not compile; a schema's row is written
/// before the schema is compiled.
pub open spec fn after_part(
    state: UploadState,
    namespace: Seq<char>,
    identifier: Seq<char>,
    part: PartSpec,
    now: nat,
) -> (UploadState, Option<ApiFault>) {
    match asset_type_named(part.name) {
        None => (state, Some(ApiFault::InvalidAssetType(part.name))),
        Some(asset_type) => if !state.registry.accepts(namespace, identifier, asset_type) {
            (state, Some(ApiFault::Persistence))
        } else {
            let row = state.registry.next_record(
                namespace,
                identifier,
                asset_type,
                part.data,
                now,
            );
            let written = UploadState { registry: state.registry.with_row(row), ..state };
            if asset_type == IndexAssetType::Schema {
                match schema_of_text(namespace, lossy_text(part.data)) {
                    Err(fault) => (written, Some(ApiFault::Compile(fault))),
                    Ok(schema) => (
                        UploadState {
                            schemas: written.schemas.insert(namespace, schema),
                            assets: written.assets.push(row),
                            ..written
                        },
                        None,
                    ),
                }
            } else {
                (UploadState { assets: written.assets.push(row), ..written }, None)
            }
        },
    }
}

/// The state after the parts were taken in order up to the first that
/// failed, and why that one failed.
pub open spec fn after_parts(
    state: UploadState,
    namespace: Seq<char>,
    identifier: Seq<char>,
    parts: Seq<PartSpec>,
    now: nat,
) -> (UploadState, Option<ApiFault>)
    decreases parts.len(),
{
    if parts.len() == 0 {
        (state, None)
    } else {
        let (earlier, failure) = after_parts(
            state,
            namespace,
            identifier,
            parts.drop_last(),
            now,
        );
        if failure is Some {
            (earlier, failure)
        } else {
            after_part(earlier, namespace, identifier, parts.last(), now)
        }
    }
}

/// Everything that an upload leaves behind.
pub ghost struct UploadOutcome {
    pub registry: RegistryState,
    pub schemas: Map<Seq<char>, SchemaSpec>,
    pub channel: Option<ChannelState>,
    pub result: Result<Seq<AssetRecord>, ApiFault>,
}

/// What an upload does.
///
/// Without a body it fails with `BadRequest`. Where the store cannot open a
/// transaction it fails with `Persistence`. Then the parts are taken in
/// order. Where one fails, the transaction is rolled back, so that the rows
/// are those from before the upload, and the upload fails as the part did;
/// schemas that earlier parts installed stay installed. Where none fails the
/// transaction commits. Then the upload fails with `Unavailable` where no
/// channel is attached and with `Undelivered` where the channel is full;
/// else it sends one `AssetReload` for the index and returns the new rows.
pub open spec fn upload_outcome(
    registry: RegistryState,
    schemas: Map<Seq<char>, SchemaSpec>,
    channel: Option<ChannelState>,
    namespace: Seq<char>,
    identifier: Seq<char>,
    body: Option<Seq<PartSpec>>,
    now: nat,
) -> UploadOutcome {
    match body {
        None => UploadOutcome { registry, schemas, channel, result: Err(ApiFault::BadRequest) },
        Some(parts) => if !registry.online || registry.saved is Some {
            UploadOutcome { registry, schemas, channel, result: Err(ApiFault::Persistence) }
        } else {
            let begun = UploadState {
                registry: RegistryState { saved: Some(registry.rows), ..registry },
                schemas,
                assets: Seq::empty(),
            };
            let (end, failure) = after_parts(begun, namespace, identifier, parts, now);
            match failure {
                Some(fault) => UploadOutcome {
                    registry: RegistryState { rows: registry.rows, saved: None, ..end.registry },
                    schemas: end.schemas,
                    channel,
                    result: Err(fault),
                },
                None => {
                    let committed = RegistryState { saved: None, ..end.registry };
                    match channel {
                        None => UploadOutcome {
                            registry: committed,
                            schemas: end.schemas,
                            channel,
                            result: Err(ApiFault::Unavailable),
                        },
                        Some(open) => if open.has_room() {
                            UploadOutcome {
                                registry: committed,
                                schemas: end.schemas,
                                channel: Some(
                                    open.with_notice(
                                        ServiceNotice::AssetReload { namespace, identifier },
                                    ),
                                ),
                                result: Ok(end.assets),
                            }
                        } else {
                            UploadOutcome {
                                registry: committed,
                                schemas: end.schemas,
                                channel,
                                result: Err(ApiFault::Undelivered),
                            }
                        },
                    }
                },
            }
        },
    }
}

/// Parts only add rows: as long as none has failed, the rows are those from
/// the start followed by the rows written, and nothing else of the store
/// changes but the number of the next row, which never falls.
pub proof fn lemma_parts_append(
    state: UploadState,
    namespace: Seq<char>,
    identifier: Seq<char>,
    parts: Seq<PartSpec>,
    now: nat,
)
    ensures
        ({
            let (end, failure) = after_parts(state, namespace, identifier, parts, now);
            &&& end.registry.saved == state.registry.saved
            &&& end.registry.online == state.registry.online
            &&& end.registry.capacity == state.registry.capacity
            &&& end.registry.next_id >= state.registry.next_id
            &&& failure is None ==> end.assets.len() == state.assets.len() + parts.len()
            &&& failure is None ==> exists|added: Seq<AssetRecord>|
                #![auto]
                added.len() == parts.len() && end.assets == state.assets + added
                    && end.registry.rows == state.registry.rows + added
        }),
    decreases parts.len(),
{
    if parts.len() == 0 {
        let added = Seq::<AssetRecord>::empty();
        assert(state.assets =~= state.assets + added);
        assert(state.registry.rows =~= state.registry.rows + added);
    } else {
        lemma_parts_append(state, namespace, identifier, parts.drop_last(), now);
        let (earlier, stopped) = after_parts(
            state,
            namespace,
            identifier,
            parts.drop_last(),
            now,
        );
        let (end, failure) = after_parts(state, namespace, identifier, parts, now);
        if stopped is None && failure is None {
            let before = choose|added: Seq<AssetRecord>|
                #![auto]
                added.len() == parts.len() - 1 && earlier.assets == state.assets + added
                    && earlier.registry.rows == state.registry.rows + added;
            let row = end.assets.last();
            let added = before.push(row);
            assert(end.assets =~= state.assets + added);
            assert(end.registry.rows =~= state.registry.rows + added);
        }
    }
}

/// Once a part has failed, the parts behind it change nothing.
pub proof fn lemma_failure_ends_upload(
    state: UploadState,
    namespace: Seq<char>,
    identifier: Seq<char>,
    parts: Seq<PartSpec>,
    upto: int,
    now: nat,
)
    requires
        0 <= upto <= parts.len(),
        after_parts(state, namespace, identifier, parts.take(upto), now).1 is Some,
    ensures
        after_parts(state, namespace, identifier, parts, now) == after_parts(
            state,
            namespace,
            identifier,
            parts.take(upto),
            now,
        ),
    decreases parts.len() - upto,
{
    if upto == parts.len() {
        assert(parts.take(upto) =~= parts);
    } else {
        assert(parts.take(upto + 1).drop_last() =~= parts.take(upto));
        lemma_failure_ends_upload(state, namespace, identifier, parts, upto + 1, now);
    }
}

/// An upload that fails before its transaction commits leaves the rows of the
/// registry as they were; one that returns rows, or fails only in telling the
/// execution pool, has added exactly the rows of its parts to them.
pub proof fn lemma_upload_is_atomic(
    registry: RegistryState,
    schemas: Map<Seq<char>, SchemaSpec>,
    channel: Option<ChannelState>,
    namespace: Seq<char>,
    identifier: Seq<char>,
    body: Option<Seq<PartSpec>>,
    now: nat,
)
    ensures
        ({
            let outcome = upload_outcome(
                registry,
                schemas,
                channel,
                namespace,
                identifier,
                body,
                now,
            );
            match outcome.result {
                Ok(assets) => body is Some && assets.len() == body->0.len() && outcome.registry.rows
                    == registry.rows + assets,
                Err(ApiFault::Unavailable) | Err(ApiFault::Undelivered) => exists|
                    assets: Seq<AssetRecord>,
                |
                    #![auto]
                    body is Some && assets.len() == body->0.len() && outcome.registry.rows
                        == registry.rows + assets,
                Err(_) => outcome.registry.rows == registry.rows,
            }
        }),
{
    if let Some(parts) = body {
        if registry.online && registry.saved is None {
            let begun = UploadState {
                registry: RegistryState { saved: Some(registry.rows), ..registry },
                schemas,
                assets: Seq::empty(),
            };
            lemma_parts_append(begun, namespace, identifier, parts, now);
            let (end, failure) = after_parts(begun, namespace, identifier, parts, now);
            if failure is None {
                let added = choose|added: Seq<AssetRecord>|
                    #![auto]
                    added.len() == parts.len() && end.assets == begun.assets + added
                        && end.registry.rows == begun.registry.rows + added;
                assert(begun.assets + added =~= added);
            } else {
                lemma_no_late_failure(begun, namespace, identifier, parts, now);
            }
        }
    }
}

/// No part fails for want of a channel: that is found out after the commit.
pub proof fn lemma_no_late_failure(
    state: UploadState,
    namespace: Seq<char>,
    identifier: Seq<char>,
    parts: Seq<PartSpec>,
    now: nat,
)
    ensures
        ({
            let failure = after_parts(state, namespace, identifier, parts, now).1;
            failure != Some(ApiFault::Unavailable) && failure != Some(ApiFault::Undelivered)
        }),
    decreases parts.len(),
{
    if parts.len() > 0 {
        lemma_no_late_failure(state, namespace, identifier, parts.drop_last(), now);
    }
}

/// An upload sends one `AssetReload` for its index if it succeeds, behind
/// the messages that wait already, and sends nothing if it fails.
pub proof fn lemma_upload_notifies_once(
    registry: RegistryState,
    schemas: Map<Seq<char>, SchemaSpec>,
    channel: Option<ChannelState>,
    namespace: Seq<char>,
    identifier: Seq<char>,
    body: Option<Seq<PartSpec>>,
    now: nat,
)
    ensures
        ({
            let outcome = upload_outcome(
                registry,
                schemas,
                channel,
                namespace,
                identifier,
                body,
                now,
            );
            if outcome.result is Ok {
                channel matches Some(open) && outcome.channel == Some(
                    ChannelState {
                        pending: open.pending.push(
                            ServiceNotice::AssetReload { namespace, identifier },
                        ),
                        capacity: open.capacity,
                    },
                )
            } else {
                outcome.channel == channel
            }
        }),
{
}

/// Registers the parts of one upload as assets of the index
/// `(namespace, identifier)`, all of them or none, and tells the execution
/// pool to load them. `now` is the time that the new rows are stamped with.
pub fn register_index_assets(
    registry: &mut AssetRegistry,
    manager: &mut SchemaManager,
    channel: &mut Option<ControlChannel>,
    namespace: &str,
    identifier: &str,
    parts: Option<Vec<UploadPart>>,
    now: u64,
) -> (done: Result<Vec<IndexAsset>, ApiError>)
    requires
        old(registry)@.wf(),
        old(manager).wf(),
        *old(channel) matches Some(open) ==> open@.wf(),
    ensures
        final(registry)@.wf(),
        final(manager).wf(),
        *final(channel) matches Some(open) ==> open@.wf(),
        ({
            let outcome = upload_outcome(
                old(registry)@,
                old(manager)@,
                channel_state(*old(channel)),
                namespace@,
                identifier@,
                body_spec(parts),
                now as nat,
            );
            &&& final(registry)@ =~= outcome.registry
            &&& final(manager)@ == outcome.schemas
            &&& channel_state(*final(channel)) == outcome.channel
            &&& upload_result(done) == outcome.result
        }),
        done matches Err(e) && e@ != ApiFault::Unavailable && e@ != ApiFault::Undelivered
            ==> final(registry)@.rows == old(registry)@.rows,
        done matches Ok(assets) ==> final(registry)@.rows == old(registry)@.rows + records(
            assets@,
        ),
        old(registry)@.saved is None ==> final(registry)@.saved is None,
{
    proof {
        lemma_upload_is_atomic(
            old(registry)@,
            old(manager)@,
            channel_state(*old(channel)),
            namespace@,
            identifier@,
            body_spec(parts),
            now as nat,
        );
    }
    let list = match parts {
        Some(list) => list,
        None => {
            return Err(ApiError::BadRequest);
        },
    };
    match registry.start_transaction() {
        Ok(()) => {},
        Err(e) => {
            return Err(e);
        },
    }
    let ghost all = part_specs(list@);
    let ghost begun = UploadState {
        registry: registry@,
        schemas: manager@,
        assets: Seq::empty(),
    };
    let mut assets: Vec<IndexAsset> = Vec::new();
    let mut i: usize = 0;
    assert(records(assets@) =~= Seq::empty());
    assert(all.take(0) =~= Seq::empty());
    while i < list.len()
        invariant
            i <= list.len(),
            all == part_specs(list@),
            body_spec(parts) == Some(all),
            old(registry)@.online,
            old(registry)@.saved is None,
            begun.registry == (RegistryState {
                saved: Some(old(registry)@.rows),
                ..old(registry)@
            }),
            begun.schemas == old(manager)@,
            begun.assets == Seq::<AssetRecord>::empty(),
            *channel == *old(channel),
            *channel matches Some(open) ==> open@.wf(),
            registry@.wf(),
            manager.wf(),
            registry@.saved == begun.registry.saved,
            after_parts(begun, namespace@, identifier@, all.take(i as int), now as nat) == (
                UploadState { registry: registry@, schemas: manager@, assets: records(assets@) },
                None::<ApiFault>,
            ),
        decreases list.len() - i,
    {
        let part = &list[i];
        let ghost state = UploadState {
            registry: registry@,
            schemas: manager@,
            assets: records(assets@),
        };
        proof {
            assert(all.take(i + 1).drop_last() =~= all.take(i as int));
            assert(all.take(i + 1).last() == part@);
            assert(after_parts(begun, namespace@, identifier@, all.take(i + 1), now as nat)
                == after_part(state, namespace@, identifier@, part@, now as nat));
        }
        let asset_type = match IndexAssetType::from_name(part.name.as_str()) {
            Some(asset_type) => asset_type,
            None => {
                proof {
                    lemma_failure_ends_upload(
                        begun,
                        namespace@,
                        identifier@,
                        all,
                        i + 1,
                        now as nat,
                    );
                }
                let _ = registry.revert_transaction();
                return Err(ApiError::InvalidAssetType(copy_text(&part.name)));
            },
        };
        let asset = match registry.register(
            namespace,
            identifier,
            asset_type,
            copy_bytes(&part.data),
            now,
        ) {
            Ok(asset) => asset,
            Err(e) => {
                proof {
                    lemma_failure_ends_upload(
                        begun,
                        namespace@,
                        identifier@,
                        all,
                        i + 1,
                        now as nat,
                    );
                }
                let _ = registry.revert_transaction();
                return Err(e);
            },
        };
        if asset_type == IndexAssetType::Schema {
            let text = decode_lossy(part.data.as_slice());
            match manager.new_schema(namespace, text.as_str()) {
                Ok(()) => {},
                Err(e) => {
                    proof {
                        lemma_failure_ends_upload(
                            begun,
                            namespace@,
                            identifier@,
                            all,
                            i + 1,
                            now as nat,
                        );
                    }
                    let _ = registry.revert_transaction();
                    return Err(e);
                },
            }
        }
        assert(records(assets@.push(asset)) =~= records(assets@).push(asset@));
        assets.push(asset);
        i += 1;
    }
    assert(all.take(i as int) =~= all);
    match registry.commit_transaction() {
        Ok(()) => {},
        Err(e) => {
            return Err(e);
        },
    }
    match channel {
        Some(open) => match open.try_send(ServiceRequest::asset_reload(namespace, identifier)) {
            Ok(()) => Ok(assets),
            Err(e) => Err(e),
        },
        None => Err(ApiError::Unavailable),
    }
}

} // verus!
