//! Stopping an index: its asset history is deleted and the execution pool is
//! told to stop running it.

use vstd::prelude::*;
use crate::asset::AssetRecord;
use crate::control::{channel_state, ChannelState, ControlChannel, ServiceNotice, ServiceRequest};
use crate::error::{ApiError, ApiFault};
use crate::registry::{has_index, without_index, AssetRegistry, RegistryState};

verus! {

/// Everything that stopping an index leaves behind.
pub ghost struct StopOutcome {
    pub registry: RegistryState,
    pub channel: Option<ChannelState>,
    pub result: Result<(), ApiFault>,
}

/// What stopping an index does.
///
/// Where the store cannot open a transaction the call fails with
/// `Persistence` and changes nothing. Else the rows of the index are deleted;
/// an index without rows is no obstacle. Then the call fails with
/// `Unavailable` where no channel is attached and with `Undelivered` where
/// the channel is full; else it sends one `IndexStop` for the index. The
/// rows are deleted whether or not the message could be sent.
pub open spec fn stop_outcome(
    registry: RegistryState,
    channel: Option<ChannelState>,
    namespace: Seq<char>,
    identifier: Seq<char>,
) -> StopOutcome {
    if !registry.online || registry.saved is Some {
        StopOutcome { registry, channel, result: Err(ApiFault::Persistence) }
    } else {
        let stopped = RegistryState {
            rows: if has_index(registry.rows, namespace, identifier) {
                without_index(registry.rows, namespace, identifier)
            } else {
                registry.rows
            },
            ..registry
        };
        match channel {
            None => StopOutcome { registry: stopped, channel, result: Err(ApiFault::Unavailable) },
            Some(open) => if open.has_room() {
                StopOutcome {
                    registry: stopped,
                    channel: Some(
                        open.with_notice(ServiceNotice::IndexStop { namespace, identifier }),
                    ),
                    result: Ok(()),
                }
            } else {
                StopOutcome { registry: stopped, channel, result: Err(ApiFault::Undelivered) }
            },
        }
    }
}

/// Once the store has taken the request, no row of the index is left,
/// whatever became of the message to the execution pool; the rows of every
/// other index stay, in their order.
pub proof fn lemma_stop_deletes_history(
    registry: RegistryState,
    channel: Option<ChannelState>,
    namespace: Seq<char>,
    identifier: Seq<char>,
)
    requires
        registry.online,
        registry.saved is None,
    ensures
        ({
            let outcome = stop_outcome(registry, channel, namespace, identifier);
            &&& !has_index(outcome.registry.rows, namespace, identifier)
            &&& outcome.registry.rows == without_index(registry.rows, namespace, identifier)
        }),
{
    let outcome = stop_outcome(registry, channel, namespace, identifier);
    let keep = |row: AssetRecord| !row.of_index(namespace, identifier);
    let left = registry.rows.filter(keep);
    assert forall|i: int| 0 <= i < left.len() implies !(#[trigger] left[i]).of_index(
        namespace,
        identifier,
    ) by {
        registry.rows.lemma_filter_pred(keep, i);
    }
    if !has_index(registry.rows, namespace, identifier) {
        lemma_keep_all(registry.rows, namespace, identifier);
    }
}

/// Deleting an index that has no row changes nothing.
pub proof fn lemma_keep_all(rows: Seq<AssetRecord>, namespace: Seq<char>, identifier: Seq<char>)
    requires
        !has_index(rows, namespace, identifier),
    ensures
        without_index(rows, namespace, identifier) == rows,
    decreases rows.len(),
{
    reveal(Seq::filter);
    let keep = |row: AssetRecord| !row.of_index(namespace, identifier);
    if rows.len() > 0 {
        let before = rows.drop_last();
        assert forall|i: int| 0 <= i < before.len() implies !(#[trigger] before[i]).of_index(
            namespace,
            identifier,
        ) by {
            assert(before[i] == rows[i]);
        }
        lemma_keep_all(before, namespace, identifier);
        assert(!rows[rows.len() - 1].of_index(namespace, identifier));
        assert(keep(rows.last()));
        assert(before.push(rows.last()) =~= rows);
    } else {
        assert(rows.filter(keep) =~= rows);
    }
}

/// Deletes the asset history of the index `(namespace, identifier)` in one
/// transaction and tells the execution pool to stop the index.
pub fn stop_index(
    registry: &mut AssetRegistry,
    channel: &mut Option<ControlChannel>,
    namespace: &str,
    identifier: &str,
) -> (done: Result<(), ApiError>)
    requires
        old(registry)@.wf(),
        *old(channel) matches Some(open) ==> open@.wf(),
    ensures
        final(registry)@.wf(),
        *final(channel) matches Some(open) ==> open@.wf(),
        ({
            let outcome = stop_outcome(
                old(registry)@,
                channel_state(*old(channel)),
                namespace@,
                identifier@,
            );
            &&& final(registry)@ == outcome.registry
            &&& channel_state(*final(channel)) == outcome.channel
            &&& match done {
                Ok(()) => outcome.result is Ok,
                Err(e) => outcome.result == Err::<(), ApiFault>(e@),
            }
        }),
        old(registry)@.saved is None ==> final(registry)@.saved is None,
{
    match registry.start_transaction() {
        Ok(()) => {},
        Err(e) => {
            return Err(e);
        },
    }
    match registry.remove(namespace, identifier) {
        Ok(()) => {
            let _ = registry.commit_transaction();
        },
        Err(_) => {
            let _ = registry.revert_transaction();
        },
    }
    match channel {
        Some(open) => open.try_send(ServiceRequest::index_stop(namespace, identifier)),
        None => Err(ApiError::Unavailable),
    }
}

} // verus!
