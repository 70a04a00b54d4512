//! The control channel: the messages that tell the execution pool of a
//! stopped index or of new assets, and the bounded queue that carries them.

use vstd::prelude::*;
use vstd::string::*;
use crate::error::{ApiError, ApiFault};

verus! {

/// Asks the execution pool to stop running an index.
#[derive(Clone, Debug, PartialEq, Eq)]
pub struct IndexStopRequest {
    pub namespace: String,
    pub identifier: String,
}

/// Tells the execution pool that an index has new assets to load.
#[derive(Clone, Debug, PartialEq, Eq)]
pub struct AssetReloadRequest {
    pub namespace: String,
    pub identifier: String,
}

/// One message to the execution pool.
#[derive(Clone, Debug, PartialEq, Eq)]
pub enum ServiceRequest {
    IndexStop(IndexStopRequest),
    AssetReload(AssetReloadRequest),
}

/// The mathematical value of a [`ServiceRequest`].
pub ghost enum ServiceNotice {
    IndexStop { namespace: Seq<char>, identifier: Seq<char> },
    AssetReload { namespace: Seq<char>, identifier: Seq<char> },
}

impl View for ServiceRequest {
    type V = ServiceNotice;

    open spec fn view(&self) -> ServiceNotice {
        match *self {
            ServiceRequest::IndexStop(request) => ServiceNotice::IndexStop {
                namespace: request.namespace@,
                identifier: request.identifier@,
            },
            ServiceRequest::AssetReload(request) => ServiceNotice::AssetReload {
                namespace: request.namespace@,
                identifier: request.identifier@,
            },
        }
    }
}

impl ServiceRequest {
    /// The message that stops the index.
    pub fn index_stop(namespace: &str, identifier: &str) -> (request: ServiceRequest)
        ensures
            request@ == (ServiceNotice::IndexStop {
                namespace: namespace@,
                identifier: identifier@,
            }),
    {
        ServiceRequest::IndexStop(
            IndexStopRequest {
                namespace: String::from_str(namespace),
                identifier: String::from_str(identifier),
            },
        )
    }

    /// The message that makes the index load its assets again.
    pub fn asset_reload(namespace: &str, identifier: &str) -> (request: ServiceRequest)
        ensures
            request@ == (ServiceNotice::AssetReload {
                namespace: namespace@,
                identifier: identifier@,
            }),
    {
        ServiceRequest::AssetReload(
            AssetReloadRequest {
                namespace: String::from_str(namespace),
                identifier: String::from_str(identifier),
            },
        )
    }
}

/// The mathematical values of a list of messages, in order.
pub open spec fn notices(requests: Seq<ServiceRequest>) -> Seq<ServiceNotice> {
    requests.map_values(|request: ServiceRequest| request@)
}

/// The mathematical value of a [`ControlChannel`].
pub ghost struct ChannelState {
    /// The messages that wait for the execution pool, oldest first.
    pub pending: Seq<ServiceNotice>,
    /// The number of messages that may wait at one time.
    pub capacity: nat,
}

impl ChannelState {
    /// The invariant of a channel.
    pub open spec fn wf(self) -> bool {
        self.pending.len() <= self.capacity
    }

    /// Whether one more message can wait.
    pub open spec fn has_room(self) -> bool {
        self.pending.len() < self.capacity
    }

    /// The state after `notice` joined the queue.
    pub open spec fn with_notice(self, notice: ServiceNotice) -> ChannelState {
        ChannelState { pending: self.pending.push(notice), ..self }
    }
}

/// The sending side of the bounded channel to the execution pool. A message
/// that finds the channel full is refused; nothing ever waits to send.
pub struct ControlChannel {
    pending: Vec<ServiceRequest>,
    capacity: usize,
}

impl View for ControlChannel {
    type V = ChannelState;

    closed spec fn view(&self) -> ChannelState {
        ChannelState { pending: notices(self.pending@), capacity: self.capacity as nat }
    }
}

/// The state of a channel that may not be attached.
pub open spec fn channel_state(channel: Option<ControlChannel>) -> Option<ChannelState> {
    match channel {
        Some(channel) => Some(channel@),
        None => None,
    }
}

impl ControlChannel {
    /// An empty channel in which `capacity` messages may wait.
    pub fn new(capacity: usize) -> (channel: ControlChannel)
        ensures
            channel@.wf(),
            channel@ == (ChannelState { pending: Seq::empty(), capacity: capacity as nat }),
    {
        let channel = ControlChannel { pending: Vec::new(), capacity };
        assert(notices(channel.pending@) =~= Seq::empty());
        channel
    }

    /// The number of messages that wait.
    pub fn len(&self) -> (n: usize)
        ensures
            n == self@.pending.len(),
    {
        self.pending.len()
    }

    /// The number of messages that may wait at one time.
    pub fn capacity(&self) -> (n: usize)
        ensures
            n == self@.capacity,
    {
        self.capacity
    }

    /// Puts a message at the end of the queue. Fails with `Undelivered`
    /// where the channel is full, and the queue stays as it was.
    pub fn try_send(&mut self, request: ServiceRequest) -> (sent: Result<(), ApiError>)
        requires
            old(self)@.wf(),
        ensures
            final(self)@.wf(),
            sent is Ok <==> old(self)@.has_room(),
            sent is Ok ==> final(self)@ == old(self)@.with_notice(request@),
            sent matches Err(e) ==> e@ == ApiFault::Undelivered && final(self)@ == old(self)@,
    {
        if self.pending.len() >= self.capacity {
            return Err(ApiError::Undelivered);
        }
        assert(notices(self.pending@.push(request)) =~= notices(self.pending@).push(request@));
        self.pending.push(request);
        Ok(())
    }

    /// Takes the oldest message off the queue, if one waits.
    pub fn recv(&mut self) -> (received: Option<ServiceRequest>)
        requires
            old(self)@.wf(),
        ensures
            final(self)@.wf(),
            received is Some <==> old(self)@.pending.len() > 0,
            received matches Some(request) ==> request@ == old(self)@.pending[0]
                && final(self)@ == (ChannelState {
                pending: old(self)@.pending.drop_first(),
                ..old(self)@
            }),
            received is None ==> final(self)@ == old(self)@,
    {
        if self.pending.len() == 0 {
            return None;
        }
        let request = self.pending.remove(0);
        assert(notices(self.pending@) =~= notices(old(self).pending@).drop_first());
        Some(request)
    }
}

} // verus!
