use vstd::prelude::*;

use crate::registry::{find_pid, has_pid, put};
use crate::state::HyprvisorState;
use crate::topic::{topic_named, SubscriptionID, SubscriptionInfo};

verus! {

/// Size of the buffer that the one read of a handshake fills.
pub const HANDSHAKE_BUFFER: usize = 1024;

/// Fewest bytes a handshake can have.
pub const MIN_HANDSHAKE_LEN: usize = 2;

/// Why a handshake was refused. Each ends the connection; none is retried.
#[derive(Debug, Clone, Copy, PartialEq, Eq, Structural)]
pub enum HandshakeError {
    /// Fewer than two bytes arrived.
    ShortRead,
    /// The bytes are not a handshake record.
    Malformed,
    /// The record names no known topic.
    UnknownTopic,
    /// The acknowledgement could not be written back.
    AckFailed,
}

/// Checks the size of what the handshake read returned, before any decoding.
pub fn check_frame(received: usize) -> (r: Result<(), HandshakeError>)
    ensures
        received < MIN_HANDSHAKE_LEN <==> r == Err::<(), HandshakeError>(HandshakeError::ShortRead),
        received >= MIN_HANDSHAKE_LEN <==> r is Ok,
{
    if received < MIN_HANDSHAKE_LEN {
        Err(HandshakeError::ShortRead)
    } else {
        Ok(())
    }
}

/// The topic a decoded handshake asks for.
pub fn requested_topic(info: &SubscriptionInfo) -> (r: Result<SubscriptionID, HandshakeError>)
    ensures
        topic_named(info.name@) matches Some(t) ==> r == Ok::<SubscriptionID, HandshakeError>(t),
        topic_named(info.name@) is None ==> r == Err::<SubscriptionID, HandshakeError>(
            HandshakeError::UnknownTopic,
        ),
{
    match SubscriptionID::from_name(info.name.as_str()) {
        Some(t) => Ok(t),
        None => Err(HandshakeError::UnknownTopic),
    }
}

/// Decides on a handshake from what was read: `received` bytes, and `decoded`,
/// the record decoded from them (`None` when they did not decode). On success
/// returns the pid and the topic to register.
pub fn decide_handshake(received: usize, decoded: Option<SubscriptionInfo>) -> (r: Result<
    (u32, SubscriptionID),
    HandshakeError,
>)
    ensures
        received < MIN_HANDSHAKE_LEN ==> r == Err::<(u32, SubscriptionID), HandshakeError>(
            HandshakeError::ShortRead,
        ),
        received >= MIN_HANDSHAKE_LEN && decoded is None ==> r == Err::<
            (u32, SubscriptionID),
            HandshakeError,
        >(HandshakeError::Malformed),
        received >= MIN_HANDSHAKE_LEN && decoded is Some ==> match topic_named(
            decoded->0.name@,
        ) {
            Some(t) => r == Ok::<(u32, SubscriptionID), HandshakeError>((decoded->0.pid, t)),
            None => r == Err::<(u32, SubscriptionID), HandshakeError>(
                HandshakeError::UnknownTopic,
            ),
        },
{
    match check_frame(received) {
        Err(e) => Err(e),
        Ok(()) => match decoded {
            None => Err(HandshakeError::Malformed),
            Some(info) => match requested_topic(&info) {
                Ok(t) => Ok((info.pid, t)),
                Err(e) => Err(e),
            },
        },
    }
}

/// The acknowledgement written back to a client whose handshake is accepted.
pub fn ack_message() -> (r: &'static str)
    ensures
        r@ == "From server with love"@,
        r@.len() > 0,
{
    proof {
        reveal_strlit("From server with love");
    }
    "From server with love"
}

impl<C> HyprvisorState<C> {
    /// Ends an accepted handshake once the acknowledgement write has been tried.
    /// When it went through (`acknowledged`), registers `connection` for `pid` on
    /// `t` and returns the connection it replaces; otherwise registers nothing.
    pub fn complete_handshake(
        &mut self,
        t: SubscriptionID,
        pid: u32,
        connection: C,
        acknowledged: bool,
    ) -> (r: Result<Option<C>, HandshakeError>)
        requires
            old(self).subscribers.wf(),
        ensures
            final(self).subscribers.wf(),
            final(self).data == old(self).data,
            forall|u: SubscriptionID|
                u != t ==> #[trigger] final(self).subscribers.list(u) == old(self).subscribers.list(
                    u,
                ),
            acknowledged ==> final(self).subscribers.list(t) == put(
                old(self).subscribers.list(t),
                pid,
                connection,
            ),
            acknowledged && has_pid(old(self).subscribers.list(t), pid) ==> r == Ok::<
                Option<C>,
                HandshakeError,
            >(
                Some(
                    old(self).subscribers.list(t)[find_pid(
                        old(self).subscribers.list(t),
                        pid,
                    )].connection,
                ),
            ),
            acknowledged && !has_pid(old(self).subscribers.list(t), pid) ==> r == Ok::<
                Option<C>,
                HandshakeError,
            >(None),
            !acknowledged ==> final(self).subscribers.list(t) == old(self).subscribers.list(t),
            !acknowledged ==> r == Err::<Option<C>, HandshakeError>(HandshakeError::AckFailed),
    {
        if acknowledged {
            Ok(self.subscribers.register(t, pid, connection))
        } else {
            Err(HandshakeError::AckFailed)
        }
    }
}

} // verus!
