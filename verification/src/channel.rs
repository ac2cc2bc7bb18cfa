//! The channels of a matcher: the bounded inbox of commands, the broadcast of
//! row deltas, and the cancellation handle. They are tokio's; Verus knows
//! nothing of what they hold, and the functions below promise nothing that
//! depends on it.

use tokio::sync::{broadcast, mpsc};
use tokio_util::sync::CancellationToken;
use vstd::prelude::*;
use crate::matcher::MatcherCmd;
use crate::values::RowResult;

verus! {

/// `tokio::sync::mpsc::Sender`, carried as it is.
#[verifier::external_type_specification]
#[verifier::external_body]
#[verifier::reject_recursive_types(T)]
pub struct ExMpscSender<T>(mpsc::Sender<T>);

/// `tokio::sync::mpsc::Receiver`, carried as it is.
#[verifier::external_type_specification]
#[verifier::external_body]
#[verifier::reject_recursive_types(T)]
pub struct ExMpscReceiver<T>(mpsc::Receiver<T>);

/// `tokio::sync::broadcast::Sender`, carried as it is.
#[verifier::external_type_specification]
#[verifier::external_body]
#[verifier::reject_recursive_types(T)]
pub struct ExBroadcastSender<T>(broadcast::Sender<T>);

/// `tokio::sync::broadcast::Receiver`, carried as it is.
#[verifier::external_type_specification]
#[verifier::external_body]
#[verifier::reject_recursive_types(T)]
pub struct ExBroadcastReceiver<T>(broadcast::Receiver<T>);

/// `tokio_util::sync::CancellationToken`, carried as it is.
#[verifier::external_type_specification]
#[verifier::external_body]
pub struct ExCancellationToken(CancellationToken);

/// The largest capacity that a bounded channel takes: an eighth of the
/// largest `usize`, rounded down.
pub open spec fn max_capacity() -> int {
    usize::MAX as int / 8
}

/// `tokio::sync::mpsc::channel`: a bounded channel of commands. The call
/// panics on a capacity of zero or above the semaphore's limit, so both are
/// left out.
#[verifier::external_body]
pub(crate) fn command_channel(capacity: usize) -> (r: (mpsc::Sender<MatcherCmd>, mpsc::Receiver<MatcherCmd>))
    requires
        0 < capacity <= max_capacity(),
{
    mpsc::channel(capacity)
}

/// `tokio::sync::mpsc::Sender::try_send`: whether the command was taken.
/// It is not taken where the channel is closed or full.
#[verifier::external_body]
pub(crate) fn try_enqueue(tx: &mpsc::Sender<MatcherCmd>, cmd: MatcherCmd) -> (sent: bool) {
    tx.try_send(cmd).is_ok()
}

/// `tokio::sync::broadcast::Sender::send`: whether the message reached the
/// channel. It does not where no receiver is left.
#[verifier::external_body]
pub(crate) fn broadcast_send(tx: &broadcast::Sender<RowResult>, message: RowResult) -> (sent: bool) {
    tx.send(message).is_ok()
}

/// `tokio::sync::broadcast::Sender::receiver_count`: the number of receivers
/// at the moment of the call.
#[verifier::external_body]
pub(crate) fn broadcast_receivers(tx: &broadcast::Sender<RowResult>) -> (n: usize) {
    tx.receiver_count()
}

/// `tokio::sync::broadcast::Sender::subscribe`: a new receiver, which sees
/// what is sent from now on.
#[verifier::external_body]
pub(crate) fn broadcast_subscribe(tx: &broadcast::Sender<RowResult>) -> (rx: broadcast::Receiver<RowResult>) {
    tx.subscribe()
}

/// `CancellationToken::clone`: another handle on the same cancellation. The
/// clone holds the same node as the token, and tokio-util's own `==` calls
/// the two equal: cancelling one cancels the other, and the other way round.
#[verifier::external_body]
pub(crate) fn clone_token(token: &CancellationToken) -> (r: CancellationToken)
    ensures
        r == *token,
{
    token.clone()
}

} // verus!
