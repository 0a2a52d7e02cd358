use vstd::prelude::*;
use crate::listen_addr::{NetAddr, SocketListenAddr};
use crate::shutdown::ShutdownSignal;

verus! {

/// What the accept loop does with one item of the listener's sequence.
#[derive(Clone, Copy, Debug, PartialEq, Eq, Structural)]
pub enum AcceptAction {
    /// Start an independent worker for the new connection.
    Spawn,
    /// Log the failed accept and go on pulling.
    LogAndContinue,
    /// Stop pulling: shutdown has fired.
    Stop,
}

/// The accept loop's decision for one item: it stops as soon as shutdown
/// has fired; before that, a connection gets a worker and a failed accept
/// is logged and skipped.
pub fn on_accept(shutdown: &ShutdownSignal, accepted: bool) -> (r: AcceptAction)
    ensures
        shutdown@ is Some ==> r == AcceptAction::Stop,
        shutdown@ is None && accepted ==> r == AcceptAction::Spawn,
        shutdown@ is None && !accepted ==> r == AcceptAction::LogAndContinue,
{
    if shutdown.is_fired() {
        AcceptAction::Stop
    } else if accepted {
        AcceptAction::Spawn
    } else {
        AcceptAction::LogAndContinue
    }
}

/// How a listener is obtained for a listen address.
#[derive(Clone, Copy, Debug, PartialEq, Eq, Structural)]
pub enum ListenerPlan {
    /// Bind a new socket to the address.
    Bind(NetAddr),
    /// Adopt the inherited descriptor of this slot.
    Inherit(usize),
}

/// Why no listener could be had; each stops the source at startup.
#[derive(Clone, Copy, Debug, PartialEq, Eq, Structural)]
pub enum ListenError {
    /// Binding failed (address in use, no permission).
    Bind,
    /// The descriptor slot is not open or was already taken.
    DescriptorAbsent,
    /// Taking or adopting the inherited descriptor failed.
    Descriptor,
}

pub fn listener_plan(addr: SocketListenAddr) -> (r: ListenerPlan)
    ensures
        addr matches SocketListenAddr::SocketAddr(a) ==> r == ListenerPlan::Bind(a),
        addr matches SocketListenAddr::SystemdFd(slot) ==> r == ListenerPlan::Inherit(slot),
{
    match addr {
        SocketListenAddr::SocketAddr(a) => ListenerPlan::Bind(a),
        SocketListenAddr::SystemdFd(slot) => ListenerPlan::Inherit(slot),
    }
}

/// The outcome of taking an inherited descriptor: `Ok(true)` when the slot
/// held a listener, `Ok(false)` when it was absent or already claimed, `Err`
/// when taking it failed; `adopted` says whether adopting it then worked.
pub fn inherited_outcome(taken: Result<bool, ()>, adopted: bool) -> (r: Result<(), ListenError>)
    ensures
        taken == Ok::<bool, ()>(true) && adopted ==> r is Ok,
        taken == Ok::<bool, ()>(true) && !adopted ==> r == Err::<(), ListenError>(
            ListenError::Descriptor,
        ),
        taken == Ok::<bool, ()>(false) ==> r == Err::<(), ListenError>(
            ListenError::DescriptorAbsent,
        ),
        taken is Err ==> r == Err::<(), ListenError>(ListenError::Descriptor),
{
    match taken {
        Ok(true) => if adopted {
            Ok(())
        } else {
            Err(ListenError::Descriptor)
        },
        Ok(false) => Err(ListenError::DescriptorAbsent),
        Err(()) => Err(ListenError::Descriptor),
    }
}

/// The address to report once listening: the listener's own local address
/// where it has one, else the configured one.
pub fn reported_addr(addr: SocketListenAddr, local: Option<NetAddr>) -> (r: SocketListenAddr)
    ensures
        local matches Some(a) ==> r == SocketListenAddr::SocketAddr(a),
        local is None ==> r == addr,
{
    match local {
        Some(a) => SocketListenAddr::SocketAddr(a),
        None => addr,
    }
}

} // verus!
