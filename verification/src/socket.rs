//! Where the daemon listens, and whether it may.
use vstd::prelude::*;

verus! {

/// What to do about the path of the socket.
#[derive(Clone, Copy, Debug, PartialEq, Eq, Structural)]
pub enum BindDecision {
    /// Another daemon is listening there.
    InUse,
    /// Remove the socket that a daemon left behind, then bind.
    RemoveStale,
    Bind,
}

/// The directory of the socket under the user's runtime directory.
pub const XDG_PREFIX: &'static str = "com.brongan.age-plugin-yubikey-agent";

/// The name of the socket.
pub const FILENAME: &'static str = "daemon.sock";

/// What is said of a socket in use.
pub const IN_USE: &'static str = "another daemon is already listening on this socket";

/// How to bind a new listener: a socket in use is left alone, a stale one is removed.
pub open spec fn bind_decision(exists: bool, listening: bool) -> BindDecision {
    if !exists {
        BindDecision::Bind
    } else if listening {
        BindDecision::InUse
    } else {
        BindDecision::RemoveStale
    }
}

/// Decides how to bind a new listener, given whether the socket path exists and whether a
/// process accepts connections on it.
pub fn bind(exists: bool, listening: bool) -> (r: BindDecision)
    ensures
        r == bind_decision(exists, listening),
{
    if !exists {
        return BindDecision::Bind;
    }
    if listening {
        return BindDecision::InUse;
    }
    BindDecision::RemoveStale
}

/// A socket is removed only if it is there and nobody listens on it, and bound unless somebody
/// does.
pub proof fn law_only_a_stale_socket_is_removed(exists: bool, listening: bool)
    ensures
        bind_decision(exists, listening) == BindDecision::RemoveStale <==> exists && !listening,
        bind_decision(exists, listening) == BindDecision::InUse <==> exists && listening,
        bind_decision(exists, listening) == BindDecision::Bind <==> !exists,
{
}

} // verus!
