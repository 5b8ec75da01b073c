//! Decisions around the daemon's socket: where it lives, whether a socket
//! path left behind may be cleared, and whether the daemon still owns the
//! socket it bound.
use vstd::prelude::*;

verus! {

/// What connecting to the socket path found.
#[derive(Clone, Copy, Debug, PartialEq, Eq, Structural)]
pub enum Connect {
    /// A daemon answered.
    Accepted,
    /// Nothing listens on the path.
    Refused,
    /// Connecting failed otherwise.
    Failed,
}

/// What the socket path is on disk.
#[derive(Clone, Copy, Debug, PartialEq, Eq, Structural)]
pub enum PathKind {
    Missing,
    Socket,
    /// A file that is not a socket.
    Other,
    /// The path could not be inspected.
    Unreadable,
}

/// What to do about the socket path before binding.
#[derive(Clone, Copy, Debug, PartialEq, Eq, Structural)]
pub enum StaleSocket {
    /// Nothing is there.
    Absent,
    /// A socket nobody listens on: remove it.
    Remove,
}

/// Why the daemon may not take the socket path.
#[derive(Clone, Copy, Debug, PartialEq, Eq, Structural)]
pub enum SocketError {
    AlreadyRunning,
    Inspect,
    NotSocket,
    Connect,
}

/// Only a socket that refuses connections is cleared; a path that is
/// missing is fine; anything else stops the daemon.
pub open spec fn spec_stale_socket(connect: Connect, path: PathKind) -> Result<
    StaleSocket,
    SocketError,
> {
    if connect == Connect::Accepted {
        Err(SocketError::AlreadyRunning)
    } else {
        match path {
            PathKind::Missing => Ok(StaleSocket::Absent),
            PathKind::Unreadable => Err(SocketError::Inspect),
            PathKind::Other => Err(SocketError::NotSocket),
            PathKind::Socket => if connect == Connect::Refused {
                Ok(StaleSocket::Remove)
            } else {
                Err(SocketError::Connect)
            },
        }
    }
}

/// Decides about a socket path left behind (see [`spec_stale_socket`]).
pub fn stale_socket(connect: Connect, path: PathKind) -> (r: Result<StaleSocket, SocketError>)
    ensures
        r == spec_stale_socket(connect, path),
{
    if let Connect::Accepted = connect {
        return Err(SocketError::AlreadyRunning);
    }
    match path {
        PathKind::Missing => Ok(StaleSocket::Absent),
        PathKind::Unreadable => Err(SocketError::Inspect),
        PathKind::Other => Err(SocketError::NotSocket),
        PathKind::Socket => match connect {
            Connect::Refused => Ok(StaleSocket::Remove),
            _ => Err(SocketError::Connect),
        },
    }
}

/// A file that is not a socket is never removed.
pub proof fn lemma_regular_file_kept(connect: Connect)
    ensures
        spec_stale_socket(connect, PathKind::Other) is Err,
{
}

/// Whether the socket at the path is still the one the daemon bound: the
/// path exists with the same device and inode.
pub fn owns_socket(current: Option<(u64, u64)>, device: u64, inode: u64) -> (r: bool)
    ensures
        r == (current == Some((device, inode))),
{
    match current {
        Some((d, i)) => d == device && i == inode,
        None => false,
    }
}

/// Where the daemon's socket lives: in the runtime directory, or in the
/// temporary directory where the platform allows it.
#[derive(Clone, Copy, Debug, PartialEq, Eq, Structural)]
pub enum SocketDir {
    Runtime,
    Temp,
}

/// Why no directory for the socket can be chosen.
#[derive(Clone, Copy, Debug, PartialEq, Eq, Structural)]
pub enum SocketDirError {
    /// The runtime directory is not set.
    RuntimeDirRequired,
    /// Neither the runtime nor the temporary directory is set.
    RuntimeOrTempDirRequired,
}

/// The runtime directory when it is set (and not empty); otherwise, where
/// temporary directories are allowed, the temporary directory when it is set.
pub open spec fn spec_socket_dir(runtime_set: bool, temp_set: bool, temp_allowed: bool) -> Result<
    SocketDir,
    SocketDirError,
> {
    if runtime_set {
        Ok(SocketDir::Runtime)
    } else if !temp_allowed {
        Err(SocketDirError::RuntimeDirRequired)
    } else if temp_set {
        Ok(SocketDir::Temp)
    } else {
        Err(SocketDirError::RuntimeOrTempDirRequired)
    }
}

/// Chooses the socket's directory (see [`spec_socket_dir`]).
pub fn socket_dir(runtime_set: bool, temp_set: bool, temp_allowed: bool) -> (r: Result<
    SocketDir,
    SocketDirError,
>)
    ensures
        r == spec_socket_dir(runtime_set, temp_set, temp_allowed),
{
    if runtime_set {
        Ok(SocketDir::Runtime)
    } else if !temp_allowed {
        Err(SocketDirError::RuntimeDirRequired)
    } else if temp_set {
        Ok(SocketDir::Temp)
    } else {
        Err(SocketDirError::RuntimeOrTempDirRequired)
    }
}

/// A socket path is removed exactly when a socket is there and nobody
/// listens on it; it counts as free exactly when nothing is there and no
/// daemon answered; a daemon that answers always stops a second one.
pub proof fn lemma_stale_socket_decisions(connect: Connect, path: PathKind)
    ensures
        spec_stale_socket(connect, path) == Ok::<StaleSocket, SocketError>(StaleSocket::Remove)
            <==> (connect == Connect::Refused && path == PathKind::Socket),
        spec_stale_socket(connect, path) == Ok::<StaleSocket, SocketError>(StaleSocket::Absent)
            <==> (connect != Connect::Accepted && path == PathKind::Missing),
        connect == Connect::Accepted ==> spec_stale_socket(connect, path) == Err::<
            StaleSocket,
            SocketError,
        >(SocketError::AlreadyRunning),
{
}

/// The runtime directory is used whenever it is set; the temporary
/// directory only when the runtime directory is not set, the platform
/// allows it and it is set.
pub proof fn lemma_socket_dir_choice(runtime_set: bool, temp_set: bool, temp_allowed: bool)
    ensures
        spec_socket_dir(runtime_set, temp_set, temp_allowed) == Ok::<SocketDir, SocketDirError>(
            SocketDir::Runtime,
        ) <==> runtime_set,
        spec_socket_dir(runtime_set, temp_set, temp_allowed) == Ok::<SocketDir, SocketDirError>(
            SocketDir::Temp,
        ) <==> (!runtime_set && temp_allowed && temp_set),
{
}

} // verus!
