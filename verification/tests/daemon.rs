use binaural::daemon::owns_socket;
use binaural::daemon::socket_dir;
use binaural::daemon::SocketDir;
use binaural::daemon::SocketDirError;
use binaural::daemon::stale_socket;
use binaural::daemon::Connect;
use binaural::daemon::PathKind;
use binaural::daemon::SocketError;
use binaural::daemon::StaleSocket;

#[test]
fn clears_only_dead_sockets() {
    assert_eq!(
        stale_socket(Connect::Accepted, PathKind::Socket),
        Err(SocketError::AlreadyRunning)
    );
    assert_eq!(
        stale_socket(Connect::Refused, PathKind::Socket),
        Ok(StaleSocket::Remove)
    );
    assert_eq!(
        stale_socket(Connect::Failed, PathKind::Missing),
        Ok(StaleSocket::Absent)
    );
    assert_eq!(
        stale_socket(Connect::Refused, PathKind::Other),
        Err(SocketError::NotSocket)
    );
    assert_eq!(
        stale_socket(Connect::Failed, PathKind::Socket),
        Err(SocketError::Connect)
    );
    assert_eq!(
        stale_socket(Connect::Failed, PathKind::Unreadable),
        Err(SocketError::Inspect)
    );
}

#[test]
fn keeps_a_replacement_socket() {
    assert!(owns_socket(Some((1, 2)), 1, 2));
    assert!(!owns_socket(Some((1, 3)), 1, 2));
    assert!(!owns_socket(None, 1, 2));
}

#[test]
fn prefers_the_runtime_directory_for_the_socket() {
    assert_eq!(socket_dir(true, true, true), Ok(SocketDir::Runtime));
    assert_eq!(socket_dir(true, false, false), Ok(SocketDir::Runtime));
    assert_eq!(socket_dir(false, true, true), Ok(SocketDir::Temp));
    assert_eq!(socket_dir(false, true, false), Err(SocketDirError::RuntimeDirRequired));
    assert_eq!(socket_dir(false, false, true), Err(SocketDirError::RuntimeOrTempDirRequired));
}
