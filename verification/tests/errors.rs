use peer_core::peer_connection::PeerConnectionError;

#[test]
fn each_failure_has_its_own_description() {
    assert_eq!(
        PeerConnectionError::BoxReaderError.describe(),
        "Failed to read message from BoxReader"
    );
    assert_eq!(
        PeerConnectionError::BoxWriterError.describe(),
        "Failed to send message to BoxWriter"
    );
    assert_eq!(
        PeerConnectionError::MsgReceiveFailed.describe(),
        "Failed to receive peer message from channel"
    );
    assert_eq!(
        PeerConnectionError::HandshakeFailed.describe(),
        "Failed to perform handshake"
    );
    assert_eq!(
        PeerConnectionError::TcpStreamCloneFailed.describe(),
        "Failed to clone TcpStream for BoxWriter"
    );
    assert_eq!(
        PeerConnectionError::CannotConnectToPeer.describe(),
        "Timeout when attempting to connect to peer"
    );
}
