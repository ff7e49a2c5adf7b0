use tcp_handshake::{
    calculate_optimal_thread_count, format_server_address, parse_client_args, parse_server_args,
    HandshakeError,
};

fn args(items: &[&str]) -> Vec<String> {
    items.iter().map(|s| s.to_string()).collect()
}

#[test]
fn client_args_are_read_in_order() {
    assert_eq!(
        parse_client_args(&args(&["client", "127.0.0.1", "8080", "100"])),
        Ok(("127.0.0.1".to_string(), 8080, 100))
    );
    assert_eq!(
        parse_client_args(&args(&["client", "::1", "+1", "-3"])),
        Ok(("::1".to_string(), 1, -3))
    );
}

#[test]
fn client_args_of_wrong_count_give_usage() {
    assert_eq!(
        parse_client_args(&args(&["client", "127.0.0.1"])),
        Err(HandshakeError::InvalidArguments(
            "Usage: client <server_ip> <server_port> <initial_sequence>".to_string()
        ))
    );
}

#[test]
fn client_args_with_bad_port_or_sequence() {
    assert_eq!(
        parse_client_args(&args(&["c", "h", "65536", "1"])),
        Err(HandshakeError::InvalidPort("65536".to_string()))
    );
    assert_eq!(
        parse_client_args(&args(&["c", "h", "-1", "x"])),
        Err(HandshakeError::InvalidPort("-1".to_string()))
    );
    assert_eq!(
        parse_client_args(&args(&["c", "h", "80", "x"])),
        Err(HandshakeError::InvalidSequenceNumber("x".to_string()))
    );
}

#[test]
fn server_args() {
    assert_eq!(parse_server_args(&args(&["server", "9000"])), Ok(9000));
    assert_eq!(parse_server_args(&args(&["server", "65535"])), Ok(65535));
    assert_eq!(
        parse_server_args(&args(&["server"])),
        Err(HandshakeError::InvalidArguments("Usage: server <server_port>".to_string()))
    );
    assert_eq!(
        parse_server_args(&args(&["server", "port"])),
        Err(HandshakeError::InvalidPort("port".to_string()))
    );
}

#[test]
fn server_address_joins_ip_and_port() {
    assert_eq!(format_server_address("127.0.0.1", 8080), "127.0.0.1:8080");
    assert_eq!(format_server_address("h", 0), "h:0");
}

#[test]
fn thread_count_is_twice_parallelism_with_a_floor() {
    assert_eq!(calculate_optimal_thread_count(Some(1)), 4);
    assert_eq!(calculate_optimal_thread_count(Some(2)), 4);
    assert_eq!(calculate_optimal_thread_count(Some(3)), 6);
    assert_eq!(calculate_optimal_thread_count(Some(16)), 32);
    assert_eq!(calculate_optimal_thread_count(None), 8);
}
