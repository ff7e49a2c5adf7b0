use vstd::prelude::*;

use crate::decimal::{i32_of, nat_text, parse_i32_text, parse_u16_text, push_nat_text, u16_of};
use crate::error::HandshakeError;

verus! {

/// The usage line of the client, for a program called `program`.
pub open spec fn client_usage(program: Seq<char>) -> Seq<char> {
    "Usage: "@ + program + " <server_ip> <server_port> <initial_sequence>"@
}

/// The usage line of a server, for a program called `program`.
pub open spec fn server_usage(program: Seq<char>) -> Seq<char> {
    "Usage: "@ + program + " <server_port>"@
}

/// The number of workers for a pool of I/O-bound tasks on a machine that runs
/// `parallelism` threads at once, where that is known.
pub open spec fn thread_count_for(parallelism: Option<usize>) -> int {
    match parallelism {
        Some(n) => if 2 * n > 4 { 2 * n } else { 4 },
        None => 8,
    }
}

/// Reads the client's arguments: the program name, then server address, port
/// and initial sequence number.
pub fn parse_client_args(args: &Vec<String>) -> (r: Result<(String, u16, i32), HandshakeError>)
    requires
        args@.len() >= 1,
    ensures
        match r {
            Ok((ip, port, seq)) => args@.len() == 4 && ip@ == args@[1]@ && u16_of(args@[2]@)
                == Some(port) && i32_of(args@[3]@) == Some(seq),
            Err(HandshakeError::InvalidArguments(u)) => args@.len() != 4 && u@ == client_usage(
                args@[0]@,
            ),
            Err(HandshakeError::InvalidPort(p)) => args@.len() == 4 && u16_of(args@[2]@) is None
                && p@ == args@[2]@,
            Err(HandshakeError::InvalidSequenceNumber(s)) => args@.len() == 4 && u16_of(
                args@[2]@,
            ) is Some && i32_of(args@[3]@) is None && s@ == args@[3]@,
            Err(_) => false,
        },
{
    if args.len() != 4 {
        let mut usage = String::from_str("Usage: ");
        usage.append(args[0].as_str());
        usage.append(" <server_ip> <server_port> <initial_sequence>");
        assert(usage@ =~= client_usage(args@[0]@));
        return Err(HandshakeError::InvalidArguments(usage));
    }
    let server_ip = args[1].clone();
    let port = match parse_u16_text(args[2].as_str()) {
        Some(p) => p,
        None => return Err(HandshakeError::InvalidPort(args[2].clone())),
    };
    let initial_seq = match parse_i32_text(args[3].as_str()) {
        Some(s) => s,
        None => return Err(HandshakeError::InvalidSequenceNumber(args[3].clone())),
    };
    Ok((server_ip, port, initial_seq))
}

/// Reads a server's arguments: the program name, then the port.
pub fn parse_server_args(args: &Vec<String>) -> (r: Result<u16, HandshakeError>)
    requires
        args@.len() >= 1,
    ensures
        match r {
            Ok(port) => args@.len() == 2 && u16_of(args@[1]@) == Some(port),
            Err(HandshakeError::InvalidArguments(u)) => args@.len() != 2 && u@ == server_usage(
                args@[0]@,
            ),
            Err(HandshakeError::InvalidPort(p)) => args@.len() == 2 && u16_of(args@[1]@) is None
                && p@ == args@[1]@,
            Err(_) => false,
        },
{
    if args.len() != 2 {
        let mut usage = String::from_str("Usage: ");
        usage.append(args[0].as_str());
        usage.append(" <server_port>");
        assert(usage@ =~= server_usage(args@[0]@));
        return Err(HandshakeError::InvalidArguments(usage));
    }
    match parse_u16_text(args[1].as_str()) {
        Some(p) => Ok(p),
        None => Err(HandshakeError::InvalidPort(args[1].clone())),
    }
}

/// The address `ip:port` to connect to.
pub fn format_server_address(ip: &str, port: u16) -> (r: String)
    ensures
        r@ == ip@ + seq![':'] + nat_text(port as nat),
{
    proof {
        reveal_strlit(":");
    }
    let mut s = String::from_str(ip);
    s.append(":");
    push_nat_text(&mut s, port as u32);
    assert(s@ =~= ip@ + seq![':'] + nat_text(port as nat));
    s
}

/// The size of the worker pool: twice the machine's parallelism, at least four,
/// and eight where the parallelism is unknown.
pub fn calculate_optimal_thread_count(parallelism: Option<usize>) -> (r: usize)
    requires
        parallelism matches Some(n) ==> n <= usize::MAX / 2,
    ensures
        r == thread_count_for(parallelism),
{
    match parallelism {
        Some(n) => if 2 * n > 4 { 2 * n } else { 4 },
        None => 8,
    }
}

} // verus!
