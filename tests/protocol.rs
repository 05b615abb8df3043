use std::mem::size_of;

use pow_gate::client::Client;
use pow_gate::proto::{
    decode_puzzle, decode_solution, decode_solution_state, decode_string, decode_varsize_len,
    encode_puzzle, encode_solution, encode_solution_state, encode_string, encode_varsize,
    ProtocolError, Puzzle, SolutionState, LEN_FIELD_SIZE, PUZZLE_ENCODED_SIZE, PUZZLE_SIZE,
    SOLUTION_SIZE, SOLUTION_STATE_SIZE,
};
use pow_gate::responses::parse_responses;
use pow_gate::puzzle::{meets_complexity, PuzzleSolver, DEFAULT_COMPLEXITY};
use pow_gate::server::{ClientState, Connection, Server, ServerError};
use pow_gate::transport::Transport;
use sha2::{Digest, Sha256};

fn known_value() -> [u8; 16] {
    let mut v = [0u8; 16];
    for (i, b) in v.iter_mut().enumerate() {
        *b = i as u8;
    }
    v
}

fn known_solution() -> [u8; 16] {
    let mut s = [0u8; 16];
    s[0] = 0x8d;
    s[1] = 0x0d;
    s
}

#[test]
fn test_puzzle_new() {
    let p = Puzzle::new(5);
    assert_eq!(p.complexity, 5);
    assert_ne!(p.value, [0u8; PUZZLE_SIZE]);
}

#[test]
fn test_puzzle_default() {
    let p = Puzzle::default();
    assert_eq!(p.complexity, DEFAULT_COMPLEXITY);
    assert_ne!(p.value, [0u8; PUZZLE_SIZE]);
}

#[test]
fn test_is_not_valid_solution() {
    let puzzle = Puzzle::new(30);
    let solver = PuzzleSolver::new(&puzzle);
    assert!(!solver.is_valid_solution(&[0u8; SOLUTION_SIZE]));
}

#[test]
fn test_puzzle_solve() {
    let puzzle = Puzzle::new(3);
    let solver = PuzzleSolver::new(&puzzle);
    let result = solver.solve();
    assert!(result.hashes_tried > 0);
    assert!(solver.is_valid_solution(&result.solution));
    let mut hasher = Sha256::default();
    hasher.update(puzzle.value);
    hasher.update(result.solution);
    let hash_hex = format!("{:x}", hasher.finalize());
    assert!(hash_hex.starts_with("000"));
}

#[test]
fn test_transport_send() {
    let received = encode_solution_state(SolutionState::Accepted);
    assert_eq!(received.len(), SOLUTION_STATE_SIZE);
    assert_eq!(received, bincode::serialize(&0u32).unwrap());

    let puzzle = Puzzle::default();
    let received = encode_puzzle(&puzzle);
    assert_eq!(received.len(), size_of::<Puzzle>());
    assert_eq!(received, bincode::serialize(&(puzzle.complexity, puzzle.value)).unwrap());
}

#[test]
fn test_transport_send_with_varsize() {
    let sent_message = String::from("hello, world");
    let received_data = encode_varsize(&sent_message);
    let size: usize = bincode::deserialize(&received_data[..size_of::<usize>()]).unwrap();
    assert_eq!(size, bincode::serialize(&sent_message).unwrap().len());

    let received_message: String =
        bincode::deserialize(&received_data[size_of::<usize>()..]).unwrap();
    assert_eq!(sent_message, received_message);
}

#[test]
fn test_transport_receive() {
    let sent_puzzle = Puzzle::default();
    let bin_data = bincode::serialize(&(sent_puzzle.complexity, sent_puzzle.value)).unwrap();
    let received_puzzle = decode_puzzle(&bin_data[..size_of::<Puzzle>()]).unwrap();
    assert_eq!(sent_puzzle, received_puzzle);
}

#[test]
fn test_transport_receive_varsize() {
    let sent_msg = String::from("hello, world");
    let bin_data = bincode::serialize(&sent_msg).unwrap();
    let msg_size = bin_data.len();
    let len_field = bincode::serialize(&(msg_size as u64)).unwrap();
    let n = decode_varsize_len(&len_field).unwrap();
    assert_eq!(n, msg_size);
    let received_msg = decode_string(&bin_data[..n]).unwrap();
    assert_eq!(sent_msg, received_msg);
}

/// Runs one connection in memory: the server's side and the client's.
fn exchange(server: &Server, solve: bool) -> Result<String, ProtocolError> {
    let client = Client::new("in memory");
    let mut conn = server.new_connection();
    let puzzle_msg = server.start(&mut conn)?;
    assert_eq!(conn.state, ClientState::PuzzleSent);
    let solution = if solve {
        client.answer_puzzle(&puzzle_msg)?.message
    } else {
        vec![0u8; SOLUTION_SIZE]
    };
    let reply = server.handle_solution(&mut conn, &solution)?;
    assert_eq!(conn.state, ClientState::Closed);
    client.read_solution_state(&reply[..SOLUTION_STATE_SIZE])?;
    let frame = &reply[SOLUTION_STATE_SIZE..];
    let n = decode_varsize_len(&frame[..LEN_FIELD_SIZE])?;
    assert_eq!(frame.len(), LEN_FIELD_SIZE + n);
    decode_string(&frame[LEN_FIELD_SIZE..])
}

#[test]
fn test_client_and_server() {
    let mut server =
        Server::new(vec![String::from("response 1"), String::from("response 2")]).unwrap();
    server.set_puzzle_complexity(3);
    let response = exchange(&server, true).unwrap();
    assert!(&response == "response 1" || &response == "response 2")
}

#[test]
fn test_server_invalid_solution() {
    let mut server = Server::new(vec![String::from("response 1")]).unwrap();
    server.set_puzzle_complexity(30);
    let mut conn = server.new_connection();
    let puzzle_msg = server.start(&mut conn).unwrap();
    assert_eq!(decode_puzzle(&puzzle_msg).unwrap(), conn.puzzle);
    let reply = server.handle_solution(&mut conn, &[0u8; SOLUTION_SIZE]).unwrap();
    let result = decode_solution_state(&reply[..SOLUTION_STATE_SIZE]).unwrap();
    assert_eq!(result, SolutionState::Rejected);
    assert_eq!(reply.len(), SOLUTION_STATE_SIZE);
}

#[test]
fn rejected_solution_fails_the_client() {
    let mut server = Server::new(vec![String::from("response 1")]).unwrap();
    server.set_puzzle_complexity(30);
    assert_eq!(exchange(&server, false), Err(ProtocolError::SolutionRejected));
}

#[test]
fn zero_complexity_accepts_any_solution() {
    let mut server = Server::new(vec![String::from("only")]).unwrap();
    server.set_puzzle_complexity(0);
    assert_eq!(exchange(&server, false).unwrap(), "only");
    let puzzle = Puzzle { complexity: 0, value: [0xffu8; 16] };
    assert!(PuzzleSolver::new(&puzzle).is_valid_solution(&[0x5au8; 16]));
}

#[test]
fn known_vector_has_three_zero_nibbles() {
    let three = Puzzle { complexity: 3, value: known_value() };
    let four = Puzzle { complexity: 4, value: known_value() };
    assert!(PuzzleSolver::new(&three).is_valid_solution(&known_solution()));
    assert!(!PuzzleSolver::new(&four).is_valid_solution(&known_solution()));
    let mut other = known_solution();
    other[2] = 1;
    assert!(!PuzzleSolver::new(&three).is_valid_solution(&other));
}

#[test]
fn complexity_above_digest_length_rejects() {
    let puzzle = Puzzle { complexity: 65, value: known_value() };
    let solver = PuzzleSolver::new(&puzzle);
    assert!(!solver.is_valid_solution(&known_solution()));
    assert!(!solver.is_valid_solution(&[0u8; SOLUTION_SIZE]));
}

#[test]
fn zero_complexity_solves_on_first_candidate() {
    let puzzle = Puzzle { complexity: 0, value: known_value() };
    let result = PuzzleSolver::new(&puzzle).solve();
    assert_eq!(result.hashes_tried, 1);
    let client = Client::new("x");
    let answer = client.answer_puzzle(&encode_puzzle(&puzzle)).unwrap();
    assert_eq!(answer.hashes_tried, 1);
    assert_eq!(answer.message.len(), SOLUTION_SIZE);
    assert_eq!(answer.puzzle, puzzle);
}

#[test]
fn meets_complexity_counts_nibbles() {
    let mut hash = [0xffu8; 32];
    assert!(meets_complexity(&hash, 0));
    assert!(!meets_complexity(&hash, 1));
    hash[0] = 0x0f;
    assert!(meets_complexity(&hash, 1));
    assert!(!meets_complexity(&hash, 2));
    hash[0] = 0x00;
    hash[1] = 0x01;
    assert!(meets_complexity(&hash, 3));
    assert!(!meets_complexity(&hash, 4));
    hash[1] = 0x10;
    assert!(meets_complexity(&hash, 2));
    assert!(!meets_complexity(&hash, 3));
    let zero = [0u8; 32];
    assert!(meets_complexity(&zero, 64));
    assert!(!meets_complexity(&zero, 65));
    assert!(!meets_complexity(&zero, 255));
}

#[test]
fn solver_finds_complexity_four() {
    let puzzle = Puzzle { complexity: 4, value: known_value() };
    let solver = PuzzleSolver::new(&puzzle);
    let result = solver.solve();
    assert!(result.hashes_tried >= 1);
    assert!(solver.is_valid_solution(&result.solution));
}

#[test]
fn puzzle_round_trip() {
    for complexity in [0u8, 1, 7, 255] {
        let p = Puzzle { complexity, value: known_value() };
        let bytes = encode_puzzle(&p);
        assert_eq!(bytes.len(), PUZZLE_ENCODED_SIZE);
        assert_eq!(bytes[0], complexity);
        assert_eq!(decode_puzzle(&bytes), Ok(p));
    }
    assert_eq!(decode_puzzle(&[0u8; 16]), Err(ProtocolError::Decode));
    assert_eq!(decode_puzzle(&[0u8; 18]), Err(ProtocolError::Decode));
}

#[test]
fn solution_round_trip() {
    let s = known_solution();
    assert_eq!(encode_solution(&s), s.to_vec());
    assert_eq!(decode_solution(&s), Ok(s));
    assert_eq!(decode_solution(&s[..15]), Err(ProtocolError::Decode));
}

#[test]
fn outcome_encoding() {
    assert_eq!(encode_solution_state(SolutionState::Rejected), vec![1, 0, 0, 0]);
    assert_eq!(bincode::serialize(&1u32).unwrap(), vec![1, 0, 0, 0]);
    assert_eq!(decode_solution_state(&[1, 0, 0, 0]), Ok(SolutionState::Rejected));
    assert_eq!(decode_solution_state(&[0, 0, 0, 0]), Ok(SolutionState::Accepted));
    assert_eq!(decode_solution_state(&[2, 0, 0, 0]), Err(ProtocolError::Decode));
    assert_eq!(decode_solution_state(&[0, 0, 0]), Err(ProtocolError::Decode));
    let client = Client::new("x");
    assert_eq!(client.read_solution_state(&[0, 0, 0, 0]), Ok(()));
    assert_eq!(client.read_solution_state(&[1, 0, 0, 0]), Err(ProtocolError::SolutionRejected));
    assert_eq!(client.read_solution_state(&[0, 1, 0, 0]), Err(ProtocolError::Decode));
}

#[test]
fn varsize_round_trip_of_any_string() {
    for s in ["", "hello, world", "grüße, 世界 🦀"] {
        let frame = encode_varsize(s);
        let n = decode_varsize_len(&frame[..LEN_FIELD_SIZE]).unwrap();
        assert_eq!(frame.len(), LEN_FIELD_SIZE + n);
        assert_eq!(decode_string(&frame[LEN_FIELD_SIZE..]).unwrap(), s);
        assert_eq!(encode_string(s), bincode::serialize(s).unwrap());
    }
    let empty = encode_varsize("");
    assert_eq!(empty, vec![8, 0, 0, 0, 0, 0, 0, 0, 0, 0, 0, 0, 0, 0, 0, 0]);
}

#[test]
fn framing_errors() {
    let big = "a".repeat(1048576);
    let frame = encode_varsize(&big);
    assert_eq!(frame.len(), 1048576 + 16);
    assert_eq!(decode_varsize_len(&frame[..LEN_FIELD_SIZE]), Err(ProtocolError::Decode));
    let fits = "a".repeat(1048576 - 8);
    let frame = encode_varsize(&fits);
    assert_eq!(decode_varsize_len(&frame[..LEN_FIELD_SIZE]), Ok(1048576));
    assert_eq!(decode_string(&frame[LEN_FIELD_SIZE..]).unwrap(), fits);
    assert_eq!(decode_varsize_len(&[0, 0, 0x10, 0, 0, 0, 0, 0]), Ok(1048576));
    assert_eq!(decode_varsize_len(&[1, 0, 0x10, 0, 0, 0, 0, 0]), Err(ProtocolError::Decode));
    assert_eq!(decode_varsize_len(&[1, 0, 0, 0]), Err(ProtocolError::Decode));
    assert_eq!(decode_string(&[1, 0, 0, 0, 0, 0, 0, 0, 0xff]), Err(ProtocolError::Decode));
    assert_eq!(decode_string(&[2, 0, 0, 0, 0, 0, 0, 0, b'a']), Err(ProtocolError::Decode));
    assert_eq!(decode_string(&[0, 0, 0]), Err(ProtocolError::Decode));
    assert_eq!(decode_string(&[1, 0, 0, 0, 0, 0, 0, 0, b'a']).unwrap(), "a");
}

#[test]
fn server_needs_responses() {
    assert!(matches!(Server::new(vec![]), Err(ServerError::NoResponses)));
    let mut server = Server::new(vec![String::from("r")]).unwrap();
    assert_eq!(server.puzzle_complexity(), DEFAULT_COMPLEXITY);
    server.set_puzzle_complexity(9);
    assert_eq!(server.puzzle_complexity(), 9);
    assert_eq!(server.responses(), &vec![String::from("r")]);
}

#[test]
fn connection_is_used_once() {
    let server = Server::new(vec![String::from("r")]).unwrap();
    let mut conn = server.new_connection();
    assert_eq!(conn.state, ClientState::Initial);
    assert_eq!(conn.puzzle.complexity, DEFAULT_COMPLEXITY);
    let sol = [0u8; SOLUTION_SIZE];
    let mut early = conn;
    assert_eq!(server.answer(&mut early, &sol, 0), Err(ProtocolError::Violation));
    assert_eq!(early.state, ClientState::Closed);
    server.start(&mut conn).unwrap();
    assert_eq!(server.start(&mut conn.clone()), Err(ProtocolError::Violation));
    assert_eq!(server.answer(&mut conn, &sol[..3], 0), Err(ProtocolError::Decode));
    assert_eq!(conn.state, ClientState::Closed);
    assert_eq!(server.handle_solution(&mut conn, &sol), Err(ProtocolError::Violation));
}

#[test]
fn accepted_reply_carries_the_picked_reward() {
    let server = Server::new(vec![String::from("a"), String::from("bé")]).unwrap();
    let mut conn = Connection::new(Puzzle { complexity: 0, value: known_value() });
    server.start(&mut conn).unwrap();
    let reply = server.answer(&mut conn, &known_solution(), 1).unwrap();
    let mut expected = vec![0u8, 0, 0, 0];
    expected.extend_from_slice(&encode_varsize("bé"));
    assert_eq!(reply, expected);
}

#[test]
fn transport_holds_its_stream() {
    let mut t = Transport::new(vec![1u8, 2]);
    t.stream().push(3);
    assert_eq!(t.into_inner(), vec![1, 2, 3]);
    let client = Client::new("127.0.0.1:4444");
    assert_eq!(client.addr(), "127.0.0.1:4444");
}

#[test]
fn test_server_new_from_file() {
    let mut text = String::new();
    text.push_str("response 1 \n\n\n");
    text.push_str(" \rresponse 2 \n\n");
    text.push_str("\nresponse 3\n");
    let server = Server::new_from_text(&text).unwrap();
    assert_eq!(
        server.responses(),
        &vec![
            String::from("response 1"),
            String::from("response 2"),
            String::from("response 3"),
        ]
    );
}

#[test]
fn phrases_are_split_on_blank_lines() {
    assert_eq!(parse_responses(""), vec![String::new()]);
    assert_eq!(parse_responses("one"), vec![String::from("one")]);
    assert_eq!(parse_responses(" \r\n \n"), vec![String::new()]);
    assert_eq!(
        parse_responses("a b\nc\n\n\n\nd"),
        vec![String::from("a b\nc"), String::new(), String::from("d")]
    );
    assert_eq!(
        parse_responses("a\n\n\nb\r\n\r\nc"),
        vec![String::from("a"), String::from("b\r\n\r\nc")]
    );
    assert_eq!(parse_responses("  grüße  \n\n  世界"), vec![String::from("grüße"), String::from("世界")]);
}

#[test]
fn new_puzzles_do_not_repeat() {
    let mut seen: Vec<[u8; 16]> = Vec::new();
    let mut high_bits = 0u32;
    for _ in 0..200 {
        let p = Puzzle::new(1);
        assert!(!seen.contains(&p.value));
        high_bits += p.value.iter().filter(|b| **b >= 128).count() as u32;
        seen.push(p.value);
    }
    // 3200 bytes: about half of them have their high bit set.
    assert!(high_bits > 1300 && high_bits < 1900);
}
