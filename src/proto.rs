//! Wire format: fixed-width encodings of the protocol messages and the
//! length-prefixed frame used for variable-size payloads.
use vstd::prelude::*;
use vstd::utf8::*;

verus! {

/// Number of random bytes in a puzzle.
pub const PUZZLE_SIZE: usize = 16;

/// Number of bytes in a solution; always the same as `PUZZLE_SIZE`.
pub const SOLUTION_SIZE: usize = 16;

/// Number of bytes of an encoded puzzle: one byte of complexity, then the value.
pub const PUZZLE_ENCODED_SIZE: usize = 17;

/// Number of bytes of an encoded outcome: a little-endian `u32` variant tag.
pub const SOLUTION_STATE_SIZE: usize = 4;

/// Width of the length field of a variable-size frame: a little-endian `u64`.
pub const LEN_FIELD_SIZE: usize = 8;

/// Largest payload a receiver accepts from a variable-size frame; a sender
/// frames any string, so a longer one is refused at the other end.
pub const MAX_VARSIZE_LEN: u64 = 1048576;

/// A candidate solution: as many bytes as a puzzle's value.
pub type PuzzleSolution = [u8; 16];

/// A challenge: the number of leading zero nibbles asked for, and the random
/// value the solution is hashed with.
#[derive(Clone, Copy, Debug, PartialEq, Eq)]
pub struct Puzzle {
    pub complexity: u8,
    pub value: [u8; 16],
}

/// The server's outcome on a solution.
#[derive(Clone, Copy, Debug, PartialEq, Eq, Structural)]
pub enum SolutionState {
    Accepted,
    Rejected,
}

/// What can go wrong on a connection.
#[derive(Clone, Copy, Debug, PartialEq, Eq, Structural)]
pub enum ProtocolError {
    /// The stream failed or closed before a message was complete.
    Io,
    /// The bytes do not have the shape of the expected message.
    Decode,
    /// A message came in a state that does not expect it.
    Violation,
    /// The server rejected the solution.
    SolutionRejected,
}

/// The eight little-endian bytes of `n`.
pub open spec fn u64_le_bytes(n: u64) -> Seq<u8> {
    seq![
        n as u8,
        (n >> 8u64) as u8,
        (n >> 16u64) as u8,
        (n >> 24u64) as u8,
        (n >> 32u64) as u8,
        (n >> 40u64) as u8,
        (n >> 48u64) as u8,
        (n >> 56u64) as u8,
    ]
}

/// The `u64` whose little-endian bytes are the first eight of `b`.
pub open spec fn u64_from_le(b: Seq<u8>) -> u64
    recommends
        b.len() >= 8,
{
    (b[0] as u64) | ((b[1] as u64) << 8u64) | ((b[2] as u64) << 16u64) | ((b[3] as u64) << 24u64)
        | ((b[4] as u64) << 32u64) | ((b[5] as u64) << 40u64) | ((b[6] as u64) << 48u64) | ((
    b[7] as u64) << 56u64)
}

/// The encoding of a puzzle: its complexity byte, then its value.
pub open spec fn puzzle_bytes(p: Puzzle) -> Seq<u8> {
    seq![p.complexity] + p.value@
}

/// The encoding of an outcome: its variant index as a little-endian `u32`.
pub open spec fn solution_state_bytes(s: SolutionState) -> Seq<u8> {
    match s {
        SolutionState::Accepted => seq![0u8, 0u8, 0u8, 0u8],
        SolutionState::Rejected => seq![1u8, 0u8, 0u8, 0u8],
    }
}

/// The encoding of a string as a message: its byte count as a `u64`, then
/// its UTF-8 bytes.
pub open spec fn string_bytes(s: Seq<char>) -> Seq<u8> {
    u64_le_bytes(encode_utf8(s).len() as u64) + encode_utf8(s)
}

/// A variable-size frame: the payload's length as a `u64`, then the payload.
pub open spec fn frame_bytes(payload: Seq<u8>) -> Seq<u8> {
    u64_le_bytes(payload.len() as u64) + payload
}

/// Whether a receiver accepts the frame of a string's message.
pub open spec fn string_fits_frame(s: Seq<char>) -> bool {
    8 + encode_utf8(s).len() <= MAX_VARSIZE_LEN
}

/// Whether `b` is a well-formed string message.
pub open spec fn is_string_message(b: Seq<u8>) -> bool {
    &&& b.len() >= 8
    &&& u64_from_le(b) as int == b.len() - 8
    &&& valid_utf8(b.subrange(8, b.len() as int))
}

/// The little-endian bytes of `n`.
pub fn encode_u64(n: u64) -> (r: Vec<u8>)
    ensures
        r@ == u64_le_bytes(n),
{
    let r = vec![
        n as u8,
        (n >> 8u64) as u8,
        (n >> 16u64) as u8,
        (n >> 24u64) as u8,
        (n >> 32u64) as u8,
        (n >> 40u64) as u8,
        (n >> 48u64) as u8,
        (n >> 56u64) as u8,
    ];
    assert(r@ =~= u64_le_bytes(n));
    r
}

/// The `u64` held little-endian in the first eight bytes of `b`.
pub fn decode_u64(b: &[u8]) -> (r: u64)
    requires
        b@.len() >= 8,
    ensures
        r == u64_from_le(b@),
{
    (b[0] as u64) | ((b[1] as u64) << 8u64) | ((b[2] as u64) << 16u64) | ((b[3] as u64) << 24u64)
        | ((b[4] as u64) << 32u64) | ((b[5] as u64) << 40u64) | ((b[6] as u64) << 48u64) | ((
    b[7] as u64) << 56u64)
}

proof fn lemma_u64_round_trip(n: u64)
    ensures
        u64_from_le(u64_le_bytes(n)) == n,
{
    let b = u64_le_bytes(n);
    assert(((n as u8) as u64) | ((((n >> 8u64) as u8) as u64) << 8u64) | ((((n >> 16u64) as u8) as u64)
        << 16u64) | ((((n >> 24u64) as u8) as u64) << 24u64) | ((((n >> 32u64) as u8) as u64)
        << 32u64) | ((((n >> 40u64) as u8) as u64) << 40u64) | ((((n >> 48u64) as u8) as u64)
        << 48u64) | ((((n >> 56u64) as u8) as u64) << 56u64) == n) by (bit_vector);
}

/// Encodes a puzzle in its seventeen bytes.
pub fn encode_puzzle(p: &Puzzle) -> (r: Vec<u8>)
    ensures
        r@ == puzzle_bytes(*p),
{
    let mut r: Vec<u8> = Vec::with_capacity(PUZZLE_ENCODED_SIZE);
    r.push(p.complexity);
    let mut i: usize = 0;
    while i < PUZZLE_SIZE
        invariant
            i <= 16,
            r@ == seq![p.complexity] + p.value@.subrange(0, i as int),
        decreases 16 - i,
    {
        r.push(p.value[i]);
        i = i + 1;
        assert(r@ =~= seq![p.complexity] + p.value@.subrange(0, i as int));
    }
    assert(p.value@.subrange(0, 16) =~= p.value@);
    r
}

/// Reads sixteen bytes of `b` from `start` into an array.
fn read_array16(b: &[u8], start: usize) -> (r: [u8; 16])
    requires
        start + 16 <= b.len(),
    ensures
        r@ == b@.subrange(start as int, start + 16),
{
    let mut r: [u8; 16] = [0u8; 16];
    let mut i: usize = 0;
    while i < 16
        invariant
            i <= 16,
            start + 16 <= b.len(),
            r@.len() == 16,
            forall|j: int| 0 <= j < i ==> r@[j] == b@[start + j],
        decreases 16 - i,
    {
        r[i] = b[start + i];
        i = i + 1;
    }
    assert(r@ =~= b@.subrange(start as int, start + 16));
    r
}

/// Decodes a puzzle; fails unless `b` holds exactly its seventeen bytes.
pub fn decode_puzzle(b: &[u8]) -> (r: Result<Puzzle, ProtocolError>)
    ensures
        match r {
            Ok(p) => b@.len() == PUZZLE_ENCODED_SIZE && puzzle_bytes(p) == b@,
            Err(e) => b@.len() != PUZZLE_ENCODED_SIZE && e == ProtocolError::Decode,
        },
{
    if b.len() != PUZZLE_ENCODED_SIZE {
        return Err(ProtocolError::Decode);
    }
    let value = read_array16(b, 1);
    let p = Puzzle { complexity: b[0], value };
    assert(puzzle_bytes(p) =~= b@);
    Ok(p)
}

/// Encodes a solution as its sixteen bytes.
pub fn encode_solution(s: &PuzzleSolution) -> (r: Vec<u8>)
    ensures
        r@ == s@,
{
    let mut r: Vec<u8> = Vec::with_capacity(SOLUTION_SIZE);
    let mut i: usize = 0;
    while i < SOLUTION_SIZE
        invariant
            i <= 16,
            r@ == s@.subrange(0, i as int),
        decreases 16 - i,
    {
        r.push(s[i]);
        i = i + 1;
        assert(r@ =~= s@.subrange(0, i as int));
    }
    assert(s@.subrange(0, 16) =~= s@);
    r
}

/// Decodes a solution; fails unless `b` holds exactly sixteen bytes.
pub fn decode_solution(b: &[u8]) -> (r: Result<PuzzleSolution, ProtocolError>)
    ensures
        match r {
            Ok(s) => b@.len() == SOLUTION_SIZE && s@ == b@,
            Err(e) => b@.len() != SOLUTION_SIZE && e == ProtocolError::Decode,
        },
{
    if b.len() != SOLUTION_SIZE {
        return Err(ProtocolError::Decode);
    }
    let s = read_array16(b, 0);
    assert(b@.subrange(0, 16) =~= b@);
    Ok(s)
}

/// Encodes an outcome in its four bytes.
pub fn encode_solution_state(s: SolutionState) -> (r: Vec<u8>)
    ensures
        r@ == solution_state_bytes(s),
{
    let tag: u8 = match s {
        SolutionState::Accepted => 0,
        SolutionState::Rejected => 1,
    };
    let r = vec![tag, 0u8, 0u8, 0u8];
    assert(r@ =~= solution_state_bytes(s));
    r
}

/// Decodes an outcome: the tag 0 is `Accepted`, 1 is `Rejected`, and any
/// other four bytes, or a wrong length, fail.
pub fn decode_solution_state(b: &[u8]) -> (r: Result<SolutionState, ProtocolError>)
    ensures
        match r {
            Ok(s) => solution_state_bytes(s) == b@,
            Err(e) => e == ProtocolError::Decode && b@ != solution_state_bytes(
                SolutionState::Accepted,
            ) && b@ != solution_state_bytes(SolutionState::Rejected),
        },
{
    if b.len() != SOLUTION_STATE_SIZE || b[1] != 0 || b[2] != 0 || b[3] != 0 {
        return Err(ProtocolError::Decode);
    }
    if b[0] == 0 {
        assert(b@ =~= solution_state_bytes(SolutionState::Accepted));
        Ok(SolutionState::Accepted)
    } else if b[0] == 1 {
        assert(b@ =~= solution_state_bytes(SolutionState::Rejected));
        Ok(SolutionState::Rejected)
    } else {
        Err(ProtocolError::Decode)
    }
}

/// What a string message decodes to, if it is one.
pub open spec fn string_message_value(b: Seq<u8>) -> Option<Seq<char>> {
    if is_string_message(b) {
        Some(decode_utf8(b.subrange(8, b.len() as int)))
    } else {
        None
    }
}

/// The payload length a length field announces, if it is acceptable.
pub open spec fn frame_len_value(b: Seq<u8>) -> Option<u64> {
    if b.len() == 8 && u64_from_le(b) <= MAX_VARSIZE_LEN {
        Some(u64_from_le(b))
    } else {
        None
    }
}

/// Relies on `String::from_utf8`: it succeeds exactly on valid UTF-8, and the
/// string it returns is encoded by those same bytes.
#[verifier::external_body]
fn string_from_utf8(b: Vec<u8>) -> (r: Option<String>)
    ensures
        r is Some <==> valid_utf8(b@),
        r matches Some(s) ==> encode_utf8(s@) == b@,
{
    String::from_utf8(b).ok()
}

/// Encodes a string as a message: its UTF-8 byte count, then its bytes.
pub fn encode_string(s: &str) -> (r: Vec<u8>)
    ensures
        r@ == string_bytes(s@),
{
    let bytes = s.as_bytes();
    let mut r = encode_u64(bytes.len() as u64);
    let mut i: usize = 0;
    while i < bytes.len()
        invariant
            i <= bytes@.len(),
            bytes@ == encode_utf8(s@),
            r@ == u64_le_bytes(bytes@.len() as u64) + bytes@.subrange(0, i as int),
        decreases bytes@.len() - i,
    {
        r.push(bytes[i]);
        i = i + 1;
        assert(r@ =~= u64_le_bytes(bytes@.len() as u64) + bytes@.subrange(0, i as int));
    }
    assert(bytes@.subrange(0, bytes@.len() as int) =~= bytes@);
    r
}

/// Decodes a string message; fails with `Decode` unless the byte count is
/// exactly the rest of `b` and the rest is valid UTF-8.
pub fn decode_string(b: &[u8]) -> (r: Result<String, ProtocolError>)
    ensures
        match r {
            Ok(s) => string_message_value(b@) == Some(s@),
            Err(e) => string_message_value(b@) is None && e == ProtocolError::Decode,
        },
{
    if b.len() < LEN_FIELD_SIZE {
        return Err(ProtocolError::Decode);
    }
    let n = decode_u64(b);
    if n as usize != b.len() - LEN_FIELD_SIZE || n > usize::MAX as u64 {
        return Err(ProtocolError::Decode);
    }
    let mut rest: Vec<u8> = Vec::with_capacity(b.len() - LEN_FIELD_SIZE);
    let mut i: usize = LEN_FIELD_SIZE;
    while i < b.len()
        invariant
            8 <= i <= b@.len(),
            rest@ == b@.subrange(8, i as int),
        decreases b@.len() - i,
    {
        rest.push(b[i]);
        i = i + 1;
        assert(rest@ =~= b@.subrange(8, i as int));
    }
    match string_from_utf8(rest) {
        Some(s) => {
            proof {
                encode_utf8_decode_utf8(s@);
            }
            Ok(s)
        },
        None => Err(ProtocolError::Decode),
    }
}

/// Frames a string for sending: the message's length as a `u64`, then the
/// message.
pub fn encode_varsize(s: &str) -> (r: Vec<u8>)
    ensures
        r@ == frame_bytes(string_bytes(s@)),
{
    let msg = encode_string(s);
    let mut r = encode_u64(msg.len() as u64);
    let mut i: usize = 0;
    while i < msg.len()
        invariant
            i <= msg@.len(),
            r@ == u64_le_bytes(msg@.len() as u64) + msg@.subrange(0, i as int),
        decreases msg@.len() - i,
    {
        r.push(msg[i]);
        i = i + 1;
        assert(r@ =~= u64_le_bytes(msg@.len() as u64) + msg@.subrange(0, i as int));
    }
    assert(msg@.subrange(0, msg@.len() as int) =~= msg@);
    r
}

/// Reads the length field of a frame; fails with `Decode` on a field that is
/// not eight bytes or announces more than `MAX_VARSIZE_LEN`.
pub fn decode_varsize_len(b: &[u8]) -> (r: Result<usize, ProtocolError>)
    ensures
        match r {
            Ok(n) => frame_len_value(b@) == Some(n as u64),
            Err(e) => frame_len_value(b@) is None && e == ProtocolError::Decode,
        },
{
    if b.len() != LEN_FIELD_SIZE {
        return Err(ProtocolError::Decode);
    }
    let n = decode_u64(b);
    if n > MAX_VARSIZE_LEN {
        return Err(ProtocolError::Decode);
    }
    Ok(n as usize)
}

/// A puzzle's encoding has the fixed width, and no other puzzle has the same
/// bytes: decoding what was encoded gives the puzzle back.
pub proof fn lemma_puzzle_round_trip(p: Puzzle, q: Puzzle)
    ensures
        puzzle_bytes(p).len() == PUZZLE_ENCODED_SIZE,
        puzzle_bytes(q) == puzzle_bytes(p) ==> q == p,
{
    if puzzle_bytes(q) == puzzle_bytes(p) {
        assert(q.complexity == puzzle_bytes(q)[0]);
        assert(q.value@ =~= puzzle_bytes(q).subrange(1, 17));
        assert(p.value@ =~= puzzle_bytes(p).subrange(1, 17));
        assert(q.value =~= p.value);
    }
}

/// An outcome's encoding has the fixed width, and the two outcomes differ.
pub proof fn lemma_solution_state_round_trip(s: SolutionState, t: SolutionState)
    ensures
        solution_state_bytes(s).len() == SOLUTION_STATE_SIZE,
        solution_state_bytes(t) == solution_state_bytes(s) ==> t == s,
{
    if solution_state_bytes(t) == solution_state_bytes(s) {
        assert(solution_state_bytes(t)[0] == solution_state_bytes(s)[0]);
    }
}

/// Framing a string and reading the frame back gives the string: the length
/// field announces the message that follows, and the message decodes to the
/// same characters, whatever they are.
pub proof fn lemma_varsize_round_trip(s: Seq<char>)
    requires
        string_fits_frame(s),
    ensures
        ({
            let f = frame_bytes(string_bytes(s));
            &&& frame_len_value(f.subrange(0, 8)) == Some((f.len() - 8) as u64)
            &&& f.subrange(8, f.len() as int) == string_bytes(s)
            &&& string_message_value(string_bytes(s)) == Some(s)
        }),
{
    let m = string_bytes(s);
    let f = frame_bytes(m);
    let n = encode_utf8(s).len();
    lemma_u64_round_trip(m.len() as u64);
    lemma_u64_round_trip(n as u64);
    assert(f.subrange(0, 8) =~= u64_le_bytes(m.len() as u64));
    assert(f.subrange(8, f.len() as int) =~= m);
    assert(m.subrange(0, 8) =~= u64_le_bytes(n as u64));
    assert(u64_from_le(m) == u64_from_le(m.subrange(0, 8)));
    assert(m.subrange(8, m.len() as int) =~= encode_utf8(s));
    encode_utf8_valid_utf8(s);
    encode_utf8_decode_utf8(s);
}

} // verus!
