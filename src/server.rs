//! The server side: its configuration and the per-connection state machine
//! that sends a puzzle, judges the solution and hands out a reward.
use vstd::prelude::*;
use rand::Rng;
use crate::proto::{
    decode_solution, encode_puzzle, frame_len_value, lemma_varsize_round_trip, string_message_value, encode_solution_state, encode_varsize, frame_bytes,
    puzzle_bytes, solution_state_bytes, string_bytes, string_fits_frame, ProtocolError, Puzzle,
    SolutionState, SOLUTION_SIZE,
};
use crate::puzzle::{is_valid, PuzzleSolver, DEFAULT_COMPLEXITY};
use crate::responses::{parse_responses, phrases};

verus! {

/// Why a server could not be configured.
#[derive(Clone, Copy, Debug, PartialEq, Eq, Structural)]
pub enum ServerError {
    /// The pool of reward phrases is empty.
    NoResponses,
}

/// Relies on rand's `Rng::gen_range` on the thread-local generator: a value
/// drawn from `0..n`, which must not be empty.
#[verifier::external_body]
fn random_index(n: usize) -> (r: usize)
    requires
        n > 0,
    ensures
        r < n,
{
    rand::thread_rng().gen_range(0..n)
}

/// Where a connection stands. A connection is used for one puzzle only.
#[derive(Clone, Copy, Debug, PartialEq, Eq, Structural)]
pub enum ClientState {
    Initial,
    PuzzleSent,
    Closed,
}

/// One client connection: its state and the puzzle it was given.
#[derive(Clone, Copy, Debug)]
pub struct Connection {
    pub state: ClientState,
    pub puzzle: Puzzle,
}

impl Connection {
    pub fn new(puzzle: Puzzle) -> (r: Connection)
        ensures
            r.state == ClientState::Initial,
            r.puzzle == puzzle,
    {
        Connection { state: ClientState::Initial, puzzle }
    }
}

/// The server's configuration: a non-empty pool of reward phrases and the
/// complexity of the puzzles it hands out.
pub struct Server {
    responses: Vec<String>,
    puzzle_complexity: u8,
}

/// What the server sends after the puzzle, given the connection's state, its
/// puzzle, the bytes received as the solution and the reward drawn.
pub open spec fn reply(state: ClientState, puzzle: Puzzle, solution: Seq<u8>, reward: Seq<char>) -> Result<
    Seq<u8>,
    ProtocolError,
> {
    if state != ClientState::PuzzleSent {
        Err(ProtocolError::Violation)
    } else if solution.len() != SOLUTION_SIZE {
        Err(ProtocolError::Decode)
    } else if !is_valid(puzzle.value@, solution, puzzle.complexity) {
        Ok(solution_state_bytes(SolutionState::Rejected))
    } else {
        Ok(solution_state_bytes(SolutionState::Accepted) + frame_bytes(string_bytes(reward)))
    }
}

/// The view of a result holding bytes.
pub open spec fn bytes_result(r: Result<Vec<u8>, ProtocolError>) -> Result<Seq<u8>, ProtocolError> {
    match r {
        Ok(v) => Ok(v@),
        Err(e) => Err(e),
    }
}

/// The reward a client reads from a reply: the outcome `Accepted`, then a
/// length field that announces the rest, then a string message.
pub open spec fn reward_read(r: Result<Seq<u8>, ProtocolError>) -> Option<Seq<char>> {
    match r {
        Ok(out) => if out.len() >= 12 && out.subrange(0, 4) == solution_state_bytes(
            SolutionState::Accepted,
        ) && frame_len_value(out.subrange(4, 12)) == Some((out.len() - 12) as u64) {
            string_message_value(out.subrange(12, out.len() as int))
        } else {
            None
        },
        Err(_) => None,
    }
}

/// A connection that receives a solution to its puzzle replies with the
/// outcome `Accepted` and the framed reward, and a client reading that reply
/// piece by piece (outcome, length field, message) gets the reward back.
pub proof fn lemma_solution_earns_reward(puzzle: Puzzle, solution: Seq<u8>, reward: Seq<char>)
    requires
        solution.len() == SOLUTION_SIZE,
        is_valid(puzzle.value@, solution, puzzle.complexity),
        string_fits_frame(reward),
    ensures
        ({
            let out = solution_state_bytes(SolutionState::Accepted) + frame_bytes(
                string_bytes(reward),
            );
            &&& reply(ClientState::PuzzleSent, puzzle, solution, reward) == Ok::<
                Seq<u8>,
                ProtocolError,
            >(out)
            &&& out.subrange(0, 4) == solution_state_bytes(SolutionState::Accepted)
            &&& frame_len_value(out.subrange(4, 12)) == Some((out.len() - 12) as u64)
            &&& string_message_value(out.subrange(12, out.len() as int)) == Some(reward)
            &&& reward_read(Ok(out)) == Some(reward)
        }),
{
    let head = solution_state_bytes(SolutionState::Accepted);
    let f = frame_bytes(string_bytes(reward));
    let out = head + f;
    lemma_varsize_round_trip(reward);
    assert(out.subrange(0, 4) =~= head);
    assert(out.subrange(4, 12) =~= f.subrange(0, 8));
    assert(out.subrange(12, out.len() as int) =~= f.subrange(8, f.len() as int));
}

/// A server that receives a solution to the puzzle it sent replies with a
/// reward out of its pool: whichever phrase is drawn, the client reading the
/// reply gets exactly that phrase back.
pub proof fn lemma_server_rewards_solution(server: Server, puzzle: Puzzle, solution: Seq<u8>)
    requires
        solution.len() == SOLUTION_SIZE,
        is_valid(puzzle.value@, solution, puzzle.complexity),
        forall|i: int|
            0 <= i < server.spec_responses().len() ==> string_fits_frame(
                #[trigger] server.spec_responses()[i]@,
            ),
    ensures
        forall|i: int|
            0 <= i < server.spec_responses().len() ==> reward_read(
                reply(ClientState::PuzzleSent, puzzle, solution, #[trigger] server.spec_responses()[i]@),
            ) == Some(server.spec_responses()[i]@),
{
    assert forall|i: int| 0 <= i < server.spec_responses().len() implies reward_read(
        reply(ClientState::PuzzleSent, puzzle, solution, #[trigger] server.spec_responses()[i]@),
    ) == Some(server.spec_responses()[i]@) by {
        lemma_solution_earns_reward(puzzle, solution, server.spec_responses()[i]@);
    }
}

impl Server {
    #[verifier::type_invariant]
    spec fn inv(self) -> bool {
        self.responses@.len() > 0
    }

    /// The pool of reward phrases.
    pub closed spec fn spec_responses(&self) -> Seq<String> {
        self.responses@
    }

    /// The complexity of the puzzles the server hands out.
    pub closed spec fn spec_complexity(&self) -> u8 {
        self.puzzle_complexity
    }

    /// A server with the given pool, at the default complexity; fails when
    /// the pool is empty.
    pub fn new(responses: Vec<String>) -> (r: Result<Server, ServerError>)
        ensures
            match r {
                Ok(s) => responses@.len() > 0 && s.spec_responses() == responses@
                    && s.spec_complexity() == DEFAULT_COMPLEXITY,
                Err(e) => responses@.len() == 0 && e == ServerError::NoResponses,
            },
    {
        if responses.len() == 0 {
            return Err(ServerError::NoResponses);
        }
        Ok(Server { responses, puzzle_complexity: DEFAULT_COMPLEXITY })
    }

    /// A server whose pool is read from a text of blank-line separated
    /// phrases, each trimmed; a text always holds at least one phrase.
    pub fn new_from_text(text: &str) -> (r: Result<Server, ServerError>)
        ensures
            match r {
                Ok(s) => {
                    &&& s.spec_responses().len() == phrases(text@).len()
                    &&& forall|k: int|
                        0 <= k < s.spec_responses().len() ==> #[trigger] s.spec_responses()[k]@
                            == phrases(text@)[k]
                    &&& s.spec_complexity() == DEFAULT_COMPLEXITY
                },
                Err(_) => false,
            },
    {
        Server::new(parse_responses(text))
    }

    pub fn set_puzzle_complexity(&mut self, complexity: u8)
        ensures
            final(self).spec_complexity() == complexity,
            final(self).spec_responses() == old(self).spec_responses(),
    {
        proof {
            use_type_invariant(&*self);
        }
        self.puzzle_complexity = complexity;
    }

    pub fn puzzle_complexity(&self) -> (r: u8)
        ensures
            r == self.spec_complexity(),
    {
        self.puzzle_complexity
    }

    pub fn responses(&self) -> (r: &Vec<String>)
        ensures
            r@ == self.spec_responses(),
            r@.len() > 0,
    {
        proof {
            use_type_invariant(self);
        }
        &self.responses
    }

    /// A fresh connection, with a new random puzzle at the server's complexity.
    pub fn new_connection(&self) -> (r: Connection)
        ensures
            r.state == ClientState::Initial,
            r.puzzle.complexity == self.spec_complexity(),
    {
        Connection::new(Puzzle::new(self.puzzle_complexity))
    }

    /// The first step of a connection: the encoded puzzle to send. Only a
    /// connection in its initial state may take it; any other is closed.
    pub fn start(&self, conn: &mut Connection) -> (r: Result<Vec<u8>, ProtocolError>)
        ensures
            final(conn).puzzle == old(conn).puzzle,
            old(conn).state == ClientState::Initial ==> bytes_result(r) == Ok::<
                Seq<u8>,
                ProtocolError,
            >(puzzle_bytes(old(conn).puzzle)) && final(conn).state == ClientState::PuzzleSent,
            old(conn).state != ClientState::Initial ==> bytes_result(r) == Err::<
                Seq<u8>,
                ProtocolError,
            >(ProtocolError::Violation) && final(conn).state == ClientState::Closed,
    {
        match conn.state {
            ClientState::Initial => {
                conn.state = ClientState::PuzzleSent;
                Ok(encode_puzzle(&conn.puzzle))
            },
            _ => {
                conn.state = ClientState::Closed;
                Err(ProtocolError::Violation)
            },
        }
    }

    /// The second and last step of a connection, with the reward at index
    /// `pick` of the pool: judges the received solution and returns the
    /// outcome, followed by the framed reward when it is accepted. The
    /// connection is closed afterwards, whatever the outcome.
    pub fn answer(&self, conn: &mut Connection, solution: &[u8], pick: usize) -> (r: Result<
        Vec<u8>,
        ProtocolError,
    >)
        requires
            pick < self.spec_responses().len(),
        ensures
            final(conn).puzzle == old(conn).puzzle,
            final(conn).state == ClientState::Closed,
            bytes_result(r) == reply(
                old(conn).state,
                old(conn).puzzle,
                solution@,
                self.spec_responses()[pick as int]@,
            ),
    {
        let state = conn.state;
        conn.state = ClientState::Closed;
        match state {
            ClientState::PuzzleSent => {},
            _ => {
                return Err(ProtocolError::Violation);
            },
        }
        let candidate = match decode_solution(solution) {
            Ok(s) => s,
            Err(e) => {
                return Err(e);
            },
        };
        let solver = PuzzleSolver::new(&conn.puzzle);
        if !solver.is_valid_solution(&candidate) {
            return Ok(encode_solution_state(SolutionState::Rejected));
        }
        let mut out = encode_solution_state(SolutionState::Accepted);
        let framed = encode_varsize(self.responses[pick].as_str());
        let ghost head = out@;
        let mut i: usize = 0;
        while i < framed.len()
            invariant
                i <= framed@.len(),
                out@ == head + framed@.subrange(0, i as int),
            decreases framed@.len() - i,
        {
            out.push(framed[i]);
            i = i + 1;
            assert(out@ =~= head + framed@.subrange(0, i as int));
        }
        assert(framed@.subrange(0, framed@.len() as int) =~= framed@);
        Ok(out)
    }

    /// `answer` with a reward drawn at random from the pool.
    pub fn handle_solution(&self, conn: &mut Connection, solution: &[u8]) -> (r: Result<
        Vec<u8>,
        ProtocolError,
    >)
        ensures
            final(conn).puzzle == old(conn).puzzle,
            final(conn).state == ClientState::Closed,
            exists|i: int|
                0 <= i < self.spec_responses().len() && bytes_result(r) == reply(
                    old(conn).state,
                    old(conn).puzzle,
                    solution@,
                    #[trigger] self.spec_responses()[i]@,
                ),
    {
        proof {
            use_type_invariant(self);
        }
        let pick = random_index(self.responses.len());
        self.answer(conn, solution, pick)
    }
}

} // verus!
