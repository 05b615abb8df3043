//! The client side: reading the puzzle, solving it and reading the outcome.
use vstd::prelude::*;
use crate::proto::{
    decode_puzzle, decode_solution_state, encode_solution, puzzle_bytes, solution_state_bytes,
    ProtocolError, Puzzle, SolutionState, PUZZLE_ENCODED_SIZE,
};
use crate::puzzle::{is_valid, PuzzleSolver, SolvingResult};

verus! {

/// A client of the server at `addr`.
pub struct Client<'a> {
    addr: &'a str,
}

/// What the client sends back for a puzzle, and how many candidates it took.
pub struct Answer {
    pub puzzle: Puzzle,
    pub message: Vec<u8>,
    pub hashes_tried: u128,
}

impl<'a> Client<'a> {
    pub closed spec fn spec_addr(&self) -> Seq<char> {
        self.addr@
    }

    pub fn new(addr: &'a str) -> (r: Self)
        ensures
            r.spec_addr() == addr@,
    {
        Client { addr }
    }

    pub fn addr(&self) -> (r: &'a str)
        ensures
            r@ == self.spec_addr(),
    {
        self.addr
    }

    /// Decodes the puzzle the server sent and solves it; the answer holds the
    /// encoded solution. Fails with `Decode` on a message that is not a puzzle.
    pub fn answer_puzzle(&self, msg: &[u8]) -> (r: Result<Answer, ProtocolError>)
        ensures
            match r {
                Ok(a) => {
                    &&& msg@.len() == PUZZLE_ENCODED_SIZE
                    &&& puzzle_bytes(a.puzzle) == msg@
                    &&& a.message@.len() == 16
                    &&& a.hashes_tried >= 1
                    &&& a.puzzle.complexity == 0 ==> a.hashes_tried == 1
                    &&& a.hashes_tried < u128::MAX ==> is_valid(
                        a.puzzle.value@,
                        a.message@,
                        a.puzzle.complexity,
                    )
                },
                Err(e) => msg@.len() != PUZZLE_ENCODED_SIZE && e == ProtocolError::Decode,
            },
    {
        let puzzle = match decode_puzzle(msg) {
            Ok(p) => p,
            Err(e) => {
                return Err(e);
            },
        };
        let solver = PuzzleSolver::new(&puzzle);
        let SolvingResult { solution, hashes_tried } = solver.solve();
        Ok(Answer { puzzle, message: encode_solution(&solution), hashes_tried })
    }

    /// Reads the outcome: `Ok` when the solution was accepted, and then the
    /// reward follows; `SolutionRejected` when it was rejected; `Decode` on
    /// any other bytes.
    pub fn read_solution_state(&self, msg: &[u8]) -> (r: Result<(), ProtocolError>)
        ensures
            r is Ok <==> msg@ == solution_state_bytes(SolutionState::Accepted),
            r == Err::<(), ProtocolError>(ProtocolError::SolutionRejected) <==> msg@
                == solution_state_bytes(SolutionState::Rejected),
            r == Err::<(), ProtocolError>(ProtocolError::Decode) <==> (msg@ != solution_state_bytes(
                SolutionState::Accepted,
            ) && msg@ != solution_state_bytes(SolutionState::Rejected)),
    {
        match decode_solution_state(msg) {
            Ok(SolutionState::Accepted) => Ok(()),
            Ok(SolutionState::Rejected) => Err(ProtocolError::SolutionRejected),
            Err(e) => Err(e),
        }
    }
}

} // verus!
