//! The puzzle predicate, puzzle creation and the client's brute-force search.
use vstd::prelude::*;
use sha2::Digest;
use rand::Rng;
use crate::proto::{Puzzle, PuzzleSolution};

verus! {

/// Complexity of a puzzle made without an explicit one.
pub const DEFAULT_COMPLEXITY: u8 = 4;

/// The SHA-256 digest of `data`.
pub uninterp spec fn sha256_of(data: Seq<u8>) -> Seq<u8>;

/// Relies on sha2's `Sha256`: feeding `prefix` then `suffix` to one hasher
/// and finalizing yields the 32-byte SHA-256 digest of their concatenation.
#[verifier::external_body]
fn sha256_concat(prefix: &[u8], suffix: &[u8]) -> (r: [u8; 32])
    ensures
        r@ == sha256_of(prefix@ + suffix@),
{
    let mut hasher = sha2::Sha256::new();
    hasher.update(prefix);
    hasher.update(suffix);
    hasher.finalize().into()
}

/// Relies on rand's `thread_rng().gen()`: sixteen bytes from the thread-local
/// cryptographic generator. Nothing is promised of their values.
#[verifier::external_body]
fn random_bytes16() -> (r: [u8; 16]) {
    rand::thread_rng().gen::<[u8; 16]>()
}

/// Nibble `i` of `h`, counting the high nibble of each byte before its low one.
pub open spec fn nibble(h: Seq<u8>, i: int) -> u8 {
    if i % 2 == 0 {
        h[i / 2] / 16
    } else {
        h[i / 2] % 16
    }
}

/// `h` starts with at least `k` zero nibbles.
pub open spec fn has_leading_zero_nibbles(h: Seq<u8>, k: int) -> bool {
    &&& k <= 2 * h.len()
    &&& forall|i: int| 0 <= i < k ==> nibble(h, i) == 0
}

/// A solution is valid for a puzzle value when the digest of the value
/// followed by the solution starts with `complexity` zero nibbles.
pub open spec fn is_valid(value: Seq<u8>, solution: Seq<u8>, complexity: u8) -> bool {
    has_leading_zero_nibbles(sha256_of(value + solution), complexity as int)
}

/// Whether a digest starts with at least `complexity` zero nibbles. The scan
/// goes byte by byte, high nibble first, and stops at the first non-zero one.
pub fn meets_complexity(hash: &[u8; 32], complexity: u8) -> (r: bool)
    ensures
        r == has_leading_zero_nibbles(hash@, complexity as int),
{
    let limit: usize = complexity as usize / 2 + 1;
    let mut zeros: usize = 0;
    let mut done = false;
    let mut i: usize = 0;
    while i < 32 && i < limit && !done
        invariant
            i <= 32,
            i <= limit,
            hash@.len() == 32,
            limit == complexity as usize / 2 + 1,
            forall|j: int| 0 <= j < zeros ==> nibble(hash@, j) == 0,
            !done ==> zeros == 2 * i,
            done ==> zeros < 64 && nibble(hash@, zeros as int) != 0,
        decreases 32 - i,
    {
        let c = hash[i];
        assert(c >> 4u8 == c / 16) by (bit_vector);
        assert(c & 0xFu8 == c % 16) by (bit_vector);
        if c >> 4u8 == 0 {
            zeros = zeros + 1;
            if c & 0xFu8 == 0 {
                zeros = zeros + 1;
            } else {
                done = true;
            }
        } else {
            done = true;
        }
        i = i + 1;
    }
    let r = zeros >= complexity as usize;
    if !r {
        if !done {
            assert(!(complexity as int <= 64));
        }
    }
    r
}

/// Zero complexity accepts every solution.
pub proof fn lemma_zero_complexity_accepts_all(value: Seq<u8>, solution: Seq<u8>)
    ensures
        is_valid(value, solution, 0),
{
}

/// A digest whose hex form starts with "000" (a zero byte, then a zero high
/// nibble) meets complexity 3, and meets complexity 4 exactly when its
/// fourth hex digit is zero too.
pub proof fn lemma_three_zero_digits(value: Seq<u8>, solution: Seq<u8>)
    requires
        sha256_of(value + solution).len() == 32,
        sha256_of(value + solution)[0] == 0,
        sha256_of(value + solution)[1] / 16 == 0,
    ensures
        is_valid(value, solution, 3),
        is_valid(value, solution, 4) <==> sha256_of(value + solution)[1] % 16 == 0,
{
    let h = sha256_of(value + solution);
    assert(nibble(h, 0) == 0 && nibble(h, 1) == 0 && nibble(h, 2) == 0);
    assert(nibble(h, 3) == h[1] % 16);
}

impl Puzzle {
    /// A puzzle of the given complexity with a fresh random value.
    pub fn new(complexity: u8) -> (r: Puzzle)
        ensures
            r.complexity == complexity,
    {
        let value = random_bytes16();
        Puzzle { complexity, value }
    }
}

impl Default for Puzzle {
    fn default() -> (r: Puzzle)
        ensures
            r.complexity == DEFAULT_COMPLEXITY,
    {
        Puzzle::new(DEFAULT_COMPLEXITY)
    }
}

/// Checks and searches solutions for one puzzle.
pub struct PuzzleSolver<'a> {
    pub puzzle: &'a Puzzle,
}

/// A solution found by the search, and how many candidates it took.
pub struct SolvingResult {
    pub solution: PuzzleSolution,
    pub hashes_tried: u128,
}

impl<'a> PuzzleSolver<'a> {
    pub fn new(puzzle: &'a Puzzle) -> (r: Self)
        ensures
            *r.puzzle == *puzzle,
    {
        PuzzleSolver { puzzle }
    }

    pub fn is_valid_solution(&self, solution: &PuzzleSolution) -> (r: bool)
        ensures
            r == is_valid(self.puzzle.value@, solution@, self.puzzle.complexity),
            sha256_of(self.puzzle.value@ + solution@).len() == 32,
            self.puzzle.complexity > 64 ==> !r,
    {
        let hash = sha256_concat(&self.puzzle.value, solution);
        meets_complexity(&hash, self.puzzle.complexity)
    }

    /// Draws random candidates until one is valid. The count of candidates
    /// is a `u128`; only if it ran out would the last candidate be returned
    /// unchecked. At complexity 0 the first candidate is taken.
    pub fn solve(&self) -> (r: SolvingResult)
        ensures
            r.hashes_tried >= 1,
            self.puzzle.complexity == 0 ==> r.hashes_tried == 1,
            r.hashes_tried < u128::MAX ==> is_valid(
                self.puzzle.value@,
                r.solution@,
                self.puzzle.complexity,
            ),
    {
        let mut hashes_tried: u128 = 0;
        loop
            invariant
                hashes_tried < u128::MAX,
                self.puzzle.complexity == 0 ==> hashes_tried == 0,
            decreases u128::MAX - hashes_tried,
        {
            let solution = random_bytes16();
            hashes_tried = hashes_tried + 1;
            if self.is_valid_solution(&solution) || hashes_tried == u128::MAX {
                return SolvingResult { solution, hashes_tried };
            }
        }
    }
}

} // verus!
