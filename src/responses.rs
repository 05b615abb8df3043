//! Reading the pool of reward phrases out of a text: phrases are separated
//! by a blank line, and each is trimmed of spaces, carriage returns and
//! newlines at both ends.
use vstd::prelude::*;
use vstd::string::StrSliceExecFns;

verus! {

pub open spec fn is_trim_char(c: char) -> bool {
    c == '\r' || c == '\n' || c == ' '
}

pub open spec fn trim_start(s: Seq<char>) -> Seq<char>
    decreases s.len(),
{
    if s.len() > 0 && is_trim_char(s[0]) {
        trim_start(s.drop_first())
    } else {
        s
    }
}

pub open spec fn trim_end(s: Seq<char>) -> Seq<char>
    decreases s.len(),
{
    if s.len() > 0 && is_trim_char(s.last()) {
        trim_end(s.drop_last())
    } else {
        s
    }
}

/// `s` without the spaces, carriage returns and newlines at either end.
pub open spec fn trimmed(s: Seq<char>) -> Seq<char> {
    trim_end(trim_start(s))
}

/// The pieces of `s` between occurrences of a blank line ("\n\n"), found
/// left to right without overlap, where `cur` is the piece read so far.
pub open spec fn split_from(s: Seq<char>, cur: Seq<char>) -> Seq<Seq<char>>
    decreases s.len(),
{
    if s.len() == 0 {
        seq![cur]
    } else if s.len() >= 2 && s[0] == '\n' && s[1] == '\n' {
        seq![cur] + split_from(s.subrange(2, s.len() as int), Seq::empty())
    } else {
        split_from(s.drop_first(), cur.push(s[0]))
    }
}

/// The phrases of a text: its blank-line separated pieces, each trimmed.
pub open spec fn phrases(text: Seq<char>) -> Seq<Seq<char>> {
    split_from(text, Seq::empty()).map_values(|p: Seq<char>| trimmed(p))
}

proof fn lemma_split_nonempty(s: Seq<char>, cur: Seq<char>)
    ensures
        split_from(s, cur).len() >= 1,
    decreases s.len(),
{
    if s.len() == 0 {
    } else if s.len() >= 2 && s[0] == '\n' && s[1] == '\n' {
        lemma_split_nonempty(s.subrange(2, s.len() as int), Seq::empty());
    } else {
        lemma_split_nonempty(s.drop_first(), cur.push(s[0]));
    }
}

/// The characters of `text` from `lo` to `hi`, trimmed.
fn trim_range(text: &str, lo: usize, hi: usize) -> (r: String)
    requires
        lo <= hi <= text@.len(),
    ensures
        r@ == trimmed(text@.subrange(lo as int, hi as int)),
{
    let ghost whole = text@.subrange(lo as int, hi as int);
    let mut a = lo;
    while a < hi && (text.get_char(a) == '\r' || text.get_char(a) == '\n' || text.get_char(a)
        == ' ')
        invariant
            lo <= a <= hi <= text@.len(),
            trim_start(whole) == trim_start(text@.subrange(a as int, hi as int)),
        decreases hi - a,
    {
        assert(text@.subrange(a as int, hi as int).drop_first() =~= text@.subrange(
            a + 1,
            hi as int,
        ));
        a = a + 1;
    }
    let mut b = hi;
    while b > a && (text.get_char(b - 1) == '\r' || text.get_char(b - 1) == '\n' || text.get_char(
        b - 1,
    ) == ' ')
        invariant
            lo <= a <= b <= hi <= text@.len(),
            trim_start(whole) == trim_start(text@.subrange(a as int, hi as int)),
            trim_start(text@.subrange(a as int, hi as int)) == text@.subrange(a as int, hi as int),
            trim_end(text@.subrange(a as int, hi as int)) == trim_end(
                text@.subrange(a as int, b as int),
            ),
        decreases b - a,
    {
        assert(text@.subrange(a as int, b as int).drop_last() =~= text@.subrange(
            a as int,
            b - 1,
        ));
        b = b - 1;
    }
    let piece = text.substring_char(a, b);
    piece.to_owned()
}

/// The phrases of a text, as `phrases` states them.
pub fn parse_responses(text: &str) -> (r: Vec<String>)
    ensures
        r@.len() == phrases(text@).len(),
        r@.len() >= 1,
        forall|k: int| 0 <= k < r@.len() ==> #[trigger] r@[k]@ == phrases(text@)[k],
{
    proof {
        lemma_split_nonempty(text@, Seq::empty());
    }
    let n = text.unicode_len();
    let mut out: Vec<String> = Vec::new();
    let ghost done: Seq<Seq<char>> = Seq::empty();
    let mut start: usize = 0;
    let mut i: usize = 0;
    assert(text@.subrange(0, n as int) =~= text@);
    assert(text@.subrange(0, 0) =~= Seq::<char>::empty());
    assert(done + split_from(text@, Seq::empty()) =~= split_from(text@, Seq::empty()));
    while i < n
        invariant
            n == text@.len(),
            start <= i <= n,
            split_from(text@, Seq::empty()) == done + split_from(
                text@.subrange(i as int, n as int),
                text@.subrange(start as int, i as int),
            ),
            out@.len() == done.len(),
            forall|k: int| 0 <= k < out@.len() ==> #[trigger] out@[k]@ == trimmed(done[k]),
        decreases n - i,
    {
        let ghost rest = text@.subrange(i as int, n as int);
        if i + 1 < n && text.get_char(i) == '\n' && text.get_char(i + 1) == '\n' {
            assert(rest.subrange(2, rest.len() as int) =~= text@.subrange(i + 2, n as int));
            assert(text@.subrange(i + 2, i + 2) =~= Seq::<char>::empty());
            let piece = trim_range(text, start, i);
            proof {
                let cur = text@.subrange(start as int, i as int);
                assert(done + split_from(rest, cur) =~= (done + seq![cur]) + split_from(
                    text@.subrange(i + 2, n as int),
                    Seq::empty(),
                ));
                done = done + seq![cur];
            }
            out.push(piece);
            i = i + 2;
            start = i;
        } else {
            assert(rest.drop_first() =~= text@.subrange(i + 1, n as int));
            assert(text@.subrange(start as int, i as int).push(text@[i as int]) =~= text@.subrange(
                start as int,
                i + 1,
            ));
            i = i + 1;
        }
    }
    let last = trim_range(text, start, n);
    proof {
        let cur = text@.subrange(start as int, n as int);
        assert(text@.subrange(n as int, n as int) =~= Seq::<char>::empty());
        assert(split_from(text@, Seq::empty()) =~= done + seq![cur]);
        done = done + seq![cur];
    }
    out.push(last);
    out
}

} // verus!
