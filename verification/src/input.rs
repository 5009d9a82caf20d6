//! Reading the player's answers: a line of input is trimmed of white space
//! and compared with the tokens that the game knows.

use vstd::prelude::*;
use vstd::std_specs::iter::IteratorSpec;

verus! {

/// Whether a character is white space: the characters with the Unicode
/// property White_Space, among them the blank, the tab and the line ends.
pub open spec fn is_space(c: char) -> bool {
    let code = c as u32;
    ||| 0x0009 <= code <= 0x000D
    ||| code == 0x0020
    ||| code == 0x0085
    ||| code == 0x00A0
    ||| code == 0x1680
    ||| 0x2000 <= code <= 0x200A
    ||| code == 0x2028
    ||| code == 0x2029
    ||| code == 0x202F
    ||| code == 0x205F
    ||| code == 0x3000
}

/// A line without the white space at its start and at its end.
pub open spec fn trimmed(line: Seq<char>) -> Seq<char>
    decreases line.len(),
{
    if line.len() == 0 {
        line
    } else if is_space(line.first()) {
        trimmed(line.drop_first())
    } else if is_space(line.last()) {
        trimmed(line.drop_last())
    } else {
        line
    }
}

/// What the player answers when asked to hit or to stand.
#[derive(Copy, Clone, Debug, PartialEq, Eq, Structural)]
pub enum Choice {
    Hit,
    Stand,
    Quit,
    Other,
}

/// The choice that a line of input stands for: `h` hits, `s` stands, `q`
/// quits, each with any white space around it. Every other line is no
/// choice of the three.
pub open spec fn choice_of(line: Seq<char>) -> Choice {
    let token = trimmed(line);
    if token == seq!['h'] {
        Choice::Hit
    } else if token == seq!['s'] {
        Choice::Stand
    } else if token == seq!['q'] {
        Choice::Quit
    } else {
        Choice::Other
    }
}

/// Whether a line of input declines another round: it does when it is `n`
/// with any white space around it, and no other line does.
pub open spec fn declines(line: Seq<char>) -> bool {
    trimmed(line) == seq!['n']
}

/// The trimmed line lies between the white space that leads the line and
/// the white space that ends it.
proof fn lemma_trimmed_between(line: Seq<char>, start: int, end: int)
    requires
        0 <= start <= end <= line.len(),
        forall|k: int| 0 <= k < start ==> is_space(line[k]),
        forall|k: int| end <= k < line.len() ==> is_space(line[k]),
        start < end ==> !is_space(line[start]) && !is_space(line[end - 1]),
    ensures
        trimmed(line) == line.subrange(start, end),
    decreases line.len(),
{
    if line.len() == 0 {
        assert(line.subrange(start, end) =~= line);
    } else if is_space(line.first()) {
        let rest = line.drop_first();
        if start == 0 {
            assert(end == 0);
            lemma_trimmed_between(rest, 0, 0);
            assert(rest.subrange(0, 0) =~= line.subrange(0, 0));
        } else {
            assert forall|k: int| end - 1 <= k < rest.len() implies is_space(rest[k]) by {
                assert(rest[k] == line[k + 1]);
            }
            lemma_trimmed_between(rest, start - 1, end - 1);
            assert(rest.subrange(start - 1, end - 1) =~= line.subrange(start, end));
        }
    } else if is_space(line.last()) {
        let rest = line.drop_last();
        assert(start == 0);
        assert(end < line.len()) by {
            if end == line.len() {
                assert(start < end);
            }
        }
        lemma_trimmed_between(rest, start, end);
        assert(rest.subrange(start, end) =~= line.subrange(start, end));
    } else {
        assert(start == 0);
        assert(end == line.len());
        assert(line.subrange(start, end) =~= line);
    }
}

fn is_white_space(c: char) -> (space: bool)
    ensures
        space == is_space(c),
{
    let code: u32 = c as u32;
    (0x0009 <= code && code <= 0x000D) || code == 0x0020 || code == 0x0085 || code == 0x00A0
        || code == 0x1680 || (0x2000 <= code && code <= 0x200A) || code == 0x2028 || code
        == 0x2029 || code == 0x202F || code == 0x205F || code == 0x3000
}

/// The characters of a line, one by one.
fn chars_of(line: &str) -> (chars: Vec<char>)
    ensures
        chars@ == line@,
{
    broadcast use vstd::string::axiom_spec_iter;

    let mut chars: Vec<char> = Vec::new();
    for c in it: line.chars()
        invariant
            it.seq() == line@,
            chars@ == line@.take(it.index()),
    {
        chars.push(c);
        assert(line@.take(it.index() + 1) == line@.take(it.index()).push(c));
    }
    assert(line@.take(line@.len() as int) == line@);
    chars
}

/// The character that a line consists of once it is trimmed, where that
/// is a single one.
fn sole_char(line: &str) -> (found: Option<char>)
    ensures
        found matches Some(c) ==> trimmed(line@) == seq![c],
        found is None ==> trimmed(line@).len() != 1,
{
    let chars = chars_of(line);
    let mut start: usize = 0;
    while start < chars.len() && is_white_space(chars[start])
        invariant
            start <= chars@.len(),
            forall|k: int| 0 <= k < start ==> is_space(chars@[k]),
        decreases chars@.len() - start,
    {
        start += 1;
    }
    let mut end: usize = chars.len();
    while end > start && is_white_space(chars[end - 1])
        invariant
            start <= end <= chars@.len(),
            forall|k: int| end <= k < chars@.len() ==> is_space(chars@[k]),
        decreases end,
    {
        end -= 1;
    }
    proof {
        lemma_trimmed_between(chars@, start as int, end as int);
    }
    if end - start == 1 {
        assert(chars@.subrange(start as int, end as int) =~= seq![chars@[start as int]]);
        Some(chars[start])
    } else {
        None
    }
}

impl Choice {
    /// Reads the player's choice from a line of input.
    pub fn read(line: &str) -> (choice: Choice)
        ensures
            choice == choice_of(line@),
    {
        match sole_char(line) {
            Some(c) => {
                assert(seq![c] == seq!['h'] <==> c == 'h') by {
                    assert(seq![c][0] == c);
                    assert(seq!['h'][0] == 'h');
                }
                assert(seq![c] == seq!['s'] <==> c == 's') by {
                    assert(seq![c][0] == c);
                    assert(seq!['s'][0] == 's');
                }
                assert(seq![c] == seq!['q'] <==> c == 'q') by {
                    assert(seq![c][0] == c);
                    assert(seq!['q'][0] == 'q');
                }
                if c == 'h' {
                    Choice::Hit
                } else if c == 's' {
                    Choice::Stand
                } else if c == 'q' {
                    Choice::Quit
                } else {
                    Choice::Other
                }
            },
            None => {
                assert(seq!['h'].len() == 1 && seq!['s'].len() == 1 && seq!['q'].len() == 1);
                Choice::Other
            },
        }
    }
}

/// Whether the player's answer declines another round.
pub fn declines_replay(line: &str) -> (declined: bool)
    ensures
        declined == declines(line@),
{
    match sole_char(line) {
        Some(c) => {
            assert(seq![c] == seq!['n'] <==> c == 'n') by {
                assert(seq![c][0] == c);
                assert(seq!['n'][0] == 'n');
            }
            c == 'n'
        },
        None => {
            assert(seq!['n'].len() == 1);
            false
        },
    }
}

} // verus!
