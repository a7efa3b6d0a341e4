use vstd::prelude::*;

use crate::decimal::{
    is_digit, lemma_decimal_reads_back, lemma_parse_of_decimal, parse_u32, parse_u32_at, to_decimal,
};
use crate::text::{chars_of, trim_bounds, trim_end, trim_start, trimmed};

verus! {

/// The smallest number the game may pick.
pub const LOWEST: u32 = 1;

/// The largest number the game may pick.
pub const HIGHEST: u32 = 100;

/// How a guess compares with the number to be found.
#[derive(Clone, Copy, Debug, PartialEq, Eq, Structural)]
pub enum Outcome {
    Less,
    Greater,
    Equal,
}

/// What the game makes of one line of input.
#[derive(Clone, Copy, Debug, PartialEq, Eq, Structural)]
pub enum Reply {
    /// The line holds no number; nothing was compared.
    Ignored,
    /// The line held `guess`, which compares with the target as `outcome`.
    Judged { guess: u32, outcome: Outcome },
}

pub open spec fn outcome_of(guess: u32, target: u32) -> Outcome {
    if guess < target {
        Outcome::Less
    } else if guess > target {
        Outcome::Greater
    } else {
        Outcome::Equal
    }
}

/// The number that a line of input holds: the line without white space at its ends,
/// read as a `u32`.
pub open spec fn guess_in(line: Seq<char>) -> Option<u32> {
    parse_u32(trimmed(line))
}

/// The reply to `line` in a game whose number is `target`.
pub open spec fn reply_to(target: u32, line: Seq<char>) -> Reply {
    match guess_in(line) {
        None => Reply::Ignored,
        Some(g) => Reply::Judged { guess: g, outcome: outcome_of(g, target) },
    }
}

/// A reply after which the game is over: the number was found.
pub open spec fn ends_game(r: Reply) -> bool {
    r matches Reply::Judged { outcome: Outcome::Equal, .. }
}

pub open spec fn outcome_message(o: Outcome) -> Seq<char> {
    match o {
        Outcome::Less => "Too small!"@,
        Outcome::Greater => "Too big!"@,
        Outcome::Equal => "You win!"@,
    }
}

impl Outcome {
    /// The message shown to the player for this outcome.
    pub fn message(&self) -> (r: &'static str)
        ensures
            r@ == outcome_message(*self),
    {
        match self {
            Outcome::Less => "Too small!",
            Outcome::Greater => "Too big!",
            Outcome::Equal => "You win!",
        }
    }
}

impl Reply {
    /// Tells whether this reply ends the game.
    pub fn is_win(&self) -> (r: bool)
        ensures
            r == ends_game(*self),
    {
        matches!(self, Reply::Judged { outcome: Outcome::Equal, .. })
    }
}

/// Classifies `guess` against `target`.
pub fn compare_guess(guess: u32, target: u32) -> (r: Outcome)
    ensures
        r == outcome_of(guess, target),
{
    if guess < target {
        Outcome::Less
    } else if guess > target {
        Outcome::Greater
    } else {
        Outcome::Equal
    }
}

/// Reads the guess that a line of input holds, if any.
pub fn parse_guess(line: &str) -> (r: Option<u32>)
    ensures
        r == guess_in(line@),
{
    let cs = chars_of(line);
    let (a, b) = trim_bounds(&cs);
    parse_u32_at(&cs, a, b)
}

/// The reply to one line of input when the number to find is `target`.
pub fn judge(target: u32, line: &str) -> (r: Reply)
    ensures
        r == reply_to(target, line@),
{
    match parse_guess(line) {
        None => Reply::Ignored,
        Some(g) => Reply::Judged { guess: g, outcome: compare_guess(g, target) },
    }
}

/// Replies to `lines` in turn, stopping after the line that finds `target`.
pub fn play(target: u32, lines: &Vec<String>) -> (r: Vec<Reply>)
    ensures
        r.len() <= lines.len(),
        forall|i: int| 0 <= i < r.len() ==> r[i] == reply_to(target, #[trigger] lines@[i]@),
        forall|i: int| 0 <= i < r.len() - 1 ==> !ends_game(#[trigger] r[i]),
        r.len() == lines.len() || (r.len() > 0 && ends_game(r[r.len() - 1])),
{
    let mut r: Vec<Reply> = Vec::new();
    let mut i: usize = 0;
    while i < lines.len()
        invariant_except_break
            i <= lines.len(),
            r.len() == i,
            forall|k: int| 0 <= k < r.len() ==> r[k] == reply_to(target, #[trigger] lines@[k]@),
            forall|k: int| 0 <= k < r.len() ==> !ends_game(#[trigger] r[k]),
        ensures
            r.len() <= lines.len(),
            forall|k: int| 0 <= k < r.len() ==> r[k] == reply_to(target, #[trigger] lines@[k]@),
            forall|k: int| 0 <= k < r.len() - 1 ==> !ends_game(#[trigger] r[k]),
            r.len() == lines.len() || (r.len() > 0 && ends_game(r[r.len() - 1])),
        decreases lines.len() - i,
    {
        let reply = judge(target, lines[i].as_str());
        r.push(reply);
        i = i + 1;
        if reply.is_win() {
            break;
        }
    }
    r
}

/// A number below the target is judged too small, and the game goes on.
pub proof fn lemma_smaller_guess_goes_on(target: u32, line: Seq<char>, guess: u32)
    requires
        guess_in(line) == Some(guess),
        guess < target,
    ensures
        reply_to(target, line) == (Reply::Judged { guess, outcome: Outcome::Less }),
        !ends_game(reply_to(target, line)),
{
}

/// A number above the target is judged too big, and the game goes on.
pub proof fn lemma_bigger_guess_goes_on(target: u32, line: Seq<char>, guess: u32)
    requires
        guess_in(line) == Some(guess),
        guess > target,
    ensures
        reply_to(target, line) == (Reply::Judged { guess, outcome: Outcome::Greater }),
        !ends_game(reply_to(target, line)),
{
}

/// The target itself ends the game.
pub proof fn lemma_right_guess_ends(target: u32, line: Seq<char>)
    requires
        guess_in(line) == Some(target),
    ensures
        reply_to(target, line) == (Reply::Judged { guess: target, outcome: Outcome::Equal }),
        ends_game(reply_to(target, line)),
{
}

/// A line that holds no number is not compared, and the game goes on.
pub proof fn lemma_non_number_ignored(target: u32, line: Seq<char>)
    requires
        guess_in(line) is None,
    ensures
        reply_to(target, line) == Reply::Ignored,
        !ends_game(reply_to(target, line)),
{
}

/// A line that holds a number in decimal, ended by a newline as a terminal gives it,
/// holds that number.
pub proof fn lemma_number_line_holds_it(n: u32)
    ensures
        guess_in(to_decimal(n as nat).push('\n')) == Some(n),
{
    let d = to_decimal(n as nat);
    let line = d.push('\n');
    lemma_parse_of_decimal(n);
    lemma_decimal_reads_back(n as nat);
    assert(is_digit(d[0]));
    assert(line[0] == d[0]);
    assert(trim_start(line) == line);
    assert(line.drop_last() =~= d);
    assert(is_digit(d.last()));
    assert(trim_end(d) == d);
    assert(trimmed(line) == d);
}

/// Relies on `rand::thread_rng` and `rand::Rng::gen_range` over `lo..=hi`: the value
/// drawn lies in that inclusive range (`gen_range` panics only on an empty range).
#[verifier::external_body]
fn draw_between(lo: u32, hi: u32) -> (r: u32)
    requires
        lo <= hi,
    ensures
        lo <= r <= hi,
{
    rand::Rng::gen_range(&mut rand::thread_rng(), lo..=hi)
}

/// One round of the guessing game: a number fixed when the round starts, and
/// whether it has been found.
pub struct Game {
    target: u32,
    over: bool,
}

impl Game {
    /// The number to be found.
    pub closed spec fn secret(&self) -> u32 {
        self.target
    }

    /// Whether the number has been found.
    pub closed spec fn finished(&self) -> bool {
        self.over
    }

    /// A round whose number is `target`.
    pub fn new(target: u32) -> (g: Game)
        requires
            LOWEST <= target <= HIGHEST,
        ensures
            g.secret() == target,
            !g.finished(),
    {
        Game { target, over: false }
    }

    /// A round whose number is drawn at random between `LOWEST` and `HIGHEST`.
    pub fn start() -> (g: Game)
        ensures
            LOWEST <= g.secret() <= HIGHEST,
            !g.finished(),
    {
        Game { target: draw_between(LOWEST, HIGHEST), over: false }
    }

    /// The number to be found.
    pub fn target(&self) -> (r: u32)
        ensures
            r == self.secret(),
    {
        self.target
    }

    /// Tells whether the number has been found.
    pub fn is_over(&self) -> (r: bool)
        ensures
            r == self.finished(),
    {
        self.over
    }

    /// Takes one line of input. The number stays as it was; the round is over once a
    /// reply finds it.
    pub fn guess(&mut self, line: &str) -> (r: Reply)
        ensures
            r == reply_to(old(self).secret(), line@),
            final(self).secret() == old(self).secret(),
            final(self).finished() == (old(self).finished() || ends_game(r)),
    {
        let r = judge(self.target, line);
        if r.is_win() {
            self.over = true;
        }
        r
    }
}

} // verus!
