//! A word-guessing game: the player uncovers a hidden word letter by letter
//! and may miss only a few times.
//!
//! The game is a plain value. The caller reads the player's input and shows
//! the state; every guess is one call of `Game::guess`.

use crate::text::push_char;
use vstd::prelude::*;
use vstd::string::StringExecFns;

verus! {

/// The number of misses after which the game is lost.
pub const GUESSES: i32 = 5;

/// The word to guess.
pub fn get_a_word() -> (word: String)
    ensures
        word@ == "mamemamehong"@,
{
    "mamemamehong".to_owned()
}

/// `n` dashes: a word of `n` letters of which none is uncovered.
pub open spec fn dashes(n: nat) -> Seq<char> {
    Seq::new(n, |i: int| '-')
}

/// A word of `n` letters with every letter covered by a dash.
pub fn init_a_guess_word(n: usize) -> (word: String)
    ensures
        word@ == dashes(n as nat),
{
    let mut word = String::new();
    let mut i: usize = 0;
    assert(word@ =~= dashes(0));
    while i < n
        invariant
            i <= n,
            word@ == dashes(i as nat),
        decreases n - i,
    {
        push_char(&mut word, '-');
        i += 1;
        assert(word@ =~= dashes(i as nat));
    }
    word
}

/// `word` with the character at position `i` replaced by `chr`; `word`
/// itself where it has no position `i`.
pub open spec fn replaced(word: Seq<char>, i: int, chr: char) -> Seq<char> {
    if 0 <= i < word.len() {
        word.update(i, chr)
    } else {
        word
    }
}

/// `word` with its character at position `i` replaced by `chr`. Positions
/// count characters; a position behind the end changes nothing.
pub fn replace_i_word(word: String, i: usize, chr: char) -> (new_word: String)
    ensures
        new_word@ == replaced(word@, i as int, chr),
{
    broadcast use vstd::string::group_string_axioms;

    let n = word.as_str().unicode_len();
    let mut x: usize = 0;
    let mut new_word = String::new();
    let ghost target = replaced(word@, i as int, chr);
    assert(new_word@ =~= target.subrange(0, 0));
    for c in it: word.as_str().chars()
        invariant
            it.seq() == word@,
            n == word@.len(),
            x == it.index(),
            x <= n,
            target == replaced(word@, i as int, chr),
            new_word@ == target.subrange(0, x as int),
    {
        if x == i {
            push_char(&mut new_word, chr);
        } else {
            push_char(&mut new_word, c);
        }
        x += 1;
        assert(new_word@ =~= target.subrange(0, x as int));
    }
    assert(target.subrange(0, n as int) =~= target);
    new_word
}

/// `shown` with every position uncovered at which `word` holds `letter`.
pub open spec fn uncovered(word: Seq<char>, shown: Seq<char>, letter: char) -> Seq<char> {
    Seq::new(
        shown.len(),
        |i: int|
            if i < word.len() && word[i] == letter {
                letter
            } else {
                shown[i]
            },
    )
}

/// How a game stands.
#[derive(Clone, Copy, Debug, PartialEq, Eq, Structural)]
pub enum Outcome {
    /// The player may guess again.
    Playing,
    /// The whole word is uncovered.
    Won,
    /// No miss is left.
    Lost,
}

/// A game in progress.
pub struct Game {
    word: String,
    guess_word: String,
    guessed_letters: String,
    guesses_left: i32,
}

impl Game {
    /// The hidden word.
    pub closed spec fn word(&self) -> Seq<char> {
        self.word@
    }

    /// The word as far as it is uncovered, with a dash for each covered
    /// letter.
    pub closed spec fn shown(&self) -> Seq<char> {
        self.guess_word@
    }

    /// Everything the player has typed so far.
    pub closed spec fn guessed(&self) -> Seq<char> {
        self.guessed_letters@
    }

    /// The number of misses that the player can still afford.
    pub closed spec fn left(&self) -> int {
        self.guesses_left as int
    }

    /// The shown word is as long as the hidden one, and some miss is still
    /// left or the game is over.
    pub open spec fn wf(&self) -> bool {
        &&& self.shown().len() == self.word().len()
        &&& 0 <= self.left() <= GUESSES
    }

    /// A new game for `word`: nothing uncovered, nothing typed, all misses
    /// left.
    pub fn new(word: String) -> (game: Game)
        ensures
            game.wf(),
            game.word() == word@,
            game.shown() == dashes(word@.len()),
            game.guessed() == Seq::<char>::empty(),
            game.left() == GUESSES,
    {
        let n = word.as_str().unicode_len();
        Game {
            word,
            guess_word: init_a_guess_word(n),
            guessed_letters: String::new(),
            guesses_left: GUESSES,
        }
    }

    /// The word as far as it is uncovered.
    pub fn guess_word(&self) -> (r: String)
        ensures
            r@ == self.shown(),
    {
        self.guess_word.clone()
    }

    /// Everything the player has typed so far.
    pub fn guessed_letters(&self) -> (r: String)
        ensures
            r@ == self.guessed(),
    {
        self.guessed_letters.clone()
    }

    /// The number of misses that the player can still afford.
    pub fn guesses_left(&self) -> (r: i32)
        ensures
            r == self.left(),
    {
        self.guesses_left
    }

    /// Plays one line of input. The whole line is remembered; its first
    /// character is the guessed letter.
    ///
    /// A letter that occurs in the word is uncovered wherever it occurs, and
    /// the game is won once nothing is covered. Any other input, the empty
    /// line too, costs one miss, and the game is lost with the last miss.
    pub fn guess(&mut self, input: &str) -> (outcome: Outcome)
        requires
            old(self).wf(),
            old(self).left() > 0,
        ensures
            final(self).wf(),
            final(self).word() == old(self).word(),
            final(self).guessed() == old(self).guessed() + input@,
            hits(old(self).word(), input@) ==> {
                &&& final(self).shown() == uncovered(
                    old(self).word(),
                    old(self).shown(),
                    input@[0],
                )
                &&& final(self).left() == old(self).left()
                &&& outcome == if final(self).shown() == final(self).word() {
                    Outcome::Won
                } else {
                    Outcome::Playing
                }
            },
            !hits(old(self).word(), input@) ==> {
                &&& final(self).shown() == old(self).shown()
                &&& final(self).left() == old(self).left() - 1
                &&& outcome == if final(self).left() == 0 {
                    Outcome::Lost
                } else {
                    Outcome::Playing
                }
            },
    {
        self.guessed_letters.append(input);
        let n = self.word.as_str().unicode_len();
        if input.unicode_len() == 0 {
            return self.miss();
        }
        let letter = input.get_char(0);
        let ghost before = self.guess_word@;
        let mut flag: bool = false;
        let mut i: usize = 0;
        while i < n
            invariant
                i <= n,
                n == self.word@.len(),
                self.guess_word@.len() == n,
                before.len() == n,
                self.word@ == old(self).word@,
                self.guessed_letters@ == old(self).guessed_letters@ + input@,
                self.guesses_left == old(self).guesses_left,
                flag <==> exists|j: int| 0 <= j < i && self.word@[j] == letter,
                forall|j: int|
                    0 <= j < i ==> self.guess_word@[j] == uncovered(self.word@, before, letter)[j],
                forall|j: int| i <= j < n ==> self.guess_word@[j] == before[j],
            decreases n - i,
        {
            let hit = self.word.as_str().get_char(i) == letter;
            let ghost earlier = flag;
            if hit {
                flag = true;
                let shown = self.guess_word.clone();
                self.guess_word = replace_i_word(shown, i, letter);
            }
            proof {
                let w = self.word@;
                if hit {
                    assert(0 <= i < i + 1 && w[i as int] == letter);
                } else if exists|j: int| 0 <= j < i + 1 && w[j] == letter {
                    let j = choose|j: int| 0 <= j < i + 1 && w[j] == letter;
                    assert(0 <= j < i && w[j] == letter);
                    assert(earlier);
                } else if earlier {
                    let j = choose|j: int| 0 <= j < i && w[j] == letter;
                    assert(0 <= j < i + 1 && w[j] == letter);
                }
            }
            i += 1;
        }
        proof {
            assert(self.guess_word@ =~= uncovered(self.word@, before, letter));
            if !flag {
                assert(self.guess_word@ =~= before);
            }
        }
        if !flag {
            self.miss()
        } else if self.guess_word == self.word {
            Outcome::Won
        } else {
            Outcome::Playing
        }
    }

    fn miss(&mut self) -> (outcome: Outcome)
        requires
            old(self).wf(),
            old(self).left() > 0,
        ensures
            final(self).wf(),
            final(self).word() == old(self).word(),
            final(self).shown() == old(self).shown(),
            final(self).guessed() == old(self).guessed(),
            final(self).left() == old(self).left() - 1,
            outcome == if final(self).left() == 0 {
                Outcome::Lost
            } else {
                Outcome::Playing
            },
    {
        self.guesses_left -= 1;
        if self.guesses_left == 0 {
            Outcome::Lost
        } else {
            Outcome::Playing
        }
    }
}

/// The first character of `input` is a letter of `word`.
pub open spec fn hits(word: Seq<char>, input: Seq<char>) -> bool {
    input.len() > 0 && word.contains(input[0])
}

} // verus!
