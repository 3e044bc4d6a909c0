use balancebeam::hangman::{
    get_a_word, init_a_guess_word, replace_i_word, Game, Outcome, GUESSES,
};

#[test]
fn the_word_is_fixed() {
    assert_eq!(get_a_word(), "mamemamehong");
}

#[test]
fn a_covered_word_is_all_dashes() {
    assert_eq!(init_a_guess_word(0), "");
    assert_eq!(init_a_guess_word(1), "-");
    assert_eq!(init_a_guess_word(12), "------------");
}

#[test]
fn one_character_is_replaced() {
    assert_eq!(replace_i_word(String::from("-----"), 0, 'a'), "a----");
    assert_eq!(replace_i_word(String::from("-----"), 2, 'b'), "--b--");
    assert_eq!(replace_i_word(String::from("-----"), 4, 'c'), "----c");
    assert_eq!(replace_i_word(String::from("-----"), 5, 'd'), "-----");
    assert_eq!(replace_i_word(String::new(), 0, 'd'), "");
    assert_eq!(replace_i_word(String::from("héllo"), 2, 'L'), "héLlo");
}

#[test]
fn a_new_game_shows_nothing() {
    let game = Game::new(get_a_word());
    assert_eq!(game.guess_word(), "------------");
    assert_eq!(game.guessed_letters(), "");
    assert_eq!(game.guesses_left(), 5);
    assert_eq!(GUESSES, 5);
}

#[test]
fn a_hit_uncovers_every_occurrence_and_costs_nothing() {
    let mut game = Game::new(get_a_word());
    assert_eq!(game.guess("m"), Outcome::Playing);
    assert_eq!(game.guess_word(), "m-m-m-m-----");
    assert_eq!(game.guesses_left(), 5);
    assert_eq!(game.guess("e"), Outcome::Playing);
    assert_eq!(game.guess_word(), "m-mem-me----");
    assert_eq!(game.guessed_letters(), "me");
}

#[test]
fn a_miss_costs_one_guess_and_the_fifth_loses() {
    let mut game = Game::new(get_a_word());
    assert_eq!(game.guess("z"), Outcome::Playing);
    assert_eq!(game.guesses_left(), 4);
    assert_eq!(game.guess(""), Outcome::Playing);
    assert_eq!(game.guesses_left(), 3);
    assert_eq!(game.guess("q"), Outcome::Playing);
    assert_eq!(game.guess("M"), Outcome::Playing);
    assert_eq!(game.guesses_left(), 1);
    assert_eq!(game.guess("x"), Outcome::Lost);
    assert_eq!(game.guesses_left(), 0);
    assert_eq!(game.guess_word(), "------------");
    assert_eq!(game.guessed_letters(), "zqMx");
}

#[test]
fn the_game_is_won_when_nothing_is_covered() {
    let mut game = Game::new(get_a_word());
    for letter in ["m", "a", "e", "h", "o", "n"] {
        assert_eq!(game.guess(letter), Outcome::Playing);
    }
    assert_eq!(game.guess_word(), "mamemamehon-");
    assert_eq!(game.guess("g"), Outcome::Won);
    assert_eq!(game.guess_word(), "mamemamehong");
    assert_eq!(game.guesses_left(), 5);
}

#[test]
fn only_the_first_character_of_a_line_counts() {
    let mut game = Game::new(String::from("abc"));
    assert_eq!(game.guess("bzz"), Outcome::Playing);
    assert_eq!(game.guess_word(), "-b-");
    assert_eq!(game.guess("zab"), Outcome::Playing);
    assert_eq!(game.guess_word(), "-b-");
    assert_eq!(game.guesses_left(), 4);
    assert_eq!(game.guessed_letters(), "bzzzab");
    assert_eq!(game.guess("a"), Outcome::Playing);
    assert_eq!(game.guess("c"), Outcome::Won);
}
