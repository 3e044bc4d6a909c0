//! Counting the lines, words and letters of a text that is held as a list
//! of lines.

use vstd::prelude::*;

verus! {

/// How many characters of `s` satisfy `p`.
pub open spec fn count_where(s: Seq<char>, p: spec_fn(char) -> bool) -> nat
    decreases s.len(),
{
    if s.len() == 0 {
        0
    } else {
        count_where(s.drop_last(), p) + if p(s.last()) {
            1nat
        } else {
            0nat
        }
    }
}

/// `c` is one of the fifty-two unaccented Latin letters.
pub open spec fn is_letter(c: char) -> bool {
    ('a' <= c <= 'z') || ('A' <= c <= 'Z')
}

/// The words of one line: the pieces between its spaces. A line without a
/// space is one word, the empty line too, and two spaces in a row have an
/// empty word between them.
pub open spec fn words_in(line: Seq<char>) -> nat {
    count_where(line, |c: char| c == ' ') + 1
}

/// The letters of one line.
pub open spec fn letters_in(line: Seq<char>) -> nat {
    count_where(line, |c: char| is_letter(c))
}

/// The words of all `lines` together.
pub open spec fn total_words(lines: Seq<String>) -> nat
    decreases lines.len(),
{
    if lines.len() == 0 {
        0
    } else {
        total_words(lines.drop_last()) + words_in(lines.last()@)
    }
}

/// The letters of all `lines` together.
pub open spec fn total_letters(lines: Seq<String>) -> nat
    decreases lines.len(),
{
    if lines.len() == 0 {
        0
    } else {
        total_letters(lines.drop_last()) + letters_in(lines.last()@)
    }
}

/// Counts the spaces of `line`.
fn count_spaces(line: &str) -> (n: usize)
    ensures
        n == count_where(line@, |c: char| c == ' '),
{
    broadcast use vstd::string::group_string_axioms;

    let len = line.unicode_len();
    let mut n: usize = 0;
    assert(line@.subrange(0, 0) =~= Seq::<char>::empty());
    for c in it: line.chars()
        invariant
            it.seq() == line@,
            n == count_where(line@.subrange(0, it.index() as int), |c: char| c == ' '),
            n <= it.index() <= len,
            len == line@.len(),
    {
        let ghost k = it.index() as int;
        assert(line@.subrange(0, k + 1).drop_last() =~= line@.subrange(0, k));
        assert(line@.subrange(0, k + 1).last() == c);
        if c == ' ' {
            n += 1;
        }
    }
    assert(line@.subrange(0, len as int) =~= line@);
    n
}

/// Counts the letters of `line`.
fn count_letters(line: &str) -> (n: usize)
    ensures
        n == letters_in(line@),
{
    broadcast use vstd::string::group_string_axioms;

    let len = line.unicode_len();
    let mut n: usize = 0;
    assert(line@.subrange(0, 0) =~= Seq::<char>::empty());
    for c in it: line.chars()
        invariant
            it.seq() == line@,
            n == count_where(line@.subrange(0, it.index() as int), |c: char| is_letter(c)),
            n <= it.index() <= len,
            len == line@.len(),
    {
        let ghost k = it.index() as int;
        assert(line@.subrange(0, k + 1).drop_last() =~= line@.subrange(0, k));
        assert(line@.subrange(0, k + 1).last() == c);
        if ('a' <= c && c <= 'z') || ('A' <= c && c <= 'Z') {
            n += 1;
        }
    }
    assert(line@.subrange(0, len as int) =~= line@);
    n
}

/// The number of words in `file_lines`: per line, the pieces between its
/// spaces.
pub fn read_words_cnt(file_lines: &Vec<String>) -> (cnt: usize)
    requires
        total_words(file_lines@) <= usize::MAX,
    ensures
        cnt == total_words(file_lines@),
{
    let mut cnt: usize = 0;
    let mut i: usize = 0;
    assert(file_lines@.subrange(0, 0) =~= Seq::<String>::empty());
    while i < file_lines.len()
        invariant
            i <= file_lines@.len(),
            cnt == total_words(file_lines@.subrange(0, i as int)),
            total_words(file_lines@) <= usize::MAX,
        decreases file_lines@.len() - i,
    {
        let spaces = count_spaces(file_lines[i].as_str());
        proof {
            let upto = file_lines@.subrange(0, i + 1);
            assert(upto.drop_last() =~= file_lines@.subrange(0, i as int));
            assert(upto.last() == file_lines@[i as int]);
            lemma_total_words_grows(file_lines@, i + 1);
        }
        cnt = cnt + spaces + 1;
        i += 1;
    }
    assert(file_lines@.subrange(0, file_lines@.len() as int) =~= file_lines@);
    cnt
}

/// The number of lines in `file_lines`.
pub fn read_lines_cnt(file_lines: &Vec<String>) -> (cnt: usize)
    ensures
        cnt == file_lines@.len(),
{
    file_lines.len()
}

/// The number of letters in `file_lines`.
pub fn read_letters_cnt(file_lines: &Vec<String>) -> (cnt: usize)
    requires
        total_letters(file_lines@) <= usize::MAX,
    ensures
        cnt == total_letters(file_lines@),
{
    let mut cnt: usize = 0;
    let mut i: usize = 0;
    assert(file_lines@.subrange(0, 0) =~= Seq::<String>::empty());
    while i < file_lines.len()
        invariant
            i <= file_lines@.len(),
            cnt == total_letters(file_lines@.subrange(0, i as int)),
            total_letters(file_lines@) <= usize::MAX,
        decreases file_lines@.len() - i,
    {
        let letters = count_letters(file_lines[i].as_str());
        proof {
            let upto = file_lines@.subrange(0, i + 1);
            assert(upto.drop_last() =~= file_lines@.subrange(0, i as int));
            assert(upto.last() == file_lines@[i as int]);
            lemma_total_letters_grows(file_lines@, i + 1);
        }
        cnt = cnt + letters;
        i += 1;
    }
    assert(file_lines@.subrange(0, file_lines@.len() as int) =~= file_lines@);
    cnt
}

proof fn lemma_total_words_grows(lines: Seq<String>, k: int)
    requires
        0 <= k <= lines.len(),
    ensures
        total_words(lines.subrange(0, k)) <= total_words(lines),
    decreases lines.len() - k,
{
    if k == lines.len() {
        assert(lines.subrange(0, k) =~= lines);
    } else {
        lemma_total_words_grows(lines.drop_last(), k);
        assert(lines.drop_last().subrange(0, k) =~= lines.subrange(0, k));
    }
}

proof fn lemma_total_letters_grows(lines: Seq<String>, k: int)
    requires
        0 <= k <= lines.len(),
    ensures
        total_letters(lines.subrange(0, k)) <= total_letters(lines),
    decreases lines.len() - k,
{
    if k == lines.len() {
        assert(lines.subrange(0, k) =~= lines);
    } else {
        lemma_total_letters_grows(lines.drop_last(), k);
        assert(lines.drop_last().subrange(0, k) =~= lines.subrange(0, k));
    }
}

} // verus!
