//! File names and task names on the command line: which file names and
//! which texts pass for a task file, and which words of the command line
//! name tasks. These tests are regular expressions, matched by the `regex`
//! crate.

use crate::text::{append, chars_of, string_of};
use vstd::prelude::*;

verus! {

// Whether the regular expression `pattern` has a match anywhere in `text`,
// as the `regex` crate decides it; `None` where the crate does not accept
// `pattern` as a regular expression.
pub uninterp spec fn regex_match(pattern: Seq<char>, text: Seq<char>) -> Option<bool>;

/// `regex::Regex::new` on `pattern`, and `regex::Regex::is_match` of the
/// result on `text`. Nothing is claimed of the result but that it is the
/// crate's answer for these two strings: `None` where `Regex::new` returns an
/// error, else whether `is_match` found a match.
#[verifier::external_body]
fn pattern_matches(pattern: &str, text: &str) -> (r: Option<bool>)
    ensures
        r == regex_match(pattern@, text@),
{
    match regex::Regex::new(pattern) {
        Ok(compiled) => Some(compiled.is_match(text)),
        Err(_) => None,
    }
}

/// The pattern that a task file's name has to match.
pub open spec fn name_pattern() -> Seq<char> {
    "Rakefile|rakefile|^.rb$"@
}

/// The pattern that a task file's text has to match.
pub open spec fn format_pattern() -> Seq<char> {
    "task .* do"@
}

/// The pattern of the words of the command line that name no task: the
/// program's own name, and the name of a task file.
pub open spec fn word_pattern(program: Seq<char>) -> Seq<char> {
    program + "|akefile.*"@
}

/// Whether the answer of a match says that there is one.
pub open spec fn found(answer: Option<bool>) -> bool {
    answer == Some(true)
}

/// Whether a file name passes for the name of a task file.
pub fn validate_extension(rakefile: &str) -> (r: bool)
    ensures
        r == found(regex_match(name_pattern(), rakefile@)),
{
    is_found(pattern_matches("Rakefile|rakefile|^.rb$", rakefile))
}

/// Whether a text passes for the text of a task file: it holds a task
/// header.
pub fn validate_rakefile(text: &str) -> (r: bool)
    ensures
        r == found(regex_match(format_pattern(), text@)),
{
    is_found(pattern_matches("task .* do", text))
}

/// Executable form of [`found`].
pub fn is_found(answer: Option<bool>) -> (r: bool)
    ensures
        r == found(answer),
{
    match answer {
        Some(b) => b,
        None => false,
    }
}

/// The first `n` words that name a task, given for each word the answer
/// of the match against the pattern of the words that name none: a word
/// stays where the answer is that there is no match. `None` where an answer
/// is missing.
pub open spec fn kept_words(words: Seq<Seq<char>>, answers: Seq<Option<bool>>, n: int) -> Option<
    Seq<Seq<char>>,
>
    decreases n,
{
    if n <= 0 {
        Some(Seq::<Seq<char>>::empty())
    } else {
        match (kept_words(words, answers, n - 1), answers[n - 1]) {
            (Some(before), Some(matched)) => Some(
                if matched {
                    before
                } else {
                    before.push(words[n - 1])
                },
            ),
            _ => None,
        }
    }
}

/// The words that name a task, given the answer for each word; `None`
/// where there are not as many answers as words, or one is missing.
pub open spec fn task_words(words: Seq<Seq<char>>, answers: Seq<Option<bool>>) -> Option<
    Seq<Seq<char>>,
> {
    if words.len() == answers.len() {
        kept_words(words, answers, words.len() as int)
    } else {
        None
    }
}

/// Executable form of [`task_words`].
pub fn keep_task_words(words: Vec<String>, answers: &Vec<Option<bool>>) -> (r: Option<Vec<String>>)
    ensures
        match r {
            Some(kept) => task_words(words.deep_view(), answers@) == Some(kept.deep_view()),
            None => task_words(words.deep_view(), answers@) is None,
        },
{
    if words.len() != answers.len() {
        return None;
    }
    let mut kept: Vec<String> = Vec::new();
    let mut i: usize = 0;
    assert(kept.deep_view() =~= Seq::<Seq<char>>::empty());
    while i < words.len()
        invariant
            i <= words.len(),
            words.len() == answers.len(),
            kept_words(words.deep_view(), answers@, i as int) == Some(kept.deep_view()),
        decreases words.len() - i,
    {
        match answers[i] {
            Some(matched) => {
                if !matched {
                    let ghost before = kept.deep_view();
                    kept.push(words[i].clone());
                    assert(kept.deep_view() =~= before.push(words.deep_view()[i as int]));
                }
            },
            None => {
                assert(kept_words(words.deep_view(), answers@, i + 1) is None);
                proof {
                    lemma_kept_words_missing(words.deep_view(), answers@, i + 1, words.len() as int);
                }
                return None;
            },
        }
        i += 1;
    }
    Some(kept)
}

/// Once an answer is missing, no words are given.
proof fn lemma_kept_words_missing(
    words: Seq<Seq<char>>,
    answers: Seq<Option<bool>>,
    k: int,
    n: int,
)
    requires
        k <= n,
        kept_words(words, answers, k) is None,
    ensures
        kept_words(words, answers, n) is None,
    decreases n - k,
{
    if k < n {
        lemma_kept_words_missing(words, answers, k, n - 1);
    }
}

/// The answers of the match of each word against the pattern of the words
/// that name no task.
pub open spec fn word_answers(program: Seq<char>, words: Seq<Seq<char>>) -> Seq<Option<bool>> {
    Seq::new(words.len(), |i: int| regex_match(word_pattern(program), words[i]))
}

/// The words of the command line that name a task: those that match
/// neither the program's name nor the name of a task file. `None` where the
/// program's name makes a pattern that is no regular expression, and there
/// is a word to test.
pub fn parse_tasks(program: &str, tasks: Vec<String>) -> (r: Option<Vec<String>>)
    ensures
        match r {
            Some(kept) => task_words(tasks.deep_view(), word_answers(program@, tasks.deep_view()))
                == Some(kept.deep_view()),
            None => task_words(tasks.deep_view(), word_answers(program@, tasks.deep_view()))
                is None,
        },
{
    let mut pattern = chars_of(program);
    append(&mut pattern, &chars_of("|akefile.*"));
    let pattern = string_of(&pattern);
    let ghost model = word_answers(program@, tasks.deep_view());
    let mut answers: Vec<Option<bool>> = Vec::new();
    let mut i: usize = 0;
    while i < tasks.len()
        invariant
            i <= tasks.len(),
            pattern@ == word_pattern(program@),
            model == word_answers(program@, tasks.deep_view()),
            answers@ == model.take(i as int),
        decreases tasks.len() - i,
    {
        let answer = pattern_matches(pattern.as_str(), tasks[i].as_str());
        assert(answer == model[i as int]);
        answers.push(answer);
        assert(answers@ =~= model.take(i + 1));
        i += 1;
    }
    assert(model.take(tasks.len() as int) =~= model);
    keep_task_words(tasks, &answers)
}

} // verus!
