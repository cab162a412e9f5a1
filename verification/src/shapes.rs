//! The line shapes of a task file. Each shape is a spec function from a
//! line to what the line gives under that shape, and an executable function
//! that computes it. A line is tested against every shape on its own; a line
//! that fits none of them is inert.

use crate::text::{
    after_first, append, between, chars_of, count, count_occurrences, cut_after, cut_between,
    cut_last_marked, find_first, find_last, first_occurrence, last_marked_after, last_occurrence,
    lemma_last_occurrence, lemma_skip_run, skip, skip_run, slice, split, split_on, string_of, trim,
    trimmed, views,
};
use vstd::prelude::*;

verus! {

/// An item of a parenthesised list without what surrounds the list: the
/// first item loses its first character, the last item its last character.
pub open spec fn strip_ends(item: Seq<char>, first: bool, last: bool) -> Seq<char> {
    let inner = if first && item.len() > 0 {
        item.drop_first()
    } else {
        item
    };
    if last && inner.len() > 0 {
        inner.drop_last()
    } else {
        inner
    }
}

/// The item that the piece at index `i` of a comma-separated list gives:
/// stripped of the list's surroundings, then trimmed.
pub open spec fn list_item(pieces: Seq<Seq<char>>, i: int) -> Seq<char> {
    trim(strip_ends(pieces[i], i == 0, i == pieces.len() - 1))
}

/// The items of the first `n` pieces that are not blank, in order.
pub open spec fn filled_items(pieces: Seq<Seq<char>>, n: int) -> Seq<Seq<char>>
    decreases n,
{
    if n <= 0 {
        Seq::<Seq<char>>::empty()
    } else {
        let before = filled_items(pieces, n - 1);
        let item = list_item(pieces, n - 1);
        if item.len() > 0 {
            before.push(item)
        } else {
            before
        }
    }
}

/// The items of a parenthesised, comma-separated list such as `(:a, :b)`:
/// the text is cut at its commas, the opening character of the first piece
/// and the closing character of the last piece are taken off, each piece is
/// trimmed, and blank items are dropped.
pub open spec fn list_items(text: Seq<char>) -> Seq<Seq<char>> {
    let pieces = split(text, ',');
    filled_items(pieces, pieces.len() as int)
}

/// Executable form of [`list_items`] on characters.
pub fn items_of(text: &Vec<char>) -> (r: Vec<String>)
    ensures
        r.deep_view() == list_items(text@),
{
    let pieces = split_on(text, ',');
    let ghost model = split(text@, ',');
    let mut r: Vec<String> = Vec::new();
    let mut i: usize = 0;
    assert(r.deep_view() =~= filled_items(model, 0));
    while i < pieces.len()
        invariant
            i <= pieces.len(),
            views(pieces@) == model,
            r.deep_view() == filled_items(model, i as int),
        decreases pieces.len() - i,
    {
        let piece = &pieces[i];
        assert(piece@ == model[i as int]);
        let a: usize = if i == 0 && piece.len() > 0 {
            1
        } else {
            0
        };
        let b: usize = if i == pieces.len() - 1 && piece.len() > a {
            piece.len() - 1
        } else {
            piece.len()
        };
        let inner = slice(piece, a, b);
        assert(inner@ == strip_ends(piece@, i == 0, i == pieces.len() - 1));
        let item = trimmed(&inner);
        if item.len() > 0 {
            let ghost before = r.deep_view();
            r.push(string_of(&item));
            assert(r.deep_view() =~= before.push(item@));
        }
        i += 1;
    }
    r
}

/// The fields of a struct type, from the text of its field list.
pub fn get_struct_fields(cfields: &str) -> (r: Vec<String>)
    ensures
        r.deep_view() == list_items(cfields@),
{
    items_of(&chars_of(cfields))
}

/// The values of a struct instance, from the text of its value list.
pub fn get_struct_values(cvalues: &str) -> (r: Vec<String>)
    ensures
        r.deep_view() == list_items(cvalues@),
{
    items_of(&chars_of(cvalues))
}

/// The placeholder token `#{name}`.
pub open spec fn placeholder(name: Seq<char>) -> Seq<char> {
    "#{"@ + name + "}"@
}

/// Executable form of [`placeholder`].
pub fn placeholder_for(name: &Vec<char>) -> (r: Vec<char>)
    ensures
        r@ == placeholder(name@),
{
    let mut r = chars_of("#{");
    append(&mut r, name);
    let close = chars_of("}");
    append(&mut r, &close);
    r
}

/// A comment: a line that begins with `#`.
pub open spec fn is_comment(line: Seq<char>) -> bool {
    crate::text::starts_with(line, "#"@)
}

/// The end of a block: a line that is exactly `end`.
pub open spec fn is_block_end(line: Seq<char>) -> bool {
    line == "end"@
}

/// A struct type declaration, `<name> = <anything>Struct.new<list>`: the
/// name is what stands before the last `=` that precedes the last
/// `Struct.new`, trimmed; the list is the rest of the line, trimmed.
pub open spec fn struct_declaration(line: Seq<char>) -> Option<(Seq<char>, Seq<char>)> {
    match last_occurrence(line, "Struct.new"@, line.len() as int) {
        Some(k) => match last_occurrence(line, "="@, k) {
            Some(e) => Some(
                (
                    trim(line.subrange(0, e)),
                    trim(line.subrange(k + "Struct.new"@.len(), line.len() as int)),
                ),
            ),
            None => None,
        },
        None => None,
    }
}

/// A variable assignment, `<key> = <anything>"<value>"`: the value is what
/// stands between the last two quotation marks of the line, the key what
/// stands before the last `=` that precedes them; both trimmed.
pub open spec fn variable_assignment(line: Seq<char>) -> Option<(Seq<char>, Seq<char>)> {
    match last_occurrence(line, "\""@, line.len() as int) {
        Some(q2) => match last_occurrence(line, "\""@, q2) {
            Some(q1) => match last_occurrence(line, "="@, q1) {
                Some(e) => Some(
                    (trim(line.subrange(0, e)), trim(line.subrange(q1 + "\""@.len(), q2))),
                ),
                None => None,
            },
            None => None,
        },
        None => None,
    }
}

/// A struct instantiation, `<var> = <Type>.new<list>`: the variable, the
/// type's name and the text of the value list, each trimmed. The `.new` is
/// the last of the line, the `=` the last one before it.
pub open spec fn struct_instantiation(line: Seq<char>) -> Option<
    (Seq<char>, Seq<char>, Seq<char>),
> {
    match last_occurrence(line, ".new"@, line.len() as int) {
        Some(k) => match last_occurrence(line, "="@, k) {
            Some(e) => Some(
                (
                    trim(line.subrange(0, e)),
                    trim(line.subrange(e + "="@.len(), k)),
                    trim(line.subrange(k + ".new"@.len(), line.len() as int)),
                ),
            ),
            None => None,
        },
        None => None,
    }
}

/// A task header, `task :<name> do`: the name is what stands between the
/// first `task :` and the last ` do` of the line.
pub open spec fn task_header(line: Seq<char>) -> Option<Seq<char>> {
    between(line, "task :"@, " do"@)
}

/// A task header marked to be ignored, `task :<name> do #[ignore]`.
pub open spec fn is_ignored_header(line: Seq<char>) -> bool {
    between(line, "task :"@, " do #[ignore]"@) is Some
}

/// A task header with a dependency, `task :<name> => [:<dep>]` followed by
/// `closing`: the name stands between the first `task :` and the last ` => `
/// before the last `closing`; the dependency between that ` => `, past any
/// `[` and then any `:` that follow it, and the `closing`.
pub open spec fn dependency_header(line: Seq<char>, closing: Seq<char>) -> Option<
    (Seq<char>, Seq<char>),
> {
    match last_occurrence(line, closing, line.len() as int) {
        Some(r) => match last_occurrence(line, " => "@, r) {
            Some(a) => match first_occurrence(line, "task :"@, 0) {
                Some(k) => {
                    let p = skip_run(line, ':', skip_run(line, '[', a + " => "@.len()));
                    if k + "task :"@.len() <= a {
                        Some((line.subrange(k + "task :"@.len(), a), line.subrange(p, r)))
                    } else {
                        None
                    }
                },
                None => None,
            },
            None => None,
        },
        None => None,
    }
}

/// The text of `puts "<text>"`: what stands between the first `puts "`
/// and the last quotation mark of the line.
pub open spec fn text_argument(line: Seq<char>) -> Option<Seq<char>> {
    between(line, "puts \""@, "\""@)
}

/// How many times the word `puts` stands on the line.
pub open spec fn puts_count(line: Seq<char>) -> nat {
    count_occurrences(line, "puts"@, 0)
}

/// The expression of `puts <expr>.to_h.to_json`, as a placeholder: the
/// expression stands between the first `puts ` and the last `.to_h.to_json`.
pub open spec fn json_argument(line: Seq<char>) -> Option<Seq<char>> {
    match between(line, "puts "@, ".to_h.to_json"@) {
        Some(name) => Some(placeholder(name)),
        None => None,
    }
}

/// The parameters of `sleep <n>`: what follows the first `sleep `, trimmed.
pub open spec fn sleep_argument(line: Seq<char>) -> Option<Seq<char>> {
    match after_first(line, "sleep "@) {
        Some(rest) => Some(trim(rest)),
        None => None,
    }
}

/// How many times `Dir.pwd` stands on the line.
pub open spec fn pwd_count(line: Seq<char>) -> nat {
    count_occurrences(line, "Dir.pwd"@, 0)
}

/// The command line of `sh "<cmd>"`: what stands between the first `sh "`
/// and the last quotation mark of the line.
pub open spec fn shell_argument(line: Seq<char>) -> Option<Seq<char>> {
    between(line, "sh \""@, "\""@)
}

/// The command line that `ruby "<script>"` stands for: `ruby <script>`,
/// where the script stands between the first `ruby "` and the last quotation
/// mark of the line.
pub open spec fn ruby_argument(line: Seq<char>) -> Option<Seq<char>> {
    match between(line, "ruby \""@, "\""@) {
        Some(script) => Some("ruby "@ + script),
        None => None,
    }
}

/// The path that a command takes: the text between the last two quotation
/// marks after `verb`, or, where there is none, a placeholder for what
/// stands between `verb(` and the last `)`.
pub open spec fn path_argument(line: Seq<char>, verb: Seq<char>) -> Option<Seq<char>> {
    match last_marked_after(line, verb, "\""@) {
        Some(path) => Some(path),
        None => match between(line, verb + "("@, ")"@) {
            Some(name) => Some(placeholder(name)),
            None => None,
        },
    }
}

/// The parameters of a copy, `FileUtils.copy(<src>, <dst>)`: a placeholder
/// for each of the two names, the two joined by one space. The names are
/// parted at the last `, ` between the parentheses.
pub open spec fn copy_arguments(line: Seq<char>) -> Option<Seq<char>> {
    match between(line, "FileUtils.copy("@, ")"@) {
        Some(inner) => match last_occurrence(inner, ", "@, inner.len() as int) {
            Some(m) => Some(
                placeholder(inner.subrange(0, m)) + " "@ + placeholder(
                    inner.subrange(m + ", "@.len(), inner.len() as int),
                ),
            ),
            None => None,
        },
        None => None,
    }
}

/// Whether the line opens the block that depends on the platform:
/// `if OS.windows? then`.
pub open spec fn is_platform_guard(line: Seq<char>) -> bool {
    crate::text::contains(line, "if OS.windows? then"@)
}

/// Executable form of [`is_comment`].
pub fn comment(line: &Vec<char>) -> (r: bool)
    ensures
        r == is_comment(line@),
{
    let hash = chars_of("#");
    crate::text::stands_at(line, &hash, 0)
}

/// Executable form of [`is_block_end`].
pub fn block_end(line: &Vec<char>) -> (r: bool)
    ensures
        r == is_block_end(line@),
{
    let end = chars_of("end");
    crate::text::same_chars(line, &end)
}

/// Executable form of [`struct_declaration`].
pub fn find_struct_declaration(line: &Vec<char>) -> (r: Option<(Vec<char>, Vec<char>)>)
    ensures
        match r {
            Some(p) => struct_declaration(line@) == Some((p.0@, p.1@)),
            None => struct_declaration(line@) is None,
        },
{
    let word = chars_of("Struct.new");
    let equals = chars_of("=");
    match find_last(line, &word, line.len()) {
        Some(k) => match find_last(line, &equals, k) {
            Some(e) => Some(
                (
                    trimmed(&slice(line, 0, e)),
                    trimmed(&slice(line, k + word.len(), line.len())),
                ),
            ),
            None => None,
        },
        None => None,
    }
}

/// Executable form of [`variable_assignment`].
pub fn find_variable_assignment(line: &Vec<char>) -> (r: Option<(Vec<char>, Vec<char>)>)
    ensures
        match r {
            Some(p) => variable_assignment(line@) == Some((p.0@, p.1@)),
            None => variable_assignment(line@) is None,
        },
{
    let quote = chars_of("\"");
    let equals = chars_of("=");
    match find_last(line, &quote, line.len()) {
        Some(q2) => match find_last(line, &quote, q2) {
            Some(q1) => match find_last(line, &equals, q1) {
                Some(e) => Some(
                    (trimmed(&slice(line, 0, e)), trimmed(&slice(line, q1 + quote.len(), q2))),
                ),
                None => None,
            },
            None => None,
        },
        None => None,
    }
}

/// Executable form of [`struct_instantiation`].
pub fn find_struct_instantiation(line: &Vec<char>) -> (r: Option<
    (Vec<char>, Vec<char>, Vec<char>),
>)
    ensures
        match r {
            Some(p) => struct_instantiation(line@) == Some((p.0@, p.1@, p.2@)),
            None => struct_instantiation(line@) is None,
        },
{
    let word = chars_of(".new");
    let equals = chars_of("=");
    match find_last(line, &word, line.len()) {
        Some(k) => match find_last(line, &equals, k) {
            Some(e) => Some(
                (
                    trimmed(&slice(line, 0, e)),
                    trimmed(&slice(line, e + equals.len(), k)),
                    trimmed(&slice(line, k + word.len(), line.len())),
                ),
            ),
            None => None,
        },
        None => None,
    }
}

/// Executable form of [`task_header`].
pub fn find_task_header(line: &Vec<char>) -> (r: Option<Vec<char>>)
    ensures
        match r {
            Some(n) => task_header(line@) == Some(n@),
            None => task_header(line@) is None,
        },
{
    let open = chars_of("task :");
    let close = chars_of(" do");
    cut_between(line, &open, &close)
}

/// Executable form of [`is_ignored_header`].
pub fn ignored_header(line: &Vec<char>) -> (r: bool)
    ensures
        r == is_ignored_header(line@),
{
    let open = chars_of("task :");
    let close = chars_of(" do #[ignore]");
    cut_between(line, &open, &close).is_some()
}

/// Executable form of [`dependency_header`], for a `closing` that begins
/// with `]`.
pub(crate) fn find_dependency_header(line: &Vec<char>, closing: &Vec<char>) -> (r: Option<
    (Vec<char>, Vec<char>),
>)
    requires
        closing.len() > 0,
        closing[0] == ']',
    ensures
        match r {
            Some(p) => dependency_header(line@, closing@) == Some((p.0@, p.1@)),
            None => dependency_header(line@, closing@) is None,
        },
{
    let arrow = chars_of(" => ");
    let open = chars_of("task :");
    match find_last(line, closing, line.len()) {
        Some(r) => match find_last(line, &arrow, r) {
            Some(a) => match find_first(line, &open, 0) {
                Some(k) => {
                    let p = skip(line, ':', skip(line, '[', a + arrow.len()));
                    proof {
                        lemma_last_occurrence(line@, closing@, line.len() as int);
                        assert(line@.subrange(r as int, r + closing.len())[0] == closing@[0]);
                        let q = skip_run(line@, '[', a + arrow.len());
                        lemma_skip_run(line@, '[', a + arrow.len(), r as int);
                        lemma_skip_run(line@, ':', q, r as int);
                    }
                    if k + open.len() <= a {
                        Some((slice(line, k + open.len(), a), slice(line, p, r)))
                    } else {
                        None
                    }
                },
                None => None,
            },
            None => None,
        },
        None => None,
    }
}

/// Executable form of [`text_argument`].
pub fn find_text_argument(line: &Vec<char>) -> (r: Option<Vec<char>>)
    ensures
        match r {
            Some(p) => text_argument(line@) == Some(p@),
            None => text_argument(line@) is None,
        },
{
    cut_between(line, &chars_of("puts \""), &chars_of("\""))
}

/// Executable form of [`puts_count`].
pub fn count_puts(line: &Vec<char>) -> (r: usize)
    ensures
        r == puts_count(line@),
{
    count(line, &chars_of("puts"))
}

/// Executable form of [`json_argument`].
pub fn find_json_argument(line: &Vec<char>) -> (r: Option<Vec<char>>)
    ensures
        match r {
            Some(p) => json_argument(line@) == Some(p@),
            None => json_argument(line@) is None,
        },
{
    match cut_between(line, &chars_of("puts "), &chars_of(".to_h.to_json")) {
        Some(name) => Some(placeholder_for(&name)),
        None => None,
    }
}

/// Executable form of [`sleep_argument`].
pub fn find_sleep_argument(line: &Vec<char>) -> (r: Option<Vec<char>>)
    ensures
        match r {
            Some(p) => sleep_argument(line@) == Some(p@),
            None => sleep_argument(line@) is None,
        },
{
    match cut_after(line, &chars_of("sleep ")) {
        Some(rest) => Some(trimmed(&rest)),
        None => None,
    }
}

/// Executable form of [`pwd_count`].
pub fn count_pwd(line: &Vec<char>) -> (r: usize)
    ensures
        r == pwd_count(line@),
{
    count(line, &chars_of("Dir.pwd"))
}

/// Executable form of [`shell_argument`].
pub fn find_shell_argument(line: &Vec<char>) -> (r: Option<Vec<char>>)
    ensures
        match r {
            Some(p) => shell_argument(line@) == Some(p@),
            None => shell_argument(line@) is None,
        },
{
    cut_between(line, &chars_of("sh \""), &chars_of("\""))
}

/// Executable form of [`ruby_argument`].
pub fn find_ruby_argument(line: &Vec<char>) -> (r: Option<Vec<char>>)
    ensures
        match r {
            Some(p) => ruby_argument(line@) == Some(p@),
            None => ruby_argument(line@) is None,
        },
{
    match cut_between(line, &chars_of("ruby \""), &chars_of("\"")) {
        Some(script) => {
            let mut command = chars_of("ruby ");
            append(&mut command, &script);
            Some(command)
        },
        None => None,
    }
}

/// Executable form of [`path_argument`].
pub fn find_path_argument(line: &Vec<char>, verb: &str) -> (r: Option<Vec<char>>)
    ensures
        match r {
            Some(p) => path_argument(line@, verb@) == Some(p@),
            None => path_argument(line@, verb@) is None,
        },
{
    let word = chars_of(verb);
    let quote = chars_of("\"");
    match cut_last_marked(line, &word, &quote) {
        Some(path) => Some(path),
        None => {
            let mut open = chars_of(verb);
            let paren = chars_of("(");
            append(&mut open, &paren);
            let close = chars_of(")");
            match cut_between(line, &open, &close) {
                Some(name) => Some(placeholder_for(&name)),
                None => None,
            }
        },
    }
}

/// Executable form of [`copy_arguments`].
pub fn find_copy_arguments(line: &Vec<char>) -> (r: Option<Vec<char>>)
    ensures
        match r {
            Some(p) => copy_arguments(line@) == Some(p@),
            None => copy_arguments(line@) is None,
        },
{
    let open = chars_of("FileUtils.copy(");
    let close = chars_of(")");
    let comma = chars_of(", ");
    match cut_between(line, &open, &close) {
        Some(inner) => match find_last(&inner, &comma, inner.len()) {
            Some(m) => {
                let mut params = placeholder_for(&slice(&inner, 0, m));
                let space = chars_of(" ");
                append(&mut params, &space);
                let second = placeholder_for(&slice(&inner, m + comma.len(), inner.len()));
                append(&mut params, &second);
                Some(params)
            },
            None => None,
        },
        None => None,
    }
}

/// Executable form of [`is_platform_guard`].
pub fn platform_guard(line: &Vec<char>) -> (r: bool)
    ensures
        r == is_platform_guard(line@),
{
    let guard = chars_of("if OS.windows? then");
    find_first(line, &guard, 0).is_some()
}

} // verus!
