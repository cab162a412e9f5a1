//! Character sequences: conversions between strings and character vectors,
//! and the searching, trimming and splitting that the rest of the crate uses.
//!
//! Every executable function here is specified against a spec function over
//! `Seq<char>`, so that callers can state their own contracts over views.

use vstd::prelude::*;

verus! {

/// `String::push` of the standard library: appends one character to the end
/// of the string and changes nothing else.
pub assume_specification[ String::push ](s: &mut String, ch: char)
    ensures
        final(s)@ == old(s)@.push(ch),
;

/// The characters of `s`, in order.
pub fn chars_of(s: &str) -> (v: Vec<char>)
    ensures
        v@ == s@,
{
    let mut v: Vec<char> = Vec::new();
    for c in it: s.chars()
        invariant
            v@ == it.seq().take(it.index() as int),
            it.seq() == s@,
    {
        v.push(c);
    }
    v
}

/// The string made of the characters of `v`, in order.
pub fn string_of(v: &Vec<char>) -> (s: String)
    ensures
        s@ == v@,
{
    let mut s = String::new();
    let mut i: usize = 0;
    while i < v.len()
        invariant
            i <= v.len(),
            s@ == v@.take(i as int),
        decreases v.len() - i,
    {
        s.push(v[i]);
        i += 1;
    }
    s
}

/// Whether two character vectors hold the same characters.
pub fn same_chars(a: &Vec<char>, b: &Vec<char>) -> (r: bool)
    ensures
        r == (a@ == b@),
{
    if a.len() != b.len() {
        return false;
    }
    let mut i: usize = 0;
    while i < a.len()
        invariant
            i <= a.len(),
            a.len() == b.len(),
            a@.take(i as int) == b@.take(i as int),
        decreases a.len() - i,
    {
        if a[i] != b[i] {
            return false;
        }
        assert(a@.take(i + 1) == a@.take(i as int).push(a@[i as int]));
        assert(b@.take(i + 1) == b@.take(i as int).push(b@[i as int]));
        i += 1;
    }
    assert(a@ == a@.take(a.len() as int));
    assert(b@ == b@.take(b.len() as int));
    true
}

/// White space: the characters with the Unicode property `White_Space`.
pub open spec fn is_space(c: char) -> bool {
    ||| '\u{9}' <= c <= '\u{d}'
    ||| c == ' '
    ||| c == '\u{85}'
    ||| c == '\u{a0}'
    ||| c == '\u{1680}'
    ||| '\u{2000}' <= c <= '\u{200a}'
    ||| c == '\u{2028}'
    ||| c == '\u{2029}'
    ||| c == '\u{202f}'
    ||| c == '\u{205f}'
    ||| c == '\u{3000}'
}

/// Executable form of [`is_space`].
pub fn space(c: char) -> (r: bool)
    ensures
        r == is_space(c),
{
    ('\u{9}' <= c && c <= '\u{d}') || c == ' ' || c == '\u{85}' || c == '\u{a0}' || c == '\u{1680}'
        || ('\u{2000}' <= c && c <= '\u{200a}') || c == '\u{2028}' || c == '\u{2029}' || c
        == '\u{202f}' || c == '\u{205f}' || c == '\u{3000}'
}

/// `s` without its leading white space.
pub open spec fn trim_start(s: Seq<char>) -> Seq<char>
    decreases s.len(),
{
    if s.len() > 0 && is_space(s[0]) {
        trim_start(s.drop_first())
    } else {
        s
    }
}

/// `s` without its trailing white space.
pub open spec fn trim_end(s: Seq<char>) -> Seq<char>
    decreases s.len(),
{
    if s.len() > 0 && is_space(s.last()) {
        trim_end(s.drop_last())
    } else {
        s
    }
}

/// `s` without leading and trailing white space.
pub open spec fn trim(s: Seq<char>) -> Seq<char> {
    trim_end(trim_start(s))
}

/// The characters of `v` from index `from` up to, not including, `to`.
pub fn slice(v: &Vec<char>, from: usize, to: usize) -> (r: Vec<char>)
    requires
        from <= to <= v.len(),
    ensures
        r@ == v@.subrange(from as int, to as int),
{
    let mut r: Vec<char> = Vec::new();
    let mut i: usize = from;
    while i < to
        invariant
            from <= i <= to <= v.len(),
            r@ == v@.subrange(from as int, i as int),
        decreases to - i,
    {
        r.push(v[i]);
        i += 1;
    }
    r
}

/// Appends the characters of `tail` to `head`.
pub fn append(head: &mut Vec<char>, tail: &Vec<char>)
    ensures
        final(head)@ == old(head)@ + tail@,
{
    let mut i: usize = 0;
    while i < tail.len()
        invariant
            i <= tail.len(),
            head@ == old(head)@ + tail@.take(i as int),
        decreases tail.len() - i,
    {
        head.push(tail[i]);
        i += 1;
    }
    assert(tail@.take(tail.len() as int) == tail@);
}

/// Executable form of [`trim`].
pub fn trimmed(v: &Vec<char>) -> (r: Vec<char>)
    ensures
        r@ == trim(v@),
{
    let mut a: usize = 0;
    assert(v@.subrange(0, v.len() as int) == v@);
    while a < v.len() && space(v[a])
        invariant
            a <= v.len(),
            trim_start(v@) == trim_start(v@.subrange(a as int, v.len() as int)),
        decreases v.len() - a,
    {
        assert(v@.subrange(a as int, v.len() as int).drop_first() == v@.subrange(
            a + 1,
            v.len() as int,
        ));
        a += 1;
    }
    let mut b: usize = v.len();
    while b > a && space(v[b - 1])
        invariant
            a <= b <= v.len(),
            trim_start(v@) == v@.subrange(a as int, v.len() as int),
            trim(v@) == trim_end(v@.subrange(a as int, b as int)),
        decreases b,
    {
        assert(v@.subrange(a as int, b as int).drop_last() == v@.subrange(a as int, b - 1));
        b -= 1;
    }
    slice(v, a, b)
}

/// Whether `pat` stands in `s` at index `i`.
pub open spec fn occurs_at(s: Seq<char>, pat: Seq<char>, i: int) -> bool {
    0 <= i && i + pat.len() <= s.len() && s.subrange(i, i + pat.len()) == pat
}

/// The least index at or after `from` at which `pat` stands in `s`.
pub open spec fn first_occurrence(s: Seq<char>, pat: Seq<char>, from: int) -> Option<int>
    decreases s.len() - from + 1,
{
    if from < 0 || from + pat.len() > s.len() {
        None
    } else if occurs_at(s, pat, from) {
        Some(from)
    } else {
        first_occurrence(s, pat, from + 1)
    }
}

/// The greatest index at which `pat` stands in `s` and ends at or before
/// `end`.
pub open spec fn last_occurrence(s: Seq<char>, pat: Seq<char>, end: int) -> Option<int>
    decreases end + 1,
{
    if end < pat.len() || end > s.len() {
        None
    } else if occurs_at(s, pat, end - pat.len()) {
        Some(end - pat.len())
    } else {
        last_occurrence(s, pat, end - 1)
    }
}

/// How many times `pat` stands in `s` at or after `from`, counting from the
/// left and never counting two occurrences that overlap. An empty pattern is
/// counted nowhere.
pub open spec fn count_occurrences(s: Seq<char>, pat: Seq<char>, from: int) -> nat
    decreases s.len() - from,
{
    if from < 0 || pat.len() == 0 || from + pat.len() > s.len() {
        0
    } else if occurs_at(s, pat, from) {
        1 + count_occurrences(s, pat, from + pat.len())
    } else {
        count_occurrences(s, pat, from + 1)
    }
}

/// Whether `s` begins with `pat`.
pub open spec fn starts_with(s: Seq<char>, pat: Seq<char>) -> bool {
    occurs_at(s, pat, 0)
}

/// Whether `pat` stands somewhere in `s`.
pub open spec fn contains(s: Seq<char>, pat: Seq<char>) -> bool {
    first_occurrence(s, pat, 0) is Some
}

/// Executable form of [`occurs_at`].
pub fn stands_at(v: &Vec<char>, pat: &Vec<char>, i: usize) -> (r: bool)
    ensures
        r == occurs_at(v@, pat@, i as int),
{
    if pat.len() > v.len() || i > v.len() - pat.len() {
        return false;
    }
    let mut k: usize = 0;
    while k < pat.len()
        invariant
            k <= pat.len(),
            i + pat.len() <= v.len(),
            v@.subrange(i as int, i + k) == pat@.take(k as int),
        decreases pat.len() - k,
    {
        if v[i + k] != pat[k] {
            assert(v@.subrange(i as int, i + pat.len())[k as int] != pat@[k as int]);
            return false;
        }
        assert(v@.subrange(i as int, i + k + 1) == v@.subrange(i as int, i + k).push(
            v@[i + k],
        ));
        assert(pat@.take(k + 1) == pat@.take(k as int).push(pat@[k as int]));
        k += 1;
    }
    assert(pat@.take(pat.len() as int) == pat@);
    true
}

/// Executable form of [`first_occurrence`].
pub fn find_first(v: &Vec<char>, pat: &Vec<char>, from: usize) -> (r: Option<usize>)
    ensures
        match r {
            Some(i) => first_occurrence(v@, pat@, from as int) == Some(i as int) && from <= i
                && i + pat.len() <= v.len(),
            None => first_occurrence(v@, pat@, from as int) is None,
        },
{
    if pat.len() > v.len() {
        return None;
    }
    let limit: usize = v.len() - pat.len();
    let mut i: usize = from;
    while i <= limit
        invariant
            from <= i,
            limit == v.len() - pat.len(),
            first_occurrence(v@, pat@, from as int) == first_occurrence(v@, pat@, i as int),
        decreases limit - i,
    {
        if stands_at(v, pat, i) {
            return Some(i);
        }
        if i == limit {
            assert(first_occurrence(v@, pat@, i + 1) is None);
            return None;
        }
        i += 1;
    }
    None
}

/// Executable form of [`last_occurrence`].
pub fn find_last(v: &Vec<char>, pat: &Vec<char>, end: usize) -> (r: Option<usize>)
    ensures
        match r {
            Some(i) => last_occurrence(v@, pat@, end as int) == Some(i as int) && i + pat.len()
                <= end <= v.len(),
            None => last_occurrence(v@, pat@, end as int) is None,
        },
{
    if end > v.len() {
        return None;
    }
    let mut e: usize = end;
    while e >= pat.len()
        invariant
            e <= end <= v.len(),
            last_occurrence(v@, pat@, end as int) == last_occurrence(v@, pat@, e as int),
        decreases e,
    {
        if stands_at(v, pat, e - pat.len()) {
            return Some(e - pat.len());
        }
        if e == 0 {
            assert(v@.subrange(0, 0) =~= pat@);
            return None;
        }
        e -= 1;
    }
    None
}

/// What [`first_occurrence`] finds is the least index at or after `from` at
/// which `pat` stands.
pub proof fn lemma_first_occurrence(s: Seq<char>, pat: Seq<char>, from: int)
    requires
        0 <= from,
    ensures
        match first_occurrence(s, pat, from) {
            Some(i) => from <= i && occurs_at(s, pat, i) && forall|j: int|
                from <= j < i ==> !occurs_at(s, pat, j),
            None => forall|j: int| from <= j ==> !occurs_at(s, pat, j),
        },
    decreases s.len() - from + 1,
{
    if from + pat.len() > s.len() {
    } else if occurs_at(s, pat, from) {
    } else {
        lemma_first_occurrence(s, pat, from + 1);
    }
}

/// What [`last_occurrence`] finds is the greatest index at which `pat`
/// stands and ends at or before `end`.
pub proof fn lemma_last_occurrence(s: Seq<char>, pat: Seq<char>, end: int)
    requires
        end <= s.len(),
    ensures
        match last_occurrence(s, pat, end) {
            Some(i) => occurs_at(s, pat, i) && i + pat.len() <= end && forall|j: int|
                i < j && j + pat.len() <= end ==> !occurs_at(s, pat, j),
            None => forall|j: int| j + pat.len() <= end ==> !occurs_at(s, pat, j),
        },
    decreases end + 1,
{
    if end < pat.len() {
    } else if occurs_at(s, pat, end - pat.len()) {
    } else {
        lemma_last_occurrence(s, pat, end - 1);
    }
}

/// What stands between the first occurrence of `open` and the last
/// occurrence of `close` that begins at or after the end of it.
pub open spec fn between(s: Seq<char>, open: Seq<char>, close: Seq<char>) -> Option<Seq<char>> {
    match (first_occurrence(s, open, 0), last_occurrence(s, close, s.len() as int)) {
        (Some(k), Some(c)) => if k + open.len() <= c {
            Some(s.subrange(k + open.len(), c))
        } else {
            None
        },
        _ => None,
    }
}

/// What follows the first occurrence of `open`.
pub open spec fn after_first(s: Seq<char>, open: Seq<char>) -> Option<Seq<char>> {
    match first_occurrence(s, open, 0) {
        Some(k) => Some(s.subrange(k + open.len(), s.len() as int)),
        None => None,
    }
}

/// What stands between the last two occurrences of `mark`, where the first
/// of the two begins at or after the end of the first occurrence of `open`.
pub open spec fn last_marked_after(s: Seq<char>, open: Seq<char>, mark: Seq<char>) -> Option<
    Seq<char>,
> {
    match (first_occurrence(s, open, 0), last_occurrence(s, mark, s.len() as int)) {
        (Some(k), Some(q2)) => match last_occurrence(s, mark, q2) {
            Some(q1) => if k + open.len() <= q1 {
                Some(s.subrange(q1 + mark.len(), q2))
            } else {
                None
            },
            None => None,
        },
        _ => None,
    }
}

/// The least index at or after `from` at which `s` holds another character
/// than `c`; the length of `s` where there is none.
pub open spec fn skip_run(s: Seq<char>, c: char, from: int) -> int
    decreases s.len() - from,
{
    if 0 <= from < s.len() && s[from] == c {
        skip_run(s, c, from + 1)
    } else {
        from
    }
}

/// [`skip_run`] stops at or before every index that holds another character.
pub proof fn lemma_skip_run(s: Seq<char>, c: char, from: int, stop: int)
    requires
        0 <= from <= stop <= s.len(),
        stop < s.len() ==> s[stop] != c,
    ensures
        from <= skip_run(s, c, from) <= stop,
    decreases s.len() - from,
{
    if from < s.len() && s[from] == c {
        lemma_skip_run(s, c, from + 1, stop);
    }
}

/// Executable form of [`between`].
pub fn cut_between(v: &Vec<char>, open: &Vec<char>, close: &Vec<char>) -> (r: Option<Vec<char>>)
    ensures
        match r {
            Some(t) => between(v@, open@, close@) == Some(t@),
            None => between(v@, open@, close@) is None,
        },
{
    match find_first(v, open, 0) {
        Some(k) => match find_last(v, close, v.len()) {
            Some(c) => if k + open.len() <= c {
                Some(slice(v, k + open.len(), c))
            } else {
                None
            },
            None => None,
        },
        None => None,
    }
}

/// Executable form of [`after_first`].
pub fn cut_after(v: &Vec<char>, open: &Vec<char>) -> (r: Option<Vec<char>>)
    ensures
        match r {
            Some(t) => after_first(v@, open@) == Some(t@),
            None => after_first(v@, open@) is None,
        },
{
    match find_first(v, open, 0) {
        Some(k) => Some(slice(v, k + open.len(), v.len())),
        None => None,
    }
}

/// Executable form of [`last_marked_after`].
pub fn cut_last_marked(v: &Vec<char>, open: &Vec<char>, mark: &Vec<char>) -> (r: Option<
    Vec<char>,
>)
    ensures
        match r {
            Some(t) => last_marked_after(v@, open@, mark@) == Some(t@),
            None => last_marked_after(v@, open@, mark@) is None,
        },
{
    match find_first(v, open, 0) {
        Some(k) => match find_last(v, mark, v.len()) {
            Some(q2) => match find_last(v, mark, q2) {
                Some(q1) => if k + open.len() <= q1 {
                    Some(slice(v, q1 + mark.len(), q2))
                } else {
                    None
                },
                None => None,
            },
            None => None,
        },
        None => None,
    }
}

/// Executable form of [`skip_run`].
pub fn skip(v: &Vec<char>, c: char, from: usize) -> (r: usize)
    requires
        from <= v.len(),
    ensures
        r == skip_run(v@, c, from as int),
        from <= r <= v.len(),
{
    let mut i: usize = from;
    while i < v.len() && v[i] == c
        invariant
            from <= i <= v.len(),
            skip_run(v@, c, from as int) == skip_run(v@, c, i as int),
        decreases v.len() - i,
    {
        i += 1;
    }
    i
}

/// Whether two strings hold the same characters.
pub fn same_text(a: &str, b: &str) -> (r: bool)
    ensures
        r == (a@ == b@),
{
    let x = chars_of(a);
    let y = chars_of(b);
    same_chars(&x, &y)
}

/// Executable form of [`count_occurrences`], from the start of `v`.
pub fn count(v: &Vec<char>, pat: &Vec<char>) -> (r: usize)
    ensures
        r == count_occurrences(v@, pat@, 0),
{
    if pat.len() == 0 || pat.len() > v.len() {
        return 0;
    }
    let mut n: usize = 0;
    let mut i: usize = 0;
    while i <= v.len() - pat.len()
        invariant
            0 < pat.len() <= v.len(),
            n <= i,
            count_occurrences(v@, pat@, 0) == n + count_occurrences(v@, pat@, i as int),
        decreases v.len() - i,
    {
        if stands_at(v, pat, i) {
            n += 1;
            i += pat.len();
        } else {
            i += 1;
        }
    }
    n
}

/// The pieces of `s` between the occurrences of `sep`: one more piece than
/// there are separators, so the empty sequence has one empty piece.
pub open spec fn split(s: Seq<char>, sep: char) -> Seq<Seq<char>>
    decreases s.len(),
{
    if s.len() == 0 {
        seq![Seq::<char>::empty()]
    } else {
        let before = split(s.drop_last(), sep);
        if s.last() == sep {
            before.push(Seq::<char>::empty())
        } else {
            before.drop_last().push(before.last().push(s.last()))
        }
    }
}

/// The pieces joined into one sequence, with `sep` between neighbours.
pub open spec fn join(pieces: Seq<Seq<char>>, sep: Seq<char>) -> Seq<char>
    decreases pieces.len(),
{
    if pieces.len() == 0 {
        Seq::<char>::empty()
    } else if pieces.len() == 1 {
        pieces[0]
    } else {
        join(pieces.drop_last(), sep) + sep + pieces.last()
    }
}

/// Every call of [`split`] gives at least one piece.
/// The views of the vectors of `v`, in order.
pub open spec fn views(v: Seq<Vec<char>>) -> Seq<Seq<char>> {
    Seq::new(v.len(), |i: int| v[i]@)
}

pub proof fn lemma_split_nonempty(s: Seq<char>, sep: char)
    ensures
        split(s, sep).len() >= 1,
    decreases s.len(),
{
    if s.len() > 0 {
        lemma_split_nonempty(s.drop_last(), sep);
    }
}

/// Text without a separator, added at the end, lengthens the last piece
/// and leaves the others.
pub proof fn lemma_split_append_plain(head: Seq<char>, tail: Seq<char>, sep: char)
    requires
        !tail.contains(sep),
    ensures
        split(head + tail, sep) == split(head, sep).drop_last().push(
            split(head, sep).last() + tail,
        ),
    decreases tail.len(),
{
    lemma_split_nonempty(head, sep);
    let pieces = split(head, sep);
    if tail.len() == 0 {
        assert(head + tail =~= head);
        assert(pieces.last() + tail =~= pieces.last());
        assert(pieces.drop_last().push(pieces.last()) =~= pieces);
    } else {
        let shorter = tail.drop_last();
        assert forall|i: int| 0 <= i < shorter.len() implies shorter[i] != sep by {
            assert(tail[i] == shorter[i]);
            assert(tail.contains(tail[i]));
        }
        assert(!shorter.contains(sep));
        lemma_split_append_plain(head, shorter, sep);
        assert((head + tail).drop_last() =~= head + shorter);
        assert((head + tail).last() == tail.last());
        assert(tail.contains(tail.last()));
        let before = split(head + shorter, sep);
        assert(before.drop_last() =~= pieces.drop_last());
        assert(before.last().push(tail.last()) =~= pieces.last() + tail);
    }
}

/// Pieces that hold no separator come back when they are joined and
/// split again.
pub proof fn lemma_split_join(pieces: Seq<Seq<char>>, sep: char)
    requires
        pieces.len() >= 1,
        forall|i: int| 0 <= i < pieces.len() ==> !(#[trigger] pieces[i]).contains(sep),
    ensures
        split(join(pieces, seq![sep]), sep) == pieces,
    decreases pieces.len(),
{
    let nothing = Seq::<char>::empty();
    if pieces.len() == 1 {
        lemma_split_append_plain(nothing, pieces[0], sep);
        assert(nothing + pieces[0] =~= pieces[0]);
        assert(split(nothing, sep) =~= seq![nothing]);
        assert(seq![nothing].drop_last().push(nothing + pieces[0]) =~= pieces);
    } else {
        let front = pieces.drop_last();
        assert forall|i: int| 0 <= i < front.len() implies !(#[trigger] front[i]).contains(
            sep,
        ) by {
            assert(front[i] == pieces[i]);
        }
        lemma_split_join(front, sep);
        let head = join(front, seq![sep]) + seq![sep];
        assert(head.drop_last() =~= join(front, seq![sep]));
        assert(head.last() == sep);
        assert(split(head, sep) == front.push(nothing));
        lemma_split_append_plain(head, pieces.last(), sep);
        assert(front.push(nothing).drop_last() =~= front);
        assert(nothing + pieces.last() =~= pieces.last());
        assert(front.push(pieces.last()) =~= pieces);
    }
}

/// No piece of a split holds the separator.
pub proof fn lemma_split_pieces_plain(s: Seq<char>, sep: char)
    ensures
        forall|i: int| 0 <= i < split(s, sep).len() ==> !(#[trigger] split(s, sep)[i]).contains(sep),
    decreases s.len(),
{
    if s.len() > 0 {
        lemma_split_pieces_plain(s.drop_last(), sep);
        lemma_split_nonempty(s.drop_last(), sep);
        let before = split(s.drop_last(), sep);
        let now = split(s, sep);
        assert forall|i: int| 0 <= i < now.len() implies !(#[trigger] now[i]).contains(sep) by {
            if i < before.len() - 1 {
                assert(now[i] == before[i]);
            } else if s.last() == sep {
                if i == before.len() - 1 {
                    assert(now[i] == before[i]);
                }
            } else {
                let longer = before.last().push(s.last());
                assert(now[i] == longer);
                if longer.contains(sep) {
                    let k = choose|k: int| 0 <= k < longer.len() && longer[k] == sep;
                    assert(before.last()[k] == sep);
                    assert(before.last().contains(sep));
                }
            }
        }
    }
}

/// The pieces of a split, joined with the separator, give the text back.
pub proof fn lemma_join_split(s: Seq<char>, sep: char)
    ensures
        join(split(s, sep), seq![sep]) == s,
    decreases s.len(),
{
    if s.len() == 0 {
        assert(split(s, sep)[0] =~= s);
    } else {
        let shorter = s.drop_last();
        lemma_join_split(shorter, sep);
        lemma_split_nonempty(shorter, sep);
        let before = split(shorter, sep);
        let now = split(s, sep);
        assert(s =~= shorter.push(s.last()));
        if s.last() == sep {
            assert(now.drop_last() =~= before);
            assert(join(now, seq![sep]) =~= shorter + seq![sep] + Seq::<char>::empty());
        } else if before.len() == 1 {
            assert(now[0] == before[0].push(s.last()));
        } else {
            assert(now.drop_last() =~= before.drop_last());
            assert(now.last() == before.last().push(s.last()));
            assert(join(now, seq![sep]) =~= (join(before.drop_last(), seq![sep]) + seq![sep]
                + before.last()).push(s.last()));
        }
    }
}

/// Executable form of [`split`].
pub fn split_on(v: &Vec<char>, sep: char) -> (r: Vec<Vec<char>>)
    ensures
        views(r@) == split(v@, sep),
{
    let mut done: Vec<Vec<char>> = Vec::new();
    let mut piece: Vec<char> = Vec::new();
    let mut i: usize = 0;
    assert(v@.take(0) == Seq::<char>::empty());
    assert(views(done@).push(piece@) == seq![Seq::<char>::empty()]);
    while i < v.len()
        invariant
            i <= v.len(),
            views(done@).push(piece@) == split(v@.take(i as int), sep),
        decreases v.len() - i,
    {
        let ghost before = views(done@).push(piece@);
        assert(v@.take(i + 1).drop_last() == v@.take(i as int));
        assert(v@.take(i + 1).last() == v@[i as int]);
        if v[i] == sep {
            done.push(piece);
            piece = Vec::new();
            assert(views(done@) == before);
        } else {
            piece.push(v[i]);
            assert(views(done@) == before.drop_last());
            assert(piece@ == before.last().push(v@[i as int]));
        }
        i += 1;
    }
    assert(v@.take(v.len() as int) == v@);
    let ghost all = views(done@).push(piece@);
    done.push(piece);
    assert(views(done@) == all);
    done
}

/// Executable form of [`join`].
pub fn join_with(pieces: &Vec<Vec<char>>, sep: &Vec<char>) -> (r: Vec<char>)
    ensures
        r@ == join(views(pieces@), sep@),
{
    let mut r: Vec<char> = Vec::new();
    let mut i: usize = 0;
    assert(views(pieces@).take(0) == Seq::<Seq<char>>::empty());
    while i < pieces.len()
        invariant
            i <= pieces.len(),
            r@ == join(views(pieces@).take(i as int), sep@),
        decreases pieces.len() - i,
    {
        let ghost next = views(pieces@).take(i + 1);
        assert(next.drop_last() == views(pieces@).take(i as int));
        assert(next.last() == pieces[i as int]@);
        if i > 0 {
            append(&mut r, sep);
        } else {
            assert(next[0] == pieces[0]@);
        }
        append(&mut r, &pieces[i]);
        i += 1;
    }
    assert(views(pieces@).take(pieces.len() as int) == views(pieces@));
    r
}

} // verus!
