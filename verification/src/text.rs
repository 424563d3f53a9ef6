//! Text primitives shared by the rest of the crate.
//!
//! A string is modelled by its sequence of characters (`s@`). Searching is
//! done on a `Vec<char>` copy; results are assembled from slices of the
//! inputs, so every function here is stated over `Seq<char>`.

use vstd::prelude::*;
use vstd::string::*;

verus! {

/// The texts of a sequence of strings.
pub open spec fn texts(strings: Seq<String>) -> Seq<Seq<char>> {
    strings.map_values(|s: String| s@)
}

/// The text of an optional string.
pub open spec fn optional_text(s: Option<String>) -> Option<Seq<char>> {
    match s {
        Some(t) => Some(t@),
        None => None,
    }
}

/// The text of an optional string slice.
pub open spec fn optional_str(s: Option<&str>) -> Option<Seq<char>> {
    match s {
        Some(t) => Some(t@),
        None => None,
    }
}

/// `needle` occurs in `hay` starting at index `at`.
pub open spec fn occurs_at(hay: Seq<char>, needle: Seq<char>, at: int) -> bool {
    &&& 0 <= at
    &&& at + needle.len() <= hay.len()
    &&& hay.subrange(at, at + needle.len()) == needle
}

/// `needle` occurs somewhere in `hay`.
pub open spec fn occurs(hay: Seq<char>, needle: Seq<char>) -> bool {
    exists|at: int| occurs_at(hay, needle, at)
}

/// The characters of `s`, in order.
pub fn chars_of(s: &str) -> (out: Vec<char>)
    ensures
        out@ == s@,
{
    let mut out: Vec<char> = Vec::new();
    for c in it: s.chars()
        invariant
            out@ == it.seq().take(it.index() as int),
            it.seq() == s@,
    {
        out.push(c);
    }
    out
}

/// Whether `needle` occurs in `hay` at index `at`.
pub fn matches_at(hay: &Vec<char>, needle: &Vec<char>, at: usize) -> (found: bool)
    ensures
        found == occurs_at(hay@, needle@, at as int),
{
    if needle.len() > hay.len() || at > hay.len() - needle.len() {
        return false;
    }
    let mut k: usize = 0;
    while k < needle.len()
        invariant
            k <= needle.len(),
            at + needle.len() <= hay.len(),
            forall|j: int| 0 <= j < k ==> hay@[at + j] == needle@[j],
        decreases needle.len() - k,
    {
        if hay[at + k] != needle[k] {
            assert(hay@.subrange(at as int, at + needle.len())[k as int] != needle@[k as int]);
            return false;
        }
        k += 1;
    }
    assert(hay@.subrange(at as int, at + needle.len()) =~= needle@);
    true
}

/// Whether `needle` occurs anywhere in `hay`. The empty text occurs in every
/// text.
pub fn contains(hay: &str, needle: &str) -> (found: bool)
    ensures
        found == occurs(hay@, needle@),
{
    let h = chars_of(hay);
    let n = chars_of(needle);
    if n.len() > h.len() {
        return false;
    }
    let last: usize = h.len() - n.len();
    let mut at: usize = 0;
    loop
        invariant
            at <= last,
            last == h.len() - n.len(),
            h@ == hay@,
            n@ == needle@,
            forall|j: int| 0 <= j < at ==> !occurs_at(hay@, needle@, j),
        decreases last - at,
    {
        if matches_at(&h, &n, at) {
            return true;
        }
        if at == last {
            return false;
        }
        at += 1;
    }
}

/// Whether two texts hold the same characters.
pub fn same_text(a: &str, b: &str) -> (same: bool)
    ensures
        same == (a@ == b@),
{
    let x = chars_of(a);
    let y = chars_of(b);
    if x.len() != y.len() {
        return false;
    }
    let same = matches_at(&x, &y, 0);
    assert(x@.subrange(0, x@.len() as int) =~= x@);
    same
}

/// `text` with every occurrence of the character `c` taken out.
pub open spec fn without(text: Seq<char>, c: char) -> Seq<char> {
    text.filter(|x: char| x != c)
}

/// A copy of `text` that leaves out every `c`.
pub fn without_char(text: &str, c: char) -> (out: String)
    ensures
        out@ == without(text@, c),
{
    let chars = chars_of(text);
    let mut out = String::new();
    let mut kept_from: usize = 0;
    let mut at: usize = 0;
    proof {
        reveal(Seq::filter);
        assert(text@.take(0) =~= Seq::<char>::empty());
        assert(out@ + text@.subrange(0, 0) =~= Seq::<char>::empty());
    }
    while at < chars.len()
        invariant
            kept_from <= at <= chars.len(),
            chars@ == text@,
            without(text@.take(at as int), c) == out@ + text@.subrange(
                kept_from as int,
                at as int,
            ),
        decreases chars.len() - at,
    {
        proof {
            reveal(Seq::filter);
            assert(text@.take(at + 1).drop_last() =~= text@.take(at as int));
        }
        if chars[at] == c {
            out.append(text.substring_char(kept_from, at));
            kept_from = at + 1;
            assert(out@ + text@.subrange(kept_from as int, at + 1) =~= out@);
        } else {
            assert(text@.subrange(kept_from as int, at + 1) =~= text@.subrange(
                kept_from as int,
                at as int,
            ).push(text@[at as int]));
            assert((out@ + text@.subrange(kept_from as int, at as int)).push(text@[at as int])
                =~= out@ + text@.subrange(kept_from as int, at + 1));
        }
        at += 1;
    }
    out.append(text.substring_char(kept_from, at));
    assert(text@.take(at as int) =~= text@);
    out
}

/// The characters that count as white space: the code points with the
/// Unicode property `White_Space`.
pub open spec fn is_space(c: char) -> bool {
    let n = c as u32;
    ||| 0x09 <= n <= 0x0D
    ||| n == 0x20
    ||| n == 0x85
    ||| n == 0xA0
    ||| n == 0x1680
    ||| 0x2000 <= n <= 0x200A
    ||| n == 0x2028
    ||| n == 0x2029
    ||| n == 0x202F
    ||| n == 0x205F
    ||| n == 0x3000
}

/// A text of white space only; the empty text is blank.
pub open spec fn blank(text: Seq<char>) -> bool {
    forall|i: int| 0 <= i < text.len() ==> is_space(#[trigger] text[i])
}

/// Whether `c` is white space.
pub fn space_char(c: char) -> (space: bool)
    ensures
        space == is_space(c),
{
    let n: u32 = c as u32;
    (0x09 <= n && n <= 0x0D) || n == 0x20 || n == 0x85 || n == 0xA0 || n == 0x1680 || (0x2000 <= n
        && n <= 0x200A) || n == 0x2028 || n == 0x2029 || n == 0x202F || n == 0x205F || n == 0x3000
}

/// Whether `text` holds nothing but white space.
pub fn is_blank(text: &str) -> (b: bool)
    ensures
        b == blank(text@),
{
    let chars = chars_of(text);
    let mut at: usize = 0;
    while at < chars.len()
        invariant
            at <= chars.len(),
            chars@ == text@,
            forall|i: int| 0 <= i < at ==> is_space(#[trigger] text@[i]),
        decreases chars.len() - at,
    {
        if !space_char(chars[at]) {
            return false;
        }
        at += 1;
    }
    true
}

/// `text` with every occurrence of `old` replaced by `new`. Occurrences are
/// taken from left to right and do not overlap: after one is replaced the
/// search goes on behind it, so what `new` brings in is never replaced
/// again. An empty `old` occurs before every character and at the end.
pub open spec fn substituted(text: Seq<char>, old: Seq<char>, new: Seq<char>) -> Seq<char>
    decreases text.len(),
{
    if old.len() == 0 {
        if text.len() == 0 {
            new
        } else {
            new + seq![text[0]] + substituted(text.skip(1), old, new)
        }
    } else if text.len() < old.len() {
        text
    } else if text.take(old.len() as int) == old {
        new + substituted(text.skip(old.len() as int), old, new)
    } else {
        seq![text[0]] + substituted(text.skip(1), old, new)
    }
}

/// A copy of `text` in which `new` stands for every character boundary:
/// the result of replacing the empty text.
fn interleave(text: &str, new: &str) -> (out: String)
    ensures
        out@ == substituted(text@, Seq::<char>::empty(), new@),
{
    let chars = chars_of(text);
    let ghost none = Seq::<char>::empty();
    let mut out = String::new();
    let mut at: usize = 0;
    assert(text@.skip(0) =~= text@);
    while at < chars.len()
        invariant
            at <= chars.len(),
            chars@ == text@,
            none == Seq::<char>::empty(),
            substituted(text@, none, new@) == out@ + substituted(text@.skip(at as int), none, new@),
        decreases chars.len() - at,
    {
        let ghost before = out@;
        out.append(new);
        out.append(text.substring_char(at, at + 1));
        proof {
            let rest = text@.skip(at as int);
            assert(rest.skip(1) =~= text@.skip(at + 1));
            assert(text@.subrange(at as int, at + 1) =~= seq![rest[0]]);
            assert(before + (new@ + seq![rest[0]] + substituted(rest.skip(1), none, new@))
                =~= before + new@ + seq![rest[0]] + substituted(rest.skip(1), none, new@));
        }
        at += 1;
    }
    out.append(new);
    out
}

/// A copy of `text` with every occurrence of `old` replaced by `new`, as
/// `str::replace` makes it.
pub fn replace_all(text: &str, old: &str, new: &str) -> (out: String)
    ensures
        out@ == substituted(text@, old@, new@),
{
    let chars = chars_of(text);
    let sought = chars_of(old);
    if sought.len() == 0 {
        assert(old@ =~= Seq::<char>::empty());
        return interleave(text, new);
    }
    let mut out = String::new();
    let mut kept_from: usize = 0;
    let mut at: usize = 0;
    proof {
        assert(text@.skip(0) =~= text@);
        assert(out@ + text@.subrange(0, 0) + text@ =~= text@);
    }
    while chars.len() - at >= sought.len()
        invariant
            kept_from <= at <= chars.len(),
            chars@ == text@,
            sought@ == old@,
            sought.len() > 0,
            substituted(text@, old@, new@) == out@ + text@.subrange(kept_from as int, at as int)
                + substituted(text@.skip(at as int), old@, new@),
        decreases chars.len() - at,
    {
        let ghost rest = text@.skip(at as int);
        let ghost before = out@;
        let ghost kept = text@.subrange(kept_from as int, at as int);
        proof {
            assert(rest.take(old@.len() as int) =~= text@.subrange(at as int, at + old@.len()));
        }
        if matches_at(&chars, &sought, at) {
            out.append(text.substring_char(kept_from, at));
            out.append(new);
            proof {
                assert(rest.skip(old@.len() as int) =~= text@.skip(at + old@.len()));
                let after = substituted(text@.skip(at + old@.len()), old@, new@);
                assert(before + kept + (new@ + after) =~= (before + kept + new@) + text@.subrange(
                    at + old@.len(),
                    at + old@.len(),
                ) + after);
            }
            at += sought.len();
            kept_from = at;
        } else {
            proof {
                assert(rest.skip(1) =~= text@.skip(at + 1));
                let after = substituted(text@.skip(at + 1), old@, new@);
                assert(before + kept + (seq![rest[0]] + after) =~= before + text@.subrange(
                    kept_from as int,
                    at + 1,
                ) + after);
            }
            at += 1;
        }
    }
    out.append(text.substring_char(kept_from, chars.len()));
    proof {
        let rest = text@.skip(at as int);
        assert(text@.subrange(kept_from as int, at as int) + rest =~= text@.subrange(
            kept_from as int,
            text@.len() as int,
        ));
    }
    out
}

/// The pieces of `s` between the occurrences of `sep`, in order. A text
/// without `sep` is one piece, the empty text included; two separators in a
/// row have an empty piece between them.
pub open spec fn pieces(s: Seq<char>, sep: char) -> Seq<Seq<char>>
    decreases s.len(),
{
    if s.len() == 0 {
        seq![Seq::<char>::empty()]
    } else {
        let before = pieces(s.drop_last(), sep);
        if s.last() == sep {
            before.push(Seq::<char>::empty())
        } else {
            before.drop_last().push(before.last().push(s.last()))
        }
    }
}

/// A text without the separator is one piece.
pub proof fn lemma_pieces_of_plain(s: Seq<char>, sep: char)
    requires
        !s.contains(sep),
    ensures
        pieces(s, sep) == seq![s],
    decreases s.len(),
{
    if s.len() == 0 {
        assert(s =~= Seq::<char>::empty());
    } else {
        let before = s.drop_last();
        assert(s[s.len() - 1] != sep);
        assert forall|i: int| 0 <= i < before.len() implies before[i] != sep by {
            assert(s[i] == before[i]);
        }
        lemma_pieces_of_plain(before, sep);
        assert(before.push(s.last()) =~= s);
        assert(seq![before].drop_last() =~= Seq::<Seq<char>>::empty());
        assert(seq![before].last() == before);
        assert(Seq::<Seq<char>>::empty().push(s) =~= seq![s]);
    }
}

/// What follows the last separator is the last piece.
pub proof fn lemma_pieces_append(head: Seq<char>, tail: Seq<char>, sep: char)
    requires
        !tail.contains(sep),
    ensures
        pieces(head + seq![sep] + tail, sep) == pieces(head, sep).push(tail),
    decreases tail.len(),
{
    let whole = head + seq![sep] + tail;
    if tail.len() == 0 {
        assert(whole.drop_last() =~= head);
        assert(tail =~= Seq::<char>::empty());
    } else {
        let shorter = tail.drop_last();
        assert(tail[tail.len() - 1] != sep);
        assert forall|i: int| 0 <= i < shorter.len() implies shorter[i] != sep by {
            assert(tail[i] == shorter[i]);
        }
        lemma_pieces_append(head, shorter, sep);
        assert(whole.drop_last() =~= head + seq![sep] + shorter);
        assert(whole.last() == tail.last());
        assert(shorter.push(tail.last()) =~= tail);
        assert(pieces(head, sep).push(shorter).drop_last() =~= pieces(head, sep));
    }
}

/// A line as it ends in a file: without the carriage return that may stand
/// before the line feed.
pub open spec fn without_return(line: Seq<char>) -> Seq<char> {
    if line.len() > 0 && line.last() == '\r' {
        line.drop_last()
    } else {
        line
    }
}

/// The lines of `text`. A line ends with a line feed, or with a carriage
/// return and a line feed, and neither belongs to the line. What follows the
/// last line feed is a line too unless it is empty; nothing is cut from it.
pub open spec fn lines_of(text: Seq<char>) -> Seq<Seq<char>> {
    let p = pieces(text, '\n');
    let ended = p.drop_last().map_values(|line: Seq<char>| without_return(line));
    if p.last().len() == 0 {
        ended
    } else {
        ended.push(p.last())
    }
}

/// The texts of `lines`, each followed by `end`, one after the other.
pub open spec fn joined_lines(lines: Seq<Seq<char>>, end: Seq<char>) -> Seq<char>
    decreases lines.len(),
{
    if lines.len() == 0 {
        Seq::<char>::empty()
    } else {
        joined_lines(lines.drop_last(), end) + lines.last() + end
    }
}

/// Cuts `text` into its lines, as reading a file line by line does.
pub fn split_lines(text: &str) -> (lines: Vec<String>)
    ensures
        texts(lines@) == lines_of(text@),
{
    let chars = chars_of(text);
    let mut lines: Vec<String> = Vec::new();
    let mut start: usize = 0;
    let mut at: usize = 0;
    let ghost mut done: Seq<Seq<char>> = Seq::empty();
    proof {
        assert(text@.take(0) =~= Seq::<char>::empty());
        assert(pieces(text@.take(0), '\n') =~= done.push(text@.subrange(0, 0)));
        assert(texts(lines@) =~= done.map_values(|line: Seq<char>| without_return(line)));
    }
    while at < chars.len()
        invariant
            start <= at <= chars.len(),
            chars@ == text@,
            pieces(text@.take(at as int), '\n') == done.push(
                text@.subrange(start as int, at as int),
            ),
            texts(lines@) == done.map_values(|line: Seq<char>| without_return(line)),
        decreases chars.len() - at,
    {
        proof {
            assert(text@.take(at + 1).drop_last() =~= text@.take(at as int));
            assert(done.push(text@.subrange(start as int, at as int)).drop_last() =~= done);
        }
        if chars[at] == '\n' {
            let end: usize = if start < at && chars[at - 1] == '\r' {
                at - 1
            } else {
                at
            };
            let ghost before = lines@;
            lines.push(text.substring_char(start, end).to_owned());
            proof {
                let piece = text@.subrange(start as int, at as int);
                assert(text@.subrange(start as int, end as int) =~= without_return(piece));
                assert(texts(lines@) =~= texts(before).push(without_return(piece)));
                let closed = done.push(piece);
                assert(closed.map_values(|line: Seq<char>| without_return(line)) =~= done.map_values(
                    |line: Seq<char>| without_return(line),
                ).push(without_return(piece)));
                done = closed;
                assert(text@.subrange(at + 1, at + 1) =~= Seq::<char>::empty());
            }
            start = at + 1;
        } else {
            assert(text@.subrange(start as int, at as int).push(text@[at as int])
                =~= text@.subrange(start as int, at + 1));
        }
        at += 1;
    }
    proof {
        assert(text@.take(at as int) =~= text@);
        assert(done.push(text@.subrange(start as int, at as int)).drop_last() =~= done);
    }
    if start < at {
        let ghost before = lines@;
        lines.push(text.substring_char(start, at).to_owned());
        assert(texts(lines@) =~= texts(before).push(text@.subrange(start as int, at as int)));
    }
    lines
}

/// Writes `lines` out, each followed by `end`.
pub fn join_lines(lines: &Vec<String>, end: &str) -> (out: String)
    ensures
        out@ == joined_lines(texts(lines@), end@),
{
    let ghost all = texts(lines@);
    let mut out = String::new();
    let mut at: usize = 0;
    assert(all.take(0) =~= Seq::<Seq<char>>::empty());
    while at < lines.len()
        invariant
            at <= lines.len(),
            all == texts(lines@),
            out@ == joined_lines(all.take(at as int), end@),
        decreases lines.len() - at,
    {
        proof {
            assert(all.take(at + 1).drop_last() =~= all.take(at as int));
            assert(all.take(at + 1).last() == lines@[at as int]@);
        }
        out.append(lines[at].as_str());
        out.append(end);
        at += 1;
    }
    assert(all.take(at as int) =~= all);
    out
}

/// A text in which `old` does not occur is left as it is.
pub proof fn lemma_substituted_without_occurrence(text: Seq<char>, old: Seq<char>, new: Seq<char>)
    requires
        !occurs(text, old),
    ensures
        substituted(text, old, new) == text,
    decreases text.len(),
{
    if old.len() == 0 {
        assert(text.subrange(0, 0) =~= old);
        assert(occurs_at(text, old, 0));
    } else if text.len() >= old.len() {
        if text.take(old.len() as int) == old {
            assert(text.subrange(0, old.len() as int) =~= text.take(old.len() as int));
            assert(occurs_at(text, old, 0));
        } else {
            let rest = text.skip(1);
            assert forall|at: int| !occurs_at(rest, old, at) by {
                if occurs_at(rest, old, at) {
                    assert(text.subrange(at + 1, at + 1 + old.len()) =~= rest.subrange(
                        at,
                        at + old.len(),
                    ));
                    assert(occurs_at(text, old, at + 1));
                }
            }
            lemma_substituted_without_occurrence(rest, old, new);
            assert(seq![text[0]] + rest =~= text);
        }
    }
}

/// The first occurrence of `old` is replaced, what stands before it is
/// kept, and the search goes on behind it.
pub proof fn lemma_substituted_first_occurrence(
    text: Seq<char>,
    old: Seq<char>,
    new: Seq<char>,
    at: int,
)
    requires
        old.len() > 0,
        occurs_at(text, old, at),
        forall|j: int| 0 <= j < at ==> !occurs_at(text, old, j),
    ensures
        substituted(text, old, new) == text.take(at) + new + substituted(
            text.skip(at + old.len()),
            old,
            new,
        ),
    decreases at,
{
    assert(text.take(old.len() as int) =~= text.subrange(0, old.len() as int));
    if at == 0 {
        assert(text.take(0) + new =~= new);
    } else {
        assert(!occurs_at(text, old, 0));
        let rest = text.skip(1);
        assert(rest.subrange(at - 1, at - 1 + old.len()) =~= text.subrange(at, at + old.len()));
        assert forall|j: int| 0 <= j < at - 1 implies !occurs_at(rest, old, j) by {
            if occurs_at(rest, old, j) {
                assert(text.subrange(j + 1, j + 1 + old.len()) =~= rest.subrange(
                    j,
                    j + old.len(),
                ));
                assert(occurs_at(text, old, j + 1));
            }
        }
        lemma_substituted_first_occurrence(rest, old, new, at - 1);
        assert(rest.skip(at - 1 + old.len()) =~= text.skip(at + old.len()));
        assert(seq![text[0]] + (rest.take(at - 1) + new + substituted(
            text.skip(at + old.len()),
            old,
            new,
        )) =~= text.take(at) + new + substituted(text.skip(at + old.len()), old, new));
    }
}

/// Replacing a text by itself changes nothing.
pub proof fn lemma_substituted_by_itself(text: Seq<char>, old: Seq<char>)
    requires
        old.len() > 0,
    ensures
        substituted(text, old, old) == text,
    decreases text.len(),
{
    if text.len() >= old.len() {
        if text.take(old.len() as int) == old {
            lemma_substituted_by_itself(text.skip(old.len() as int), old);
            assert(text.take(old.len() as int) + text.skip(old.len() as int) =~= text);
        } else {
            lemma_substituted_by_itself(text.skip(1), old);
            assert(seq![text[0]] + text.skip(1) =~= text);
        }
    }
}

} // verus!
