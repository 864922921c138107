//! Text as a sequence of characters: the string operations that the rest of the crate is built on,
//! each stated over `Seq<char>`.

use vstd::prelude::*;
use vstd::utf8::{decode_utf8, encode_utf8, is_ascii_chars, valid_utf8};

verus! {

// ---- Equality, characters, bytes ----

/// The characters of a string, as a vector.
pub fn chars_of(s: &str) -> (r: Vec<char>)
    ensures
        r@ == s@,
{
    let mut r: Vec<char> = Vec::new();
    for c in it: s.chars()
        invariant
            it.seq() == s@,
            r@ == it.seq().take(it.index()),
    {
        r.push(c);
    }
    r
}

/// Whether two strings hold the same characters.
pub fn same(a: &str, b: &str) -> (r: bool)
    ensures
        r == (a@ == b@),
{
    let left = chars_of(a);
    let right = chars_of(b);
    if left.len() != right.len() {
        return false;
    }
    let mut i: usize = 0;
    while i < left.len()
        invariant
            left@ == a@,
            right@ == b@,
            i <= left@.len() == right@.len(),
            forall|j: int| 0 <= j < i ==> left@[j] == right@[j],
        decreases left@.len() - i,
    {
        if left[i] != right[i] {
            return false;
        }
        i += 1;
    }
    assert(a@ =~= b@);
    true
}

/// The number of bytes of a text in UTF-8.
pub open spec fn byte_len(s: Seq<char>) -> nat {
    encode_utf8(s).len()
}

/// The length of a string in bytes.
pub fn bytes_in(s: &str) -> (r: usize)
    ensures
        r == byte_len(s@),
{
    s.as_bytes().len()
}

/// What reading bytes as UTF-8 gives when each malformed part is replaced by U+FFFD.
pub uninterp spec fn utf8_lossy(bytes: Seq<u8>) -> Seq<char>;

/// `String::from_utf8_lossy`: bytes read as UTF-8, with U+FFFD in place of what is malformed.
/// Well-formed bytes are read as they stand.
#[verifier::external_body]
pub(crate) fn lossy_text(bytes: &[u8]) -> (r: String)
    ensures
        r@ == utf8_lossy(bytes@),
        valid_utf8(bytes@) ==> r@ == decode_utf8(bytes@),
{
    String::from_utf8_lossy(bytes).into_owned()
}

/// `std::str::from_utf8`: bytes read as UTF-8, or nothing where they are malformed.
#[verifier::external_body]
pub(crate) fn strict_text(bytes: &[u8]) -> (r: Option<String>)
    ensures
        match r {
            Some(text) => valid_utf8(bytes@) && text@ == decode_utf8(bytes@),
            None => !valid_utf8(bytes@),
        },
{
    match std::str::from_utf8(bytes) {
        Ok(text) => Some(text.to_owned()),
        Err(_) => None,
    }
}

/// The upper-case form of a text under Unicode's case mapping.
pub uninterp spec fn uppercase(s: Seq<char>) -> Seq<char>;

/// The upper-case form of one ASCII character.
pub open spec fn ascii_upper(c: char) -> char {
    if 'a' <= c <= 'z' {
        (c as u32 - 32) as char
    } else {
        c
    }
}

/// `str::to_uppercase`: the text's upper-case form. An ASCII text is mapped letter by letter.
#[verifier::external_body]
pub(crate) fn to_upper(s: &str) -> (r: String)
    ensures
        r@ == uppercase(s@),
        is_ascii_chars(s@) ==> r@ == s@.map_values(|c: char| ascii_upper(c)),
{
    s.to_uppercase()
}

// ---- White space ----

/// Unicode's `White_Space` property, which holds of these characters and no others.
pub open spec fn is_white_space(c: char) -> bool {
    ||| '\u{9}' <= c <= '\u{d}'
    ||| c == ' '
    ||| c == '\u{85}'
    ||| c == '\u{a0}'
    ||| c == '\u{1680}'
    ||| '\u{2000}' <= c <= '\u{200a}'
    ||| c == '\u{2028}'
    ||| c == '\u{2029}'
    ||| c == '\u{202f}'
    ||| c == '\u{205f}'
    ||| c == '\u{3000}'
}

fn white_space(c: char) -> (r: bool)
    ensures
        r == is_white_space(c),
{
    ('\u{9}' <= c && c <= '\u{d}') || c == ' ' || c == '\u{85}' || c == '\u{a0}' || c == '\u{1680}'
        || ('\u{2000}' <= c && c <= '\u{200a}') || c == '\u{2028}' || c == '\u{2029}' || c
        == '\u{202f}' || c == '\u{205f}' || c == '\u{3000}'
}

/// A text without its leading white space.
pub open spec fn trimmed_start(s: Seq<char>) -> Seq<char>
    decreases s.len(),
{
    if s.len() > 0 && is_white_space(s[0]) {
        trimmed_start(s.drop_first())
    } else {
        s
    }
}

/// A text without its trailing white space.
pub open spec fn trimmed_end(s: Seq<char>) -> Seq<char>
    decreases s.len(),
{
    if s.len() > 0 && is_white_space(s.last()) {
        trimmed_end(s.drop_last())
    } else {
        s
    }
}

/// A text without its leading and trailing white space.
pub open spec fn trimmed(s: Seq<char>) -> Seq<char> {
    trimmed_end(trimmed_start(s))
}

fn first_solid(chars: &Vec<char>) -> (r: usize)
    ensures
        r <= chars@.len(),
        trimmed_start(chars@) == chars@.subrange(r as int, chars@.len() as int),
{
    let mut i: usize = 0;
    assert(chars@.subrange(0, chars@.len() as int) == chars@);
    while i < chars.len() && white_space(chars[i])
        invariant
            i <= chars@.len(),
            trimmed_start(chars@) == trimmed_start(chars@.subrange(i as int, chars@.len() as int)),
        decreases chars@.len() - i,
    {
        assert(chars@.subrange(i as int, chars@.len() as int).drop_first() == chars@.subrange(
            i + 1,
            chars@.len() as int,
        ));
        i += 1;
    }
    i
}

/// The text without leading white space.
pub fn trim_start(s: &str) -> (r: String)
    ensures
        r@ == trimmed_start(s@),
{
    let chars = chars_of(s);
    let from: usize = first_solid(&chars);
    s.substring_char(from, chars.len()).to_owned()
}

/// The text without leading and trailing white space.
pub fn trim(s: &str) -> (r: String)
    ensures
        r@ == trimmed(s@),
{
    let chars = chars_of(s);
    let from: usize = first_solid(&chars);
    let mut to: usize = chars.len();
    while from < to && white_space(chars[to - 1])
        invariant
            from <= to <= chars@.len(),
            trimmed_end(chars@.subrange(from as int, chars@.len() as int)) == trimmed_end(
                chars@.subrange(from as int, to as int),
            ),
        decreases to,
    {
        assert(chars@.subrange(from as int, to as int).drop_last() == chars@.subrange(
            from as int,
            to - 1,
        ));
        to -= 1;
    }
    s.substring_char(from, to).to_owned()
}

/// A text without white space at its ends is trimmed as it is.
pub proof fn lemma_trimmed_keeps(s: Seq<char>)
    requires
        s.len() > 0,
        !is_white_space(s[0]),
        !is_white_space(s.last()),
    ensures
        trimmed(s) == s,
{
}

// ---- Patterns ----

/// Whether `pattern` stands in `s` at position `i`.
pub open spec fn occurs_at(s: Seq<char>, pattern: Seq<char>, i: int) -> bool {
    &&& 0 <= i
    &&& i + pattern.len() <= s.len()
    &&& s.subrange(i, i + pattern.len()) == pattern
}

/// The first position from `from` on at which `pattern` stands in `s`.
pub open spec fn first_from(s: Seq<char>, pattern: Seq<char>, from: int) -> Option<int>
    decreases s.len() - from + 1,
{
    if from < 0 || from + pattern.len() > s.len() {
        None
    } else if occurs_at(s, pattern, from) {
        Some(from)
    } else {
        first_from(s, pattern, from + 1)
    }
}

/// The position that `first_from` gives is the first occurrence, and it gives none only where
/// there is none.
pub proof fn lemma_first_from(s: Seq<char>, pattern: Seq<char>, from: int)
    requires
        0 <= from,
    ensures
        match first_from(s, pattern, from) {
            Some(i) => from <= i && occurs_at(s, pattern, i) && forall|j: int|
                from <= j < i ==> !occurs_at(s, pattern, j),
            None => forall|j: int| from <= j ==> !occurs_at(s, pattern, j),
        },
    decreases s.len() - from + 1,
{
    if from + pattern.len() <= s.len() && !occurs_at(s, pattern, from) {
        lemma_first_from(s, pattern, from + 1);
    }
}

/// Whether `pattern` stands at position `i` of `chars`.
fn stands_at(chars: &Vec<char>, pattern: &Vec<char>, i: usize) -> (r: bool)
    requires
        i <= chars@.len(),
    ensures
        r == occurs_at(chars@, pattern@, i as int),
{
    if pattern.len() > chars.len() - i {
        return false;
    }
    let total: usize = chars.len();
    let mut k: usize = 0;
    while k < pattern.len()
        invariant
            total == chars@.len(),
            k <= pattern@.len(),
            i + pattern@.len() <= chars@.len(),
            forall|j: int| 0 <= j < k ==> chars@[i + j] == pattern@[j],
        decreases pattern@.len() - k,
    {
        if chars[i + k] != pattern[k] {
            assert(chars@.subrange(i as int, i + pattern@.len())[k as int] != pattern@[k as int]);
            return false;
        }
        k += 1;
    }
    assert(chars@.subrange(i as int, i + pattern@.len()) == pattern@);
    true
}

/// What is left of `s` behind a leading `prefix`, where it has one.
pub open spec fn without_prefix(s: Seq<char>, prefix: Seq<char>) -> Option<Seq<char>> {
    if occurs_at(s, prefix, 0) {
        Some(s.skip(prefix.len() as int))
    } else {
        None
    }
}

/// What is left of `s` behind a leading `prefix`.
pub fn strip_prefix(s: &str, prefix: &str) -> (r: Option<String>)
    ensures
        r.deep_view() == without_prefix(s@, prefix@),
{
    let chars = chars_of(s);
    let pattern = chars_of(prefix);
    if stands_at(&chars, &pattern, 0) {
        let rest = s.substring_char(pattern.len(), chars.len()).to_owned();
        assert(s@.subrange(prefix@.len() as int, s@.len() as int) == s@.skip(prefix@.len() as int));
        Some(rest)
    } else {
        None
    }
}

/// `s` without any number of copies of `suffix` at its end.
pub open spec fn without_suffixes(s: Seq<char>, suffix: Seq<char>) -> Seq<char>
    decreases s.len(),
{
    if suffix.len() > 0 && occurs_at(s, suffix, s.len() - suffix.len()) {
        without_suffixes(s.take(s.len() - suffix.len()), suffix)
    } else {
        s
    }
}

/// The text without any number of copies of `suffix` at its end.
pub fn trim_end_matches(s: &str, suffix: &str) -> (r: String)
    ensures
        r@ == without_suffixes(s@, suffix@),
{
    let chars = chars_of(s);
    let pattern = chars_of(suffix);
    if pattern.len() == 0 {
        return s.to_owned();
    }
    let mut to: usize = chars.len();
    assert(s@.take(to as int) == s@);
    while pattern.len() <= to && ends_at(&chars, &pattern, to)
        invariant
            chars@ == s@,
            pattern@ == suffix@,
            pattern@.len() > 0,
            to <= chars@.len(),
            without_suffixes(s@, suffix@) == without_suffixes(s@.take(to as int), suffix@),
        decreases to,
    {
        let ghost next = to - suffix@.len();
        assert(s@.take(to as int).take(next) == s@.take(next));
        to = to - pattern.len();
    }
    assert(s@.subrange(0, to as int) == s@.take(to as int));
    s.substring_char(0, to).to_owned()
}

/// Whether `pattern` ends at position `to` of `chars`.
fn ends_at(chars: &Vec<char>, pattern: &Vec<char>, to: usize) -> (r: bool)
    requires
        pattern@.len() <= to <= chars@.len(),
    ensures
        r == occurs_at(chars@.take(to as int), pattern@, to - pattern@.len()),
{
    let i: usize = to - pattern.len();
    let r: bool = stands_at(chars, pattern, i);
    assert(chars@.take(to as int).subrange(i as int, to as int) == chars@.subrange(
        i as int,
        to as int,
    ));
    r
}

// ---- Splitting and joining ----

/// The pieces of `s` from position `from` on between the occurrences of `separator`, taken from
/// left to right.
pub open spec fn pieces_from(s: Seq<char>, separator: Seq<char>, from: int) -> Seq<Seq<char>>
    decreases s.len() - from,
{
    match first_from(s, separator, from) {
        Some(i) => {
            if separator.len() > 0 && from <= i && i + separator.len() <= s.len() {
                seq![s.subrange(from, i)] + pieces_from(s, separator, i + separator.len())
            } else {
                seq![s.subrange(from, s.len() as int)]
            }
        },
        None => seq![s.subrange(from, s.len() as int)],
    }
}

/// The pieces of `s` between the occurrences of `separator`.
pub open spec fn pieces(s: Seq<char>, separator: Seq<char>) -> Seq<Seq<char>> {
    pieces_from(s, separator, 0)
}

/// The pieces of a text between the occurrences of a separator.
pub fn split(s: &str, separator: &str) -> (r: Vec<String>)
    requires
        separator@.len() > 0,
    ensures
        r.deep_view() == pieces(s@, separator@),
{
    let chars = chars_of(s);
    let pattern = chars_of(separator);
    let mut out: Vec<String> = Vec::new();
    let mut start: usize = 0;
    let mut i: usize = 0;
    assert(out.deep_view() + pieces_from(s@, separator@, 0) == pieces(s@, separator@));
    while pattern.len() <= chars.len() - i
        invariant
            chars@ == s@,
            pattern@ == separator@,
            separator@.len() > 0,
            start <= i <= chars@.len(),
            first_from(s@, separator@, start as int) == first_from(s@, separator@, i as int),
            out.deep_view() + pieces_from(s@, separator@, start as int) == pieces(s@, separator@),
        decreases chars@.len() - i,
    {
        if stands_at(&chars, &pattern, i) {
            let ghost before = out.deep_view();
            let piece = s.substring_char(start, i).to_owned();
            out.push(piece);
            proof {
                assert(out.deep_view() == before.push(s@.subrange(start as int, i as int)));
                assert(pieces_from(s@, separator@, start as int) == seq![
                    s@.subrange(start as int, i as int),
                ] + pieces_from(s@, separator@, i + separator@.len()));
                assert(out.deep_view() + pieces_from(s@, separator@, i + separator@.len())
                    == before + pieces_from(s@, separator@, start as int));
            }
            i = i + pattern.len();
            start = i;
        } else {
            i = i + 1;
        }
    }
    let ghost before = out.deep_view();
    out.push(s.substring_char(start, chars.len()).to_owned());
    assert(out.deep_view() == before.push(s@.subrange(start as int, s@.len() as int)));
    assert(before + pieces_from(s@, separator@, start as int) == out.deep_view());
    out
}

/// The texts in order, with `separator` between each two.
pub open spec fn joined(parts: Seq<Seq<char>>, separator: Seq<char>) -> Seq<char>
    decreases parts.len(),
{
    if parts.len() == 0 {
        Seq::empty()
    } else if parts.len() == 1 {
        parts[0]
    } else {
        joined(parts.drop_last(), separator) + separator + parts.last()
    }
}

/// The texts in order, with `separator` between each two.
pub fn join(parts: &Vec<String>, separator: &str) -> (r: String)
    ensures
        r@ == joined(parts.deep_view(), separator@),
{
    let mut r = String::new();
    let mut i: usize = 0;
    let ghost texts = parts.deep_view();
    assert(texts.take(0) == Seq::<Seq<char>>::empty());
    while i < parts.len()
        invariant
            i <= parts@.len(),
            texts == parts.deep_view(),
            r@ == joined(texts.take(i as int), separator@),
        decreases parts@.len() - i,
    {
        proof {
            assert(texts.take(i + 1).drop_last() == texts.take(i as int));
            assert(texts.take(i + 1).last() == parts@[i as int]@);
        }
        if i > 0 {
            r.append(separator);
        }
        r.append(parts[i].as_str());
        i += 1;
    }
    assert(texts.take(i as int) == texts);
    r
}

/// Adds a text at the end of a list.
pub fn push_text(texts: &mut Vec<String>, t: String)
    ensures
        final(texts).deep_view() == old(texts).deep_view().push(t@),
{
    texts.push(t);
    assert(texts.deep_view() =~= old(texts).deep_view().push(t@));
}

/// A text as a list of one, or of none if it is empty.
pub open spec fn if_not_empty(t: Seq<char>) -> Seq<Seq<char>> {
    if t.len() == 0 {
        Seq::empty()
    } else {
        seq![t]
    }
}

/// Adds a text at the end of a list unless it is empty.
pub fn push_if_not_empty(texts: &mut Vec<String>, t: &str)
    ensures
        final(texts).deep_view() == old(texts).deep_view() + if_not_empty(t@),
{
    if !t.is_empty() {
        push_text(texts, t.to_owned());
    }
    assert(texts.deep_view() =~= old(texts).deep_view() + if_not_empty(t@));
}

/// The texts of a list that are not empty, in order.
pub open spec fn not_empty(texts: Seq<Seq<char>>) -> Seq<Seq<char>>
    decreases texts.len(),
{
    if texts.len() == 0 {
        Seq::empty()
    } else {
        not_empty(texts.drop_last()) + if_not_empty(texts.last())
    }
}

/// Adds those of `more` that are not empty at the end of a list.
pub fn push_not_empty(texts: &mut Vec<String>, more: &Vec<String>)
    ensures
        final(texts).deep_view() == old(texts).deep_view() + not_empty(more.deep_view()),
{
    let ghost all = more.deep_view();
    let mut i: usize = 0;
    assert(texts.deep_view() =~= old(texts).deep_view() + not_empty(all.take(0)));
    while i < more.len()
        invariant
            i <= more@.len(),
            all == more.deep_view(),
            texts.deep_view() == old(texts).deep_view() + not_empty(all.take(i as int)),
        decreases more@.len() - i,
    {
        proof {
            assert(all.take(i + 1).drop_last() == all.take(i as int));
            assert(all.take(i + 1).last() == more@[i as int]@);
        }
        push_if_not_empty(texts, more[i].as_str());
        i += 1;
        assert(texts.deep_view() =~= old(texts).deep_view() + not_empty(all.take(i as int)));
    }
    assert(all.take(i as int) == all);
}

/// Whether a list holds a text.
pub fn holds(texts: &Vec<String>, t: &str) -> (r: bool)
    ensures
        r == texts.deep_view().contains(t@),
{
    let mut i: usize = 0;
    while i < texts.len()
        invariant
            i <= texts@.len(),
            forall|j: int| 0 <= j < i ==> texts.deep_view()[j] != t@,
        decreases texts@.len() - i,
    {
        if same(texts[i].as_str(), t) {
            assert(texts.deep_view()[i as int] == t@);
            return true;
        }
        i += 1;
    }
    false
}

/// `s` with each occurrence of `from`, taken from left to right, replaced by `to`.
pub open spec fn replaced(s: Seq<char>, from: Seq<char>, to: Seq<char>) -> Seq<char> {
    joined(pieces(s, from), to)
}

/// The text with each occurrence of `from` replaced by `to`.
pub fn replace(s: &str, from: &str, to: &str) -> (r: String)
    requires
        from@.len() > 0,
    ensures
        r@ == replaced(s@, from@, to@),
{
    join(&split(s, from), to)
}

proof fn lemma_joined_from_the_front(first: Seq<char>, rest: Seq<Seq<char>>, separator: Seq<char>)
    requires
        rest.len() > 0,
    ensures
        joined(seq![first] + rest, separator) == first + separator + joined(rest, separator),
    decreases rest.len(),
{
    let all = seq![first] + rest;
    if rest.len() == 1 {
        reveal_with_fuel(joined, 2);
        assert(all.drop_last() =~= seq![first]);
    } else {
        lemma_joined_from_the_front(first, rest.drop_last(), separator);
        assert(all.drop_last() =~= seq![first] + rest.drop_last());
        assert(joined(all, separator) =~= first + separator + joined(rest, separator));
    }
}

/// What replacing does from a position on: up to the first occurrence nothing changes, then the
/// replacement stands, and so on behind it.
pub proof fn lemma_replaced_from(s: Seq<char>, from: Seq<char>, to: Seq<char>, at: int)
    requires
        from.len() > 0,
        0 <= at <= s.len(),
    ensures
        match first_from(s, from, at) {
            Some(i) => at <= i && i + from.len() <= s.len() && joined(pieces_from(s, from, at), to)
                == s.subrange(at, i) + to + joined(pieces_from(s, from, i + from.len()), to),
            None => joined(pieces_from(s, from, at), to) == s.subrange(at, s.len() as int),
        },
{
    lemma_first_from(s, from, at);
    match first_from(s, from, at) {
        Some(i) => {
            let rest = pieces_from(s, from, i + from.len());
            assert(rest.len() > 0);
            lemma_joined_from_the_front(s.subrange(at, i), rest, to);
        },
        None => {},
    }
}

/// A line without a carriage return at its end.
pub open spec fn without_carriage_return(line: Seq<char>) -> Seq<char> {
    if line.len() > 0 && line.last() == '\r' {
        line.drop_last()
    } else {
        line
    }
}

/// The lines of `s` from position `from` on. A line ends with a line feed, or with a carriage
/// return and a line feed; what follows the last line feed is a line unless it is empty.
pub open spec fn lines_from(s: Seq<char>, from: int) -> Seq<Seq<char>>
    decreases s.len() - from,
{
    if from < 0 || from >= s.len() {
        Seq::empty()
    } else {
        match first_from(s, seq!['\n'], from) {
            Some(i) => {
                if from <= i < s.len() {
                    seq![without_carriage_return(s.subrange(from, i))] + lines_from(s, i + 1)
                } else {
                    Seq::empty()
                }
            },
            None => seq![s.subrange(from, s.len() as int)],
        }
    }
}

/// The lines of a text.
pub open spec fn line_texts(s: Seq<char>) -> Seq<Seq<char>> {
    lines_from(s, 0)
}

/// The lines of a text.
pub fn lines(s: &str) -> (r: Vec<String>)
    ensures
        r.deep_view() == line_texts(s@),
{
    let chars = chars_of(s);
    let mut out: Vec<String> = Vec::new();
    let mut start: usize = 0;
    let mut i: usize = 0;
    assert(out.deep_view() + lines_from(s@, 0) == line_texts(s@));
    while i < chars.len()
        invariant
            chars@ == s@,
            start <= i <= chars@.len(),
            first_from(s@, seq!['\n'], start as int) == first_from(s@, seq!['\n'], i as int),
            out.deep_view() + lines_from(s@, start as int) == line_texts(s@),
        decreases chars@.len() - i,
    {
        proof {
            assert(s@.subrange(i as int, i + 1) == seq![s@[i as int]]);
            assert(seq!['\n'][0] == '\n');
        }
        if chars[i] == '\n' {
            assert(s@.subrange(i as int, i + 1) == seq!['\n']);
            let ghost before = out.deep_view();
            let end: usize = if start < i && chars[i - 1] == '\r' {
                i - 1
            } else {
                i
            };
            let piece = s.substring_char(start, end).to_owned();
            out.push(piece);
            proof {
                let line = s@.subrange(start as int, i as int);
                assert(line.len() > 0 ==> line.last() == s@[i - 1]);
                assert(line.drop_last() == s@.subrange(start as int, i - 1) || line.len() == 0);
                assert(piece@ == without_carriage_return(line));
                assert(out.deep_view() == before.push(piece@));
                assert(lines_from(s@, start as int) == seq![piece@] + lines_from(s@, i + 1));
                assert(out.deep_view() + lines_from(s@, i + 1) == before + lines_from(
                    s@,
                    start as int,
                ));
            }
            i = i + 1;
            start = i;
        } else {
            assert(s@.subrange(i as int, i + 1)[0] != '\n');
            i = i + 1;
        }
    }
    if start < chars.len() {
        let ghost before = out.deep_view();
        out.push(s.substring_char(start, chars.len()).to_owned());
        assert(out.deep_view() == before.push(s@.subrange(start as int, s@.len() as int)));
        assert(before + lines_from(s@, start as int) == out.deep_view());
    } else {
        assert(out.deep_view() + lines_from(s@, start as int) == out.deep_view());
    }
    out
}

// ---- Numbers as text ----

/// The decimal digit of a number below ten.
pub open spec fn digit(n: nat) -> char {
    ('0' as u32 + n) as char
}

/// A number in decimal notation.
pub open spec fn decimal_text(n: nat) -> Seq<char>
    decreases n,
{
    if n < 10 {
        seq![digit(n)]
    } else {
        decimal_text(n / 10).push(digit(n % 10))
    }
}

fn digit_text(n: u64) -> (r: &'static str)
    requires
        n < 10,
    ensures
        r@ == seq![digit(n as nat)],
{
    proof {
        reveal_strlit("0");
        reveal_strlit("1");
        reveal_strlit("2");
        reveal_strlit("3");
        reveal_strlit("4");
        reveal_strlit("5");
        reveal_strlit("6");
        reveal_strlit("7");
        reveal_strlit("8");
        reveal_strlit("9");
    }
    let r: &'static str = match n {
        0 => "0",
        1 => "1",
        2 => "2",
        3 => "3",
        4 => "4",
        5 => "5",
        6 => "6",
        7 => "7",
        8 => "8",
        _ => "9",
    };
    assert(r@ == seq![digit(n as nat)]);
    r
}

/// A number in decimal notation.
pub fn decimal(n: u64) -> (r: String)
    ensures
        r@ == decimal_text(n as nat),
    decreases n,
{
    if n < 10 {
        digit_text(n).to_owned()
    } else {
        let mut r = decimal(n / 10);
        r.append(digit_text(n % 10));
        assert(r@ == decimal_text(n as nat));
        r
    }
}

} // verus!
