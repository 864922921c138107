//! Laws on how texts and streams are taken apart.

use crate::json::{json_of_text, member, Json};
use crate::laws::texts::{law_joined, mentions};
use crate::providers::anthropic::stream as anthropic;
use crate::providers::ollama;
use crate::providers::openai_compat;
use crate::providers::openai_responses::stream as responses;
use crate::providers::sse::{body_contents, data_lines, event_name, frame_contents};
use crate::text::{
    first_from, if_not_empty, joined, lemma_first_from, lemma_replaced_from, line_texts, lines_from,
    occurs_at, pieces, pieces_from, trimmed, trimmed_start, without_carriage_return,
    without_suffixes,
};
use vstd::prelude::*;

verus! {

// ---- Splitting ----

proof fn lemma_pieces_from(s: Seq<char>, separator: Seq<char>, from: int)
    requires
        separator.len() > 0,
        0 <= from <= s.len(),
    ensures
        pieces_from(s, separator, from).len() > 0,
        joined(pieces_from(s, separator, from), separator) == s.skip(from),
        forall|i: int|
            0 <= i < pieces_from(s, separator, from).len() ==> !mentions(
                #[trigger] pieces_from(s, separator, from)[i],
                separator,
            ),
    decreases s.len() - from,
{
    lemma_first_from(s, separator, from);
    let all = pieces_from(s, separator, from);
    let end = match first_from(s, separator, from) {
        Some(i) => i,
        None => s.len() as int,
    };
    let first = s.subrange(from, end);
    assert(!mentions(first, separator)) by {
        if mentions(first, separator) {
            let j = choose|j: int| #[trigger] occurs_at(first, separator, j);
            let n = separator.len();
            assert(s.subrange(from + j, from + j + n) =~= first.subrange(j, j + n));
            assert(occurs_at(s, separator, from + j));
        }
    }
    match first_from(s, separator, from) {
        Some(i) => {
            let next = i + separator.len();
            lemma_pieces_from(s, separator, next);
            let rest = pieces_from(s, separator, next);
            law_joined(seq![first], rest, first, separator);
            assert(s.subrange(i, next) =~= separator);
            assert(s.skip(from) =~= first + separator + s.skip(next));
            assert forall|k: int| 0 <= k < all.len() implies !mentions(
                #[trigger] all[k],
                separator,
            ) by {
                if k > 0 {
                    assert(all[k] == rest[k - 1]);
                }
            }
        },
        None => {
            assert(s.skip(from) =~= first);
        },
    }
}

/// A text is split where the separator stands and nowhere else: no piece holds it, and the pieces
/// with the separator between them are the text.
pub proof fn law_pieces(s: Seq<char>, separator: Seq<char>)
    requires
        separator.len() > 0,
    ensures
        pieces(s, separator).len() > 0,
        joined(pieces(s, separator), separator) == s,
        forall|i: int|
            0 <= i < pieces(s, separator).len() ==> !mentions(
                #[trigger] pieces(s, separator)[i],
                separator,
            ),
{
    lemma_pieces_from(s, separator, 0);
    assert(s.skip(0) =~= s);
}

proof fn lemma_lines_from(s: Seq<char>, from: int)
    requires
        0 <= from <= s.len(),
        !s.contains('\r'),
    ensures
        ({
            let lines = lines_from(s, from);
            &&& forall|i: int| 0 <= i < lines.len() ==> !(#[trigger] lines[i]).contains('\n')
            &&& s.skip(from) == joined(lines, seq!['\n']) || s.skip(from) == joined(
                lines,
                seq!['\n'],
            ) + seq!['\n']
            &&& lines.len() == 0 <==> from == s.len()
            &&& from < s.len() ==> (s.last() == '\n' <==> s.skip(from) == joined(
                lines,
                seq!['\n'],
            ) + seq!['\n'])
        }),
    decreases s.len() - from,
{
    let feed = seq!['\n'];
    let lines = lines_from(s, from);
    if from < s.len() {
        lemma_first_from(s, feed, from);
        let end = match first_from(s, feed, from) {
            Some(i) => i,
            None => s.len() as int,
        };
        let first = s.subrange(from, end);
        assert(!first.contains('\n')) by {
            if first.contains('\n') {
                let j = choose|j: int| 0 <= j < first.len() && first[j] == '\n';
                assert(s.subrange(from + j, from + j + 1) =~= feed);
                assert(occurs_at(s, feed, from + j));
            }
        }
        assert(first.len() > 0 ==> s[end - 1] == first.last() && s.contains(s[end - 1]));
        match first_from(s, feed, from) {
            Some(i) => {
                assert(s.subrange(i, i + 1)[0] == s[i]);
                lemma_lines_from(s, i + 1);
                let rest = lines_from(s, i + 1);
                law_joined(seq![first], rest, first, feed);
                assert(s.skip(from) =~= first + feed + s.skip(i + 1));
                assert forall|k: int| 0 <= k < lines.len() implies !(
                #[trigger] lines[k]).contains('\n') by {
                    if k > 0 {
                        assert(lines[k] == rest[k - 1]);
                    }
                }
                if rest.len() > 0 {
                    assert(first + feed + (joined(rest, feed) + feed) =~= first + feed + joined(
                        rest,
                        feed,
                    ) + feed);
                    if s.skip(from) == joined(lines, feed) + feed {
                        assert(s.skip(from).last() == '\n');
                        assert(s.skip(from).last() == s.last());
                    }
                } else {
                    assert(lines =~= seq![first]);
                    assert(s.skip(i + 1) =~= Seq::empty());
                    assert(first + feed + Seq::<char>::empty() =~= first + feed);
                    assert(s.last() == s[i]);
                }
            },
            None => {
                assert(s.skip(from) =~= first);
                assert(lines =~= seq![first]);
                assert(s.last() == first.last());
                assert(first.contains(first.last()));
                assert(first + feed != first) by {
                    assert((first + feed).len() != first.len());
                }
            },
        }
    } else {
        assert(s.skip(from) =~= Seq::empty());
    }
}

/// The lines of a text, where no carriage return is in the way: none of them holds a line feed, and
/// the lines with line feeds between them, and one behind the last where the text ends with one,
/// are the text.
pub proof fn law_lines(s: Seq<char>)
    requires
        !s.contains('\r'),
    ensures
        forall|i: int| 0 <= i < line_texts(s).len() ==> !(#[trigger] line_texts(s)[i]).contains(
            '\n',
        ),
        line_texts(s).len() == 0 <==> s.len() == 0,
        s.len() > 0 && s.last() == '\n' ==> s == joined(line_texts(s), seq!['\n']) + seq!['\n'],
        s.len() > 0 && s.last() != '\n' ==> s == joined(line_texts(s), seq!['\n']),
{
    lemma_lines_from(s, 0);
    assert(s.skip(0) =~= s);
}

proof fn lemma_first_from_behind(s: Seq<char>, pattern: Seq<char>, skipped: int, from: int)
    requires
        0 <= skipped <= s.len(),
        0 <= from,
    ensures
        first_from(s, pattern, skipped + from) == match first_from(
            s.skip(skipped),
            pattern,
            from,
        ) {
            Some(i) => Some(skipped + i),
            None => None,
        },
    decreases s.len() - from,
{
    let t = s.skip(skipped);
    if from + pattern.len() <= t.len() {
        assert(t.subrange(from, from + pattern.len()) =~= s.subrange(
            skipped + from,
            skipped + from + pattern.len(),
        ));
        if !occurs_at(t, pattern, from) && from < t.len() {
            lemma_first_from_behind(s, pattern, skipped, from + 1);
        }
        if from == t.len() {
            assert(t.subrange(from, from) =~= pattern);
        }
    }
}

proof fn lemma_lines_behind(s: Seq<char>, skipped: int, from: int)
    requires
        0 <= skipped <= s.len(),
        0 <= from,
    ensures
        lines_from(s, skipped + from) == lines_from(s.skip(skipped), from),
    decreases s.len() - from,
{
    let t = s.skip(skipped);
    if from < t.len() {
        lemma_first_from_behind(s, seq!['\n'], skipped, from);
        lemma_first_from(t, seq!['\n'], from);
        match first_from(t, seq!['\n'], from) {
            Some(i) => {
                lemma_lines_behind(s, skipped, i + 1);
                assert(t.subrange(from, i) =~= s.subrange(skipped + from, skipped + i));
            },
            None => {
                assert(t.subrange(from, t.len() as int) =~= s.subrange(
                    skipped + from,
                    s.len() as int,
                ));
            },
        }
    }
}

/// A line ends at its line feed, and a carriage return right before that is not part of it; what
/// follows is read on its own. A text without a line feed is one line, unless it is empty.
pub proof fn law_line_by_line(line: Seq<char>, rest: Seq<char>)
    requires
        !line.contains('\n'),
    ensures
        line.len() == 0 ==> line_texts(line).len() == 0,
        line.len() > 0 ==> line_texts(line) == seq![line],
        !line.contains('\r') ==> line_texts(line + seq!['\n'] + rest) == seq![line] + line_texts(
            rest,
        ),
        !line.contains('\r') ==> line_texts(line + seq!['\r', '\n'] + rest) == seq![line]
            + line_texts(rest),
{
    let feed = seq!['\n'];
    lemma_first_from(line, feed, 0);
    if let Some(i) = first_from(line, feed, 0) {
        assert(line.subrange(i, i + 1)[0] == line[i]);
    }
    assert(line.subrange(0, line.len() as int) =~= line);
    if !line.contains('\r') {
        if line.len() > 0 {
            assert(line.contains(line.last()));
        }
        lemma_one_line(line, rest);
        let returned = line + seq!['\r'];
        assert(!returned.contains('\n')) by {
            if returned.contains('\n') {
                let k = choose|k: int| 0 <= k < returned.len() && returned[k] == '\n';
                assert(line[k] == '\n');
            }
        }
        lemma_one_line(returned, rest);
        assert(returned.drop_last() =~= line);
        assert(returned + feed + rest =~= line + seq!['\r', '\n'] + rest);
    }
}

proof fn lemma_one_line(line: Seq<char>, rest: Seq<char>)
    requires
        !line.contains('\n'),
    ensures
        line_texts(line + seq!['\n'] + rest) == seq![without_carriage_return(line)] + line_texts(
            rest,
        ),
{
    let feed = seq!['\n'];
    let s = line + feed + rest;
    let n = line.len() as int;
    lemma_first_from(s, feed, 0);
    assert(s.subrange(n, n + 1) =~= feed);
    assert(occurs_at(s, feed, n));
    assert forall|j: int| 0 <= j < n implies !occurs_at(s, feed, j) by {
        if occurs_at(s, feed, j) {
            assert(s.subrange(j, j + 1)[0] == s[j]);
            assert(line[j] == '\n');
        }
    }
    assert(first_from(s, feed, 0) == Some(n));
    lemma_lines_behind(s, n + 1, 0);
    assert(s.skip(n + 1) =~= rest);
    assert(s.subrange(0, n) =~= line);
}

/// Taking a suffix off takes it off as often as it stands at the end: what is left is how the text
/// begins, does not end with the suffix any more, and is the same with one suffix more.
pub proof fn law_without_suffixes(s: Seq<char>, suffix: Seq<char>)
    requires
        suffix.len() > 0,
    ensures
        ({
            let left = without_suffixes(s, suffix);
            &&& left.len() <= s.len()
            &&& left == s.take(left.len() as int)
            &&& !occurs_at(left, suffix, left.len() - suffix.len())
            &&& !occurs_at(s, suffix, s.len() - suffix.len()) ==> left == s
            &&& without_suffixes(s + suffix, suffix) == left
        }),
    decreases s.len(),
{
    let n = suffix.len() as int;
    assert((s + suffix).subrange((s + suffix).len() - n, (s + suffix).len() as int) =~= suffix);
    assert((s + suffix).take((s + suffix).len() - n) =~= s);
    if occurs_at(s, suffix, s.len() - n) {
        let shorter = s.take(s.len() - n);
        law_without_suffixes(shorter, suffix);
        let left = without_suffixes(shorter, suffix);
        assert(shorter.take(left.len() as int) =~= s.take(left.len() as int));
    } else {
        assert(s.take(s.len() as int) =~= s);
    }
}

// ---- Frames ----

/// A line of data adds what stands behind its mark, without the white space before it; a line that
/// names the event names it from there on; any other line adds nothing.
pub proof fn law_lines_of_a_frame(lines: Seq<Seq<char>>, line: Seq<char>)
    ensures
        ({
            let is_data = occurs_at(line, "data:"@, 0);
            let is_name = occurs_at(line, "event:"@, 0);
            &&& data_lines(Seq::empty()).len() == 0
            &&& event_name(Seq::empty()).len() == 0
            &&& is_data ==> data_lines(lines.push(line)) == data_lines(lines).push(
                trimmed_start(line.skip(5)),
            )
            &&& !is_data ==> data_lines(lines.push(line)) == data_lines(lines)
            &&& is_name ==> event_name(lines.push(line)) == trimmed(line.skip(6))
            &&& !is_name ==> event_name(lines.push(line)) == event_name(lines)
        }),
{
    assert(lines.push(line).drop_last() =~= lines);
    reveal_strlit("data:");
    reveal_strlit("event:");
    assert("data:"@.len() == 5 && "event:"@.len() == 6);
}

/// A frame with data says its event's name and its lines of data, one under the other; a frame
/// without data says nothing. Frames say what they say in their order.
pub proof fn law_frames(frames: Seq<Seq<char>>, frame: Seq<char>)
    ensures
        ({
            let lines = line_texts(frame);
            let said = frame_contents(frames.push(frame));
            &&& frame_contents(Seq::empty()).len() == 0
            &&& data_lines(lines).len() == 0 ==> said == frame_contents(frames)
            &&& data_lines(lines).len() > 0 ==> said == frame_contents(frames).push(
                (event_name(lines), joined(data_lines(lines), "\n"@)),
            )
        }),
{
    assert(frames.push(frame).drop_last() =~= frames);
}

/// A frame that can stand in a body: it holds no empty line, and does not end with a line feed.
pub open spec fn is_frame(frame: Seq<char>) -> bool {
    &&& !mentions(frame, "\n\n"@)
    &&& frame.len() > 0 ==> frame.last() != '\n'
}

proof fn lemma_first_gap(before: Seq<char>, frame: Seq<char>, behind: Seq<char>)
    requires
        is_frame(frame),
        behind.len() == 0 || occurs_at(behind, "\n\n"@, 0),
    ensures
        first_from(before + frame + behind, "\n\n"@, before.len() as int) == if behind.len() == 0 {
            None
        } else {
            Some((before.len() + frame.len()) as int)
        },
{
    let gap = "\n\n"@;
    reveal_strlit("\n\n");
    assert(gap.len() == 2 && gap[0] == '\n' && gap[1] == '\n');
    let s = before + frame + behind;
    let b = before.len() as int;
    let n = frame.len() as int;
    lemma_first_from(s, gap, b);
    assert forall|j: int| b <= j < b + n implies !occurs_at(s, gap, j) by {
        if occurs_at(s, gap, j) {
            assert(s.subrange(j, j + 2)[0] == s[j]);
            assert(s.subrange(j, j + 2)[1] == s[j + 1]);
            assert(s[j] == frame[j - b]);
            if j + 1 < b + n {
                assert(frame.subrange(j - b, j - b + 2) =~= gap);
                assert(occurs_at(frame, gap, j - b));
            } else {
                assert(frame.last() == frame[j - b]);
            }
        }
    }
    if behind.len() > 0 {
        assert(s.subrange(b + n, b + n + 2) =~= behind.subrange(0, 2));
        assert(occurs_at(s, gap, b + n));
    }
}

proof fn lemma_pieces_of_frames(before: Seq<char>, frames: Seq<Seq<char>>)
    requires
        frames.len() > 0,
        forall|i: int| 0 <= i < frames.len() ==> is_frame(#[trigger] frames[i]),
    ensures
        pieces_from(before + joined(frames, "\n\n"@), "\n\n"@, before.len() as int) == frames,
    decreases frames.len(),
{
    let gap = "\n\n"@;
    assert(gap.len() == 2) by {
        reveal_strlit("\n\n");
    }
    let s = before + joined(frames, gap);
    let b = before.len() as int;
    let frame = frames[0];
    let n = frame.len() as int;
    let rest = frames.drop_first();
    law_joined(seq![frame], rest, frame, gap);
    assert(seq![frame] + rest =~= frames);
    assert(is_frame(frames[0]));
    if rest.len() == 0 {
        lemma_first_gap(before, frame, Seq::empty());
        assert(before + frame + Seq::empty() =~= s);
        assert(s.subrange(b, s.len() as int) =~= frame);
        assert(frames =~= seq![frame]);
    } else {
        let behind = gap + joined(rest, gap);
        assert(behind.subrange(0, 2) =~= gap);
        lemma_first_gap(before, frame, behind);
        assert(before + frame + behind =~= s);
        assert(s.subrange(b, b + n) =~= frame);
        let longer = before + frame + gap;
        assert forall|i: int| 0 <= i < rest.len() implies is_frame(#[trigger] rest[i]) by {
            assert(rest[i] == frames[i + 1]);
        }
        lemma_pieces_of_frames(longer, rest);
        assert(longer + joined(rest, gap) =~= s);
        assert(longer.len() == b + n + 2);
    }
}

/// A body is taken apart at its empty lines: frames that are sent with an empty line between them
/// are read one by one.
pub proof fn law_bodies_are_taken_apart(frames: Seq<Seq<char>>)
    requires
        frames.len() > 0,
        forall|i: int| 0 <= i < frames.len() ==> is_frame(#[trigger] frames[i]),
        !joined(frames, "\n\n"@).contains('\r'),
    ensures
        body_contents(joined(frames, "\n\n"@)) == frame_contents(frames),
{
    let body = joined(frames, "\n\n"@);
    lemma_pieces_of_frames(Seq::empty(), frames);
    assert(Seq::<char>::empty() + body =~= body);
    reveal_strlit("\r\n");
    assert("\r\n"@.len() == 2 && "\r\n"@[0] == '\r');
    lemma_first_from(body, "\r\n"@, 0);
    if let Some(i) = first_from(body, "\r\n"@, 0) {
        assert(body.subrange(i, i + 2)[0] == body[i]);
    }
    lemma_replaced_from(body, "\r\n"@, "\n"@, 0);
    assert(body.subrange(0, body.len() as int) =~= body);
}

/// A frame whose data is JSON is handed on under its name with the value of its data, behind those
/// before it; one whose data is not is left out.
pub proof fn law_anthropic_frames(
    contents: Seq<(Seq<char>, Seq<char>)>,
    name: Seq<char>,
    data: Seq<char>,
)
    ensures
        ({
            let before = anthropic::valued(contents);
            let after = anthropic::valued(contents.push((name, data)));
            &&& anthropic::valued(Seq::empty()).len() == 0
            &&& json_of_text(data) is Ok ==> after == before.push((name, json_of_text(data)->Ok_0))
            &&& json_of_text(data) is Err ==> after == before
        }),
{
    assert(contents.push((name, data)).drop_last() =~= contents);
}

/// The data of a body is that of its frames, in order, whatever their names.
pub proof fn law_responses_data(body: Seq<char>)
    ensures
        responses::data_of(body).len() == body_contents(body).len(),
        forall|i: int|
            0 <= i < body_contents(body).len() ==> #[trigger] responses::data_of(body)[i]
                == body_contents(body)[i].1,
{
}

/// Data is read value by value, in order, up to the mark of the end; what is no JSON is left out.
pub proof fn law_responses_values(first: Seq<char>, rest: Seq<Seq<char>>)
    ensures
        ({
            let all = responses::values_from(seq![first] + rest, 0);
            let behind = responses::values_from(rest, 0);
            &&& responses::values_from(Seq::empty(), 0).len() == 0
            &&& first == "[DONE]"@ ==> all.len() == 0
            &&& first != "[DONE]"@ && json_of_text(first) is Ok ==> all == seq![
                json_of_text(first)->Ok_0,
            ] + behind
            &&& first != "[DONE]"@ && json_of_text(first) is Err ==> all == behind
        }),
{
    lemma_values_behind(first, rest, 0);
}

proof fn lemma_values_behind(first: Seq<char>, rest: Seq<Seq<char>>, from: int)
    requires
        0 <= from,
    ensures
        responses::values_from(seq![first] + rest, from + 1) == responses::values_from(rest, from),
    decreases rest.len() - from,
{
    if from < rest.len() {
        assert((seq![first] + rest)[from + 1] == rest[from]);
        lemma_values_behind(first, rest, from + 1);
    }
}

// ---- Chunks of text ----

/// The text that a value of the chat completions API sends: the content of its first choice's
/// delta.
pub open spec fn compat_text_sent(line: Seq<char>) -> Seq<char> {
    match json_of_text(line) {
        Ok(value) => match member(value, "choices"@) {
            Json::List(choices) => if choices.len() > 0 {
                match member(member(choices[0], "delta"@), "content"@) {
                    Json::Text(t) => t,
                    _ => Seq::empty(),
                }
            } else {
                Seq::empty()
            },
            _ => Seq::empty(),
        },
        Err(_) => Seq::empty(),
    }
}

/// A chunk is read line by line, in order, up to the mark of the end. A line of data adds the text
/// that its value sends, unless that is empty; any other line adds nothing.
pub proof fn law_compat_chunks(first: Seq<char>, rest: Seq<Seq<char>>)
    ensures
        ({
            let all = openai_compat::lines_text(seq![first] + rest, 0);
            let behind = openai_compat::lines_text(rest, 0);
            let line = trimmed(first);
            &&& openai_compat::lines_text(Seq::empty(), 0).len() == 0
            &&& line == "data: [DONE]"@ ==> all.len() == 0
            &&& line != "data: [DONE]"@ && occurs_at(line, "data: "@, 0) ==> all == if_not_empty(
                compat_text_sent(line.skip(6)),
            ) + behind
            &&& !occurs_at(line, "data: "@, 0) && line != "data: [DONE]"@ ==> all == behind
        }),
{
    reveal_strlit("data: ");
    assert("data: "@.len() == 6);
    lemma_compat_behind(first, rest, 0);
    let behind = openai_compat::lines_text(rest, 0);
    assert(Seq::<Seq<char>>::empty() + behind =~= behind);
}

proof fn lemma_compat_behind(first: Seq<char>, rest: Seq<Seq<char>>, from: int)
    requires
        0 <= from,
    ensures
        openai_compat::lines_text(seq![first] + rest, from + 1) == openai_compat::lines_text(
            rest,
            from,
        ),
    decreases rest.len() - from,
{
    if from < rest.len() {
        assert((seq![first] + rest)[from + 1] == rest[from]);
        lemma_compat_behind(first, rest, from + 1);
    }
}

/// A chunk is read line by line, in order. A line of data whose value is a delta of a block adds
/// the delta's text, unless that is empty; any other line adds nothing.
pub proof fn law_anthropic_chunks(lines: Seq<Seq<char>>, last: Seq<char>)
    ensures
        ({
            let before = anthropic::lines_text(lines);
            let after = anthropic::lines_text(lines.push(last));
            let line = trimmed(last);
            let value = json_of_text(line.skip(6));
            let delta = member(value->Ok_0, "delta"@);
            let sent = occurs_at(line, "data: "@, 0) && value is Ok && member(
                value->Ok_0,
                "type"@,
            ) == Json::Text("content_block_delta"@) && (member(delta, "text"@) matches Json::Text(t)
                && t.len() > 0);
            &&& anthropic::lines_text(Seq::empty()).len() == 0
            &&& sent ==> after == before.push(member(delta, "text"@)->Text_0)
            &&& !sent ==> after == before
        }),
{
    reveal_strlit("data: ");
    assert("data: "@.len() == 6);
    assert(lines.push(last).drop_last() =~= lines);
    let before = anthropic::lines_text(lines);
    assert(before + Seq::<Seq<char>>::empty() =~= before);
    assert(forall|t: Seq<char>| #[trigger] before.push(t) =~= before + seq![t]);
}

/// A chunk whose text is JSON adds the content of its message, unless that is empty or the chunk is
/// the last one.
pub proof fn law_ollama_chunks(bytes: Seq<u8>)
    ensures
        ({
            let line = trimmed(vstd::utf8::decode_utf8(bytes));
            let value = json_of_text(line);
            let content = member(member(value->Ok_0, "message"@), "content"@);
            let sent = vstd::utf8::valid_utf8(bytes) && line.len() > 0 && value is Ok && member(
                value->Ok_0,
                "done"@,
            ) != Json::Bool(true) && (content matches Json::Text(t) && t.len() > 0);
            &&& sent ==> ollama::chunk_text(bytes) == Some(content->Text_0)
            &&& !sent ==> ollama::chunk_text(bytes) is None
        }),
{
}

} // verus!
