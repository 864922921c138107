//! Server-sent events: a body of frames between blank lines, each with an event name and data.

use crate::lists;
use crate::text;
use crate::text::{
    first_from, joined, line_texts, occurs_at, pieces, pieces_from, replaced,
    trimmed, trimmed_start, without_prefix,
};
use vstd::prelude::*;

verus! {

/// The data lines of a frame, without their mark and the white space behind it.
pub open spec fn data_lines(lines: Seq<Seq<char>>) -> Seq<Seq<char>>
    decreases lines.len(),
{
    if lines.len() == 0 {
        Seq::empty()
    } else {
        let before = data_lines(lines.drop_last());
        match without_prefix(lines.last(), "data:"@) {
            Some(data) => before.push(trimmed_start(data)),
            None => before,
        }
    }
}

/// The event name of a frame: what the last line marked as one says, empty where there is none.
pub open spec fn event_name(lines: Seq<Seq<char>>) -> Seq<char>
    decreases lines.len(),
{
    if lines.len() == 0 {
        Seq::empty()
    } else {
        match without_prefix(lines.last(), "event:"@) {
            Some(name) => trimmed(name),
            None => event_name(lines.drop_last()),
        }
    }
}

/// What a frame says: its event name and its data, or nothing where it has no data line.
pub open spec fn frame_content(frame: Seq<char>) -> Option<(Seq<char>, Seq<char>)> {
    let lines = line_texts(frame);
    if data_lines(lines).len() == 0 {
        None
    } else {
        Some((event_name(lines), joined(data_lines(lines), "\n"@)))
    }
}

/// What those frames say that have data, in order.
pub open spec fn frame_contents(frames: Seq<Seq<char>>) -> Seq<(Seq<char>, Seq<char>)>
    decreases frames.len(),
{
    if frames.len() == 0 {
        Seq::empty()
    } else {
        let before = frame_contents(frames.drop_last());
        match frame_content(frames.last()) {
            Some(content) => before.push(content),
            None => before,
        }
    }
}

/// What a body of server-sent events says. Lines may end with a line feed, or with a carriage
/// return and a line feed.
pub open spec fn body_contents(body: Seq<char>) -> Seq<(Seq<char>, Seq<char>)> {
    frame_contents(pieces(replaced(body, "\r\n"@, "\n"@), "\n\n"@))
}

fn read_frame(frame: &str) -> (r: Option<(String, String)>)
    ensures
        r.deep_view() == frame_content(frame@),
{
    let lines = text::lines(frame);
    let ghost all = line_texts(frame@);
    let mut name = String::new();
    let mut data: Vec<String> = lists::no_items();
    let mut i: usize = 0;
    proof {
        reveal_strlit("event:");
        reveal_strlit("data:");
        assert("event:"@[0] != "data:"@[0]);
        assert(name@ =~= event_name(all.take(0)));
    }
    while i < lines.len()
        invariant
            i <= lines@.len(),
            all == lines.deep_view(),
            "event:"@.len() == 6,
            "data:"@.len() == 5,
            "event:"@[0] != "data:"@[0],
            name@ == event_name(all.take(i as int)),
            data.deep_view() == data_lines(all.take(i as int)),
        decreases lines@.len() - i,
    {
        proof {
            assert(all.take(i + 1).drop_last() == all.take(i as int));
            assert(all.take(i + 1).last() == lines@[i as int]@);
        }
        let line = lines[i].as_str();
        proof {
            if without_prefix(line@, "event:"@) is Some && without_prefix(line@, "data:"@) is Some {
                assert(line@.subrange(0, 6)[0] == line@[0]);
                assert(line@.subrange(0, 5)[0] == line@[0]);
            }
        }
        if let Some(value) = text::strip_prefix(line, "event:") {
            name = text::trim(value.as_str());
        } else if let Some(value) = text::strip_prefix(line, "data:") {
            text::push_text(&mut data, text::trim_start(value.as_str()));
        }
        i += 1;
    }
    assert(all.take(i as int) == all);
    if data.len() == 0 {
        None
    } else {
        Some((name, text::join(&data, "\n")))
    }
}

/// Reads a body of server-sent events: of each frame with data the event name and the data.
pub fn event_frames(body: &str) -> (r: Vec<(String, String)>)
    ensures
        r.deep_view() == body_contents(body@),
{
    proof {
        reveal_strlit("\r\n");
        reveal_strlit("\n\n");
    }
    let clean = text::replace(body, "\r\n", "\n");
    let frames = text::split(clean.as_str(), "\n\n");
    let ghost all = frames.deep_view();
    let mut r: Vec<(String, String)> = lists::no_items();
    let mut i: usize = 0;
    while i < frames.len()
        invariant
            i <= frames@.len(),
            all == frames.deep_view(),
            r.deep_view() == frame_contents(all.take(i as int)),
        decreases frames@.len() - i,
    {
        proof {
            assert(all.take(i + 1).drop_last() == all.take(i as int));
            assert(all.take(i + 1).last() == frames@[i as int]@);
        }
        if let Some(content) = read_frame(frames[i].as_str()) {
            lists::push_item(&mut r, content);
        }
        i += 1;
    }
    assert(all.take(i as int) == all);
    r
}

// ---- Line ends ----

/// A text with a carriage return in front of each line feed.
pub open spec fn with_carriage_returns(s: Seq<char>) -> Seq<char>
    decreases s.len(),
{
    if s.len() == 0 {
        Seq::empty()
    } else if s[0] == '\n' {
        seq!['\r', '\n'] + with_carriage_returns(s.drop_first())
    } else {
        seq![s[0]] + with_carriage_returns(s.drop_first())
    }
}

/// A body says the same whether its lines end with a line feed, or with a carriage return and a
/// line feed.
pub proof fn law_line_ends_do_not_matter(body: Seq<char>)
    requires
        !body.contains('\r'),
    ensures
        body_contents(with_carriage_returns(body)) == body_contents(body),
{
    let long = with_carriage_returns(body);
    reveal_strlit("\r\n");
    reveal_strlit("\n");
    assert("\r\n"@ =~= seq!['\r', '\n']);
    assert("\n"@ =~= seq!['\n']);
    lemma_normalized(Seq::empty(), body);
    assert(Seq::<char>::empty() + long =~= long);
    assert(replaced(long, "\r\n"@, "\n"@) == body);
    lemma_no_long_line_ends(body, 0);
    text::lemma_replaced_from(body, "\r\n"@, "\n"@, 0);
    assert(body.subrange(0, body.len() as int) =~= body);
    assert(replaced(body, "\r\n"@, "\n"@) == body);
}

proof fn lemma_no_long_line_ends(s: Seq<char>, at: int)
    requires
        !s.contains('\r'),
        0 <= at <= s.len(),
        "\r\n"@ == seq!['\r', '\n'],
    ensures
        first_from(s, "\r\n"@, at) is None,
{
    text::lemma_first_from(s, "\r\n"@, at);
    if let Some(i) = first_from(s, "\r\n"@, at) {
        assert(s.subrange(i, i + 2)[0] == s[i]);
        assert(s[i] == '\r');
    }
}

proof fn lemma_normalized(before: Seq<char>, s: Seq<char>)
    requires
        !s.contains('\r'),
        "\r\n"@ == seq!['\r', '\n'],
        "\n"@ == seq!['\n'],
    ensures
        joined(
            pieces_from(before + with_carriage_returns(s), "\r\n"@, before.len() as int),
            "\n"@,
        ) == s,
    decreases s.len(),
{
    let t = before + with_carriage_returns(s);
    let at = before.len() as int;
    text::lemma_replaced_from(t, "\r\n"@, "\n"@, at);
    text::lemma_first_from(t, "\r\n"@, at);
    if s.len() == 0 {
        assert(t.subrange(at, t.len() as int) =~= s);
    } else {
        let rest = s.drop_first();
        assert(!rest.contains('\r')) by {
            if rest.contains('\r') {
                let k = choose|k: int| 0 <= k < rest.len() && rest[k] == '\r';
                assert(s[k + 1] == '\r');
            }
        }
        if s[0] == '\n' {
            let longer = before + seq!['\r', '\n'];
            lemma_normalized(longer, rest);
            assert(longer + with_carriage_returns(rest) =~= t);
            assert(t.subrange(at, at + 2) =~= seq!['\r', '\n']);
            assert(occurs_at(t, "\r\n"@, at));
            assert(first_from(t, "\r\n"@, at) == Some(at));
            assert(t.subrange(at, at) =~= Seq::empty());
            assert(s =~= "\n"@ + rest);
            assert(Seq::<char>::empty() + "\n"@ =~= "\n"@);
        } else {
            let longer = before + seq![s[0]];
            lemma_normalized(longer, rest);
            assert(longer + with_carriage_returns(rest) =~= t);
            assert(t[at] == s[0]);
            assert(s.contains(s[0]));
            assert(!occurs_at(t, "\r\n"@, at)) by {
                if occurs_at(t, "\r\n"@, at) {
                    assert(t.subrange(at, at + 2)[0] == t[at]);
                }
            }
            assert(first_from(t, "\r\n"@, at) == first_from(t, "\r\n"@, at + 1));
            text::lemma_replaced_from(t, "\r\n"@, "\n"@, at + 1);
            match first_from(t, "\r\n"@, at) {
                Some(i) => {
                    text::lemma_first_from(t, "\r\n"@, at + 1);
                    assert(t.subrange(at, i) =~= seq![s[0]] + t.subrange(at + 1, i));
                    assert(s =~= seq![s[0]] + rest);
                    assert(joined(pieces_from(t, "\r\n"@, at), "\n"@) =~= seq![s[0]] + joined(
                        pieces_from(t, "\r\n"@, at + 1),
                        "\n"@,
                    ));
                },
                None => {
                    assert(t.subrange(at, t.len() as int) =~= seq![s[0]] + t.subrange(
                        at + 1,
                        t.len() as int,
                    ));
                    assert(s =~= seq![s[0]] + rest);
                },
            }
        }
    }
}

} // verus!
