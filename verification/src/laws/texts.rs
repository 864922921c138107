//! Laws on texts.

use crate::text::{joined, occurs_at, trimmed};
use vstd::prelude::*;

verus! {

/// The part stands somewhere in the text.
pub open spec fn mentions(s: Seq<char>, part: Seq<char>) -> bool {
    exists|i: int| #[trigger] occurs_at(s, part, i)
}

/// The parts stand in the text one after the other, in this order and without overlap.
pub open spec fn in_order(s: Seq<char>, parts: Seq<Seq<char>>) -> bool
    decreases parts.len(),
{
    parts.len() == 0 || exists|i: int|
        #[trigger] occurs_at(s, parts.last(), i) && in_order(s.take(i), parts.drop_last())
}

proof fn lemma_in_order_by(s: Seq<char>, parts: Seq<Seq<char>>, i: int)
    requires
        parts.len() > 0,
        occurs_at(s, parts.last(), i),
        in_order(s.take(i), parts.drop_last()),
    ensures
        in_order(s, parts),
{
}

/// A longer text holds what the text before it held.
pub proof fn lemma_in_order_longer(s: Seq<char>, parts: Seq<Seq<char>>, more: Seq<char>)
    requires
        in_order(s, parts),
    ensures
        in_order(s + more, parts),
{
    if parts.len() > 0 {
        let i = choose|i: int|
            #[trigger] occurs_at(s, parts.last(), i) && in_order(s.take(i), parts.drop_last());
        let n = parts.last().len();
        assert((s + more).subrange(i, i + n) =~= s.subrange(i, i + n));
        assert((s + more).take(i) =~= s.take(i));
        lemma_in_order_by(s + more, parts, i);
    }
}

/// Two texts, one behind the other, hold what each of them held, in that order.
pub proof fn lemma_in_order_concat(
    s: Seq<char>,
    parts: Seq<Seq<char>>,
    t: Seq<char>,
    others: Seq<Seq<char>>,
)
    requires
        in_order(s, parts),
        in_order(t, others),
    ensures
        in_order(s + t, parts + others),
    decreases others.len(),
{
    if others.len() == 0 {
        assert(parts + others =~= parts);
        lemma_in_order_longer(s, parts, t);
    } else {
        let i = choose|i: int|
            #[trigger] occurs_at(t, others.last(), i) && in_order(t.take(i), others.drop_last());
        let n = others.last().len();
        lemma_in_order_concat(s, parts, t.take(i), others.drop_last());
        assert((s + t).take(s.len() + i) =~= s + t.take(i));
        assert((parts + others).drop_last() =~= parts + others.drop_last());
        assert((s + t).subrange(s.len() + i, s.len() + i + n) =~= t.subrange(i, i + n));
        lemma_in_order_by(s + t, parts + others, s.len() + i);
    }
}

/// A text behind another holds what it held.
pub proof fn lemma_in_order_behind(before: Seq<char>, s: Seq<char>, parts: Seq<Seq<char>>)
    requires
        in_order(s, parts),
    ensures
        in_order(before + s, parts),
{
    lemma_in_order_concat(before, Seq::empty(), s, parts);
    assert(Seq::<Seq<char>>::empty() + parts =~= parts);
}

/// A text holds itself, and any text holds the empty one.
pub proof fn lemma_in_order_one(s: Seq<char>, part: Seq<char>)
    requires
        s == part || part.len() == 0,
    ensures
        in_order(s, seq![part]),
{
    assert(s.subrange(0, part.len() as int) =~= part);
    lemma_in_order_by(s, seq![part], 0);
}

/// What holds many parts holds fewer.
pub proof fn lemma_in_order_fewer(s: Seq<char>, parts: Seq<Seq<char>>)
    requires
        in_order(s, parts),
        parts.len() > 0,
    ensures
        in_order(s, parts.drop_last()),
{
    let i = choose|i: int|
        #[trigger] occurs_at(s, parts.last(), i) && in_order(s.take(i), parts.drop_last());
    lemma_in_order_longer(s.take(i), parts.drop_last(), s.skip(i));
    assert(s.take(i) + s.skip(i) =~= s);
}

/// Parts in the middle can be left out.
pub proof fn lemma_in_order_around(
    s: Seq<char>,
    before: Seq<Seq<char>>,
    middle: Seq<Seq<char>>,
    behind: Seq<Seq<char>>,
)
    requires
        in_order(s, before + middle + behind),
    ensures
        in_order(s, before + behind),
    decreases middle.len() + behind.len(),
{
    if behind.len() > 0 {
        let all = before + middle + behind;
        let i = choose|i: int|
            #[trigger] occurs_at(s, all.last(), i) && in_order(s.take(i), all.drop_last());
        assert(all.drop_last() =~= before + middle + behind.drop_last());
        lemma_in_order_around(s.take(i), before, middle, behind.drop_last());
        assert((before + behind).drop_last() =~= before + behind.drop_last());
        lemma_in_order_by(s, before + behind, i);
    } else if middle.len() > 0 {
        lemma_in_order_fewer(s, before + middle + behind);
        assert((before + middle + behind).drop_last() =~= before + middle.drop_last() + behind);
        lemma_in_order_around(s, before, middle.drop_last(), behind);
    } else {
        assert(before + middle + behind =~= before + behind);
    }
}

/// The empty text stands anywhere.
pub proof fn lemma_in_order_nothing(s: Seq<char>, before: Seq<Seq<char>>, behind: Seq<Seq<char>>)
    requires
        in_order(s, before + behind),
    ensures
        in_order(s, before + seq![Seq::<char>::empty()] + behind),
    decreases behind.len(),
{
    let nothing = Seq::<char>::empty();
    let all = before + seq![nothing] + behind;
    if behind.len() == 0 {
        assert(before + behind =~= before);
        assert(all.drop_last() =~= before);
        assert(s.take(s.len() as int) =~= s);
        assert(s.subrange(s.len() as int, s.len() as int) =~= nothing);
        lemma_in_order_by(s, all, s.len() as int);
    } else {
        let old_parts = before + behind;
        let i = choose|i: int|
            #[trigger] occurs_at(s, old_parts.last(), i) && in_order(
                s.take(i),
                old_parts.drop_last(),
            );
        assert(old_parts.drop_last() =~= before + behind.drop_last());
        lemma_in_order_nothing(s.take(i), before, behind.drop_last());
        assert(all.drop_last() =~= before + seq![nothing] + behind.drop_last());
        lemma_in_order_by(s, all, i);
    }
}

/// Each of the parts occurs.
pub proof fn lemma_in_order_each(s: Seq<char>, parts: Seq<Seq<char>>, k: int)
    requires
        in_order(s, parts),
        0 <= k < parts.len(),
    ensures
        mentions(s, parts[k]),
    decreases parts.len(),
{
    let i = choose|i: int|
        #[trigger] occurs_at(s, parts.last(), i) && in_order(s.take(i), parts.drop_last());
    if k < parts.len() - 1 {
        lemma_in_order_each(s.take(i), parts.drop_last(), k);
        let j = choose|j: int| #[trigger] occurs_at(s.take(i), parts.drop_last()[k], j);
        let n = parts[k].len();
        assert(s.take(i).subrange(j, j + n) =~= s.subrange(j, j + n));
        assert(occurs_at(s, parts[k], j));
    } else {
        assert(occurs_at(s, parts[k], i));
    }
}

/// Joining is putting one behind the other: no parts give nothing, one part gives itself, and two
/// lists of parts, joined each and with one separator between them, give what both lists in one
/// give.
pub proof fn law_joined(a: Seq<Seq<char>>, b: Seq<Seq<char>>, part: Seq<char>, separator: Seq<char>)
    ensures
        joined(Seq::empty(), separator) == Seq::<char>::empty(),
        joined(seq![part], separator) == part,
        a.len() > 0 && b.len() > 0 ==> joined(a + b, separator) == joined(a, separator) + separator
            + joined(b, separator),
        a.len() == 0 ==> joined(a + b, separator) == joined(b, separator),
        b.len() == 0 ==> joined(a + b, separator) == joined(a, separator),
    decreases b.len(),
{
    if b.len() == 0 {
        assert(a + b =~= a);
    } else if a.len() == 0 {
        assert(a + b =~= b);
    } else {
        assert((a + b).drop_last() =~= a + b.drop_last());
        law_joined(a, b.drop_last(), part, separator);
        if b.len() > 1 {
            assert(joined(a, separator) + separator + joined(b.drop_last(), separator) + separator
                + b.last() =~= joined(a, separator) + separator + (joined(b.drop_last(), separator)
                + separator + b.last()));
        }
    }
}

/// Two lists of parts, joined into one text: it holds what the texts of the two lists hold.
pub proof fn lemma_joined_holds(
    a: Seq<Seq<char>>,
    in_a: Seq<Seq<char>>,
    b: Seq<Seq<char>>,
    in_b: Seq<Seq<char>>,
    separator: Seq<char>,
)
    requires
        in_order(joined(a, separator), in_a),
        in_order(joined(b, separator), in_b),
    ensures
        in_order(joined(a + b, separator), in_a + in_b),
{
    law_joined(a, b, Seq::empty(), separator);
    lemma_in_order_concat(joined(a, separator), in_a, joined(b, separator), in_b);
    if a.len() == 0 {
        assert(joined(a, separator) + joined(b, separator) =~= joined(b, separator));
    } else if b.len() == 0 {
        assert(joined(a, separator) + joined(b, separator) =~= joined(a, separator));
    } else {
        lemma_in_order_behind(separator, joined(b, separator), in_b);
        lemma_in_order_concat(joined(a, separator), in_a, separator + joined(b, separator), in_b);
        assert(joined(a, separator) + (separator + joined(b, separator)) =~= joined(a, separator)
            + separator + joined(b, separator));
    }
}

/// A joined text holds all of its parts, in order.
pub proof fn law_joined_holds_its_parts(parts: Seq<Seq<char>>, separator: Seq<char>)
    ensures
        in_order(joined(parts, separator), parts),
    decreases parts.len(),
{
    if parts.len() > 0 {
        law_joined_holds_its_parts(parts.drop_last(), separator);
        let last = seq![parts.last()];
        lemma_in_order_one(joined(last, separator), parts.last());
        lemma_joined_holds(parts.drop_last(), parts.drop_last(), last, last, separator);
        assert(parts.drop_last() + last =~= parts);
    }
}

/// What counts as white space: the controls from the tab to the carriage return, the space, the
/// next line, the no-break space, and the spaces and separators of other scripts and of typography.
pub proof fn law_white_space(c: char)
    ensures
        ({
            let n = c as u32;
            crate::text::is_white_space(c) <==> 9 <= n <= 13 || n == 32 || n == 133 || n == 160 || n
                == 5760 || 8192 <= n <= 8202 || n == 8232 || n == 8233 || n == 8239 || n == 8287
                || n == 12288
        }),
{
}

/// Trimming takes white space off both ends and nothing else, and leaves none there.
pub proof fn law_trimmed(s: Seq<char>)
    ensures
        exists|i: int|
            #![trigger occurs_at(s, trimmed(s), i)]
            {
                &&& occurs_at(s, trimmed(s), i)
                &&& forall|k: int|
                    0 <= k < s.len() && !(i <= k < i + trimmed(s).len())
                        ==> crate::text::is_white_space(#[trigger] s[k])
            },
        trimmed(s).len() > 0 ==> !crate::text::is_white_space(trimmed(s)[0])
            && !crate::text::is_white_space(trimmed(s).last()),
{
    let t = crate::text::trimmed_start(s);
    lemma_trimmed_start(s);
    lemma_trimmed_end(t);
    let i = s.len() - t.len();
    let n = trimmed(s).len();
    assert(s.subrange(i, i + n) =~= t.take(n as int)) by {
        assert(t =~= s.skip(i));
    }
    assert(occurs_at(s, trimmed(s), i));
    assert forall|k: int| 0 <= k < s.len() && !(i <= k < i + n) implies crate::text::is_white_space(
        #[trigger] s[k],
    ) by {
        if k >= i {
            assert(s[k] == t[k - i]);
        }
    }
    if n > 0 {
        assert(trimmed(s)[0] == t[0]);
    }
}

proof fn lemma_trimmed_start(s: Seq<char>)
    ensures
        ({
            let t = crate::text::trimmed_start(s);
            &&& t.len() <= s.len()
            &&& t == s.skip(s.len() - t.len())
            &&& forall|k: int|
                0 <= k < s.len() - t.len() ==> crate::text::is_white_space(#[trigger] s[k])
            &&& t.len() > 0 ==> !crate::text::is_white_space(t[0])
        }),
    decreases s.len(),
{
    let t = crate::text::trimmed_start(s);
    if s.len() > 0 && crate::text::is_white_space(s[0]) {
        let rest = s.drop_first();
        lemma_trimmed_start(rest);
        assert(rest.skip(rest.len() - t.len()) =~= s.skip(s.len() - t.len()));
        assert forall|k: int| 0 <= k < s.len() - t.len() implies crate::text::is_white_space(
            #[trigger] s[k],
        ) by {
            if k > 0 {
                assert(rest[k - 1] == s[k]);
            }
        }
    } else {
        assert(s.skip(0) =~= s);
    }
}

proof fn lemma_trimmed_end(s: Seq<char>)
    ensures
        ({
            let t = crate::text::trimmed_end(s);
            &&& t.len() <= s.len()
            &&& t == s.take(t.len() as int)
            &&& forall|k: int|
                t.len() <= k < s.len() ==> crate::text::is_white_space(#[trigger] s[k])
            &&& t.len() > 0 ==> !crate::text::is_white_space(t.last())
        }),
    decreases s.len(),
{
    let t = crate::text::trimmed_end(s);
    if s.len() > 0 && crate::text::is_white_space(s.last()) {
        let rest = s.drop_last();
        lemma_trimmed_end(rest);
        assert(rest.take(t.len() as int) =~= s.take(t.len() as int));
        assert forall|k: int| t.len() <= k < s.len() implies crate::text::is_white_space(
            #[trigger] s[k],
        ) by {
            if k < rest.len() {
                assert(rest[k] == s[k]);
            }
        }
    } else {
        assert(s.take(s.len() as int) =~= s);
    }
}

} // verus!
