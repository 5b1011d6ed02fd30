use crate::events::EventV;
use crate::extract::{events_of, extract_spec, fold_events};
use crate::tracker::{init_state, step, ActiveV, MetaV, StateV};
use vstd::prelude::*;

verus! {

// ---------------------------------------------------------------------------
// Folding helpers
// ---------------------------------------------------------------------------

/// Folding a concatenation folds the two halves in turn.
pub proof fn lemma_fold_app(s: StateV, a: Seq<EventV>, b: Seq<EventV>)
    ensures
        fold_events(s, a + b) == fold_events(fold_events(s, a), b),
    decreases a.len(),
{
    reveal_with_fuel(fold_events, 2);
    if a.len() == 0 {
        assert(a + b =~= b);
    } else {
        assert((a + b)[0] == a[0]);
        assert((a + b).drop_first() =~= a.drop_first() + b);
        lemma_fold_app(step(s, a[0]), a.drop_first(), b);
    }
}

// ---------------------------------------------------------------------------
// The title is null without a level-1 heading
// ---------------------------------------------------------------------------

/// No event of the stream opens a level-1 heading.
pub open spec fn no_level1_start(es: Seq<EventV>) -> bool {
    forall|i: int|
        0 <= i < es.len() ==> ((#[trigger] es[i]) is HeadingStart ==> es[i]->level != 1)
}

spec fn no_title_inv(s: StateV) -> bool {
    &&& !s.title_found
    &&& s.title is None
    &&& (s.active matches Some(a) ==> a.level != 1)
}

proof fn lemma_no_title_step(s: StateV, e: EventV)
    requires
        no_title_inv(s),
        e is HeadingStart ==> e->level != 1,
    ensures
        no_title_inv(step(s, e)),
{
}

proof fn lemma_no_title_fold(s: StateV, es: Seq<EventV>)
    requires
        no_title_inv(s),
        no_level1_start(es),
    ensures
        no_title_inv(fold_events(s, es)),
    decreases es.len(),
{
    if es.len() > 0 {
        lemma_no_title_step(s, es[0]);
        assert forall|i: int|
            0 <= i < es.drop_first().len() implies ((#[trigger] es.drop_first()[i])
            is HeadingStart ==> es.drop_first()[i]->level != 1) by {
            assert(es.drop_first()[i] == es[i + 1]);
        }
        lemma_no_title_fold(step(s, es[0]), es.drop_first());
    }
}

/// With no level-1 heading anywhere in the stream, the extracted title is
/// null.
pub proof fn lemma_no_level1_no_title(es: Seq<EventV>)
    requires
        no_level1_start(es),
    ensures
        extract_spec(es).title is None,
{
    lemma_no_title_fold(init_state(), es);
    lemma_no_title_step(fold_events(init_state(), es), EventV::HeadingEnd);
}

// ---------------------------------------------------------------------------
// The first level-1 heading with text becomes the title, once and for all
// ---------------------------------------------------------------------------

/// Once latched, the title survives any further events unchanged.
pub proof fn lemma_title_stable(s: StateV, es: Seq<EventV>)
    requires
        s.title_found,
    ensures
        fold_events(s, es).title_found,
        fold_events(s, es).title == s.title,
    decreases es.len(),
{
    if es.len() > 0 {
        lemma_title_stable(step(s, es[0]), es.drop_first());
    }
}

/// The events of one complete heading: it opens, its text fragments arrive
/// in order, it closes.
pub open spec fn heading_events(level: u16, id: Seq<char>, frags: Seq<Seq<char>>) -> Seq<EventV> {
    seq![EventV::HeadingStart { level, id }] + frags.map_values(
        |f: Seq<char>| EventV::Text { fragment: f },
    ) + seq![EventV::HeadingEnd]
}

/// A heading's full text: its fragments concatenated verbatim, in order.
pub open spec fn concat_frags(frags: Seq<Seq<char>>) -> Seq<char>
    decreases frags.len(),
{
    if frags.len() == 0 {
        Seq::empty()
    } else {
        frags[0] + concat_frags(frags.drop_first())
    }
}

proof fn lemma_fold_texts(s: StateV, frags: Seq<Seq<char>>)
    requires
        s.active is Some,
    ensures
        fold_events(s, frags.map_values(|f: Seq<char>| EventV::Text { fragment: f })) == (StateV {
            buf: s.buf + concat_frags(frags),
            ..s
        }),
    decreases frags.len(),
{
    reveal_with_fuel(fold_events, 2);
    let texts = frags.map_values(|f: Seq<char>| EventV::Text { fragment: f });
    if frags.len() == 0 {
        assert(s.buf + concat_frags(frags) =~= s.buf);
    } else {
        assert(texts[0] == (EventV::Text { fragment: frags[0] }));
        let s1 = step(s, texts[0]);
        assert(s1 == (StateV { buf: s.buf + frags[0], ..s }));
        assert(texts.drop_first() =~= frags.drop_first().map_values(
            |f: Seq<char>| EventV::Text { fragment: f },
        ));
        lemma_fold_texts(s1, frags.drop_first());
        assert((s.buf + frags[0]) + concat_frags(frags.drop_first()) =~= s.buf + concat_frags(
            frags,
        ));
    }
}

/// While no title has been latched yet, a level-1 heading whose concatenated
/// text is non-empty latches the title to exactly that text, and nothing
/// that follows ever changes it.
pub proof fn lemma_first_level1_sets_title(
    s: StateV,
    id: Seq<char>,
    frags: Seq<Seq<char>>,
    rest: Seq<EventV>,
)
    requires
        !s.title_found,
        concat_frags(frags).len() > 0,
    ensures
        fold_events(s, heading_events(1, id, frags) + rest).title_found,
        fold_events(s, heading_events(1, id, frags) + rest).title == Some(concat_frags(frags)),
{
    reveal_with_fuel(fold_events, 2);
    let start = seq![EventV::HeadingStart { level: 1, id }];
    let texts = frags.map_values(|f: Seq<char>| EventV::Text { fragment: f });
    let closing = seq![EventV::HeadingEnd];
    let h = heading_events(1, id, frags);
    lemma_fold_app(s, h, rest);
    assert(h == start + texts + closing);
    lemma_fold_app(s, start + texts, closing);
    lemma_fold_app(s, start, texts);
    assert(start.drop_first() =~= Seq::<EventV>::empty());
    let s1 = step(s, EventV::HeadingStart { level: 1, id });
    assert(fold_events(s, start) == s1);
    assert(s1.active == Some(ActiveV { level: 1, idx: s.toc.arena.len() as int }));
    assert(!s1.title_found);
    assert(s1.buf =~= Seq::<char>::empty());
    lemma_fold_texts(s1, frags);
    let s2 = fold_events(s1, texts);
    assert(s2.buf =~= concat_frags(frags));
    assert(closing.drop_first() =~= Seq::<EventV>::empty());
    let s3 = step(s2, EventV::HeadingEnd);
    assert(fold_events(s2, closing) == s3);
    assert(s3.title_found && s3.title == Some(concat_frags(frags)));
    lemma_title_stable(s3, rest);
}

// ---------------------------------------------------------------------------
// Anchors are exactly the distinct non-empty heading ids
// ---------------------------------------------------------------------------

/// The distinct non-empty ids carried by the stream's heading openings.
pub open spec fn start_ids(es: Seq<EventV>) -> Set<Seq<char>> {
    Set::new(
        |a: Seq<char>|
            a.len() > 0 && exists|i: int|
                0 <= i < es.len() && (#[trigger] es[i]) is HeadingStart && es[i]->id == a,
    )
}

proof fn lemma_anchors_fold(s: StateV, es: Seq<EventV>)
    ensures
        fold_events(s, es).anchors == s.anchors.union(start_ids(es)),
    decreases es.len(),
{
    if es.len() == 0 {
        assert forall|a: Seq<char>| !start_ids(es).contains(a) by {}
        assert(s.anchors.union(start_ids(es)) =~= s.anchors);
    } else {
        let e0 = es[0];
        let tail = es.drop_first();
        lemma_anchors_fold(step(s, e0), tail);
        assert(fold_events(s, es).anchors == step(s, e0).anchors.union(start_ids(tail)));
        assert(step(s, e0).anchors.union(start_ids(tail)) =~= s.anchors.union(start_ids(es))) by {
            assert forall|a: Seq<char>|
                step(s, e0).anchors.union(start_ids(tail)).contains(a) implies s.anchors.union(
                start_ids(es),
            ).contains(a) by {
                if step(s, e0).anchors.contains(a) {
                    if !s.anchors.contains(a) {
                        assert(e0 is HeadingStart && e0->id == a && a.len() > 0);
                        assert(es[0] is HeadingStart && es[0]->id == a);
                    }
                } else {
                    let i = choose|i: int|
                        0 <= i < tail.len() && (#[trigger] tail[i]) is HeadingStart && tail[i]->id
                            == a;
                    assert(es[i + 1] is HeadingStart && es[i + 1]->id == a);
                }
            }
            assert forall|a: Seq<char>|
                s.anchors.union(start_ids(es)).contains(a) implies step(s, e0).anchors.union(
                start_ids(tail),
            ).contains(a) by {
                if s.anchors.contains(a) {
                    assert(step(s, e0).anchors.contains(a));
                } else {
                    let i = choose|i: int|
                        0 <= i < es.len() && (#[trigger] es[i]) is HeadingStart && es[i]->id == a;
                    if i == 0 {
                        assert(step(s, e0).anchors.contains(a));
                    } else {
                        assert(tail[i - 1] is HeadingStart && tail[i - 1]->id == a);
                    }
                }
            }
        }
    }
}

/// The anchors of one pass are exactly the distinct non-empty ids of the
/// stream's headings: an empty id contributes nothing, and a repeated id
/// collapses to a single entry.
pub proof fn lemma_anchors_exact(es: Seq<EventV>)
    ensures
        extract_spec(es).anchors == start_ids(es),
{
    lemma_anchors_fold(init_state(), es);
    let f = fold_events(init_state(), es);
    assert(step(f, EventV::HeadingEnd).anchors == f.anchors);
    assert(init_state().anchors.union(start_ids(es)) =~= start_ids(es));
}

// ---------------------------------------------------------------------------
// Extraction is deterministic
// ---------------------------------------------------------------------------

/// Two passes over the same input text see the same events and freeze
/// structurally identical metadata: the result is a function of the text
/// alone.
pub proof fn lemma_extract_deterministic(text: Seq<char>, m1: MetaV, m2: MetaV)
    requires
        m1 == extract_spec(events_of(text)),
        m2 == extract_spec(events_of(text)),
    ensures
        m1 == m2,
{
}

} // verus!


