use crate::events::{views_of, Event, EventV};
use crate::tracker::{
    anchor_set_of, init_state, state_view, step, tracker_wf, HeadingContext, MetaV, PageMetadata,
    StateV,
};
use vstd::prelude::*;

verus! {

/// The structural events that the document parser yields for a text.  The
/// parser is deterministic: the events depend on the text alone.
pub uninterp spec fn events_of(s: Seq<char>) -> Seq<EventV>;

/// Relies on jotdown::Parser (an iterator over jotdown::Event): it parses a
/// document permissively into structural events, deterministically from the
/// text alone.  Heading boundaries keep their level and pre-assigned id and
/// text fragments their content; every other event is of no interest to the
/// outline and collapses to `Event::Other`.
#[verifier::external_body]
fn parse_events(text: &str) -> (r: Vec<Event>)
    ensures
        views_of(r@) == events_of(text@),
{
    let mut out = Vec::new();
    for e in jotdown::Parser::new(text) {
        out.push(match e {
            jotdown::Event::Start(jotdown::Container::Heading { level, id, .. }, _) => {
                Event::HeadingStart { level, id: id.to_string() }
            },
            jotdown::Event::Str(s) => Event::Text { fragment: s.to_string() },
            jotdown::Event::End(jotdown::Container::Heading { .. }) => Event::HeadingEnd,
            _ => Event::Other,
        });
    }
    out
}

/// The state after consuming a stream of events, front to back.
pub open spec fn fold_events(s: StateV, es: Seq<EventV>) -> StateV
    decreases es.len(),
{
    if es.len() == 0 {
        s
    } else {
        fold_events(step(s, es[0]), es.drop_first())
    }
}

/// The metadata snapshot that a final state freezes into.
pub open spec fn meta_of(s: StateV) -> MetaV {
    MetaV { title: s.title, arena: s.toc.arena, roots: s.toc.roots, anchors: s.anchors }
}

/// What one extraction pass yields for a stream of events: the fold of the
/// state machine over the stream, frozen at stream end.  A stream that ends
/// while a heading is still open is finalized as if the heading closed there,
/// with the text accumulated so far; a closing step on an idle state changes
/// nothing.
pub open spec fn extract_spec(es: Seq<EventV>) -> MetaV {
    meta_of(step(fold_events(init_state(), es), EventV::HeadingEnd))
}

/// Consuming one more event at the back folds one more step.
pub proof fn lemma_fold_snoc(s: StateV, es: Seq<EventV>, e: EventV)
    ensures
        fold_events(s, es.push(e)) == step(fold_events(s, es), e),
    decreases es.len(),
{
    reveal_with_fuel(fold_events, 3);
    if es.len() == 0 {
        assert(es.push(e)[0] == e);
        assert(es.push(e).drop_first() =~= Seq::<EventV>::empty());
    } else {
        assert(es.push(e)[0] == es[0]);
        assert(es.push(e).drop_first() =~= es.drop_first().push(e));
        lemma_fold_snoc(step(s, es[0]), es.drop_first(), e);
    }
}

/// Run one extraction pass over a stream of events, producing the frozen
/// metadata snapshot.
pub fn run_events(events: &Vec<Event>) -> (m: PageMetadata)
    ensures
        m@ == extract_spec(views_of(events@)),
        m.toc_builder.wf(),
{
    let ghost evs = views_of(events@);
    let mut metadata = PageMetadata::new();
    let mut ctx = HeadingContext::new();
    proof {
        assert(anchor_set_of(metadata.anchors@) =~= Set::<Seq<char>>::empty());
        assert(state_view(metadata, ctx) == init_state());
        assert(evs.take(0) =~= Seq::<EventV>::empty());
    }
    let mut i: usize = 0;
    while i < events.len()
        invariant
            i <= events@.len(),
            evs == views_of(events@),
            evs.len() == events@.len(),
            tracker_wf(metadata, ctx),
            state_view(metadata, ctx) == fold_events(init_state(), evs.take(i as int)),
        decreases events@.len() - i,
    {
        let ghost pre = state_view(metadata, ctx);
        match &events[i] {
            Event::HeadingStart { level, id } => {
                ctx.start_heading(&mut metadata, *level, id.as_str());
                proof {
                    assert(evs[i as int] == (EventV::HeadingStart {
                        level: *level,
                        id: id@,
                    }));
                }
            },
            Event::Text { fragment } => {
                if ctx.active_heading_level.is_some() {
                    ctx.append_text(fragment.as_str());
                    proof {
                        assert(evs[i as int] == (EventV::Text { fragment: fragment@ }));
                        assert(pre.active is Some);
                        assert(state_view(metadata, ctx) == step(pre, evs[i as int]));
                    }
                } else {
                    proof {
                        assert(evs[i as int] == (EventV::Text { fragment: fragment@ }));
                        assert(pre.active is None);
                        assert(state_view(metadata, ctx) == step(pre, evs[i as int]));
                    }
                }
            },
            Event::HeadingEnd => {
                let _latched = ctx.end_heading(&mut metadata);
                proof {
                    assert(evs[i as int] == EventV::HeadingEnd);
                }
            },
            Event::Other => {
                proof {
                    assert(evs[i as int] == EventV::Other);
                    assert(state_view(metadata, ctx) == step(pre, evs[i as int]));
                }
            },
        }
        proof {
            assert(evs.take(i + 1) =~= evs.take(i as int).push(evs[i as int]));
            lemma_fold_snoc(init_state(), evs.take(i as int), evs[i as int]);
        }
        i += 1;
    }
    proof {
        assert(evs.take(evs.len() as int) =~= evs);
    }
    let _dangling = ctx.end_heading(&mut metadata);
    metadata
}

/// Extract the document title, the outline forest and the anchor set from a
/// document text, in a single forward pass over its structural events.
pub fn extract_metadata(djot_text: &str) -> (m: PageMetadata)
    ensures
        m@ == extract_spec(events_of(djot_text@)),
        m.toc_builder.wf(),
{
    let events = parse_events(djot_text);
    run_events(&events)
}

} // verus!
