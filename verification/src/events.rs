use vstd::prelude::*;

verus! {

/// One structural event of a document, as the extraction pass consumes it:
/// a heading opens, a text fragment arrives, a heading closes, or something
/// that the outline does not care about happens.
#[derive(Debug, PartialEq, Eq)]
pub enum Event {
    HeadingStart { level: u16, id: String },
    Text { fragment: String },
    HeadingEnd,
    Other,
}

/// The mathematical image of an [`Event`], with strings as character
/// sequences.
pub enum EventV {
    HeadingStart { level: u16, id: Seq<char> },
    Text { fragment: Seq<char> },
    HeadingEnd,
    Other,
}

impl View for Event {
    type V = EventV;

    open spec fn view(&self) -> EventV {
        match self {
            Event::HeadingStart { level, id } => EventV::HeadingStart { level: *level, id: id@ },
            Event::Text { fragment } => EventV::Text { fragment: fragment@ },
            Event::HeadingEnd => EventV::HeadingEnd,
            Event::Other => EventV::Other,
        }
    }
}

/// The images of a sequence of events.
pub open spec fn views_of(s: Seq<Event>) -> Seq<EventV> {
    s.map_values(|e: Event| e@)
}

} // verus!
