use crate::events::EventV;
use crate::toc::{
    add_spec, empty_builder, lemma_add_spec_len, rename_spec, BuilderV, NodeV, TocBuilder,
};
use vstd::prelude::*;
use vstd::string::StringExecFns;

verus! {

// ---------------------------------------------------------------------------
// Spec-level model of one extraction pass
// ---------------------------------------------------------------------------

/// The set of anchor ids held by a collection of strings: order and
/// repetition are forgotten.
pub open spec fn anchor_set_of(s: Seq<String>) -> Set<Seq<char>> {
    Set::new(|a: Seq<char>| exists|j: int| 0 <= j < s.len() && #[trigger] s[j]@ == a)
}

/// No two entries hold the same id.
pub open spec fn distinct_strings(s: Seq<String>) -> bool {
    forall|j: int, k: int| 0 <= j < k < s.len() ==> #[trigger] s[j]@ != #[trigger] s[k]@
}

/// The heading that is currently open: its level and its arena index.
pub struct ActiveV {
    pub level: u16,
    pub idx: int,
}

/// The whole extraction state: the outline builder, the open heading if any,
/// the text accumulated for it, the title latch, the title, and the anchors
/// seen so far.
pub struct StateV {
    pub toc: BuilderV,
    pub active: Option<ActiveV>,
    pub buf: Seq<char>,
    pub title_found: bool,
    pub title: Option<Seq<char>>,
    pub anchors: Set<Seq<char>>,
}

/// The state before any event has been consumed.
pub open spec fn init_state() -> StateV {
    StateV {
        toc: empty_builder(),
        active: None,
        buf: Seq::empty(),
        title_found: false,
        title: None,
        anchors: Set::empty(),
    }
}

/// One transition of the extraction state machine.
///
/// - A heading opens: its non-empty id becomes an anchor at once, a node is
///   created and linked, and the text buffer is cleared.
/// - A text fragment arrives: while a heading is open it is appended verbatim
///   to the buffer; outside a heading it is ignored.
/// - A heading closes: the buffered text becomes the node's name, and the
///   first level-1 heading that closes with non-empty text becomes the title.
/// - Anything else changes nothing.
pub open spec fn step(s: StateV, e: EventV) -> StateV {
    match e {
        EventV::HeadingStart { level, id } => StateV {
            toc: add_spec(s.toc, id, level),
            active: Some(ActiveV { level, idx: s.toc.arena.len() as int }),
            buf: Seq::empty(),
            anchors: if id.len() > 0 {
                s.anchors.insert(id)
            } else {
                s.anchors
            },
            ..s
        },
        EventV::Text { fragment } => if s.active is Some {
            StateV { buf: s.buf + fragment, ..s }
        } else {
            s
        },
        EventV::HeadingEnd => match s.active {
            Some(a) => {
                let newly = !s.title_found && a.level == 1 && s.buf.len() > 0;
                StateV {
                    toc: rename_spec(s.toc, a.idx, s.buf),
                    active: None,
                    title_found: s.title_found || newly,
                    title: if newly {
                        Some(s.buf)
                    } else {
                        s.title
                    },
                    ..s
                }
            },
            None => s,
        },
        EventV::Other => s,
    }
}

// ---------------------------------------------------------------------------
// Executable state
// ---------------------------------------------------------------------------

/// The frozen result of one extraction pass: the document title, the outline
/// forest (arena plus roots) and the set of anchors.
pub struct MetaV {
    pub title: Option<Seq<char>>,
    pub arena: Seq<NodeV>,
    pub roots: Seq<int>,
    pub anchors: Set<Seq<char>>,
}

/// The metadata built during one extraction pass: title, outline and anchors.
/// The anchor collection is kept duplicate-free; its image is a set.
#[derive(Debug, PartialEq, Eq)]
pub struct PageMetadata {
    pub title: Option<String>,
    pub toc_builder: TocBuilder,
    pub anchors: Vec<String>,
}

impl View for PageMetadata {
    type V = MetaV;

    open spec fn view(&self) -> MetaV {
        MetaV {
            title: match self.title {
                Some(t) => Some(t@),
                None => None,
            },
            arena: self.toc_builder@.arena,
            roots: self.toc_builder@.roots,
            anchors: anchor_set_of(self.anchors@),
        }
    }
}

impl PageMetadata {
    pub fn new() -> (m: PageMetadata)
        ensures
            m.title is None,
            m.toc_builder@ == empty_builder(),
            m.anchors@ == Seq::<String>::empty(),
    {
        PageMetadata { title: None, toc_builder: TocBuilder::new(), anchors: Vec::new() }
    }

    /// Record an anchor id, keeping the collection duplicate-free: a repeated
    /// id collapses to the entry already present.
    pub fn record_anchor(&mut self, id: &str)
        requires
            distinct_strings(old(self).anchors@),
        ensures
            distinct_strings(final(self).anchors@),
            anchor_set_of(final(self).anchors@) == anchor_set_of(old(self).anchors@).insert(id@),
            final(self).title == old(self).title,
            final(self).toc_builder == old(self).toc_builder,
    {
        let owned = String::from_str(id);
        let mut j: usize = 0;
        let mut found = false;
        while j < self.anchors.len()
            invariant
                j <= self.anchors.len(),
                self == old(self),
                owned@ == id@,
                found <==> exists|r: int| 0 <= r < j && #[trigger] self.anchors@[r]@ == id@,
            decreases self.anchors@.len() - j,
        {
            if self.anchors[j] == owned {
                found = true;
            }
            j += 1;
        }
        let ghost s0 = self.anchors@;
        if !found {
            self.anchors.push(owned);
            proof {
                let s1 = self.anchors@;
                assert forall|a: Seq<char>| anchor_set_of(s1).contains(a) implies anchor_set_of(
                    s0,
                ).insert(id@).contains(a) by {
                    let r = choose|r: int| 0 <= r < s1.len() && #[trigger] s1[r]@ == a;
                    if r < s0.len() {
                        assert(s0[r]@ == a);
                    } else {
                        assert(a == id@);
                    }
                }
                assert forall|a: Seq<char>|
                    anchor_set_of(s0).insert(id@).contains(a) implies anchor_set_of(s1).contains(
                    a,
                ) by {
                    if a == id@ {
                        assert(s1[s1.len() - 1]@ == a);
                    } else {
                        let r = choose|r: int| 0 <= r < s0.len() && #[trigger] s0[r]@ == a;
                        assert(s1[r]@ == a);
                    }
                }
                assert(anchor_set_of(s1) =~= anchor_set_of(s0).insert(id@));
                assert forall|p: int, q: int| 0 <= p < q < s1.len() implies #[trigger] s1[p]@
                    != #[trigger] s1[q]@ by {
                    if q == s1.len() - 1 {
                        assert(!(exists|r: int| 0 <= r < s0.len() && #[trigger] s0[r]@ == id@));
                        assert(s0[p]@ != id@);
                    }
                }
            }
        } else {
            proof {
                let r = choose|r: int| 0 <= r < s0.len() && #[trigger] s0[r]@ == id@;
                assert(anchor_set_of(s0).contains(id@));
                assert(anchor_set_of(s0).insert(id@) =~= anchor_set_of(s0));
            }
        }
    }
}

/// Transient per-pass tracking of the heading that is currently open: its
/// level and arena index, the text accumulated for it so far, and whether the
/// document title has already been latched.
pub struct HeadingContext {
    pub active_heading_level: Option<u16>,
    pub active_token_idx: Option<usize>,
    pub heading_text: String,
    pub found_title: bool,
}

/// Both halves of the pass state fit together: the builder is well-formed,
/// the two `active` fields are set or cleared together, an active index
/// points into the arena, and the anchor collection is duplicate-free.
pub open spec fn tracker_wf(m: PageMetadata, c: HeadingContext) -> bool {
    &&& m.toc_builder.wf()
    &&& (c.active_heading_level is Some <==> c.active_token_idx is Some)
    &&& (c.active_token_idx matches Some(i) ==> (i as int) < m.toc_builder@.arena.len())
    &&& distinct_strings(m.anchors@)
}

/// The spec-level image of the whole pass state.
pub open spec fn state_view(m: PageMetadata, c: HeadingContext) -> StateV {
    StateV {
        toc: m.toc_builder@,
        active: match (c.active_heading_level, c.active_token_idx) {
            (Some(l), Some(i)) => Some(ActiveV { level: l, idx: i as int }),
            _ => None,
        },
        buf: c.heading_text@,
        title_found: c.found_title,
        title: match m.title {
            Some(t) => Some(t@),
            None => None,
        },
        anchors: anchor_set_of(m.anchors@),
    }
}

impl HeadingContext {
    pub fn new() -> (c: HeadingContext)
        ensures
            c.active_heading_level is None,
            c.active_token_idx is None,
            c.heading_text@ == Seq::<char>::empty(),
            c.found_title == false,
    {
        HeadingContext {
            active_heading_level: None,
            active_token_idx: None,
            heading_text: String::new(),
            found_title: false,
        }
    }

    /// A heading opens: record its non-empty id as an anchor at once, create
    /// and link its node, and start accumulating its text.
    pub fn start_heading(&mut self, metadata: &mut PageMetadata, level: u16, id: &str)
        requires
            tracker_wf(*old(metadata), *old(self)),
        ensures
            tracker_wf(*final(metadata), *final(self)),
            state_view(*final(metadata), *final(self)) == step(
                state_view(*old(metadata), *old(self)),
                EventV::HeadingStart { level, id: id@ },
            ),
    {
        if !id.is_empty() {
            metadata.record_anchor(id);
        }
        let idx = metadata.toc_builder.add_token(String::from_str(id), level);
        self.active_heading_level = Some(level);
        self.active_token_idx = Some(idx);
        self.heading_text = String::new();
        proof {
            lemma_add_spec_len(old(metadata).toc_builder@, id@, level);
        }
    }

    /// A text fragment of the open heading arrives: append it verbatim.
    pub fn append_text(&mut self, text: &str)
        ensures
            final(self).heading_text@ == old(self).heading_text@ + text@,
            final(self).active_heading_level == old(self).active_heading_level,
            final(self).active_token_idx == old(self).active_token_idx,
            final(self).found_title == old(self).found_title,
    {
        self.heading_text.append(text);
    }

    /// The open heading closes: the accumulated text becomes its node's name,
    /// and the first level-1 heading to close with non-empty text becomes the
    /// document title.  Returns the newly latched title, if any; on an idle
    /// state nothing changes.
    pub fn end_heading(&mut self, metadata: &mut PageMetadata) -> (r: Option<String>)
        requires
            tracker_wf(*old(metadata), *old(self)),
        ensures
            tracker_wf(*final(metadata), *final(self)),
            state_view(*final(metadata), *final(self)) == step(
                state_view(*old(metadata), *old(self)),
                EventV::HeadingEnd,
            ),
            (r is Some) == (old(self).active_heading_level is Some && !old(self).found_title && old(
                self,
            ).active_heading_level->0 == 1 && old(self).heading_text@.len() > 0),
            r matches Some(t) ==> t@ == old(self).heading_text@,
    {
        if self.active_heading_level.is_some() {
            let level = self.active_heading_level.unwrap();
            let idx = self.active_token_idx.unwrap();
            self.active_heading_level = None;
            self.active_token_idx = None;
            metadata.toc_builder.set_name(idx, self.heading_text.clone());
            if !self.found_title && level == 1 && !self.heading_text.as_str().is_empty() {
                self.found_title = true;
                let t = self.heading_text.clone();
                metadata.title = Some(t.clone());
                Some(t)
            } else {
                None
            }
        } else {
            None
        }
    }
}

} // verus!
