use jotdown_py::events::Event;
use jotdown_py::extract::{extract_metadata, run_events};
use jotdown_py::tracker::PageMetadata;

fn start(level: u16, id: &str) -> Event {
    Event::HeadingStart { level, id: id.to_string() }
}

fn text(fragment: &str) -> Event {
    Event::Text { fragment: fragment.to_string() }
}

fn run(events: Vec<Event>) -> PageMetadata {
    run_events(&events)
}

fn names(m: &PageMetadata) -> Vec<String> {
    m.toc_builder.arena.iter().map(|t| t.name.clone()).collect()
}

#[test]
fn no_level1_means_no_title() {
    let m = run(vec![start(2, "a"), text("Only a subsection"), Event::HeadingEnd]);
    assert_eq!(m.title, None);
    assert_eq!(m.toc_builder.arena.len(), 1);
}

#[test]
fn first_level1_with_text_becomes_title() {
    let m = run(vec![
        start(1, "a"),
        text("First"),
        Event::HeadingEnd,
        start(1, "b"),
        text("Second"),
        Event::HeadingEnd,
    ]);
    assert_eq!(m.title.as_deref(), Some("First"));
    // The later level-1 heading still joins the outline as its own root.
    assert_eq!(m.toc_builder.root_indices, vec![0, 1]);
}

#[test]
fn empty_level1_never_arms_the_title() {
    let m = run(vec![
        start(1, "a"),
        Event::HeadingEnd,
        start(1, "b"),
        text("Later"),
        Event::HeadingEnd,
    ]);
    // The empty first heading sets nothing, and also does not latch the
    // title away from the later non-empty one.
    assert_eq!(m.title.as_deref(), Some("Later"));
}

#[test]
fn level_sequence_one_two_three_two_one() {
    let m = run(vec![
        start(1, "r1"),
        Event::HeadingEnd,
        start(2, "a"),
        Event::HeadingEnd,
        start(3, "b"),
        Event::HeadingEnd,
        start(2, "c"),
        Event::HeadingEnd,
        start(1, "r2"),
        Event::HeadingEnd,
    ]);
    let arena = &m.toc_builder.arena;
    assert_eq!(m.toc_builder.root_indices, vec![0, 4]);
    assert_eq!(arena[0].child_indices, vec![1, 3]);
    assert_eq!(arena[1].child_indices, vec![2]);
    assert_eq!(arena[2].child_indices, Vec::<usize>::new());
    assert_eq!(arena[3].child_indices, Vec::<usize>::new());
    assert_eq!(arena[4].child_indices, Vec::<usize>::new());
}

#[test]
fn level2_without_enclosing_level1_is_a_root() {
    let m = run(vec![
        start(2, "sub"),
        Event::HeadingEnd,
        start(1, "top"),
        Event::HeadingEnd,
    ]);
    assert_eq!(m.toc_builder.root_indices, vec![0, 1]);
    assert_eq!(m.toc_builder.arena[0].child_indices, Vec::<usize>::new());
    assert_eq!(m.toc_builder.arena[0].level, 2);
}

#[test]
fn anchors_are_distinct_nonempty_ids() {
    let m = run(vec![
        start(1, "x"),
        Event::HeadingEnd,
        start(2, "x"),
        Event::HeadingEnd,
        start(2, ""),
        Event::HeadingEnd,
        start(2, "y"),
        Event::HeadingEnd,
    ]);
    // A repeated id collapses to one entry; an empty id contributes none.
    assert_eq!(m.anchors.len(), 2);
    assert!(m.anchors.iter().any(|a| a == "x"));
    assert!(m.anchors.iter().any(|a| a == "y"));
    // The empty-id heading still joined the outline.
    assert_eq!(m.toc_builder.arena.len(), 4);
}

#[test]
fn heading_fragments_concatenate_verbatim() {
    let m = run(vec![
        start(1, "hello-world"),
        text("Hello "),
        Event::Other,
        text("world"),
        Event::HeadingEnd,
    ]);
    assert_eq!(m.title.as_deref(), Some("Hello world"));
    assert_eq!(m.toc_builder.arena[0].name, "Hello world");
}

#[test]
fn text_outside_headings_is_ignored() {
    let m = run(vec![
        text("stray"),
        start(1, "t"),
        text("Title"),
        Event::HeadingEnd,
        text("body"),
    ]);
    assert_eq!(m.title.as_deref(), Some("Title"));
    assert_eq!(m.toc_builder.arena[0].name, "Title");
}

#[test]
fn dangling_heading_is_finalized_with_partial_text() {
    // The stream ends while the heading is still open: the pass closes it
    // with the text accumulated so far.
    let m = run(vec![start(1, "t"), text("par")]);
    assert_eq!(m.title.as_deref(), Some("par"));
    assert_eq!(m.toc_builder.arena[0].name, "par");
}

#[test]
fn extraction_from_text_builds_title_and_outline() {
    let m = extract_metadata("# Title\n\n## Sub A\n\n## Sub B\n");
    assert_eq!(m.title.as_deref(), Some("Title"));
    assert_eq!(m.toc_builder.root_indices.len(), 1);
    let root = &m.toc_builder.arena[m.toc_builder.root_indices[0]];
    assert_eq!(root.name, "Title");
    assert_eq!(root.level, 1);
    assert_eq!(root.child_indices.len(), 2);
    let a = &m.toc_builder.arena[root.child_indices[0]];
    let b = &m.toc_builder.arena[root.child_indices[1]];
    assert_eq!(a.name, "Sub A");
    assert_eq!(a.level, 2);
    assert_eq!(a.child_indices.len(), 0);
    assert_eq!(b.name, "Sub B");
    assert_eq!(b.level, 2);
    assert_eq!(b.child_indices.len(), 0);
}

#[test]
fn extraction_collects_generated_anchors() {
    let m = extract_metadata("# Title\n\n## Sub A\n\n## Sub B\n");
    assert_eq!(m.anchors.len(), 3);
    assert!(m.anchors.iter().any(|a| a == "Title"));
    assert!(m.anchors.iter().any(|a| a == "Sub-A"));
    assert!(m.anchors.iter().any(|a| a == "Sub-B"));
}

#[test]
fn extraction_of_plain_paragraph_is_trivial() {
    let m = extract_metadata("just a paragraph, no headings\n");
    assert_eq!(m.title, None);
    assert_eq!(m.toc_builder.arena.len(), 0);
    assert_eq!(m.toc_builder.root_indices.len(), 0);
    assert_eq!(m.anchors.len(), 0);
}

#[test]
fn extraction_twice_is_structurally_identical() {
    let src = "# Title\n\nbody text\n\n## Sub *A*\n\n### Deep\n\n## Sub B\n";
    let first = extract_metadata(src);
    let second = extract_metadata(src);
    assert_eq!(first, second);
    assert_eq!(names(&first), names(&second));
}

#[test]
fn extraction_honours_explicit_anchor() {
    let m = extract_metadata("{#custom}\n# Title\n");
    assert_eq!(m.title.as_deref(), Some("Title"));
    assert_eq!(m.toc_builder.arena[0].id, "custom");
    assert_eq!(m.anchors.len(), 1);
    assert!(m.anchors.iter().any(|a| a == "custom"));
}

#[test]
fn repeated_explicit_anchor_collapses_to_one() {
    let m = extract_metadata("{#dup}\n# A\n\n{#dup}\n## B\n");
    assert_eq!(m.anchors.len(), 1);
    assert!(m.anchors.iter().any(|a| a == "dup"));
    assert_eq!(m.toc_builder.arena.len(), 2);
}

#[test]
fn extraction_of_empty_input_is_trivial() {
    let m = extract_metadata("");
    assert_eq!(m.title, None);
    assert_eq!(m.toc_builder.arena.len(), 0);
    assert_eq!(m.anchors.len(), 0);
}

#[test]
fn run_of_empty_stream_is_trivial() {
    let m = run(Vec::new());
    assert_eq!(m.title, None);
    assert_eq!(m.toc_builder.arena.len(), 0);
    assert_eq!(m.toc_builder.root_indices.len(), 0);
    assert_eq!(m.anchors.len(), 0);
}
