use jotdown_py::render::{render_to_html, wrap_render_outcome};

#[test]
fn renders_heading_with_section_and_anchor() {
    let html = render_to_html("# heading").unwrap();
    assert_eq!(html, "<section id=\"heading\">\n<h1>heading</h1>\n</section>\n");
}

#[test]
fn renders_plain_paragraph() {
    let html = render_to_html("str").unwrap();
    assert_eq!(html, "<p>str</p>\n");
}

#[test]
fn rendering_is_deterministic() {
    let a = render_to_html("# A\n\nsome *emphasis* here\n").unwrap();
    let b = render_to_html("# A\n\nsome *emphasis* here\n").unwrap();
    assert_eq!(a, b);
}

#[test]
fn render_failure_carries_prefixed_message() {
    let r = wrap_render_outcome(Err("sink closed".to_string()));
    let e = r.expect_err("a sink failure must surface as an error");
    assert_eq!(e.message, "HTML rendering failed: sink closed");
}

#[test]
fn render_success_passes_html_through() {
    let r = wrap_render_outcome(Ok("<p>done</p>\n".to_string()));
    assert_eq!(r.unwrap(), "<p>done</p>\n");
}

#[test]
fn renders_empty_document_to_bare_newline() {
    let html = render_to_html("").unwrap();
    assert_eq!(html, "\n");
}
