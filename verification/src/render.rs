use jotdown::Render;
use vstd::prelude::*;
use vstd::string::StringExecFns;

verus! {

/// The HTML that the rendering engine produces for a document text: it
/// depends on the text alone.
pub uninterp spec fn html_of(s: Seq<char>) -> Seq<char>;

/// A failure of the HTML serialization sink, carrying a diagnostic message.
#[derive(Debug, PartialEq, Eq)]
pub struct RenderError {
    pub message: String,
}

/// Relies on jotdown::html::Renderer::push_events with a String sink.  The
/// renderer constructs no error of its own — every failure it can report is a
/// propagated write failure of the sink — and writing to an in-memory String
/// appends and cannot fail (jotdown's own render_to_string leans on the same
/// fact).  So the call succeeds, and the sink then holds the document's
/// complete HTML, which depends on the text alone.
#[verifier::external_body]
fn render_html(text: &str) -> (r: Result<String, String>)
    ensures
        r is Ok,
        r matches Ok(h) ==> h@ == html_of(text@),
{
    let mut out = String::new();
    let events = jotdown::Parser::new(text);
    match jotdown::html::Renderer::default().push_events(events, &mut out) {
        Ok(()) => Ok(out),
        Err(e) => Err(e.to_string()),
    }
}

/// The diagnostic prefix of every rendering failure.
pub open spec fn render_failure_prefix() -> Seq<char> {
    "HTML rendering failed: "@
}

/// Freeze the serializer's outcome: HTML passes through unchanged, and a
/// sink failure becomes a `RenderError` whose message names the cause after
/// the fixed prefix.
pub fn wrap_render_outcome(outcome: Result<String, String>) -> (r: Result<String, RenderError>)
    ensures
        outcome matches Ok(h) ==> (r matches Ok(h2) && h2@ == h@),
        outcome matches Err(c) ==> (r matches Err(e) && e.message@ == render_failure_prefix()
            + c@),
{
    match outcome {
        Ok(h) => Ok(h),
        Err(c) => {
            let mut message = String::from_str("HTML rendering failed: ");
            message.append(c.as_str());
            Err(RenderError { message })
        },
    }
}

/// Render a document text to HTML.  The serialization sink is an in-memory
/// string, which accepts every write, so the call always succeeds and the
/// string is the rendering engine's complete output for the text — the same
/// output for the same text on every call.  The error variant is the shape a
/// failing sink would surface: a diagnostic message naming the cause after a
/// fixed prefix.
pub fn render_to_html(djot_text: &str) -> (r: Result<String, RenderError>)
    ensures
        r is Ok,
        r matches Ok(h) ==> h@ == html_of(djot_text@),
{
    wrap_render_outcome(render_html(djot_text))
}

} // verus!
