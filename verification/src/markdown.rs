use vstd::prelude::*;

verus! {

/// What the hoedown HTML renderer makes of a Markdown text, given the
/// extension bits, the HTML flag bits and the nesting level; `None` when its
/// output is not valid UTF-8.
pub uninterp spec fn hoedown_html(text: Seq<char>, extensions: u32, html_flags: u32, nesting: i32) -> Option<Seq<char>>;

/// Renders Markdown to HTML with hoedown.
///
/// Trusted: builds `hoedown::Markdown::new(text)` with the given extension
/// bits, renders it with `hoedown::Html::new(flags, nesting)` and reads the
/// output with `Buffer::to_str`. The contract claims only that the outcome
/// depends on the arguments alone (it is named `hoedown_html`), `None`
/// standing for output that is not UTF-8; what HTML comes out is not stated.
#[verifier::external_body]
pub(crate) fn render_markdown(text: &str, extensions: u32, html_flags: u32, nesting: i32) -> (r: Option<String>)
    ensures
        match r {
            Some(h) => hoedown_html(text@, extensions, html_flags, nesting) == Some(h@),
            None => hoedown_html(text@, extensions, html_flags, nesting) is None,
        },
{
    let doc = hoedown::Markdown::new(text).extensions(hoedown::Extension::from_bits_truncate(extensions));
    let mut html = hoedown::Html::new(hoedown::renderer::html::Flags::from_bits_truncate(html_flags), nesting);
    let out = hoedown::Render::render(&mut html, &doc);
    match out.to_str() {
        Ok(s) => Some(s.to_string()),
        Err(_) => None,
    }
}

} // verus!
