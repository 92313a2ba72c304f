use vstd::prelude::*;
use crate::hashing::{hash_text, hash_text_spec};
use crate::markdown::{hoedown_html, render_markdown};
use crate::replies::{linkable, linked, link_replies, reference_status};
use crate::text::{owned, push_str};

verus! {

/// Hoedown extension: tables.
pub const EXT_TABLES: u32 = 1;
/// Hoedown extension: footnotes.
pub const EXT_FOOTNOTES: u32 = 4;
/// Hoedown extension: `~~strikethrough~~`.
pub const EXT_STRIKETHROUGH: u32 = 16;
/// Hoedown extension: `==highlight==`.
pub const EXT_HIGHLIGHT: u32 = 64;
/// Hoedown extension: math.
pub const EXT_MATH: u32 = 512;
/// Hoedown extension: no emphasis inside words.
pub const EXT_NO_INTRA_EMPHASIS: u32 = 2048;
/// Hoedown extension: headers need a space after `#`.
pub const EXT_SPACE_HEADERS: u32 = 4096;
/// Hoedown extension: no indented code blocks.
pub const EXT_DISABLE_INDENTED_CODE: u32 = 16384;

/// The extensions that post contents are rendered with.
pub const POST_EXTENSIONS: u32 = EXT_MATH + EXT_NO_INTRA_EMPHASIS + EXT_SPACE_HEADERS
    + EXT_DISABLE_INDENTED_CODE + EXT_FOOTNOTES + EXT_STRIKETHROUGH + EXT_TABLES + EXT_HIGHLIGHT;

/// Hoedown HTML flag: escape the HTML that a post holds.
pub const HTML_ESCAPE: u32 = 2;

/// The nesting level the HTML renderer is made with.
pub const HTML_NESTING: i32 = 0;

/// A post's content as it is stored: the Markdown rendered to HTML with
/// escaping, then every reply reference turned into a link. `None` where
/// the rendering is not UTF-8 or the links cannot be computed.
pub open spec fn post_html_spec(content: Seq<char>, posts_per_page: u64) -> Option<Seq<char>> {
    match hoedown_html(content, POST_EXTENSIONS, HTML_ESCAPE, HTML_NESTING) {
        Some(h) => if linkable(h, posts_per_page) {
            Some(linked(h, posts_per_page as nat))
        } else {
            None
        },
        None => None,
    }
}

/// Renders a post's Markdown to escaped HTML and links its reply
/// references; `None` where the rendering is not UTF-8, a referenced post
/// number does not fit in a `u64`, the page size does not fit in an `i64`,
/// or it is zero while there is a reference.
pub fn render_post(content: &str, posts_per_page: u64) -> (r: Option<String>)
    ensures
        match r {
            Some(h) => post_html_spec(content@, posts_per_page) == Some(h@),
            None => post_html_spec(content@, posts_per_page) is None,
        },
        // The rendering is hoedown's, with exactly the post extensions,
        // escaping and nesting level 0; its references are then linked.
        match hoedown_html(content@, POST_EXTENSIONS, HTML_ESCAPE, HTML_NESTING) {
            Some(h) => (r is Some <==> linkable(h, posts_per_page)) && (r matches Some(x) ==> x@
                == linked(h, posts_per_page as nat)),
            None => r is None,
        },
{
    let html = match render_markdown(content, POST_EXTENSIONS, HTML_ESCAPE, HTML_NESTING) {
        Some(h) => h,
        None => {
            return None;
        },
    };
    let (fit, any) = reference_status(html.as_str());
    if !fit || posts_per_page > 9223372036854775807u64 || (posts_per_page == 0 && any) {
        return None;
    }
    Some(link_replies(html.as_str(), posts_per_page))
}

/// A post as it is written to the database.
#[derive(Debug, Clone)]
pub struct PostBody {
    pub name: String,
    pub password: String,
    pub content: String,
}

/// The stored form of a new post: the name as given, the password hashed,
/// the content rendered and linked. `None` where `render_post` gives `None`.
pub fn post_body(name: &str, password: &str, content: &str, posts_per_page: u64) -> (r: Option<PostBody>)
    ensures
        r is Some <==> post_html_spec(content@, posts_per_page) is Some,
        r matches Some(b) ==> {
            &&& b.name@ == name@
            &&& b.password@ == hash_text_spec(password@)
            &&& Some(b.content@) == post_html_spec(content@, posts_per_page)
            &&& hoedown_html(content@, POST_EXTENSIONS, HTML_ESCAPE, HTML_NESTING) matches Some(h)
                && b.content@ == linked(h, posts_per_page as nat)
        },
{
    let password = hash_text(password);
    match render_post(content, posts_per_page) {
        Some(content) => Some(PostBody { name: owned(name), password, content }),
        None => None,
    }
}

/// The number of the next post in a thread: one more than the last post's,
/// or 0 for the first post.
pub fn next_post_number(last: Option<i64>) -> (n: i64)
    requires
        last != Some(i64::MAX),
    ensures
        n == match last {
            Some(m) => m + 1,
            None => 0,
        },
{
    match last {
        Some(m) => m + 1,
        None => 0,
    }
}

/// Why an address is banned: the first recorded reason, or a default.
pub fn ban_reason_text(first_reason: Option<String>) -> (r: String)
    ensures
        r@ == match first_reason {
            Some(s) => s@,
            None => "No ban on record, please contact an admin."@,
        },
{
    match first_reason {
        Some(s) => s,
        None => owned("No ban on record, please contact an admin."),
    }
}

/// The answer to a post from a banned address.
pub fn ban_message(reason: &str) -> (r: String)
    ensures
        r@ == "Users with this IP are banned: "@ + reason@,
{
    let mut s = owned("Users with this IP are banned: ");
    push_str(&mut s, reason);
    s
}

/// Posts are rendered with exactly these hoedown options, each flag having
/// the bit that hoedown gives it: extensions tables (bit 0), footnotes (2),
/// strikethrough (4), highlight (6), math (9), no intra-word emphasis (11),
/// space headers (12) and no indented code (14), and nothing else; HTML
/// escaping (HTML flag bit 1); nesting level 0.
pub proof fn lemma_post_render_options()
    ensures
        EXT_TABLES == 1u32 << 0u32,
        EXT_FOOTNOTES == 1u32 << 2u32,
        EXT_STRIKETHROUGH == 1u32 << 4u32,
        EXT_HIGHLIGHT == 1u32 << 6u32,
        EXT_MATH == 1u32 << 9u32,
        EXT_NO_INTRA_EMPHASIS == 1u32 << 11u32,
        EXT_SPACE_HEADERS == 1u32 << 12u32,
        EXT_DISABLE_INDENTED_CODE == 1u32 << 14u32,
        POST_EXTENSIONS == (EXT_TABLES | EXT_FOOTNOTES | EXT_STRIKETHROUGH | EXT_HIGHLIGHT
            | EXT_MATH | EXT_NO_INTRA_EMPHASIS | EXT_SPACE_HEADERS | EXT_DISABLE_INDENTED_CODE),
        POST_EXTENSIONS & EXT_NO_INTRA_EMPHASIS != 0,
        HTML_ESCAPE == 1u32 << 1u32,
        HTML_NESTING == 0,
{
    assert(1u32 == 1u32 << 0u32) by (bit_vector);
    assert(4u32 == 1u32 << 2u32) by (bit_vector);
    assert(16u32 == 1u32 << 4u32) by (bit_vector);
    assert(64u32 == 1u32 << 6u32) by (bit_vector);
    assert(512u32 == 1u32 << 9u32) by (bit_vector);
    assert(2048u32 == 1u32 << 11u32) by (bit_vector);
    assert(4096u32 == 1u32 << 12u32) by (bit_vector);
    assert(16384u32 == 1u32 << 14u32) by (bit_vector);
    assert(2u32 == 1u32 << 1u32) by (bit_vector);
    assert(POST_EXTENSIONS == 23125u32);
    assert(23125u32 == (1u32 | 4u32 | 16u32 | 64u32 | 512u32 | 2048u32 | 4096u32 | 16384u32)) by (bit_vector);
    assert(23125u32 & 2048u32 != 0) by (bit_vector);
}

} // verus!
