use vstd::prelude::*;
use crate::decimal::{signed_decimal, i64_text};
use crate::text::{owned, push_str};

verus! {

/// The segments of a URL path, as character sequences.
pub open spec fn segments(path: Seq<String>) -> Seq<Seq<char>> {
    path.map_values(|s: String| s@)
}

/// The path one level up: the last segment removed, if there is one.
pub open spec fn up(p: Seq<Seq<char>>) -> Seq<Seq<char>> {
    if p.len() > 0 {
        p.drop_last()
    } else {
        p
    }
}

/// Removes the last segment of `path`, if any.
pub fn pop_segment(path: &mut Vec<String>)
    ensures
        segments(final(path)@) == up(segments(old(path)@)),
{
    if path.len() > 0 {
        let _ = path.pop();
        assert(segments(path@) =~= up(segments(old(path)@)));
    }
}

/// Appends one segment to `path`.
pub fn push_segment(path: &mut Vec<String>, seg: String)
    ensures
        segments(final(path)@) == segments(old(path)@).push(seg@),
{
    path.push(seg);
    assert(segments(path@) =~= segments(old(path)@).push(seg@));
}

/// The path of the first page below the one requested: `.../0`.
pub fn redirect_page0_path(path: &mut Vec<String>)
    ensures
        segments(final(path)@) == segments(old(path)@).push("0"@),
{
    push_segment(path, owned("0"));
}

/// The path one level up from the one requested.
pub fn redirect_up_path(path: &mut Vec<String>)
    ensures
        segments(final(path)@) == up(segments(old(path)@)),
{
    pop_segment(path);
}

/// Where a new post in a thread sends the poster: from
/// `.../t/<thread>/<page>/new` to `.../t/<thread>/<new_page>`.
pub fn new_post_redirect_path(path: &mut Vec<String>, new_page: i64)
    ensures
        segments(final(path)@) == up(up(segments(old(path)@))).push(signed_decimal(new_page as int)),
{
    pop_segment(path);
    pop_segment(path);
    push_segment(path, i64_text(new_page));
}

/// Where a new thread sends the poster: from `/<board>/new` to
/// `/<board>/t/<thread>/0`.
pub fn new_thread_redirect_path(path: &mut Vec<String>, thread: i64)
    ensures
        segments(final(path)@) == up(segments(old(path)@)).push("t"@).push(
            signed_decimal(thread as int),
        ).push("0"@),
{
    pop_segment(path);
    push_segment(path, owned("t"));
    push_segment(path, i64_text(thread));
    push_segment(path, owned("0"));
}

/// Where a successful moderator login leads: the last segment replaced by
/// `mod/0`.
pub fn login_redirect_path(path: &mut Vec<String>)
    ensures
        segments(final(path)@) == up(segments(old(path)@)).push("mod/0"@),
{
    pop_segment(path);
    push_segment(path, owned("mod/0"));
}

/// Going one level up undoes going to the first page.
pub proof fn lemma_up_undoes_page0(p: Seq<Seq<char>>)
    ensures
        up(p.push("0"@)) == p,
{
    assert(p.push("0"@).drop_last() =~= p);
}

/// The location of a thread page, `<board>/t/<thread>/<page>`.
pub open spec fn thread_location_spec(board: Seq<char>, thread: Seq<char>, page: int) -> Seq<char> {
    board + "/t/"@ + thread + "/"@ + signed_decimal(page)
}

/// The location of a thread page that the thread template is given,
/// `<board>/t/<thread>/<page>`.
pub fn thread_location(board: &str, thread: &str, page: i64) -> (s: String)
    ensures
        s@ == thread_location_spec(board@, thread@, page as int),
{
    let mut s = owned(board);
    push_str(&mut s, "/t/");
    push_str(&mut s, thread);
    push_str(&mut s, "/");
    let p = i64_text(page);
    push_str(&mut s, p.as_str());
    s
}

/// The placeholder answer to a post request, `Hello from POST /<board>/<thread>/new`.
pub fn post_placeholder_text(board: &str, thread: &str) -> (s: String)
    ensures
        s@ == "Hello from POST /"@ + board@ + "/"@ + thread@ + "/new"@,
{
    let mut s = owned("Hello from POST /");
    push_str(&mut s, board);
    push_str(&mut s, "/");
    push_str(&mut s, thread);
    push_str(&mut s, "/new");
    s
}

} // verus!
