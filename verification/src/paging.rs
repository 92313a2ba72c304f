use vstd::prelude::*;
use crate::decimal::{digits_value, lemma_parse_signed_decimal, parse_i64, parse_i64_spec, signed_decimal, unsigned_part};

verus! {

/// One entry of the page list under a board or a thread: its number, and
/// whether it is drawn as a link (every page but the one being viewed).
#[derive(Debug, Clone, Copy, PartialEq, Eq, Structural)]
pub struct Page {
    pub num: i64,
    pub link: bool,
}

/// Which part of a board or thread one page shows: the page, how many
/// pages there are, and the offset and limit of the query for its items.
#[derive(Debug, Clone, Copy, PartialEq, Eq, Structural)]
pub struct Window {
    pub page: i64,
    pub npages: i64,
    pub offset: i64,
    pub limit: i64,
}

/// The value of a `u64` after `as i64`: the same bits read as two's complement.
pub open spec fn wrap_i64(n: u64) -> int {
    if n <= i64::MAX {
        n as int
    } else {
        n as int - 0x1_0000_0000_0000_0000
    }
}

/// The magnitude of an integer.
pub open spec fn abs(a: int) -> int {
    if a < 0 {
        -a
    } else {
        a
    }
}

/// Integer division as Rust performs it on signed integers: the quotient
/// of the magnitudes, negated when the signs differ (rounded toward zero).
pub open spec fn trunc_div(a: int, b: int) -> int {
    let q = abs(a) / abs(b);
    if (a < 0) == (b < 0) {
        q
    } else {
        -q
    }
}

/// A quotient of magnitudes is never negative.
proof fn lemma_magnitude_quotient(a: int, b: int)
    requires
        b != 0,
    ensures
        0 <= abs(a) / abs(b) <= abs(a),
{
    let x = abs(a);
    let y = abs(b);
    assert(0 <= x / y <= x) by (nonlinear_arith)
        requires
            x >= 0,
            y > 0,
    ;
}

/// The integer is a value of `i64`.
pub open spec fn in_i64(a: int) -> bool {
    i64::MIN <= a <= i64::MAX
}

/// `a / b` on `i64`, as Rust computes it.
pub fn div_trunc(a: i64, b: i64) -> (q: i64)
    requires
        b != 0,
        !(a == i64::MIN && b == -1),
    ensures
        q as int == trunc_div(a as int, b as int),
{
    proof {
        lemma_magnitude_quotient(a as int, b as int);
    }
    if b > 0 {
        let q = a / b;
        if a >= 0 {
            assert(q as int == (a as int) / (b as int));
            assert(q as int == trunc_div(a as int, b as int));
        } else {
            assert(q as int == -((-(a as int)) / (b as int)));
            assert(q as int == trunc_div(a as int, b as int));
        }
        q
    } else if b == i64::MIN {
        if a == i64::MIN {
            assert(abs(a as int) / abs(b as int) == 1) by (nonlinear_arith)
                requires
                    abs(a as int) == abs(b as int),
                    abs(b as int) > 0,
            ;
            1
        } else {
            assert(abs(a as int) / abs(b as int) == 0) by (nonlinear_arith)
                requires
                    abs(a as int) < abs(b as int),
                    abs(a as int) >= 0,
            ;
            0
        }
    } else {
        let nb: i64 = -b;
        let ghost x = abs(a as int);
        if a == i64::MIN {
            assert(x / (nb as int) <= x / 2) by (nonlinear_arith)
                requires
                    x >= 0,
                    nb >= 2,
            ;
        }
        let q = a / nb;
        if a >= 0 {
            assert(q as int == (a as int) / (nb as int));
            assert(q as int == x / abs(b as int));
        } else {
            assert(q as int == -((-(a as int)) / (nb as int)));
            assert(q as int == -(x / abs(b as int)));
        }
        assert(-q == trunc_div(a as int, b as int));
        -q
    }
}

/// The page number that a path segment asks for; `-1` when it is not a number.
pub open spec fn requested_page(text: Seq<char>) -> int {
    match parse_i64_spec(text) {
        Some(p) => p as int,
        None => -1,
    }
}

/// The last page that has items: `max(count - 1, 0) / per_page`.
pub open spec fn last_page(count: int, per_page: int) -> int {
    trunc_div(if count - 1 > 0 { count - 1 } else { 0 }, per_page)
}

/// How many pages the page list shows: `(count - 1) / per_page + 1`.
pub open spec fn page_count(count: int, per_page: int) -> int {
    trunc_div(count - 1, per_page) + 1
}

/// A page of `count` items, `per_page` at a time, can be shown without an
/// arithmetic fault.
pub open spec fn window_computable(page: int, count: int, per_page: int) -> bool {
    &&& count > i64::MIN
    &&& per_page != 0
    &&& (page <= last_page(count, per_page) ==> in_i64(trunc_div(count - 1, per_page))
        && in_i64(page_count(count, per_page)))
}

/// The window of `page` over `count` items, `per_page` at a time, when the
/// page is within `0..=last_page`.
pub open spec fn window_of(w: Window, page: int, count: int, per_page: int) -> bool {
    &&& w.page == page
    &&& w.npages == page_count(count, per_page)
    &&& w.offset == page * per_page
    &&& w.limit == per_page
}

/// The page number that a path segment asks for, `-1` when it is not a number.
pub fn parse_page(text: &str) -> (p: i64)
    ensures
        p as int == requested_page(text@),
{
    match parse_i64(text) {
        Some(p) => p,
        None => -1,
    }
}

/// A number from 0 to `a / b`, times `b`, stays between 0 and `a`.
proof fn lemma_quotient_product(a: int, b: int, q: int)
    requires
        a >= 0,
        b > 0,
        0 <= q <= a / b,
    ensures
        0 <= q * b <= a,
{
    assert(q * b <= (a / b) * b) by (nonlinear_arith)
        requires
            0 <= q <= a / b,
            b > 0,
    ;
    assert((a / b) * b <= a) by (nonlinear_arith)
        requires
            a >= 0,
            b > 0,
    ;
    assert(0 <= q * b) by (nonlinear_arith)
        requires
            q >= 0,
            b > 0,
    ;
}

/// The window of page `page` of `count` items, or `None` when the page is
/// past the last one.
fn window(page: i64, count: i64, per_page: i64) -> (r: Option<Window>)
    requires
        page >= 0,
        window_computable(page as int, count as int, per_page as int),
    ensures
        r is Some <==> page <= last_page(count as int, per_page as int),
        r matches Some(w) ==> window_of(w, page as int, count as int, per_page as int),
{
    let top: i64 = if count - 1 > 0 { count - 1 } else { 0 };
    let last = div_trunc(top, per_page);
    if page > last {
        return None;
    }
    proof {
        if count - 1 == i64::MIN && per_page == -1 {
            assert(abs((count - 1) as int) / abs(per_page as int) == abs((count - 1) as int)) by (nonlinear_arith)
                requires
                    abs(per_page as int) == 1,
            ;
        }
    }
    let npages = div_trunc(count - 1, per_page) + 1;
    let offset: i64 = if per_page > 0 {
        proof {
            lemma_quotient_product(top as int, per_page as int, page as int);
        }
        page * per_page
    } else {
        proof {
            lemma_magnitude_quotient(top as int, per_page as int);
            assert(last <= 0);
            assert(page == 0);
            assert(page * per_page == 0);
        }
        0
    };
    Some(Window { page, npages, offset, limit: per_page })
}

/// A configured page size converted to `i64` with `as`: sizes past `i64::MAX` wrap to negative values.
pub fn as_i64(n: u64) -> (r: i64)
    ensures
        r as int == wrap_i64(n),
{
    if n <= 9223372036854775807u64 {
        n as i64
    } else {
        -((18446744073709551615u64 - n) as i64) - 1
    }
}

/// A board page can be computed without an arithmetic fault.
pub open spec fn board_window_computable(page: int, nthreads: int, threads_per_page: u64) -> bool {
    page >= 0 ==> window_computable(page, nthreads, wrap_i64(threads_per_page))
}

/// Which threads page `page` of a board shows, when the board exists and
/// the page is between 0 and the last page; `None` (not found) otherwise.
pub fn board_window(page: i64, nthreads: i64, threads_per_page: u64, board_exists: bool) -> (r:
    Option<Window>)
    requires
        board_window_computable(page as int, nthreads as int, threads_per_page),
    ensures
        r is Some <==> (board_exists && page >= 0 && page <= last_page(
            nthreads as int,
            wrap_i64(threads_per_page),
        )),
        r matches Some(w) ==> window_of(w, page as int, nthreads as int, wrap_i64(threads_per_page)),
{
    if page < 0 || !board_exists {
        return None;
    }
    window(page, nthreads, as_i64(threads_per_page))
}

/// The thread and page that a thread URL asks for, when both are numbers
/// and neither is negative.
pub fn thread_request(thread_text: &str, page_text: &str) -> (r: Option<(i64, i64)>)
    ensures
        r is Some <==> (requested_page(thread_text@) >= 0 && requested_page(page_text@) >= 0),
        r matches Some((t, p)) ==> t == requested_page(thread_text@) && p == requested_page(
            page_text@,
        ),
{
    let page = parse_page(page_text);
    let id = parse_page(thread_text);
    if id >= 0 && page >= 0 {
        Some((id, page))
    } else {
        None
    }
}

/// A thread page can be computed without an arithmetic fault.
pub open spec fn thread_window_computable(nposts: int, posts_per_page: u64) -> bool {
    nposts > 0 ==> wrap_i64(posts_per_page) != 0
}

/// Which posts page `page` of a thread with `nposts` posts shows, when the
/// thread has posts and the page is at most the last one; `None` (not
/// found) otherwise.
pub fn thread_window(page: i64, nposts: i64, posts_per_page: u64) -> (r: Option<Window>)
    requires
        page >= 0,
        thread_window_computable(nposts as int, posts_per_page),
    ensures
        r is Some <==> (nposts > 0 && page <= last_page(nposts as int, wrap_i64(posts_per_page))),
        r matches Some(w) ==> window_of(w, page as int, nposts as int, wrap_i64(posts_per_page)),
{
    if nposts <= 0 {
        return None;
    }
    let per_page = as_i64(posts_per_page);
    proof {
        let t = per_page as int;
        let n = nposts as int;
        lemma_magnitude_quotient(n - 1, t);
    }
    window(page, nposts, per_page)
}

/// The page list for `npages` pages (none when `npages <= 0`), where every
/// page but `current` is a link.
pub fn page_links(npages: i64, current: i64) -> (r: Vec<Page>)
    ensures
        r@.len() == if npages > 0 { npages as int } else { 0 },
        forall|i: int| 0 <= i < r@.len() ==> #[trigger] r@[i] == (Page { num: i as i64, link: i != current }),
{
    let mut r: Vec<Page> = Vec::new();
    let mut x: i64 = 0;
    while x < npages
        invariant
            0 <= x,
            npages > 0 ==> x <= npages,
            npages <= 0 ==> x == 0,
            r@.len() == x,
            forall|i: int| 0 <= i < x ==> #[trigger] r@[i] == (Page { num: i as i64, link: i != current }),
        decreases npages - x,
    {
        r.push(Page { num: x, link: x != current });
        x = x + 1;
    }
    r
}

/// The page on which a thread's next post will appear, the thread having
/// `nposts` posts: `nposts / posts_per_page`.
pub fn new_post_page(nposts: i64, posts_per_page: u64) -> (p: i64)
    requires
        wrap_i64(posts_per_page) != 0,
        !(nposts == i64::MIN && wrap_i64(posts_per_page) == -1),
    ensures
        p as int == trunc_div(nposts as int, wrap_i64(posts_per_page)),
{
    div_trunc(nposts, as_i64(posts_per_page))
}

/// For a positive page size, a page number from 0 to the last page is a
/// page of the list: it is below the page count.
pub proof fn lemma_viewed_page_is_listed(page: int, count: int, per_page: int)
    requires
        count >= 1,
        per_page > 0,
        0 <= page <= last_page(count, per_page),
    ensures
        0 <= page < page_count(count, per_page),
{
}

/// For a positive page size, every page from 0 to the last one starts at an
/// existing item: its offset is below the number of items.
pub proof fn lemma_window_starts_at_an_item(page: int, count: int, per_page: int)
    requires
        count >= 1,
        per_page > 0,
        0 <= page <= last_page(count, per_page),
    ensures
        0 <= page * per_page <= count - 1,
{
    lemma_quotient_product(count - 1, per_page, page);
}

/// After a post is added to a thread that had `nposts` posts, the page that
/// the poster is sent to (`nposts / posts_per_page`) is a page of the thread,
/// and it shows the new post, which is post number `nposts` counted from 0.
pub proof fn lemma_new_post_is_on_redirect_page(nposts: int, per_page: int)
    requires
        nposts >= 0,
        per_page > 0,
    ensures
        0 <= trunc_div(nposts, per_page) <= last_page(nposts + 1, per_page),
        trunc_div(nposts, per_page) * per_page <= nposts < trunc_div(nposts, per_page) * per_page
            + per_page,
{
    let q = nposts / per_page;
    assert(q * per_page <= nposts < q * per_page + per_page) by (nonlinear_arith)
        requires
            nposts >= 0,
            per_page > 0,
            q == nposts / per_page,
    ;
    assert(q >= 0) by (nonlinear_arith)
        requires
            nposts >= 0,
            per_page > 0,
            q == nposts / per_page,
    ;
}

/// After a post is added to a thread that had `nposts` posts, the page
/// segment of the redirect (the decimal notation of `nposts / posts_per_page`)
/// is read back as that same page, which is a page of the thread and shows
/// the new post.
pub proof fn lemma_redirect_after_post_shows_post(nposts: i64, per_page: int)
    requires
        nposts >= 0,
        per_page > 0,
    ensures
        ({
            let p = trunc_div(nposts as int, per_page);
            &&& requested_page(signed_decimal(p)) == p
            &&& 0 <= p <= last_page(nposts + 1, per_page)
            &&& p * per_page <= nposts < p * per_page + per_page
        }),
{
    lemma_new_post_is_on_redirect_page(nposts as int, per_page);
    let p = trunc_div(nposts as int, per_page);
    assert(p <= nposts) by (nonlinear_arith)
        requires
            nposts >= 0,
            per_page > 0,
            p == (nposts as int) / per_page,
    ;
    lemma_parse_signed_decimal(p as i64);
}

/// A new thread sends its poster to page `0`, which is read back as page 0
/// and, once the thread's first post is in, is a page of the thread that
/// shows that post.
pub proof fn lemma_new_thread_redirect_shows_first_post(per_page: int)
    requires
        per_page > 0,
    ensures
        requested_page("0"@) == 0,
        0 <= last_page(1, per_page),
        0 * per_page <= 0 < 0 * per_page + per_page,
{
    reveal_strlit("0");
    let s = "0"@;
    assert(s.len() == 1 && s[0] == '0');
    assert(s.drop_last() =~= Seq::<char>::empty());
    assert(digits_value(Seq::<char>::empty()) == 0);
    assert(digits_value(s) == 0);
    assert(unsigned_part(s) == s);
}

} // verus!
