use vstd::prelude::*;
use crate::decimal::{decimal, digits_value, is_digit, all_digits, push_decimal, lemma_prefix_value_le, lemma_decimal};
use crate::text::{chars_of, push_char, push_str};

verus! {

/// How many decimal digits follow one another from index `i` on.
pub open spec fn digit_run(s: Seq<char>, i: int) -> nat
    decreases s.len() - i,
{
    if 0 <= i < s.len() && is_digit(s[i]) {
        1 + digit_run(s, i + 1)
    } else {
        0
    }
}

/// A reply reference starts at `i`: an `@` followed by at least one digit.
pub open spec fn reference_at(s: Seq<char>, i: int) -> bool {
    0 <= i < s.len() && s[i] == '@' && digit_run(s, i + 1) > 0
}

/// The digits of the reference that starts at `i`.
pub open spec fn reference_digits(s: Seq<char>, i: int) -> Seq<char> {
    s.subrange(i + 1, i + 1 + digit_run(s, i + 1))
}

/// The page that post number `n` is on, `posts_per_page` posts a page:
/// `max((n as i64) / posts_per_page, 0)`, where numbers past `i64::MAX`
/// wrap to negative values and so give page 0.
pub open spec fn reply_page(n: nat, posts_per_page: nat) -> nat {
    if n <= i64::MAX {
        n / posts_per_page
    } else {
        0
    }
}

/// The link that replaces a reference `@<digits>`:
/// `<a href="<page>#<digits>">@<digits></a>`.
pub open spec fn reply_anchor(digits: Seq<char>, posts_per_page: nat) -> Seq<char> {
    "<a href=\""@ + decimal(reply_page(digits_value(digits), posts_per_page)) + "#"@ + digits
        + "\">@"@ + digits + "</a>"@
}

/// The text from index `i` on, every reply reference (`@` and the longest
/// run of digits after it) replaced by its link, scanning left to right.
pub open spec fn linked_from(s: Seq<char>, i: int, posts_per_page: nat) -> Seq<char>
    decreases s.len() - i,
{
    if i < 0 || i >= s.len() {
        Seq::empty()
    } else if reference_at(s, i) {
        proof {
            lemma_digit_run_bound(s, i + 1);
        }
        reply_anchor(reference_digits(s, i), posts_per_page) + linked_from(
            s,
            i + 1 + digit_run(s, i + 1),
            posts_per_page,
        )
    } else {
        seq![s[i]] + linked_from(s, i + 1, posts_per_page)
    }
}

/// The text with every reply reference replaced by its link.
pub open spec fn linked(s: Seq<char>, posts_per_page: nat) -> Seq<char> {
    linked_from(s, 0, posts_per_page)
}

/// Every reference from index `i` on names a post number that fits in a `u64`.
pub open spec fn references_fit_from(s: Seq<char>, i: int) -> bool
    decreases s.len() - i,
{
    if i < 0 || i >= s.len() {
        true
    } else if reference_at(s, i) {
        proof {
            lemma_digit_run_bound(s, i + 1);
        }
        digits_value(reference_digits(s, i)) <= u64::MAX && references_fit_from(
            s,
            i + 1 + digit_run(s, i + 1),
        )
    } else {
        references_fit_from(s, i + 1)
    }
}

/// There is a reference from index `i` on.
pub open spec fn has_reference_from(s: Seq<char>, i: int) -> bool
    decreases s.len() - i,
{
    if i < 0 || i >= s.len() {
        false
    } else if reference_at(s, i) {
        true
    } else {
        has_reference_from(s, i + 1)
    }
}

/// Every reference in the text names a post number that fits in a `u64`.
pub open spec fn references_fit(s: Seq<char>) -> bool {
    references_fit_from(s, 0)
}

/// The text holds a reply reference.
pub open spec fn has_reference(s: Seq<char>) -> bool {
    has_reference_from(s, 0)
}

/// The links can be computed without a fault: every post number fits in a
/// `u64`, the page size fits in an `i64`, and it is not zero unless there is
/// nothing to divide.
pub open spec fn linkable(s: Seq<char>, posts_per_page: u64) -> bool {
    &&& references_fit(s)
    &&& posts_per_page <= i64::MAX
    &&& (posts_per_page > 0 || !has_reference(s))
}

pub proof fn lemma_digit_run_bound(s: Seq<char>, i: int)
    requires
        0 <= i,
    ensures
        i + digit_run(s, i) <= if i <= s.len() { s.len() as int } else { i },
        forall|m: int| i <= m < i + digit_run(s, i) ==> is_digit(#[trigger] s[m]),
    decreases s.len() - i,
{
    if 0 <= i < s.len() && is_digit(s[i]) {
        lemma_digit_run_bound(s, i + 1);
    }
}

/// Appends `cs[from..to]` to `out`.
fn push_slice(out: &mut String, cs: &Vec<char>, from: usize, to: usize)
    requires
        from <= to <= cs@.len(),
    ensures
        final(out)@ == old(out)@ + cs@.subrange(from as int, to as int),
{
    let mut k = from;
    while k < to
        invariant
            from <= k <= to,
            to <= cs@.len(),
            out@ == old(out)@ + cs@.subrange(from as int, k as int),
        decreases to - k,
    {
        push_char(out, cs[k]);
        k = k + 1;
        assert(cs@.subrange(from as int, k as int) =~= cs@.subrange(from as int, k - 1).push(
            cs@[k - 1],
        ));
    }
}

/// Whether every reference names a post number that fits in a `u64`, and
/// whether there is any reference at all.
pub fn reference_status(html: &str) -> (r: (bool, bool))
    ensures
        r.0 == references_fit(html@),
        r.1 == has_reference(html@),
{
    let cs = chars_of(html);
    let ghost s = html@;
    let n = cs.len();
    let mut i: usize = 0;
    let mut any = false;
    while i < n
        invariant
            cs@ == s,
            s == html@,
            n == s.len(),
            i <= n,
            references_fit(s) == references_fit_from(s, i as int),
            has_reference(s) == (any || has_reference_from(s, i as int)),
        decreases n - i,
    {
        if cs[i] == '@' && i + 1 < n && '0' <= cs[i + 1] && cs[i + 1] <= '9' {
            any = true;
            proof {
                lemma_digit_run_bound(s, i + 1);
                assert(digit_run(s, i + 1) > 0);
                assert(reference_at(s, i as int));
            }
            let mut j = i + 1;
            let mut acc: u64 = 0;
            let mut overflow = false;
            while j < n && '0' <= cs[j] && cs[j] <= '9'
                invariant
                    cs@ == s,
                    s == html@,
                    n == s.len(),
                    i + 1 <= j <= n,
                    i < n,
                    references_fit(s) == references_fit_from(s, i as int),
                    has_reference(s) == (any || has_reference_from(s, i as int)),
                    reference_at(s, i as int),
                    any,
                    digit_run(s, i + 1) == (j - i - 1) + digit_run(s, j as int),
                    all_digits(s.subrange(i + 1, j as int)),
                    !overflow ==> acc as nat == digits_value(s.subrange(i + 1, j as int)),
                    overflow ==> digits_value(s.subrange(i + 1, j as int)) > u64::MAX,
                decreases n - j,
            {
                let d: u64 = ((cs[j] as u32) - 48) as u64;
                let ghost prev = s.subrange(i + 1, j as int);
                let ghost next = s.subrange(i + 1, j + 1);
                assert(next.drop_last() =~= prev);
                assert(next.last() == cs[j as int]);
                assert(all_digits(next)) by {
                    assert forall|m: int| 0 <= m < next.len() implies is_digit(#[trigger] next[m]) by {
                        if m < prev.len() {
                            assert(next[m] == prev[m]);
                        }
                    }
                }
                if overflow {
                    assert(digits_value(next) >= digits_value(prev));
                } else if acc > 1844674407370955161u64 || (acc == 1844674407370955161u64 && d > 5) {
                    overflow = true;
                } else {
                    acc = acc * 10 + d;
                }
                j = j + 1;
            }
            assert(digit_run(s, j as int) == 0);
            assert(reference_digits(s, i as int) =~= s.subrange(i + 1, j as int));
            if overflow {
                assert(!references_fit_from(s, i as int));
                assert(has_reference_from(s, i as int));
                return (false, true);
            }
            i = j;
        } else {
            i = i + 1;
        }
    }
    (true, any)
}

/// Replaces every reply reference `@<n>` in `html` by a link to the post:
/// `<a href="<page>#<n>">@<n></a>`, where `<page>` is the page that post
/// number `n` is on, `posts_per_page` posts a page.
pub fn link_replies(html: &str, posts_per_page: u64) -> (out: String)
    requires
        linkable(html@, posts_per_page),
    ensures
        out@ == linked(html@, posts_per_page as nat),
{
    let cs = chars_of(html);
    let ghost s = html@;
    let ghost ppp = posts_per_page as nat;
    let n = cs.len();
    let mut out = String::new();
    let mut i: usize = 0;
    while i < n
        invariant
            cs@ == s,
            s == html@,
            ppp == posts_per_page as nat,
            n == s.len(),
            i <= n,
            linked(s, ppp) == out@ + linked_from(s, i as int, ppp),
            references_fit_from(s, i as int),
            posts_per_page <= i64::MAX,
            posts_per_page > 0 || !has_reference_from(s, i as int),
        decreases n - i,
    {
        if cs[i] == '@' && i + 1 < n && '0' <= cs[i + 1] && cs[i + 1] <= '9' {
            proof {
                lemma_digit_run_bound(s, i + 1);
                assert(digit_run(s, i + 1) > 0);
                assert(reference_at(s, i as int));
            }
            let ghost full = reference_digits(s, i as int);
            let ghost k = digit_run(s, i + 1);
            assert(all_digits(full)) by {
                assert forall|m: int| 0 <= m < full.len() implies is_digit(#[trigger] full[m]) by {
                    assert(full[m] == s[i + 1 + m]);
                }
            }
            let mut j = i + 1;
            let mut acc: u64 = 0;
            while j < n && '0' <= cs[j] && cs[j] <= '9'
                invariant
                    cs@ == s,
                    n == s.len(),
                    i + 1 <= j <= n,
                    i < n,
                    k == digit_run(s, i + 1),
                    i + 1 + k <= n,
                    full == s.subrange(i + 1, i + 1 + k),
                    all_digits(full),
                    digits_value(full) <= u64::MAX,
                    k == (j - i - 1) + digit_run(s, j as int),
                    acc as nat == digits_value(s.subrange(i + 1, j as int)),
                decreases n - j,
            {
                let d: u64 = ((cs[j] as u32) - 48) as u64;
                let ghost prev = s.subrange(i + 1, j as int);
                let ghost next = s.subrange(i + 1, j + 1);
                assert(next.drop_last() =~= prev);
                assert(next.last() == cs[j as int]);
                assert(digit_run(s, j as int) > 0);
                assert(full.take(j + 1 - (i + 1)) =~= next);
                proof {
                    lemma_prefix_value_le(full, j + 1 - (i + 1));
                }
                acc = acc * 10 + d;
                j = j + 1;
            }
            assert(digit_run(s, j as int) == 0);
            assert(full =~= s.subrange(i + 1, j as int));
            assert(posts_per_page > 0);
            let page: u64 = if acc <= 9223372036854775807u64 {
                acc / posts_per_page
            } else {
                0
            };
            assert(page as nat == reply_page(digits_value(full), ppp));
            let ghost before = out@;
            push_str(&mut out, "<a href=\"");
            push_decimal(&mut out, page);
            push_str(&mut out, "#");
            push_slice(&mut out, &cs, i + 1, j);
            push_str(&mut out, "\">@");
            push_slice(&mut out, &cs, i + 1, j);
            push_str(&mut out, "</a>");
            assert(out@ =~= before + reply_anchor(full, ppp));
            i = j;
        } else {
            assert(!reference_at(s, i as int));
            push_char(&mut out, cs[i]);
            i = i + 1;
        }
    }
    out
}

/// A text without reply references comes out of the linking unchanged.
pub proof fn lemma_no_reference_unchanged(s: Seq<char>, posts_per_page: nat)
    requires
        !has_reference(s),
    ensures
        linked(s, posts_per_page) == s,
{
    lemma_no_reference_unchanged_from(s, 0, posts_per_page);
    assert(s.subrange(0, s.len() as int) =~= s);
}

proof fn lemma_no_reference_unchanged_from(s: Seq<char>, i: int, posts_per_page: nat)
    requires
        0 <= i <= s.len(),
        !has_reference_from(s, i),
    ensures
        linked_from(s, i, posts_per_page) == s.subrange(i, s.len() as int),
    decreases s.len() - i,
{
    if i < s.len() {
        lemma_no_reference_unchanged_from(s, i + 1, posts_per_page);
        assert(s.subrange(i, s.len() as int) =~= seq![s[i]] + s.subrange(i + 1, s.len() as int));
    } else {
        assert(s.subrange(i, s.len() as int) =~= Seq::<char>::empty());
    }
}

/// For a post number within `i64` and a positive page size, the linked page
/// is the one that shows the post: page `k` shows posts `k * p` up to
/// `k * p + p - 1`.
pub proof fn lemma_reply_page_shows_post(n: nat, posts_per_page: nat)
    requires
        n <= i64::MAX,
        posts_per_page > 0,
    ensures
        reply_page(n, posts_per_page) * posts_per_page <= n < reply_page(n, posts_per_page)
            * posts_per_page + posts_per_page,
{
    let k = reply_page(n, posts_per_page);
    assert(k == n / posts_per_page);
    assert(k * posts_per_page <= n < k * posts_per_page + posts_per_page) by (nonlinear_arith)
        requires
            posts_per_page > 0,
            k == n / posts_per_page,
    ;
}

proof fn lemma_digit_run_of_digits(s: Seq<char>, i: int)
    requires
        0 <= i <= s.len(),
        forall|m: int| i <= m < s.len() ==> is_digit(#[trigger] s[m]),
    ensures
        digit_run(s, i) == s.len() - i,
    decreases s.len() - i,
{
    if i < s.len() {
        lemma_digit_run_of_digits(s, i + 1);
    }
}

/// A reference `@<n>` to a post number within `i64` becomes
/// `<a href="<k>#<n>">@<n></a>`, where page `k` is the page that shows post
/// `n`, `posts_per_page` posts a page.
pub proof fn lemma_reference_links_to_its_page(n: nat, posts_per_page: nat)
    requires
        n <= i64::MAX,
        posts_per_page > 0,
    ensures
        exists|k: nat|
            k * posts_per_page <= n < k * posts_per_page + posts_per_page && #[trigger] linked(
                seq!['@'] + decimal(n),
                posts_per_page,
            ) == "<a href=\""@ + decimal(k) + "#"@ + decimal(n) + "\">@"@ + decimal(n) + "</a>"@,
{
    let d = decimal(n);
    let s = seq!['@'] + d;
    lemma_decimal(n);
    assert forall|m: int| 1 <= m < s.len() implies is_digit(#[trigger] s[m]) by {
        assert(s[m] == d[m - 1]);
    }
    lemma_digit_run_of_digits(s, 1);
    assert(reference_at(s, 0));
    assert(reference_digits(s, 0) =~= d);
    assert(linked_from(s, 1 + digit_run(s, 1) as int, posts_per_page) == Seq::<char>::empty());
    assert(linked(s, posts_per_page) =~= reply_anchor(d, posts_per_page));
    lemma_reply_page_shows_post(n, posts_per_page);
    let k = reply_page(n, posts_per_page);
    assert(k * posts_per_page <= n < k * posts_per_page + posts_per_page);
}

} // verus!
