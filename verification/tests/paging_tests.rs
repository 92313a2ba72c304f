use topic::paging::{
    as_i64, board_window, div_trunc, new_post_page, page_links, parse_page, thread_request,
    thread_window, Page, Window,
};

#[test]
fn requested_page_numbers() {
    assert_eq!(parse_page("3"), 3);
    assert_eq!(parse_page("x"), -1);
    assert_eq!(parse_page("-4"), -4);
}

#[test]
fn board_first_page_of_empty_board() {
    assert_eq!(
        board_window(0, 0, 20, true),
        Some(Window { page: 0, npages: 1, offset: 0, limit: 20 })
    );
    assert_eq!(board_window(0, 0, 20, false), None);
}

#[test]
fn board_pages_beyond_the_last_are_not_found() {
    assert_eq!(board_window(1, 20, 20, true), None);
    assert_eq!(
        board_window(1, 21, 20, true),
        Some(Window { page: 1, npages: 2, offset: 20, limit: 20 })
    );
    assert_eq!(board_window(-1, 21, 20, true), None);
}

#[test]
fn board_with_one_thread_a_page_and_no_threads_lists_no_page() {
    assert_eq!(
        board_window(0, 0, 1, true),
        Some(Window { page: 0, npages: 0, offset: 0, limit: 1 })
    );
}

#[test]
fn thread_requests() {
    assert_eq!(thread_request("5", "2"), Some((5, 2)));
    assert_eq!(thread_request("x", "0"), None);
    assert_eq!(thread_request("-1", "0"), None);
    assert_eq!(thread_request("1", "y"), None);
}

#[test]
fn thread_windows() {
    assert_eq!(thread_window(0, 0, 10), None);
    assert_eq!(
        thread_window(0, 1, 10),
        Some(Window { page: 0, npages: 1, offset: 0, limit: 10 })
    );
    assert_eq!(thread_window(1, 10, 10), None);
    assert_eq!(
        thread_window(1, 11, 10),
        Some(Window { page: 1, npages: 2, offset: 10, limit: 10 })
    );
}

#[test]
fn page_list_links_every_page_but_the_current() {
    assert_eq!(
        page_links(3, 1),
        vec![
            Page { num: 0, link: true },
            Page { num: 1, link: false },
            Page { num: 2, link: true }
        ]
    );
    assert!(page_links(0, 0).is_empty());
    assert!(page_links(-2, 0).is_empty());
    assert!(page_links(2, 5).iter().all(|p| p.link));
}

#[test]
fn new_post_lands_on_its_redirect_page() {
    let nposts = 10;
    let page = new_post_page(nposts, 10);
    assert_eq!(page, 1);
    let w = thread_window(page, nposts + 1, 10).unwrap();
    assert!(w.offset <= nposts && nposts < w.offset + w.limit);
    assert_eq!(new_post_page(25, 10), 2);
    assert_eq!(new_post_page(0, 10), 0);
}

#[test]
fn division_truncates_like_rust() {
    for (a, b) in [(-7i64, 2i64), (7, -2), (-7, -2), (7, 2), (0, -3), (i64::MIN, 2), (i64::MIN, i64::MIN), (5, i64::MIN), (i64::MAX, -1)] {
        assert_eq!(div_trunc(a, b), a / b, "{} / {}", a, b);
    }
}

#[test]
fn page_size_wraps_like_as_i64() {
    for n in [0u64, 1, 20, i64::MAX as u64, i64::MAX as u64 + 1, u64::MAX] {
        assert_eq!(as_i64(n), n as i64);
    }
}

#[test]
fn viewed_page_is_listed_unlinked_and_starts_at_a_thread() {
    let w = board_window(2, 45, 20, true).unwrap();
    assert_eq!(w.page, 2);
    assert!(w.page < w.npages);
    assert!(w.offset <= 45 - 1);
    let pages = page_links(w.npages, w.page);
    assert_eq!(pages[w.page as usize], Page { num: 2, link: false });
}

#[test]
fn new_thread_first_page_shows_first_post() {
    let page = parse_page("0");
    let w = thread_window(page, 1, 10).unwrap();
    assert!(w.offset <= 0 && 0 < w.offset + w.limit);
}

#[test]
fn oversized_page_sizes_wrap_negative() {
    assert_eq!(thread_window(0, 5, u64::MAX), None);
    assert_eq!(
        thread_window(0, 1, u64::MAX),
        Some(Window { page: 0, npages: 1, offset: 0, limit: -1 })
    );
}
