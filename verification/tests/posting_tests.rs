use topic::hashing::{hash_text, to_hex_lower};
use topic::posting::{ban_message, ban_reason_text, next_post_number, post_body, render_post};
use topic::replies::{link_replies, reference_status};

#[test]
fn references_become_links() {
    assert_eq!(
        link_replies("see @12 and @x", 10),
        "see <a href=\"1#12\">@12</a> and @x"
    );
    assert_eq!(link_replies("@007", 10), "<a href=\"0#007\">@007</a>");
    assert_eq!(link_replies("@@5!", 2), "@<a href=\"2#5\">@5</a>!");
    assert_eq!(link_replies("a@", 3), "a@");
}

#[test]
fn numbers_past_i64_are_on_page_zero() {
    assert_eq!(
        link_replies("@9223372036854775808", 10),
        "<a href=\"0#9223372036854775808\">@9223372036854775808</a>"
    );
    assert_eq!(
        link_replies("@9223372036854775807", 1),
        "<a href=\"9223372036854775807#9223372036854775807\">@9223372036854775807</a>"
    );
}

#[test]
fn text_without_references_is_unchanged() {
    assert_eq!(link_replies("plain <p>text</p>", 0), "plain <p>text</p>");
    assert_eq!(reference_status("plain"), (true, false));
}

#[test]
fn reference_status_finds_overflow() {
    assert_eq!(reference_status("@18446744073709551615"), (true, true));
    assert_eq!(reference_status("x @18446744073709551616 y"), (false, true));
}

#[test]
fn hashes_are_lower_case_hex_sha256() {
    assert_eq!(
        hash_text("abc"),
        "ba7816bf8f01cfea414140de5dae2223b00361a396177a9cb410ff61f20015ad"
    );
    assert_eq!(hash_text("").len(), 64);
    assert_ne!(hash_text("abc"), "abc");
    assert_eq!(to_hex_lower(&[0x00, 0xff, 0x1a]), "00ff1a");
}

#[test]
fn posts_are_rendered_escaped_and_linked() {
    let html = render_post("hello @3", 2).unwrap();
    assert!(html.contains("<a href=\"1#3\">@3</a>"), "{}", html);
    let html = render_post("<b>x</b>", 10).unwrap();
    assert!(!html.contains("<b>"), "{}", html);
    assert!(html.contains("&lt;b&gt;"), "{}", html);
    let html = render_post("some ~~struck~~ text", 10).unwrap();
    assert!(html.contains("<del>struck</del>"), "{}", html);
}

#[test]
fn posts_that_cannot_be_linked_are_refused() {
    assert!(render_post("@1", 0).is_none());
    assert!(render_post("no refs", 0).is_some());
    assert!(render_post("x", u64::MAX).is_none());
    assert!(render_post("@99999999999999999999999", 10).is_none());
}

#[test]
fn post_bodies() {
    let b = post_body("anon", "pw", "hi", 10).unwrap();
    assert_eq!(b.name, "anon");
    assert_eq!(b.password, hash_text("pw"));
    assert!(b.content.contains("hi"));
}

#[test]
fn post_numbers() {
    assert_eq!(next_post_number(None), 0);
    assert_eq!(next_post_number(Some(4)), 5);
    assert_eq!(next_post_number(Some(-1)), 0);
}

#[test]
fn ban_texts() {
    assert_eq!(ban_reason_text(Some("spam".to_string())), "spam");
    assert_eq!(
        ban_reason_text(None),
        "No ban on record, please contact an admin."
    );
    assert_eq!(ban_message("spam"), "Users with this IP are banned: spam");
}
