use topic::routes::{
    login_redirect_path, new_post_redirect_path, new_thread_redirect_path, post_placeholder_text,
    redirect_page0_path, redirect_up_path, thread_location,
};

fn path(segs: &[&str]) -> Vec<String> {
    segs.iter().map(|s| s.to_string()).collect()
}

#[test]
fn first_page_then_up_is_where_we_started() {
    let mut p = path(&["b"]);
    redirect_page0_path(&mut p);
    assert_eq!(p, path(&["b", "0"]));
    redirect_up_path(&mut p);
    assert_eq!(p, path(&["b"]));
}

#[test]
fn up_from_the_root_stays_there() {
    let mut p: Vec<String> = Vec::new();
    redirect_up_path(&mut p);
    assert!(p.is_empty());
}

#[test]
fn new_post_goes_to_its_page() {
    let mut p = path(&["b", "t", "7", "0", "new"]);
    new_post_redirect_path(&mut p, 3);
    assert_eq!(p, path(&["b", "t", "7", "3"]));
}

#[test]
fn new_thread_goes_to_its_first_page() {
    let mut p = path(&["b", "new"]);
    new_thread_redirect_path(&mut p, 42);
    assert_eq!(p, path(&["b", "t", "42", "0"]));
}

#[test]
fn login_goes_to_the_mod_page() {
    let mut p = path(&["login_"]);
    login_redirect_path(&mut p);
    assert_eq!(p, path(&["mod/0"]));
}

#[test]
fn thread_locations() {
    assert_eq!(thread_location("b", "12", 3), "b/t/12/3");
    assert_eq!(thread_location("tech", "007", 0), "tech/t/007/0");
}

#[test]
fn placeholder_answer() {
    assert_eq!(post_placeholder_text("b", "3"), "Hello from POST /b/3/new");
}
