use topic::resources::{extension, find_resource, path_prefix, res_type};

#[test]
fn whitelisted_files_are_found() {
    let c = find_resource("main.css").unwrap();
    assert_eq!(c.path, "style/main.css");
    assert_eq!(c.content_type, "text/css");
    let c = find_resource("main.js").unwrap();
    assert_eq!(c.path, "js/main.js");
    assert_eq!(c.content_type, "text/javascript");
}

#[test]
fn the_first_entry_that_ends_with_the_name_decides() {
    let c = find_resource("css").unwrap();
    assert_eq!(c.path, "style/css");
    let c = find_resource("").unwrap();
    assert_eq!(c.path, "style/");
    assert_eq!(c.content_type, "text/css");
}

#[test]
fn other_files_are_not_found() {
    assert!(find_resource("x.png").is_none());
    assert!(find_resource("/etc/passwd").is_none());
    assert!(find_resource("style.css.bak").is_none());
}

#[test]
fn directories_and_types() {
    assert_eq!(path_prefix("css"), "style");
    assert_eq!(path_prefix("png"), "img");
    assert_eq!(path_prefix("jpg"), "img");
    assert_eq!(path_prefix("js"), "js");
    assert_eq!(path_prefix("txt"), "misc");
    assert_eq!(res_type("css"), "text/css");
    assert_eq!(res_type("html"), "text/html");
    assert_eq!(res_type("js"), "text/javascript");
    assert_eq!(res_type("png"), "test/plain");
}

#[test]
fn extensions_as_path_finds_them() {
    for name in ["a.b.c", ".bashrc", "noext", "main.css", "x.", "a..b"] {
        let expected = std::path::Path::new(name)
            .extension()
            .map(|e| e.to_str().unwrap().to_string());
        assert_eq!(extension(name), expected, "{}", name);
    }
}
