use fe2o3_steel::public::public_path;

fn segs(v: &[&str]) -> Option<Vec<String>> {
    Some(v.iter().map(|s| s.to_string()).collect())
}

#[test]
fn a_route_names_a_file_under_the_public_directory() {
    assert_eq!(public_path("/css/site.css"), segs(&["css", "site.css"]));
    assert_eq!(public_path("/"), segs(&[]));
    assert_eq!(public_path(""), segs(&[]));
    assert_eq!(public_path("/a/./b//c/"), segs(&["a", "b", "c"]));
    assert_eq!(public_path("/a/b/../c"), segs(&["a", "c"]));
    assert_eq!(public_path("a/.."), segs(&[]));
}

#[test]
fn a_route_that_would_escape_is_refused() {
    assert_eq!(public_path("/../etc/passwd"), None);
    assert_eq!(public_path("/a/../../b"), None);
    assert_eq!(public_path(".."), None);
    assert_eq!(public_path("/a/../../a/b"), None);
    // A `..` that only looks like one is a name.
    assert_eq!(public_path("/..a/b..."), segs(&["..a", "b..."]));
}
