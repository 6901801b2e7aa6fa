use fe2o3_steel::cache::{
    cache_control, entity_tag, generated, is_current, is_document, is_fingerprinted,
    not_modified, Response, CACHE_CONTROL, NOT_MODIFIED, VARY,
};

const YEAR: u32 = 31_536_000;

#[test]
fn if_none_match_recognises_the_current_tag() {
    assert!(is_current(Some("\"abc-10\""), "\"abc-10\""));
    assert!(!is_current(Some("\"abc-10\""), "\"abc-11\""));
}

#[test]
fn if_none_match_accepts_a_list_a_wildcard_and_a_weak_tag() {
    assert!(is_current(Some("\"other\", \"abc-10\""), "\"abc-10\""));
    assert!(is_current(Some("*"), "\"abc-10\""));
    assert!(is_current(Some("W/\"abc-10\""), "\"abc-10\""));
}

#[test]
fn a_request_without_the_header_is_never_current() {
    assert!(!is_current(None, "\"abc-10\""));
}

#[test]
fn a_document_always_revalidates_however_long_the_max_age() {
    assert_eq!(cache_control("text/html; charset=utf-8", "index.html", YEAR, YEAR), "no-cache");
    assert_eq!(cache_control("text/html", "index.html", 0, YEAR), "no-cache");
    assert_eq!(cache_control("text/html", "page.4f3a9c21.html", 0, YEAR), "no-cache");
}

#[test]
fn a_hashed_name_is_held_and_never_revalidated() {
    assert_eq!(
        cache_control("application/wasm", "module_1f2e3d4c_bg.wasm", 0, YEAR),
        format!("public, max-age={}, immutable", YEAR)
    );
    assert_eq!(cache_control("application/wasm", "module_1f2e3d4c_bg.wasm", 0, 0), "no-cache");
}

#[test]
fn only_a_name_that_really_carries_a_hash_is_read_as_one() {
    for name in [
        "app.4f3a9c21.js",
        "main-8ab19c7e.css",
        "module_1f2e3d4c_bg.wasm",
        "sha-2c26b46b68ffc68ff99b453c1d30413413422d706483bfa0f98a5e886266e7ae.bin",
    ] {
        assert!(is_fingerprinted(name), "{} carries a hash", name);
    }
    for name in [
        "index.html",
        "explayna_bg.wasm",
        "app.js",
        "style.css",
        "deadbeef.js",
        "facecafe.css",
        "20260728.json",
        "post-20260728.html",
        "app.4f3a9c.js",
        "prefix4f3a9c21suffix.js",
    ] {
        assert!(!is_fingerprinted(name), "{} does not carry a hash", name);
    }
}

#[test]
fn a_generated_response_is_never_served_unasked() {
    let resp = generated(Response::new(200));
    let held = resp.field(CACHE_CONTROL).expect("A generated response carried no cache directive.");
    assert_eq!(held, "no-cache");
}

#[test]
fn stamping_twice_leaves_one_directive() {
    let resp = generated(generated(Response::new(200)));
    let all = resp.field_values(CACHE_CONTROL);
    assert!(!all.is_empty(), "A generated response carried no cache directive.");
    assert_eq!(all.len(), 1, "The directive was repeated rather than replaced.");
}

#[test]
fn an_explicit_directive_survives_the_default() {
    let held = Response::new(200)
        .with_field("Cache-Control".to_string(), "public, max-age=86400".to_string());
    let resp = generated(held);
    let all = resp.field_values(CACHE_CONTROL);
    assert!(!all.is_empty(), "The directive went missing.");
    assert_eq!(all.len(), 1);
    assert_eq!(all[0], "public, max-age=86400");
}

#[test]
fn an_asset_is_held_only_when_the_operator_asks_for_it() {
    assert_eq!(cache_control("application/wasm", "app_bg.wasm", 0, YEAR), "no-cache");
    assert_eq!(cache_control("application/wasm", "app_bg.wasm", 3600, YEAR), "public, max-age=3600");
}

#[test]
fn a_not_modified_repeats_what_the_response_varies_by() {
    let varying = not_modified("\"abc-10-gzip\"".to_string(), "no-cache".to_string(), true);
    let held = varying.field(VARY).expect("The 304 did not say what it varies by.");
    assert_eq!(held.to_ascii_lowercase(), "accept-encoding");

    let fixed = not_modified("\"abc-10\"".to_string(), "no-cache".to_string(), false);
    assert!(fixed.field(VARY).is_none(), "a representation with only one form does not vary");
}

#[test]
fn entity_tag_is_hex_time_and_length_quoted() {
    assert_eq!(entity_tag(0x5f3c2a10, 4096), "\"5f3c2a10-1000\"");
    assert_eq!(entity_tag(0, 0), "\"0-0\"");
}

#[test]
fn a_not_modified_carries_tag_and_directive_and_no_body() {
    let r = not_modified("\"t\"".to_string(), "no-cache".to_string(), false);
    assert_eq!(r.status, NOT_MODIFIED);
    assert_eq!(r.field("etag").as_deref(), Some("\"t\""));
    assert_eq!(r.field_values("cache-control"), vec!["no-cache".to_string()]);
    assert!(r.body.is_empty());
}

#[test]
fn a_directive_is_found_whatever_its_case() {
    let held = Response::new(200).with_field("cache-control".to_string(), "no-store".to_string());
    let resp = generated(held);
    assert_eq!(resp.field_values(CACHE_CONTROL), vec!["no-store".to_string()]);
}

#[test]
fn html_is_a_document_and_an_image_is_not() {
    assert!(is_document("text/html; charset=utf-8"));
    assert!(!is_document("image/png"));
}

#[test]
fn a_weak_tag_must_match_its_twin_exactly() {
    assert!(!is_current(Some("W/\"abc-1\""), "\"abc-10\""));
    assert!(is_current(Some("  \"abc-10\"  ,x"), "\"abc-10\""));
    assert!(!is_current(Some(""), "\"abc-10\""));
}

#[test]
fn hashed_names_need_a_letter_and_a_numeral() {
    assert!(is_fingerprinted("A1B2C3D4"));
    assert!(!is_fingerprinted("12345678"));
    assert!(!is_fingerprinted(""));
    assert!(is_fingerprinted("x.0123456a"));
}
