use dontpanic::event::EventFileLocation;
use dontpanic::fingerprint::{
    compose_title, environment_hash, location_text, normalize_title, uid_from_signature,
};
use dontpanic::text::{push_decimal, to_upper_hex};

fn loc(file: &str, line: u32) -> Option<EventFileLocation> {
    Some(EventFileLocation { file: file.to_string(), line, column: None })
}

#[test]
fn decimal_rendering() {
    let mut s = String::from("n=");
    push_decimal(&mut s, 0);
    assert_eq!(s, "n=0");
    let mut s = String::new();
    push_decimal(&mut s, 18446744073709551615);
    assert_eq!(s, "18446744073709551615");
    let mut s = String::new();
    push_decimal(&mut s, 1070);
    assert_eq!(s, "1070");
}

#[test]
fn upper_hex_rendering() {
    assert_eq!(to_upper_hex(&[]), "");
    assert_eq!(to_upper_hex(&[0x00, 0x0f, 0xab, 0xff]), "000FABFF");
}

#[test]
fn location_tag_with_and_without_location() {
    assert_eq!(location_text(&loc("main.rs", 10)), "main.rs:10");
    assert_eq!(location_text(&None), "Unknown");
}

#[test]
fn title_joins_location() {
    assert_eq!(compose_title("Test Error", &loc("main.rs", 10)), "Test Error in main.rs:10");
    assert_eq!(compose_title("boom", &None), "boom in Unknown");
}

#[test]
fn long_title_is_cut_by_characters() {
    // the tag "f:1" has 3 characters, so 484 characters of the title stay
    let title: String = std::iter::repeat('é').take(600).collect();
    let r = compose_title(&title, &loc("f", 1));
    let kept: String = std::iter::repeat('é').take(484).collect();
    assert_eq!(r, format!("{}... in f:1", kept));
    assert_eq!(r.chars().count(), 494);
}

#[test]
fn title_at_budget_is_kept() {
    let title: String = std::iter::repeat('a').take(484).collect();
    assert_eq!(compose_title(&title, &loc("f", 1)), format!("{} in f:1", title));
    let title: String = std::iter::repeat('a').take(485).collect();
    let kept: String = std::iter::repeat('a').take(484).collect();
    assert_eq!(compose_title(&title, &loc("f", 1)), format!("{}... in f:1", kept));
}

#[test]
fn location_longer_than_budget_keeps_no_title() {
    let file: String = std::iter::repeat('x').take(500).collect();
    let r = compose_title("abc", &loc(&file, 7));
    assert_eq!(r, format!("... in {}:7", file));
}

#[test]
fn normalization_substitutes_in_order() {
    assert_eq!(
        normalize_title("called unwrap on an empty value in main:10"),
        "called unwrap on an empty value in main:<num>"
    );
    assert_eq!(normalize_title("Test Error in main.rs:10"), "test error in main.rs:<num>");
    assert_eq!(normalize_title("  Multiple   spaces\there  "), "multiple spaces here");
    assert_eq!(normalize_title("worker_3 crashed in x:2"), "<id> crashed in x:<num>");
    assert_eq!(
        normalize_title("no session 123e4567-e89b-12d3-a456-426614174000 in a.rs:1"),
        "no session <hex>-<id>-12d3-<id>-<hex> in a.rs:<num>"
    );
}

#[test]
fn unicode_white_space_is_trimmed() {
    assert_eq!(normalize_title("\u{3000}\u{a0}Boom\u{2028}"), "boom");
}

#[test]
fn normalization_is_deterministic() {
    let t = "Failed to open \"config.toml\" for user 42 at 10.0.0.1";
    assert_eq!(normalize_title(t), normalize_title(t));
}

fn same_signature(a: &str, b: &str) {
    let na = normalize_title(a);
    let nb = normalize_title(b);
    assert_eq!(na, nb);
    let h = environment_hash(Some("production"));
    assert_eq!(uid_from_signature(3, h, &na), uid_from_signature(3, h, &nb));
}

#[test]
fn numbers_collapse() {
    same_signature("Failed to load user 42 in src/db.rs:17", "Failed to load user 1337 in src/db.rs:17");
    assert_eq!(
        normalize_title("Failed to load user 42 in src/db.rs:17"),
        "failed to load user <num> in src/db.rs:<num>"
    );
}

#[test]
fn hex_blobs_collapse() {
    same_signature("bad hash deadbeef01 in a.rs:1", "bad hash cafebabe99 in a.rs:1");
    assert_eq!(normalize_title("bad hash deadbeef01 in a.rs:1"), "bad hash <hex> in a.rs:<num>");
}

#[test]
fn uuids_of_one_shape_collapse() {
    same_signature(
        "no session 123e4567-e89b-12d3-a456-426614174000 in a.rs:1",
        "no session 9a3e4f67-c81b-12d3-b456-020614174fff in a.rs:1",
    );
}

#[test]
fn emails_collapse() {
    same_signature("mail to John.Doe@Example.com failed in a.rs:1", "mail to a@b.io failed in a.rs:1");
    assert_eq!(
        normalize_title("mail to a@b.io failed in a.rs:1"),
        "mail to <email> failed in a.rs:<num>"
    );
}

#[test]
fn addresses_collapse() {
    same_signature("connect 10.0.0.1 refused in a.rs:1", "connect 192.168.1.254 refused in a.rs:1");
}

#[test]
fn quoted_strings_collapse() {
    same_signature("key \"alpha\" missing in a.rs:1", "key 'beta' missing in a.rs:1");
    assert_eq!(normalize_title("key \"alpha\" missing in a.rs:1"), "key <str> missing in a.rs:<num>");
}

#[test]
fn uid_is_upper_hex_sha256() {
    // SHA-256 of "p7-99-hello world"
    assert_eq!(
        uid_from_signature(7, 99, "hello world"),
        "90B59EE0D84D6CF941AC1F6F1FEA075092E623977D7C8E791030E1F831050BC5"
    );
}

#[test]
fn environments_separate_keys() {
    let a = environment_hash(Some("production"));
    let b = environment_hash(Some("staging"));
    assert_ne!(a, b);
    assert_eq!(environment_hash(None), environment_hash(Some("")));
    assert_ne!(uid_from_signature(1, a, "x"), uid_from_signature(1, b, "x"));
    assert_ne!(uid_from_signature(1, a, "x"), uid_from_signature(2, a, "x"));
}
