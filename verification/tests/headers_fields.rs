use chopd::fields::Fields;
use chopd::headers::{find_value, forward_fields, log_fields, relay_fields, value_text};

fn field(name: &str, value: &[u8]) -> (String, Vec<u8>) {
    (name.to_string(), value.to_vec())
}

fn get<'a>(fields: &'a Fields, name: &str) -> Option<&'a str> {
    fields.get(&name.to_string()).map(String::as_str)
}

#[test]
fn fields_insert_replaces_under_the_same_name() {
    let mut fields = Fields::new();
    assert_eq!(fields.len(), 0);
    fields.insert("a".to_string(), "1".to_string());
    fields.insert("b".to_string(), "2".to_string());
    fields.insert("a".to_string(), "3".to_string());
    assert_eq!(fields.len(), 2);
    assert_eq!(get(&fields, "a"), Some("3"));
    assert_eq!(get(&fields, "b"), Some("2"));
    assert_eq!(get(&fields, "c"), None);
    assert_eq!(
        fields.pairs(),
        vec![("a".to_string(), "3".to_string()), ("b".to_string(), "2".to_string())]
    );
    let copy = fields.clone();
    assert_eq!(copy.pairs(), fields.pairs());
}

#[test]
fn fields_names_are_case_sensitive() {
    let mut fields = Fields::new();
    fields.insert("Accept".to_string(), "a".to_string());
    fields.insert("accept".to_string(), "b".to_string());
    assert_eq!(fields.len(), 2);
    assert_eq!(get(&fields, "Accept"), Some("a"));
}

#[test]
fn value_text_keeps_visible_ascii_and_tab() {
    assert_eq!(value_text(b"text/plain; q=0.5"), "text/plain; q=0.5");
    assert_eq!(value_text(b"a\tb"), "a\tb");
    assert_eq!(value_text(b""), "");
}

#[test]
fn value_text_is_empty_for_anything_else() {
    assert_eq!(value_text("café".as_bytes()), "");
    assert_eq!(value_text(b"a\x7fb"), "");
    assert_eq!(value_text(b"a\nb"), "");
    assert_eq!(value_text(b"\xff"), "");
}

#[test]
fn forwarded_names_are_lower_case() {
    let headers = vec![field("Content-Type", b"text/plain"), field("X-Thing", b"1")];
    let out = forward_fields(&headers);
    assert_eq!(get(&out, "content-type"), Some("text/plain"));
    assert_eq!(get(&out, "x-thing"), Some("1"));
    assert_eq!(get(&out, "Content-Type"), None);
    assert_eq!(out.len(), 2);
}

#[test]
fn forwarded_fields_drop_refused_names_only() {
    let long = "a".repeat(65536);
    let longest = "B".repeat(65535);
    let headers = vec![
        field("", b"empty"),
        field("bad name", b"space"),
        field("bad:name", b"colon"),
        field("naïve", b"beyond ascii"),
        field(&long, b"too long"),
        field(&longest, b"longest"),
        field("ok!#$%&'*+-.^_`|~09azAZ", b"token"),
        field("binary", b"\xff\xfe"),
    ];
    let out = forward_fields(&headers);
    assert_eq!(out.len(), 3);
    assert_eq!(get(&out, &"b".repeat(65535)), Some("longest"));
    assert_eq!(get(&out, "ok!#$%&'*+-.^_`|~09azaz"), Some("token"));
    assert_eq!(get(&out, "binary"), Some(""));
}

#[test]
fn forwarded_fields_keep_the_later_of_two() {
    let headers = vec![field("Accept", b"a"), field("x", b"1"), field("accept", b"b")];
    let out = forward_fields(&headers);
    assert_eq!(out.len(), 2);
    assert_eq!(get(&out, "accept"), Some("b"));
}

#[test]
fn every_single_byte_name_is_judged_as_the_http_layer_judges_it() {
    for b in 0u8..128 {
        let name = (b as char).to_string();
        let ours = forward_fields(&vec![(name.clone(), b"v".to_vec())]);
        match http::header::HeaderName::from_bytes(name.as_bytes()) {
            Ok(parsed) => {
                assert_eq!(ours.len(), 1, "byte {}", b);
                assert_eq!(get(&ours, parsed.as_str()), Some("v"), "byte {}", b);
                let token = b.is_ascii_alphanumeric() || b"!#$%&'*+-.^_`|~".contains(&b);
                assert!(token, "byte {}", b);
                assert_eq!(parsed.as_str(), name.to_ascii_lowercase());
            }
            Err(_) => {
                assert_eq!(ours.len(), 0, "byte {}", b);
                assert!(!(b.is_ascii_alphanumeric() || b"!#$%&'*+-.^_`|~".contains(&b)));
            }
        }
    }
}

#[test]
fn logged_fields_keep_names_as_given() {
    let headers = vec![
        field("Accept", b"a"),
        field("accept", b"b"),
        field("Accept", b"c"),
        field("bad name", b"kept"),
        field("bin", b"\x80"),
    ];
    let out = log_fields(&headers);
    assert_eq!(out.len(), 4);
    assert_eq!(get(&out, "Accept"), Some("c"));
    assert_eq!(get(&out, "accept"), Some("b"));
    assert_eq!(get(&out, "bad name"), Some("kept"));
    assert_eq!(get(&out, "bin"), Some(""));
}

#[test]
fn relayed_fields_keep_order_duplicates_and_opaque_bytes() {
    let headers = vec![
        field("Set-Cookie", b"a=1"),
        field("set-cookie", b"b=2"),
        field("X-Bin", b"\x80\xff"),
        field("x-ctl", b"a\x01b"),
        field("x-del", b"\x7f"),
        field("x-tab", b"\t"),
        field("bad name", b"v"),
    ];
    let out = relay_fields(&headers);
    assert_eq!(
        out,
        vec![
            field("set-cookie", b"a=1"),
            field("set-cookie", b"b=2"),
            field("x-bin", b"\x80\xff"),
            field("x-tab", b"\t"),
        ]
    );
}

#[test]
fn find_value_takes_the_first_by_normal_form() {
    let headers = vec![
        field("accept", b"a"),
        field("Cookie", b"first"),
        field("cookie", b"second"),
    ];
    assert_eq!(find_value(&headers, &"cookie".to_string()), Some(&b"first".to_vec()));
    assert_eq!(find_value(&headers, &"Cookie".to_string()), None);
    assert_eq!(find_value(&headers, &"host".to_string()), None);
    assert_eq!(find_value(&Vec::new(), &"cookie".to_string()), None);
}

#[test]
fn every_value_byte_is_judged_as_the_http_layer_judges_it() {
    for b in 0u8..=255 {
        let allowed = b == 9 || (b >= 32 && b != 127);
        let relayed = relay_fields(&vec![("x".to_string(), vec![b'a', b, b'z'])]);
        assert_eq!(relayed.len() == 1, allowed, "byte {}", b);
        assert_eq!(http::HeaderValue::from_bytes(&[b'a', b, b'z']).is_ok(), allowed);

        let visible = b == 9 || (32..127).contains(&b);
        let expected = if visible { format!("a{}z", b as char) } else { String::new() };
        assert_eq!(value_text(&[b'a', b, b'z']), expected, "byte {}", b);
        let parsed = http::HeaderValue::from_bytes(&[b'a', b, b'z']);
        let text = parsed.ok().and_then(|v| v.to_str().ok().map(str::to_string));
        assert_eq!(text.unwrap_or_default(), expected, "byte {}", b);
    }
}

#[test]
fn every_value_character_is_judged_as_the_http_layer_judges_it() {
    for code in (0u32..0x300).chain([0x2192, 0xfffd, 0x1f600]) {
        let c = char::from_u32(code).expect("a character");
        let allowed = c == '\t' || (code >= 32 && code != 127);
        let text = format!("a{}z", c);
        let mut fields = Fields::new();
        chopd::forward::set_field(&mut fields, "x", Some(text.clone()));
        assert_eq!(fields.len() == 1, allowed, "character {}", code);
        assert_eq!(http::HeaderValue::from_str(&text).is_ok(), allowed, "character {}", code);
    }
}

#[test]
fn names_of_any_length_are_judged_by_their_characters() {
    let alphabet = b"aZ09-_.~!|: \x7f\x80(";
    let mut seed: u64 = 0x2545f4914f6cdd1d;
    for round in 0..3000 {
        seed = seed.wrapping_mul(6364136223846793005).wrapping_add(1442695040888963407);
        let len = if round % 50 == 0 { 60 + (seed >> 58) as usize } else { (seed >> 60) as usize };
        let mut bytes = Vec::new();
        for _ in 0..len {
            seed = seed.wrapping_mul(6364136223846793005).wrapping_add(1442695040888963407);
            bytes.push(alphabet[(seed >> 33) as usize % alphabet.len()]);
        }
        let name: String = bytes.iter().map(|b| *b as char).collect();
        let token = |c: char| c.is_ascii_alphanumeric() || "!#$%&'*+-.^_`|~".contains(c);
        let valid = !name.is_empty() && name.chars().all(token);
        let out = forward_fields(&vec![(name.clone(), b"v".to_vec())]);
        assert_eq!(out.len() == 1, valid, "name {:?}", name);
        if valid {
            assert_eq!(get(&out, &name.to_ascii_lowercase()), Some("v"), "name {:?}", name);
        }
    }
}
