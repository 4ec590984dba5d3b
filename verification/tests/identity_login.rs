use chopd::identity::{
    extract_from_request_cookie, format_identity, identity_in, identity_of_request,
    mint_identity, resolve, resolve_or_mint,
};
use chopd::proxy::ProxyServer;

fn is_minted(identity: &str) -> bool {
    identity.len() == 42
        && identity.starts_with("0x")
        && identity[2..].bytes().all(|b| b.is_ascii_digit() || (b'a'..=b'f').contains(&b))
}

fn cookie(value: &str) -> Vec<(String, Vec<u8>)> {
    vec![("cookie".to_string(), value.as_bytes().to_vec())]
}

#[test]
fn identity_is_read_from_the_first_dev_address_cookie() {
    assert_eq!(extract_from_request_cookie("dev-address=0xabc"), Some("0xabc".to_string()));
    assert_eq!(
        extract_from_request_cookie("theme=dark; dev-address=alice; dev-address=bob"),
        Some("alice".to_string())
    );
    assert_eq!(
        extract_from_request_cookie("  a=1 ;; dev-address =  0x12  ; b=2"),
        Some("0x12".to_string())
    );
    assert_eq!(extract_from_request_cookie("dev-address="), Some(String::new()));
    assert_eq!(extract_from_request_cookie("dev-address=\"q\""), Some("\"q\"".to_string()));
}

#[test]
fn identity_is_absent_without_a_dev_address_cookie() {
    assert_eq!(extract_from_request_cookie(""), None);
    assert_eq!(extract_from_request_cookie("theme=dark"), None);
    assert_eq!(extract_from_request_cookie("dev-address"), None);
    assert_eq!(extract_from_request_cookie("Dev-Address=x"), None);
    assert_eq!(extract_from_request_cookie("x-dev-address=x"), None);
}

#[test]
fn pieces_that_do_not_parse_are_passed_over() {
    let pairs = vec![
        None,
        Some(("a".to_string(), "1".to_string())),
        Some(("dev-address".to_string(), "me".to_string())),
        Some(("dev-address".to_string(), "you".to_string())),
    ];
    assert_eq!(identity_in(&pairs), Some("me".to_string()));
    assert_eq!(identity_in(&vec![None, None]), None);
    assert_eq!(identity_in(&Vec::new()), None);
    assert_eq!(extract_from_request_cookie("novalue; =x; dev-address=me"), Some("me".to_string()));
}

#[test]
fn request_identity_comes_from_the_first_cookie_field() {
    assert_eq!(identity_of_request(&cookie("dev-address=0xabc")), Some("0xabc".to_string()));
    let two = vec![
        ("Cookie".to_string(), b"a=1".to_vec()),
        ("cookie".to_string(), b"dev-address=late".to_vec()),
    ];
    assert_eq!(identity_of_request(&two), None);
    assert_eq!(identity_of_request(&cookie("dev-address=caf\u{e9}")), None);
    assert_eq!(identity_of_request(&Vec::new()), None);
}

#[test]
fn identities_are_spelled_in_lower_case_hex() {
    let mut bytes = [0u8; 20];
    assert_eq!(format_identity(&bytes), "0x0000000000000000000000000000000000000000");
    for (i, b) in bytes.iter_mut().enumerate() {
        *b = (i as u8) * 13 + 7;
    }
    assert_eq!(format_identity(&bytes), "0x0714212e3b4855626f7c8996a3b0bdcad7e4f1fe");
    assert_eq!(format_identity(&[0xff; 20]), format!("0x{}", "ff".repeat(20)));
}

#[test]
fn minted_identities_have_the_fixed_width_and_differ() {
    let a = mint_identity();
    let b = mint_identity();
    assert!(is_minted(&a), "{}", a);
    assert!(is_minted(&b), "{}", b);
    assert_ne!(a, b);
}

#[test]
fn explicit_identity_is_used_verbatim_and_overrides_the_cookie() {
    let out = resolve(Some("Alice B".to_string()), Some("0xabc".to_string()));
    assert_eq!(out.identity, "Alice B");
    assert!(out.set_cookie);
    let out = resolve_or_mint(Some("dev-address=0xabc"), Some("carol".to_string()));
    assert_eq!(out.identity, "carol");
    assert!(out.set_cookie);
    let out = resolve_or_mint(None, Some(String::new()));
    assert_eq!(out.identity, "");
    assert!(out.set_cookie);
}

#[test]
fn presented_identity_is_kept_without_a_new_cookie() {
    let out = resolve(None, Some("0xabc".to_string()));
    assert_eq!(out.identity, "0xabc");
    assert!(!out.set_cookie);
    let out = resolve_or_mint(Some("a=1; dev-address=0xabc"), None);
    assert_eq!(out.identity, "0xabc");
    assert!(!out.set_cookie);
}

#[test]
fn identity_is_minted_when_nothing_is_given() {
    let out = resolve(None, None);
    assert!(is_minted(&out.identity));
    assert!(out.set_cookie);
    let out = resolve_or_mint(Some("theme=dark"), None);
    assert!(is_minted(&out.identity));
    assert!(out.set_cookie);
    let out = resolve_or_mint(None, None);
    assert!(is_minted(&out.identity));
}

#[test]
fn login_twice_with_the_same_cookie_jar_gives_the_same_identity() {
    let first = ProxyServer::handle_login(&Vec::new(), None);
    assert_eq!(first.status, 200);
    assert_eq!(first.body, "");
    assert!(is_minted(&first.identity));
    let jar = first.set_cookie.expect("a first login sets the cookie");
    assert_eq!(jar, format!("dev-address={}", first.identity));

    let second = ProxyServer::handle_login(&cookie(&jar), None);
    assert_eq!(second.status, 200);
    assert_eq!(second.identity, first.identity);
    assert_eq!(second.set_cookie, None);

    let third = ProxyServer::handle_login(&cookie(&jar), None);
    assert_eq!(third.identity, first.identity);
}

#[test]
fn login_with_explicit_identity_overrides_the_jar() {
    let out = ProxyServer::handle_login(&cookie("dev-address=0xabc"), Some("alice".to_string()));
    assert_eq!(out.status, 200);
    assert_eq!(out.body, "");
    assert_eq!(out.identity, "alice");
    assert_eq!(out.set_cookie, Some("dev-address=alice".to_string()));
}

#[test]
fn login_drops_a_cookie_the_http_layer_refuses() {
    let out = ProxyServer::handle_login(&Vec::new(), Some("a\nb".to_string()));
    assert_eq!(out.status, 200);
    assert_eq!(out.identity, "a\nb");
    assert_eq!(out.set_cookie, None);
    let out = ProxyServer::handle_login(&Vec::new(), Some("caf\u{e9}".to_string()));
    assert_eq!(out.set_cookie, Some("dev-address=caf\u{e9}".to_string()));
}

fn by_hand(header: &str) -> Option<String> {
    for piece in header.split(';') {
        let piece = piece.trim();
        if piece.is_empty() {
            continue;
        }
        if let Some(at) = piece.find('=') {
            let (name, value) = (piece[..at].trim(), piece[at + 1..].trim());
            if name == "dev-address" {
                return Some(value.to_string());
            }
        }
    }
    None
}

#[test]
fn cookie_headers_are_read_as_the_grammar_says() {
    let alphabet =
        ["dev-address", "=", ";", " ", "\t", "a", "x=1", "\"", "0xabc", "dev", "-address"];
    let mut seed: u64 = 0x9e3779b97f4a7c15;
    for _ in 0..4000 {
        let mut header = String::new();
        seed = seed.wrapping_mul(6364136223846793005).wrapping_add(1442695040888963407);
        let pieces = 1 + (seed >> 60) as usize;
        for _ in 0..pieces {
            seed = seed.wrapping_mul(6364136223846793005).wrapping_add(1442695040888963407);
            header.push_str(alphabet[(seed >> 33) as usize % alphabet.len()]);
        }
        let read = extract_from_request_cookie(&header);
        assert_eq!(read, by_hand(&header), "header {:?}", header);
        if let Some(identity) = read {
            assert!(header.contains(&identity), "header {:?}", header);
        }
    }
}
