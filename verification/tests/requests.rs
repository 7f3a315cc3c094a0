use jellofin::notflix::proxy::{is_hop_header, is_hop_header_lowered};
use jellofin::server::middleware::{etags_match, normalize_path};

#[test]
fn hop_headers() {
    for name in [
        "connection",
        "keep-alive",
        "proxy-authenticate",
        "proxy-authorization",
        "te",
        "trailers",
        "transfer-encoding",
        "upgrade",
    ] {
        assert!(is_hop_header(name));
        assert!(is_hop_header(&name.to_uppercase()));
        assert!(is_hop_header_lowered(name));
    }
    assert!(is_hop_header("Keep-Alive"));
    assert!(!is_hop_header_lowered("Keep-Alive"));
    assert!(!is_hop_header("content-type"));
    assert!(!is_hop_header("connection "));
    assert!(!is_hop_header(""));
    assert!(!is_hop_header("t"));
}

#[test]
fn entity_tags() {
    assert!(etags_match("\"abc\"", "\"abc\""));
    assert!(!etags_match("\"abc\"", "\"abd\""));
    assert!(etags_match("W/\"abc\"", "\"abc\""));
    assert!(etags_match("\"abc\"", "W/\"abc\""));
    assert!(etags_match("W/\"abc\"", "W/\"abc\""));
    assert!(etags_match("\"x\", \"abc\" ,\"y\"", "\"abc\""));
    assert!(etags_match("\"x\",W/\"abc\"", "\"abc\""));
    assert!(!etags_match("\"x\", \"y\"", "\"abc\""));
    assert!(!etags_match("", "\"abc\""));
    assert!(etags_match("", ""));
    assert!(etags_match(" , ", ""));
    assert!(etags_match("a,", ""));
    assert!(!etags_match("a", ""));
    assert!(etags_match("W/", ""));
    assert!(!etags_match("w/\"abc\"", "\"abc\""));
    assert!(!etags_match("\"a,bc\"", "\"a,bc\""));
    assert!(etags_match("  \"abc\"  ", "\"abc\""));
    assert!(!etags_match("\"abc\"", " \"abc\""));
}

fn normalized_by_replacing(path: &str) -> String {
    let mut normalized = path.to_string();
    while normalized.contains("//") {
        normalized = normalized.replace("//", "/");
    }
    if normalized.starts_with("/emby/") {
        normalized = normalized.trim_start_matches("/emby").to_string();
    }
    normalized
}

#[test]
fn paths_are_normalized() {
    assert_eq!(normalize_path("/a//b///c"), "/a/b/c");
    assert_eq!(normalize_path("//"), "/");
    assert_eq!(normalize_path(""), "");
    assert_eq!(normalize_path("/emby/Items"), "/Items");
    assert_eq!(normalize_path("//emby//Items//"), "/Items/");
    assert_eq!(normalize_path("/emby/emby/Items"), "/Items");
    assert_eq!(normalize_path("/emby/embyItems"), "Items");
    assert_eq!(normalize_path("/emby"), "/emby");
    assert_eq!(normalize_path("/embyx/Items"), "/embyx/Items");
    assert_eq!(normalize_path("/Emby/Items"), "/Emby/Items");
    assert_eq!(normalize_path("/emby/"), "/");
    let alphabet: Vec<char> = "/embyx".chars().collect();
    let mut seed: u64 = 7;
    for round in 0..3000usize {
        let mut path = String::new();
        for _ in 0..(round % 14) {
            seed = seed
                .wrapping_mul(6364136223846793005)
                .wrapping_add(1442695040888963407);
            path.push(alphabet[((seed >> 33) % (alphabet.len() as u64)) as usize]);
        }
        assert_eq!(normalize_path(&path), normalized_by_replacing(&path), "{:?}", path);
        let with_prefix = format!("/emby{}", path);
        assert_eq!(
            normalize_path(&with_prefix),
            normalized_by_replacing(&with_prefix),
            "{:?}",
            with_prefix
        );
    }
}
