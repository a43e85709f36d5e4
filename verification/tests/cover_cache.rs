use bar_lyrics::cover::{
    cache_path, extension, hash_url, hex, local_path, normalize_url, percent_decode, CoverAction,
    CoverCache, CoverResult,
};

fn chars(s: &str) -> Vec<char> {
    s.chars().collect()
}

#[test]
fn hash_is_fnv1a_over_the_bytes() {
    assert_eq!(hash_url(""), 0xcbf29ce484222325);
    assert_eq!(hash_url("a"), 0xaf63dc4c8601ec8c);
}

#[test]
fn extension_keeps_known_image_types() {
    let e: String = extension(&chars("https://x/cover.PNG?size=3")).into_iter().collect();
    assert_eq!(e, "PNG");
    let e: String = extension(&chars("https://x/cover.webp#a.gif")).into_iter().collect();
    assert_eq!(e, "webp");
    let e: String = extension(&chars("https://x/cover.gif")).into_iter().collect();
    assert_eq!(e, "jpg");
    let e: String = extension(&chars("https://x/cover")).into_iter().collect();
    assert_eq!(e, "jpg");
}

#[test]
fn cache_path_names_file_by_hash_and_extension() {
    let url = "https://x/a.png";
    let expected = format!("/tmp/covers/{:016x}.png", hash_url(url));
    assert_eq!(cache_path("/tmp/covers", url), expected);
    assert_eq!(cache_path("/tmp/covers/", url), expected);
}

#[test]
fn numbered_netease_hosts_are_canonical() {
    assert_eq!(
        normalize_url("http://p3.music.126.net/abc/1.jpg"),
        "https://p1.music.126.net/abc/1.jpg"
    );
    assert_eq!(
        normalize_url("https://p12.music.126.net/x.jpg?param=1"),
        "https://p1.music.126.net/x.jpg?param=1"
    );
    assert_eq!(normalize_url("https://px.music.126.net/x.jpg"), "https://px.music.126.net/x.jpg");
    assert_eq!(normalize_url("https://example.com/x.jpg"), "https://example.com/x.jpg");
    assert_eq!(normalize_url("https://p1.music.126.net"), "https://p1.music.126.net");
}

#[test]
fn hex_digits_decode() {
    assert_eq!(hex(b'0'), Some(0));
    assert_eq!(hex(b'9'), Some(9));
    assert_eq!(hex(b'a'), Some(10));
    assert_eq!(hex(b'F'), Some(15));
    assert_eq!(hex(b'g'), None);
}

#[test]
fn percent_decoding_decodes_escapes_and_checks_utf8() {
    assert_eq!(percent_decode("a%20b"), Some("a b".to_owned()));
    assert_eq!(percent_decode("%E6%AD%8C"), Some("歌".to_owned()));
    assert_eq!(percent_decode("100%"), Some("100%".to_owned()));
    assert_eq!(percent_decode("%zz1"), None);
    assert_eq!(percent_decode("%ff%fe"), None);
}

#[test]
fn local_paths_from_file_urls() {
    assert_eq!(local_path("file:///tmp/a%20b.png"), Some("/tmp/a b.png".to_owned()));
    assert_eq!(local_path("file://localhost/tmp/c.png"), Some("/tmp/c.png".to_owned()));
    assert_eq!(local_path("/tmp/d.png"), Some("/tmp/d.png".to_owned()));
    assert_eq!(local_path("file://relative.png"), None);
    assert_eq!(local_path("relative.png"), None);
}

#[test]
fn cover_cache_asks_for_a_download_once() {
    let mut cache = CoverCache::new(Some("/tmp/covers".to_owned()));
    let url = "https://x/a.png";
    match cache.set_url(url, Vec::new()) {
        CoverAction::FetchUnlessCached { url: u, destination } => {
            assert_eq!(u, url);
            assert_eq!(destination, cache_path("/tmp/covers", url));
        }
        _ => panic!("expected a download"),
    }
    assert!(matches!(cache.set_url(url, Vec::new()), CoverAction::Nothing));
    let done = vec![CoverResult { url: url.to_owned(), path: "/tmp/covers/x.png".to_owned() }];
    assert_eq!(cache.path(done), "/tmp/covers/x.png");
    let stale = vec![CoverResult { url: "https://old".to_owned(), path: "/old.png".to_owned() }];
    assert_eq!(cache.path(stale), "/tmp/covers/x.png");
}

#[test]
fn cover_cache_without_directory_does_nothing() {
    let mut cache = CoverCache::new(None);
    assert!(matches!(cache.set_url("https://x/a.png", Vec::new()), CoverAction::Nothing));
    assert_eq!(cache.path(Vec::new()), "");
}

#[test]
fn cover_cache_uses_local_files_directly() {
    let mut cache = CoverCache::new(Some("/tmp/covers".to_owned()));
    match cache.set_url("file:///music/c%C3%A9.jpg", Vec::new()) {
        CoverAction::UseIfFile { url, path } => {
            assert_eq!(url, "file:///music/c%C3%A9.jpg");
            assert_eq!(path, "/music/cé.jpg");
        }
        _ => panic!("expected a local file"),
    }
}

#[test]
fn normalizing_twice_changes_nothing() {
    for url in [
        "http://p3.music.126.net/abc/1.jpg",
        "https://p1.music.126.net/x",
        "https://example.com/a.png",
        "",
    ] {
        let once = normalize_url(url);
        assert_eq!(normalize_url(&once), once);
    }
}
