use remote_files::url_path::{ParseError, UrlDirPath, UrlPath};

fn render(input: &str) -> String {
    UrlPath::parse(input).unwrap().to_string()
}

fn render_dir(input: &str) -> String {
    UrlDirPath::parse(input).unwrap().to_string()
}

#[test]
fn parse_str_to_url_path() {
    let cases = [
        ("", ""),
        ("hello", "hello"),
        ("hello/there", "hello/there"),
        ("/hello/there", "hello/there"),
        ("hello/there/", "hello/there"),
        ("hello/there?query", "hello/there"),
        ("hello/there/?query", "hello/there"),
    ];
    for (input, expect) in cases {
        assert_eq!(render(input), expect, "input {input:?}");
    }
}

#[test]
fn parse_str_to_url_dir_path() {
    let cases = [
        ("", "/"),
        ("hello", "/hello/"),
        ("hello/there", "/hello/there/"),
        ("/hello/there", "/hello/there/"),
        ("hello/there/", "/hello/there/"),
        ("hello/there?query", "/hello/there/"),
        ("hello/there/?query", "/hello/there/"),
    ];
    for (input, expect) in cases {
        assert_eq!(render_dir(input), expect, "input {input:?}");
    }
}

#[test]
fn query_is_dropped_from_rendering() {
    assert_eq!(render("/hello/there/?q"), "hello/there");
}

#[test]
fn dir_path_of_single_segment() {
    assert_eq!(render_dir("hello"), "/hello/");
    assert_eq!(
        UrlPath::parse("hello").unwrap().to_absolute_dir_path(),
        "/hello/"
    );
}

#[test]
fn absolute_path_of_root_and_of_directory() {
    assert_eq!(UrlPath::parse("/").unwrap().to_absolute_path(), None);
    assert_eq!(
        UrlPath::parse("/hello/").unwrap().to_absolute_path().as_deref(),
        Some("/hello")
    );
    assert_eq!(
        UrlPath::parse("a//b///c").unwrap().to_absolute_path().as_deref(),
        Some("/a/b/c")
    );
}

#[test]
fn repeated_slashes_collapse() {
    assert_eq!(render("//a//b/"), "a/b");
    assert_eq!(render("a/b"), "a/b");
    assert_eq!(render_dir("//a//b/"), "/a/b/");
}

#[test]
fn fragment_is_not_part_of_the_path() {
    assert_eq!(render("/a/b#frag"), "a/b");
    assert_eq!(render("/a?q#frag"), "a");
}

#[test]
fn root_is_empty() {
    assert!(UrlPath::parse("/").unwrap().is_empty());
    assert!(UrlPath::parse("").unwrap().is_empty());
    assert!(!UrlPath::parse("/x").unwrap().is_empty());
    assert!(UrlDirPath::parse("///").unwrap().is_empty());
    assert_eq!(render_dir("/"), "/");
    assert_eq!(render("/"), "");
}

#[test]
fn malformed_uri_is_rejected() {
    assert_eq!(UrlPath::parse("a b").unwrap_err(), ParseError::InvalidUri);
    assert_eq!(UrlPath::parse("/a<b").unwrap_err(), ParseError::InvalidUri);
    assert_eq!(UrlPath::parse("/a?x y").unwrap_err(), ParseError::InvalidUri);
    assert_eq!(UrlDirPath::parse("`").unwrap_err(), ParseError::InvalidUri);
}

#[test]
fn long_texts_parse_like_short_ones() {
    let long = "a".repeat(65535);
    assert_eq!(render(&long), long);
    let with_query = format!("a?{}", "a".repeat(65534));
    assert_eq!(render(&with_query), "a");
    let far_query = format!("{}?q", "b".repeat(70000));
    assert_eq!(render(&far_query).len(), 70000);
    let dir = render_dir(&"a".repeat(65534));
    assert_eq!(dir.len(), 65536);
    assert_eq!(render_dir(&dir), dir);
    assert_eq!(
        UrlPath::parse(&format!("{}?x y", "c".repeat(70000))).unwrap_err(),
        ParseError::InvalidUri
    );
}

#[test]
fn renderings_have_no_stray_slashes() {
    for input in ["/a//b/", "x", "/", "", "//q//?z"] {
        let p = UrlPath::parse(input).unwrap();
        let bare = p.to_string();
        assert!(!bare.starts_with('/') && !bare.ends_with('/'), "input {input:?}");
        assert_eq!(bare.is_empty(), p.is_empty());
        let dir = p.to_absolute_dir_path();
        assert!(dir.starts_with('/') && dir.ends_with('/') && !dir.contains("//"));
        assert_eq!(dir == "/", p.is_empty());
        if let Some(file) = p.to_absolute_path() {
            assert!(file.starts_with('/') && !file.ends_with('/'));
            assert_eq!(format!("{file}/"), dir);
        }
        assert_eq!(p.clone().to_string(), bare);
    }
}

#[test]
fn rendering_parses_back_to_the_same_segments() {
    for input in ["/hello/there/?q", "//a//b/", "", "/", "x/y/z#f", "/é/ü/"] {
        let once = render(input);
        let twice = render(&once);
        assert_eq!(once, twice, "input {input:?}");
        assert_eq!(
            UrlPath::parse(input).unwrap().to_absolute_dir_path(),
            UrlPath::parse(&once).unwrap().to_absolute_dir_path()
        );
    }
}

#[test]
fn dir_path_takes_over_segments() {
    let p = UrlPath::parse("/a/b").unwrap();
    let d = UrlDirPath::from_path(p);
    assert_eq!(d.to_string(), "/a/b/");
    assert!(!d.is_empty());
    assert_eq!(UrlDirPath::default().to_string(), "/");
}

#[test]
fn paths_parse_through_from_str() {
    let p: UrlPath = "/hello/".parse().unwrap();
    assert_eq!(p.to_absolute_path().as_deref(), Some("/hello"));
    let d: UrlDirPath = "hello".parse().unwrap();
    assert_eq!(d.to_string(), "/hello/");
    assert!("a b".parse::<UrlPath>().is_err());
}
