use epubstream::path::{resolve, resolve_decoded, MalformedRequest, ResolvedLocation};

fn parts(path: &str) -> (String, String) {
    let location = resolve(path).expect("the path names an archive");
    (location.archive_path().to_string(), location.entry_path().to_string())
}

#[test]
fn archive_alone_is_a_root_probe() {
    let location = resolve("/home/u/book.epub").unwrap();
    assert_eq!(location.archive_path(), "/home/u/book.epub");
    assert_eq!(location.entry_path(), "");
    assert!(location.is_root_probe());
}

#[test]
fn entry_behind_unpacked_token() {
    let location = resolve("/home/u/book.epub/_unpacked/OEBPS/chapter1.xhtml").unwrap();
    assert_eq!(location.archive_path(), "/home/u/book.epub");
    assert_eq!(location.entry_path(), "OEBPS/chapter1.xhtml");
    assert!(!location.is_root_probe());
}

#[test]
fn entry_behind_separator() {
    let location = resolve("/home/u/book.epub/OEBPS/images/cover.png").unwrap();
    assert_eq!(location.archive_path(), "/home/u/book.epub");
    assert_eq!(location.entry_path(), "OEBPS/images/cover.png");
}

#[test]
fn path_without_marker_is_malformed() {
    assert_eq!(resolve("/home/u/book.pdf"), Err(MalformedRequest));
    assert_eq!(resolve(""), Err(MalformedRequest));
    assert_eq!(resolve("/home/u/book.epu"), Err(MalformedRequest));
    assert_eq!(resolve("/home/u/book.EPUB"), Err(MalformedRequest));
    assert_eq!(resolve_decoded("epub"), Err(MalformedRequest));
}

#[test]
fn unpacked_token_is_decorative() {
    let decorated = resolve("/srv/library/book.epub/_unpacked/a/b.html").unwrap();
    let plain = resolve("/srv/library/book.epub/a/b.html").unwrap();
    assert_eq!(decorated.entry_path(), "a/b.html");
    assert_eq!(plain.entry_path(), "a/b.html");
    assert_eq!(decorated, plain);
}

#[test]
fn rightmost_marker_splits_the_path() {
    assert_eq!(
        parts("/a.epub/b.epub/c.html"),
        ("/a.epub/b.epub".to_string(), "c.html".to_string())
    );
    assert_eq!(
        parts("/shelf/one.epub/OEBPS/two.epub"),
        ("/shelf/one.epub/OEBPS/two.epub".to_string(), String::new())
    );
    assert_eq!(parts(".epub.epub"), (".epub.epub".to_string(), String::new()));
}

#[test]
fn percent_escapes_are_decoded_before_the_split() {
    assert_eq!(
        parts("/home/u/my%20book.epub/_unpacked/OEBPS/a%20b.html"),
        ("/home/u/my book.epub".to_string(), "OEBPS/a b.html".to_string())
    );
    assert_eq!(
        parts("/home/u/book%2Eepub%2FOEBPS%2Fnav.xhtml"),
        ("/home/u/book.epub".to_string(), "OEBPS/nav.xhtml".to_string())
    );
    assert_eq!(
        parts("/b%C3%BCcher/buch.epub/kapitel/%C3%A9t%C3%A9.html"),
        ("/b\u{fc}cher/buch.epub".to_string(), "kapitel/\u{e9}t\u{e9}.html".to_string())
    );
}

#[test]
fn plus_and_broken_escapes_stay_as_they_are() {
    assert_eq!(
        parts("/a+b.epub/c%zz.html"),
        ("/a+b.epub".to_string(), "c%zz.html".to_string())
    );
    assert_eq!(parts("/a.epub/100%"), ("/a.epub".to_string(), "100%".to_string()));
}

#[test]
fn undecodable_path_is_resolved_raw() {
    assert_eq!(
        parts("/home/%FF.epub/_unpacked/x%20y.html"),
        ("/home/%FF.epub".to_string(), "x%20y.html".to_string())
    );
    assert_eq!(resolve("/home/%FF/book.pdf"), Err(MalformedRequest));
}

#[test]
fn resolve_decoded_leaves_escapes_alone() {
    let location = resolve_decoded("/home/u/my%20book.epub/a%20b.html").unwrap();
    assert_eq!(location.archive_path(), "/home/u/my%20book.epub");
    assert_eq!(location.entry_path(), "a%20b.html");
}

#[test]
fn remainder_loses_one_separator_the_token_and_one_more_separator() {
    assert_eq!(parts("/x.epub/").1, "");
    assert_eq!(parts("/x.epub/_unpacked").1, "");
    assert_eq!(parts("/x.epub/_unpacked/").1, "");
    assert_eq!(parts("/x.epub//a").1, "a");
    assert_eq!(parts("/x.epub///a").1, "/a");
    assert_eq!(parts("/x.epub/_unpacked//a").1, "/a");
    assert_eq!(parts("/x.epub_unpacked/a").1, "a");
    assert_eq!(parts("/x.epub/_unpackeda").1, "a");
    assert_eq!(parts("/x.epub/_unpacked/_unpacked/a").1, "_unpacked/a");
    assert_eq!(parts("/x.epuba/b").1, "a/b");
    assert_eq!(parts("/x.epub/_unpacke/a").1, "_unpacke/a");
}

#[test]
fn characters_outside_ascii_are_counted_as_characters() {
    let shelf = "/\u{43a}\u{43d}\u{438}\u{433}\u{438}/\u{442}\u{43e}\u{43c}.epub";
    let chapter = "\u{433}\u{43b}\u{430}\u{432}\u{430}.xhtml";
    assert_eq!(
        parts(&format!("{}/_unpacked/{}", shelf, chapter)),
        (
            "/\u{43a}\u{43d}\u{438}\u{433}\u{438}/\u{442}\u{43e}\u{43c}.epub".to_string(),
            "\u{433}\u{43b}\u{430}\u{432}\u{430}.xhtml".to_string()
        )
    );
    assert_eq!(parts("/\u{1f4da}.epub/\u{1f4d6}").1, "\u{1f4d6}");
}

#[test]
fn archive_path_always_ends_with_the_marker() {
    for path in [
        "/a.epub",
        "/a.epub/b",
        "/a.epub/b.epub/c",
        "x.epub.epub/_unpacked/y",
        "/a%2Eepub/z",
    ] {
        let location = resolve(path).unwrap();
        assert!(location.archive_path().ends_with(".epub"));
    }
}

#[test]
fn location_is_made_only_of_an_archive_path_with_marker() {
    let made = ResolvedLocation::new("/data/x.epub".to_string(), "OEBPS/nav.xhtml".to_string());
    let location = made.expect("the archive path ends with the marker");
    assert_eq!(location.archive_path(), "/data/x.epub");
    assert_eq!(location.entry_path(), "OEBPS/nav.xhtml");
    assert!(!location.is_root_probe());
    assert_eq!(Some(location.clone()), resolve("/data/x.epub/OEBPS/nav.xhtml").ok());

    assert_eq!(ResolvedLocation::new("/data/x.zip".to_string(), String::new()), None);
    assert_eq!(ResolvedLocation::new("/data/x.epub/".to_string(), String::new()), None);
    assert_eq!(ResolvedLocation::new("pub".to_string(), String::new()), None);
    assert!(ResolvedLocation::new(".epub".to_string(), String::new()).unwrap().is_root_probe());
}
