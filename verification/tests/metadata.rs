use epubstream::greeting::greet;
use epubstream::metadata::{cover_data_uri, data_uri, EpubMetadata};

#[test]
fn cover_becomes_a_data_uri() {
    assert_eq!(cover_data_uri(&[1, 2, 3], "image/png"), "data:image/png;base64,AQID");
    assert_eq!(
        cover_data_uri(b"\x89PNG\r\n\x1a\n", "image/png"),
        "data:image/png;base64,iVBORw0KGgo="
    );
    assert_eq!(cover_data_uri(b"a", "image/jpeg"), "data:image/jpeg;base64,YQ==");
    assert_eq!(cover_data_uri(&[0xff, 0xfe], "image/gif"), "data:image/gif;base64,//4=");
    assert_eq!(cover_data_uri(&[], ""), "data:;base64,");
}

#[test]
fn data_uri_joins_media_type_and_payload() {
    assert_eq!(data_uri("image/png", "AQID"), "data:image/png;base64,AQID");
    assert_eq!(data_uri("", ""), "data:;base64,");
    assert_eq!(data_uri("image/svg+xml", "PHN2Zy8+"), "data:image/svg+xml;base64,PHN2Zy8+");
}

#[test]
fn metadata_keeps_title_and_creator_and_encodes_the_cover() {
    let metadata = EpubMetadata::from_parts(
        Some("Moby Dick".to_string()),
        Some("Herman Melville".to_string()),
        Some((vec![1, 2, 3], "image/png".to_string())),
    );
    assert_eq!(
        metadata,
        EpubMetadata {
            title: Some("Moby Dick".to_string()),
            creator: Some("Herman Melville".to_string()),
            cover_base64: Some("data:image/png;base64,AQID".to_string()),
        }
    );
}

#[test]
fn metadata_of_a_book_that_declares_nothing() {
    let metadata = EpubMetadata::from_parts(None, None, None);
    assert_eq!(metadata, EpubMetadata { title: None, creator: None, cover_base64: None });
    let titled = EpubMetadata::from_parts(Some("T".to_string()), None, None);
    assert_eq!(titled.title, Some("T".to_string()));
    assert_eq!(titled.creator, None);
    assert_eq!(titled.cover_base64, None);
}

#[test]
fn greeting_names_the_guest() {
    assert_eq!(greet("World"), "Hello, World! You've been greeted from Rust!");
    assert_eq!(greet(""), "Hello, ! You've been greeted from Rust!");
}
