use hub_be::s3::S3Client;
use hub_be::s3::make_object_key;
use hub_be::slug::make_slug;
use hub_be::tiptap::TiptapNode;
use hub_be::tiptap::create_excerpt;
use hub_be::tiptap::extract_full_text;

fn base_and_suffix(slug: &str) -> (String, String) {
    let cut = slug.len() - 7;
    let (base, tail) = slug.split_at(cut);
    (base.to_owned(), tail.to_owned())
}

#[test]
fn slug_lowercases_and_collapses() {
    let slug = make_slug("Alindra Putra Programmer Terbaik Seluruh Depok");
    let (base, tail) = base_and_suffix(&slug);
    assert_eq!(base, "alindra-putra-programmer-terbaik-seluruh-depok");
    assert!(tail.starts_with('-'));
    let suffix = &tail[1..];
    assert_eq!(suffix.len(), 6);
    assert!(suffix.chars().all(|c| c.is_ascii_lowercase() || c.is_ascii_digit()));
}

#[test]
fn slug_drops_punctuation_runs() {
    let slug = make_slug("Hello,   World!!");
    let (base, _) = base_and_suffix(&slug);
    assert_eq!(base, "hello-world");
}

#[test]
fn slug_of_empty_title_is_suffix_only() {
    let slug = make_slug("");
    assert_eq!(slug.len(), 7);
    assert!(slug.starts_with('-'));
}

#[test]
fn object_key_appends_extension_to_uuid() {
    let key = make_object_key("png");
    assert_eq!(key.len(), 40);
    assert!(key.ends_with(".png"));
    let name = &key[..36];
    let hyphens: Vec<usize> =
        name.char_indices().filter(|(_, c)| *c == '-').map(|(i, _)| i).collect();
    assert_eq!(hyphens, vec![8, 13, 18, 23]);
    let other = make_object_key("png");
    assert_ne!(key, other);
}

#[test]
fn s3_client_keeps_its_values() {
    let c = S3Client::new("http://s3.local", "AKID", "SECRET-REDACTED", "us-east-1", "media");
    assert_eq!(c.host().as_str(), "http://s3.local");
    assert_eq!(c.access_key_id().as_str(), "AKID");
    assert_eq!(c.secret_access_key().as_str(), "SECRET-REDACTED");
    assert_eq!(c.region().as_str(), "us-east-1");
    assert_eq!(c.bucket().as_str(), "media");
}

fn text_node(t: &str) -> TiptapNode {
    TiptapNode { text: Some(t.to_owned()), content: Vec::new() }
}

fn doc() -> TiptapNode {
    TiptapNode {
        text: None,
        content: vec![
            TiptapNode {
                text: None,
                content: vec![text_node("The quick brown"), text_node("fox jumps")],
            },
            text_node("over the lazy dog"),
        ],
    }
}

#[test]
fn full_text_joins_parts_in_document_order() {
    assert_eq!(extract_full_text(&doc()), "The quick brown fox jumps over the lazy dog");
}

#[test]
fn excerpt_within_limit_is_full_text() {
    let d = doc();
    assert_eq!(create_excerpt(&d, 9), "The quick brown fox jumps over the lazy dog");
    assert_eq!(create_excerpt(&d, 100), "The quick brown fox jumps over the lazy dog");
}

#[test]
fn excerpt_over_limit_is_cut_with_ellipsis() {
    let d = doc();
    assert_eq!(create_excerpt(&d, 4), "The quick brown fox...");
    assert_eq!(create_excerpt(&d, 0), "...");
}

#[test]
fn excerpt_of_empty_document_is_empty() {
    let d = TiptapNode { text: None, content: Vec::new() };
    assert_eq!(create_excerpt(&d, 3), "");
    assert_eq!(extract_full_text(&d), "");
}

#[test]
fn excerpt_splits_on_unicode_whitespace() {
    let d = text_node("one\u{00A0}two\u{2003}three four");
    assert_eq!(create_excerpt(&d, 2), "one two...");
}
