use pixelframe::font::Font;
use pixelframe::scanner::{extract, has_duplicate, FontError};
use pixelframe::shape::Rect;

fn chars(s: &str) -> Vec<char> {
    s.chars().collect()
}

#[test]
fn extract_binds_bands_in_alphabet_order() {
    // Border color 0; two bands: indices 1..3 (closed at 3) and 4..5 (closed at 5).
    let pixels: Vec<u8> = vec![0, 1, 1, 0, 1, 0];
    let entries = extract(&pixels, 6, 1, &chars("abc")).unwrap();
    assert_eq!(entries.len(), 2);
    assert_eq!(entries[0], ('a', Rect { x: 1, y: 0, width: 2, height: 1 }));
    assert_eq!(entries[1], ('b', Rect { x: 4, y: 0, width: 1, height: 1 }));
}

#[test]
fn extract_truncates_when_alphabet_exhausted() {
    // Three bands, but a one-character alphabet: the sentinel bands past the
    // exhaustion point must not produce entries.
    let pixels: Vec<u8> = vec![0, 1, 0, 2, 0, 3, 0];
    let entries = extract(&pixels, 7, 1, &chars("a")).unwrap();
    assert_eq!(entries.len(), 1);
    assert_eq!(entries[0], ('a', Rect { x: 1, y: 0, width: 1, height: 1 }));
}

#[test]
fn extract_rejects_duplicate_alphabet() {
    let pixels: Vec<u8> = vec![0, 1, 0];
    assert_eq!(
        extract(&pixels, 3, 1, &chars("aa")),
        Err(FontError::DuplicateAlphabetCharacter)
    );
    // The duplicate is rejected regardless of image content.
    let empty: Vec<u8> = vec![];
    assert_eq!(
        extract(&empty, 0, 0, &chars("aa")),
        Err(FontError::DuplicateAlphabetCharacter)
    );
}

#[test]
fn extract_empty_alphabet_yields_empty_mapping() {
    let pixels: Vec<u8> = vec![0, 1, 0, 2, 0];
    let entries = extract(&pixels, 5, 1, &chars("")).unwrap();
    assert_eq!(entries.len(), 0);
}

#[test]
fn extract_zero_width_image_yields_empty_mapping() {
    let pixels: Vec<u8> = vec![0, 1, 0];
    let entries = extract(&pixels, 0, 3, &chars("abc")).unwrap();
    assert_eq!(entries.len(), 0);
    let entries = extract(&pixels, 3, 0, &chars("abc")).unwrap();
    assert_eq!(entries.len(), 0);
}

#[test]
fn extract_empty_buffer_yields_empty_mapping() {
    let pixels: Vec<u8> = vec![];
    let entries = extract(&pixels, 4, 4, &chars("abc")).unwrap();
    assert_eq!(entries.len(), 0);
}

#[test]
fn extract_drops_trailing_unterminated_band() {
    // The band starting at index 1 never sees a closing border pixel.
    let pixels: Vec<u8> = vec![0, 1, 1];
    let entries = extract(&pixels, 3, 1, &chars("abc")).unwrap();
    assert_eq!(entries.len(), 0);
}

#[test]
fn extract_all_border_image_yields_empty_mapping() {
    let pixels: Vec<u8> = vec![7, 7, 7, 7];
    let entries = extract(&pixels, 4, 1, &chars("abc")).unwrap();
    assert_eq!(entries.len(), 0);
}

#[test]
fn has_duplicate_detects_repeats() {
    assert!(has_duplicate(&chars("aa")));
    assert!(has_duplicate(&chars("abca")));
    assert!(!has_duplicate(&chars("")));
    assert!(!has_duplicate(&chars("abc")));
}

#[test]
fn font_lookup_is_idempotent() {
    let pixels: Vec<u8> = vec![0, 1, 1, 0, 1, 0];
    let font = Font::from_image(&pixels, 6, 2, &chars("ab")).unwrap();
    let first = font.get_rect('a');
    let second = font.get_rect('a');
    assert_eq!(first, second);
    assert_eq!(first, Some(Rect { x: 1, y: 0, width: 2, height: 2 }));
    assert_eq!(font.get_rect('z'), None);
    assert_eq!(font.get_rect('z'), None);
}

#[test]
fn font_reports_its_contents() {
    let pixels: Vec<u8> = vec![0, 1, 1, 0, 1, 0];
    let font = Font::from_image(&pixels, 6, 9, &chars("abc")).unwrap();
    assert_eq!(font.len(), 2);
    assert!(!font.is_empty());
    assert_eq!(font.get_height(), 9);
    assert!(font.is_printable('a'));
    assert!(font.is_printable('b'));
    assert!(!font.is_printable('c'));
}

#[test]
fn font_from_degenerate_image_is_empty() {
    let pixels: Vec<u8> = vec![0, 1, 0];
    let font = Font::from_image(&pixels, 0, 0, &chars("abc")).unwrap();
    assert_eq!(font.len(), 0);
    assert!(font.is_empty());
    assert!(!font.is_printable('a'));
}

#[test]
fn font_from_image_rejects_duplicate_alphabet() {
    let pixels: Vec<u8> = vec![0, 1, 0];
    assert!(matches!(
        Font::from_image(&pixels, 3, 1, &chars("aa")),
        Err(FontError::DuplicateAlphabetCharacter)
    ));
}
