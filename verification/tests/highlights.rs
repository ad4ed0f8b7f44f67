use concord_tui::highlights::{
    add_literal_mention_highlights, is_literal_mention_word_char, normalize_text_highlights,
    RenderedText, TextHighlight, TextHighlightKind,
};

fn span(start: usize, end: usize, kind: TextHighlightKind) -> TextHighlight {
    TextHighlight { start, end, kind }
}

use TextHighlightKind::{OtherMention as Other, SelfMention as Mine};

#[test]
fn highlights_are_sorted_and_overlaps_merged() {
    let mut highlights = vec![span(10, 12, Other), span(0, 4, Other), span(3, 6, Mine), span(20, 25, Other)];
    normalize_text_highlights(&mut highlights);
    assert_eq!(highlights, vec![span(0, 6, Mine), span(10, 12, Other), span(20, 25, Other)]);
}

#[test]
fn touching_highlights_merge_and_self_mentions_win() {
    let mut highlights = vec![span(5, 8, Mine), span(0, 5, Other)];
    normalize_text_highlights(&mut highlights);
    assert_eq!(highlights, vec![span(0, 8, Mine)]);
    let mut highlights = vec![span(0, 10, Other), span(2, 3, Other)];
    normalize_text_highlights(&mut highlights);
    assert_eq!(highlights, vec![span(0, 10, Other)]);
}

#[test]
fn normalizing_nothing_gives_nothing() {
    let mut highlights: Vec<TextHighlight> = vec![];
    normalize_text_highlights(&mut highlights);
    assert!(highlights.is_empty());
}

#[test]
fn normalizing_twice_changes_nothing() {
    let mut highlights = vec![span(4, 9, Other), span(1, 2, Mine), span(8, 12, Other)];
    normalize_text_highlights(&mut highlights);
    let once = highlights.clone();
    normalize_text_highlights(&mut highlights);
    assert_eq!(highlights, once);
}

#[test]
fn word_chars_are_ascii_alphanumerics_and_underscore() {
    assert!(is_literal_mention_word_char('a'));
    assert!(is_literal_mention_word_char('Z'));
    assert!(is_literal_mention_word_char('7'));
    assert!(is_literal_mention_word_char('_'));
    assert!(!is_literal_mention_word_char('@'));
    assert!(!is_literal_mention_word_char('é'));
}

#[test]
fn literal_mentions_are_highlighted_where_they_stand_alone() {
    let mut rendered = RenderedText { text: "@here and @hereafter x@here @here".to_owned(), highlights: vec![] };
    add_literal_mention_highlights(&mut rendered, "@here", Other);
    assert_eq!(rendered.highlights, vec![span(0, 5, Other), span(28, 33, Other)]);
}

#[test]
fn literal_mention_spans_are_byte_offsets() {
    let mut rendered = RenderedText { text: "é @everyone".to_owned(), highlights: vec![span(0, 1, Mine)] };
    add_literal_mention_highlights(&mut rendered, "@everyone", Mine);
    assert_eq!(rendered.highlights, vec![span(0, 1, Mine), span(3, 12, Mine)]);
    assert_eq!(rendered.text, "é @everyone");
}
