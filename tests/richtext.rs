use pdf_helper::richtext::{parse_markup, Color, ParseErrorKind, Span};

#[test]
fn parse_plain_text() {
    let spans = parse_markup("Hello world").expect("parse succeeds");
    assert_eq!(spans.len(), 1);
    assert_eq!(spans[0].text(), "Hello world");
    assert!(!spans[0].is_bold());
}

#[test]
fn parse_nested_styles() {
    let spans = parse_markup("This is **very *cool***!").expect("parse succeeds");
    assert_eq!(spans.len(), 4);
    assert_eq!(spans[0].text(), "This is ");
    assert!(!spans[0].is_bold());
    assert!(spans[1].is_bold());
    assert_eq!(spans[1].text(), "very ");
    assert!(spans[2].is_bold());
    assert!(spans[2].is_italic());
    assert_eq!(spans[2].text(), "cool");
    assert_eq!(spans[3].text(), "!");
    assert!(!spans[3].is_bold());
}

#[test]
fn parse_color_directive() {
    let spans = parse_markup("[color=#ff0000]{Red} text").expect("parse succeeds");
    assert_eq!(spans.len(), 2);
    assert_eq!(spans[0].text(), "Red");
    assert_eq!(spans[0].color(), Some(Color::Rgb(0xff, 0x00, 0x00)));
    assert_eq!(spans[1].text(), " text");
}

#[test]
fn error_on_unterminated_bold() {
    let err = parse_markup("**oops").unwrap_err();
    assert!(err.message().contains("unterminated bold"));
}

#[test]
fn error_on_invalid_color() {
    let err = parse_markup("[color=#12FG34]{x}").unwrap_err();
    assert!(err.message().contains("invalid RGB"));
}

#[test]
fn invalid_color_reports_offset_of_first_non_hex_digit() {
    let err = parse_markup("[color=#12FG34]{x}").unwrap_err();
    assert_eq!(err.kind(), ParseErrorKind::InvalidHexDigit);
    assert_eq!(err.index(), 11);
}

#[test]
fn nested_example_styles_are_exact() {
    let spans = parse_markup("This is **very *cool***!").unwrap();
    let expected = vec![
        Span::new("This is "),
        Span::new("very ").bold(),
        Span::new("cool").bold().italic(),
        Span::new("!"),
    ];
    assert_eq!(spans, expected);
}

#[test]
fn text_without_markup_is_one_plain_span() {
    let input = "Plain text, with {an opening brace, and punctuation: fine.";
    let spans = parse_markup(input).unwrap();
    assert_eq!(spans, vec![Span::new(input)]);
    assert!(!spans[0].is_italic() && !spans[0].is_underlined() && spans[0].color().is_none());
}

#[test]
fn empty_input_gives_no_spans() {
    assert!(parse_markup("").unwrap().is_empty());
}

#[test]
fn spans_concatenate_to_text_without_markup() {
    let input = "a **b *c* [color=#0a0B0c]{d}** e";
    let spans = parse_markup(input).unwrap();
    let joined: String = spans.iter().map(|s| s.text()).collect();
    assert_eq!(joined, "a b c d e");
    assert_eq!(spans[4].color(), Some(Color::Rgb(10, 11, 12)));
    assert!(spans[4].is_bold() && !spans[4].is_italic());
}

#[test]
fn adjacent_scopes_make_separate_spans() {
    let spans = parse_markup("a****b").unwrap();
    assert_eq!(spans, vec![Span::new("a"), Span::new("b")]);
}

#[test]
fn error_offsets_are_in_bytes() {
    let err = parse_markup("é}").unwrap_err();
    assert_eq!(err.kind(), ParseErrorKind::UnexpectedBrace);
    assert_eq!(err.index(), 2);
}

#[test]
fn each_error_kind_has_an_input() {
    let cases: Vec<(&str, ParseErrorKind, usize)> = vec![
        ("**oops", ParseErrorKind::UnterminatedBold, 6),
        ("*oops", ParseErrorKind::UnterminatedItalic, 5),
        ("[color=#000000]{x", ParseErrorKind::UnterminatedColor, 17),
        ("x}", ParseErrorKind::UnexpectedBrace, 1),
        ("x]", ParseErrorKind::UnexpectedBracket, 1),
        ("[size=3]", ParseErrorKind::UnsupportedDirective, 0),
        ("[color=red]{x}", ParseErrorKind::MissingHash, 7),
        ("[color=#12]", ParseErrorKind::IncompleteColor, 8),
        ("[color=#12FG34]{x}", ParseErrorKind::InvalidHexDigit, 11),
        ("[color=#123456}", ParseErrorKind::MissingBracket, 14),
        ("[color=#123456]x", ParseErrorKind::MissingBrace, 15),
    ];
    for (input, kind, index) in cases {
        let err = parse_markup(input).unwrap_err();
        assert_eq!(err.kind(), kind, "{input}");
        assert_eq!(err.index(), index, "{input}");
    }
}

#[test]
fn unterminated_messages() {
    assert_eq!(parse_markup("*x").unwrap_err().message(), "unterminated italic span");
    assert_eq!(parse_markup("[color=#000000]{x").unwrap_err().message(), "unterminated color span");
}

#[test]
fn span_withers_set_flags() {
    let span = Span::new("Hello").bold().italic().underline().colored(Color::Greyscale(7));
    assert_eq!(span.text(), "Hello");
    assert!(span.is_bold() && span.is_italic() && span.is_underlined());
    assert_eq!(span.color(), Some(Color::Greyscale(7)));
    let plain = span.with_bold(false).with_italic(false).with_underline(false).with_color(None);
    assert_eq!(plain, Span::new("Hello"));
}

#[test]
fn colour_value_is_measured_in_bytes() {
    let err = parse_markup("[color=#1\u{e9}\u{e9}z").unwrap_err();
    assert_eq!(err.kind(), ParseErrorKind::InvalidHexDigit);
    assert_eq!(err.index(), 9);
    let short = parse_markup("[color=#1\u{e9}").unwrap_err();
    assert_eq!(short.kind(), ParseErrorKind::IncompleteColor);
    assert_eq!(short.index(), 8);
}
