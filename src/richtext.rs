//! Styled text fragments and the inline markup that produces them.
//!
//! The markup understands `**bold**`, `*italic*` and `[color=#RRGGBB]{coloured}` scopes,
//! which nest.  [`parse_markup`] turns such a string into [`Span`]s; what it returns for
//! each input is stated by [`markup_result`], a scan over the characters of the input.
use vstd::prelude::*;
use vstd::string::*;
use vstd::utf8::{char_is_scalar, encode_scalar, encode_utf8};
use vstd::std_specs::iter::IteratorSpec;

verus! {

/// A colour understood by the layout engine.
#[derive(Clone, Copy, Debug, PartialEq, Eq, Structural)]
pub enum Color {
    /// Red, green and blue components.
    Rgb(u8, u8, u8),
    /// Cyan, magenta, yellow and key components.
    Cmyk(u8, u8, u8, u8),
    /// A grey level.
    Greyscale(u8),
}

/// The mathematical content of a [`Span`].
pub struct SpanModel {
    pub text: Seq<char>,
    pub bold: bool,
    pub italic: bool,
    pub underline: bool,
    pub color: Option<Color>,
}

/// A slice of text together with inline style attributes.
///
/// Besides bold, italic and a colour, a span carries an underline flag, which the markup
/// cannot express but callers may set.
#[derive(Clone, Debug, PartialEq, Eq)]
pub struct Span {
    text: String,
    bold: bool,
    italic: bool,
    color: Option<Color>,
    underline: bool,
}

impl View for Span {
    type V = SpanModel;

    closed spec fn view(&self) -> SpanModel {
        SpanModel {
            text: self.text@,
            bold: self.bold,
            italic: self.italic,
            underline: self.underline,
            color: self.color,
        }
    }
}

/// The models of a sequence of spans.
pub open spec fn spans_model(spans: Seq<Span>) -> Seq<SpanModel> {
    spans.map_values(|s: Span| s@)
}

impl Span {
    /// Creates a new span with the provided text and no styles applied.
    pub fn new(text: &str) -> (r: Span)
        ensures
            r@ == (SpanModel { text: text@, bold: false, italic: false, underline: false, color: None }),
    {
        Span { text: text.to_owned(), bold: false, italic: false, color: None, underline: false }
    }

    /// Returns the raw text contained in this span.
    pub fn text(&self) -> (r: &str)
        ensures
            r@ == self@.text,
    {
        self.text.as_str()
    }

    /// Returns whether the span should be rendered in bold.
    pub fn is_bold(&self) -> (r: bool)
        ensures
            r == self@.bold,
    {
        self.bold
    }

    /// Returns whether the span should be rendered in italic.
    pub fn is_italic(&self) -> (r: bool)
        ensures
            r == self@.italic,
    {
        self.italic
    }

    /// Returns the configured colour of the span, if any.
    pub fn color(&self) -> (r: Option<Color>)
        ensures
            r == self@.color,
    {
        self.color
    }

    /// Returns whether the span is marked as underlined.
    pub fn is_underlined(&self) -> (r: bool)
        ensures
            r == self@.underline,
    {
        self.underline
    }

    /// Sets the bold flag and returns the updated span.
    pub fn with_bold(self, bold: bool) -> (r: Span)
        ensures
            r@ == (SpanModel { bold, ..self@ }),
    {
        Span { bold, ..self }
    }

    /// Sets the italic flag and returns the updated span.
    pub fn with_italic(self, italic: bool) -> (r: Span)
        ensures
            r@ == (SpanModel { italic, ..self@ }),
    {
        Span { italic, ..self }
    }

    /// Sets the underline flag and returns the updated span.
    pub fn with_underline(self, underline: bool) -> (r: Span)
        ensures
            r@ == (SpanModel { underline, ..self@ }),
    {
        Span { underline, ..self }
    }

    /// Sets the colour and returns the updated span.
    pub fn with_color(self, color: Option<Color>) -> (r: Span)
        ensures
            r@ == (SpanModel { color, ..self@ }),
    {
        Span { color, ..self }
    }

    /// Marks the span as bold.
    pub fn bold(self) -> (r: Span)
        ensures
            r@ == (SpanModel { bold: true, ..self@ }),
    {
        self.with_bold(true)
    }

    /// Marks the span as italic.
    pub fn italic(self) -> (r: Span)
        ensures
            r@ == (SpanModel { italic: true, ..self@ }),
    {
        self.with_italic(true)
    }

    /// Marks the span as underlined.
    pub fn underline(self) -> (r: Span)
        ensures
            r@ == (SpanModel { underline: true, ..self@ }),
    {
        self.with_underline(true)
    }

    /// Gives the span a colour.
    pub fn colored(self, color: Color) -> (r: Span)
        ensures
            r@ == (SpanModel { color: Some(color), ..self@ }),
    {
        self.with_color(Some(color))
    }
}

// ---------------------------------------------------------------------------------------------
// The markup grammar, stated over the characters of the input.
// ---------------------------------------------------------------------------------------------

/// The kind of scope that a closing token ends.
#[derive(Clone, Copy, Debug, PartialEq, Eq, Structural)]
pub enum Marker {
    Bold,
    Italic,
    Color,
}

/// The style in effect inside a scope.
#[derive(Clone, Copy, Debug, PartialEq, Eq, Structural)]
pub struct StyleState {
    pub bold: bool,
    pub italic: bool,
    pub color: Option<Color>,
}

/// What went wrong while reading markup.
#[derive(Clone, Copy, Debug, PartialEq, Eq, Structural)]
pub enum ParseErrorKind {
    /// A `**` scope is still open at the end of the input.
    UnterminatedBold,
    /// A `*` scope is still open at the end of the input.
    UnterminatedItalic,
    /// A colour scope is still open at the end of the input.
    UnterminatedColor,
    /// A `}` that closes no colour scope.
    UnexpectedBrace,
    /// A `]` outside a colour directive.
    UnexpectedBracket,
    /// A `[` that does not start `[color=`.
    UnsupportedDirective,
    /// The colour directive lacks its `#`.
    MissingHash,
    /// The input ends before six hexadecimal digits.
    IncompleteColor,
    /// A character of the colour value is not a hexadecimal digit.
    InvalidHexDigit,
    /// The colour value is not followed by `]`.
    MissingBracket,
    /// The directive is not followed by `{`.
    MissingBrace,
}

/// One step of the scan: what stands at a position of the input.
pub enum Token {
    /// The closing token of the innermost open scope.
    Close,
    OpenBold,
    OpenItalic,
    /// A complete `[color=#RRGGBB]{` directive.
    OpenColor(Color),
    /// A malformed construct: its kind and the character index where it was detected.
    Fail(ParseErrorKind, int),
    /// A character of plain text.
    Plain,
}

pub open spec fn char_at(s: Seq<char>, i: int, c: char) -> bool {
    0 <= i < s.len() && s[i] == c
}

pub open spec fn is_markup_char(c: char) -> bool {
    c == '*' || c == '[' || c == ']' || c == '}'
}

/// `[color=` starts at `i`.
pub open spec fn color_prefix_at(s: Seq<char>, i: int) -> bool {
    &&& char_at(s, i, '[')
    &&& char_at(s, i + 1, 'c')
    &&& char_at(s, i + 2, 'o')
    &&& char_at(s, i + 3, 'l')
    &&& char_at(s, i + 4, 'o')
    &&& char_at(s, i + 5, 'r')
    &&& char_at(s, i + 6, '=')
}

pub open spec fn closes_at(s: Seq<char>, i: int, m: Marker) -> bool {
    match m {
        Marker::Bold => char_at(s, i, '*') && char_at(s, i + 1, '*'),
        Marker::Italic => char_at(s, i, '*'),
        Marker::Color => char_at(s, i, '}'),
    }
}

pub open spec fn closing_len(m: Marker) -> int {
    match m {
        Marker::Bold => 2,
        _ => 1,
    }
}

pub open spec fn is_hex_digit(c: char) -> bool {
    let v = c as u32;
    (48 <= v <= 57) || (65 <= v <= 70) || (97 <= v <= 102)
}

pub open spec fn hex_value(c: char) -> int {
    let v = c as u32;
    if 48 <= v <= 57 {
        v - 48
    } else if 65 <= v <= 70 {
        v - 55
    } else {
        v - 87
    }
}

/// The byte written by the two hexadecimal digits at `k`.
pub open spec fn hex_byte(s: Seq<char>, k: int) -> u8 {
    (16 * hex_value(s[k]) + hex_value(s[k + 1])) as u8
}

/// The first index in `[from, to)` that holds no hexadecimal digit, or `to`.
pub open spec fn first_non_hex(s: Seq<char>, from: int, to: int) -> int
    decreases to - from,
{
    if from >= to {
        to
    } else if !is_hex_digit(s[from]) {
        from
    } else {
        first_non_hex(s, from + 1, to)
    }
}

/// The number of bytes of the UTF-8 encoding of `s`.
pub open spec fn utf8_len(s: Seq<char>) -> nat {
    encode_utf8(s).len()
}

/// The end of the six-digit colour value that starts at `h`, or the end of the input.
pub open spec fn hex_window_end(s: Seq<char>, h: int) -> int {
    if h + 6 <= s.len() {
        h + 6
    } else {
        s.len() as int
    }
}

/// Reads the directive `[color=#RRGGBB]{` that starts at `i`.
///
/// When the six hexadecimal digits are not all there, the colour is incomplete if fewer
/// than six bytes follow the `#`; otherwise the first character of the value that is no
/// hexadecimal digit is reported.
pub open spec fn read_directive(s: Seq<char>, i: int) -> Result<Color, (ParseErrorKind, int)> {
    let h = i + 8;
    let e = hex_window_end(s, h);
    if !char_at(s, i + 7, '#') {
        Err((ParseErrorKind::MissingHash, i + 7))
    } else if !(e == h + 6 && first_non_hex(s, h, e) == e) {
        if utf8_len(s.subrange(h, s.len() as int)) < 6 {
            Err((ParseErrorKind::IncompleteColor, h))
        } else if first_non_hex(s, h, e) < e {
            Err((ParseErrorKind::InvalidHexDigit, first_non_hex(s, h, e)))
        } else {
            Err((ParseErrorKind::IncompleteColor, h))
        }
    } else if !char_at(s, i + 14, ']') {
        Err((ParseErrorKind::MissingBracket, i + 14))
    } else if !char_at(s, i + 15, '{') {
        Err((ParseErrorKind::MissingBrace, i + 15))
    } else {
        Ok(Color::Rgb(hex_byte(s, i + 8), hex_byte(s, i + 10), hex_byte(s, i + 12)))
    }
}

/// The token at `i`, given the innermost open scope.
pub open spec fn token_at(s: Seq<char>, i: int, top: Option<Marker>) -> Token {
    if top is Some && closes_at(s, i, top->0) {
        Token::Close
    } else if char_at(s, i, '*') && char_at(s, i + 1, '*') {
        Token::OpenBold
    } else if char_at(s, i, '*') {
        Token::OpenItalic
    } else if color_prefix_at(s, i) {
        match read_directive(s, i) {
            Ok(c) => Token::OpenColor(c),
            Err(e) => Token::Fail(e.0, e.1),
        }
    } else if char_at(s, i, '}') {
        Token::Fail(ParseErrorKind::UnexpectedBrace, i)
    } else if char_at(s, i, ']') {
        Token::Fail(ParseErrorKind::UnexpectedBracket, i)
    } else if char_at(s, i, '[') {
        Token::Fail(ParseErrorKind::UnsupportedDirective, i)
    } else {
        Token::Plain
    }
}

pub open spec fn plain_style() -> StyleState {
    StyleState { bold: false, italic: false, color: None }
}

/// The style inside the innermost open scope.
pub open spec fn current_style(frames: Seq<(Marker, StyleState)>) -> StyleState {
    if frames.len() == 0 {
        plain_style()
    } else {
        frames.last().1
    }
}

pub open spec fn top_marker(frames: Seq<(Marker, StyleState)>) -> Option<Marker> {
    if frames.len() == 0 {
        None
    } else {
        Some(frames.last().0)
    }
}

pub open spec fn styled(text: Seq<char>, st: StyleState) -> SpanModel {
    SpanModel { text, bold: st.bold, italic: st.italic, underline: false, color: st.color }
}

/// Ends the run of plain text `s[start..end]`: an empty run adds no span.
pub open spec fn flush(spans: Seq<SpanModel>, s: Seq<char>, start: int, end: int, st: StyleState) -> Seq<SpanModel> {
    if start == end {
        spans
    } else {
        spans.push(styled(s.subrange(start, end), st))
    }
}

pub open spec fn unterminated(m: Marker) -> ParseErrorKind {
    match m {
        Marker::Bold => ParseErrorKind::UnterminatedBold,
        Marker::Italic => ParseErrorKind::UnterminatedItalic,
        Marker::Color => ParseErrorKind::UnterminatedColor,
    }
}

/// The scan from position `i`, with the open scopes `frames`, the plain text of the current
/// run starting at `start`, and the spans found so far.
pub open spec fn scan(
    s: Seq<char>,
    i: int,
    frames: Seq<(Marker, StyleState)>,
    start: int,
    spans: Seq<SpanModel>,
) -> Result<Seq<SpanModel>, (ParseErrorKind, int)>
    decreases s.len() + 16 - i,
{
    if i < 0 || i >= s.len() {
        if frames.len() > 0 {
            Err((unterminated(frames.last().0), s.len() as int))
        } else {
            Ok(flush(spans, s, start, s.len() as int, plain_style()))
        }
    } else {
        let st = current_style(frames);
        match token_at(s, i, top_marker(frames)) {
            Token::Plain => scan(s, i + 1, frames, start, spans),
            Token::Close => {
                let n = i + closing_len(frames.last().0);
                scan(s, n, frames.drop_last(), n, flush(spans, s, start, i, st))
            },
            Token::OpenBold => scan(
                s,
                i + 2,
                frames.push((Marker::Bold, StyleState { bold: true, ..st })),
                i + 2,
                flush(spans, s, start, i, st),
            ),
            Token::OpenItalic => scan(
                s,
                i + 1,
                frames.push((Marker::Italic, StyleState { italic: true, ..st })),
                i + 1,
                flush(spans, s, start, i, st),
            ),
            Token::OpenColor(c) => scan(
                s,
                i + 16,
                frames.push((Marker::Color, StyleState { color: Some(c), ..st })),
                i + 16,
                flush(spans, s, start, i, st),
            ),
            Token::Fail(k, at) => Err((k, at)),
        }
    }
}

/// What the markup `s` stands for: the spans in order, or the kind of the first error and the
/// character index where it was detected.
pub open spec fn markup_result(s: Seq<char>) -> Result<Seq<SpanModel>, (ParseErrorKind, int)> {
    scan(s, 0, Seq::empty(), 0, Seq::empty())
}

/// The offset in bytes of the character at index `k` of `s`, in UTF-8.
pub open spec fn byte_offset(s: Seq<char>, k: int) -> int {
    encode_utf8(s.subrange(0, k)).len() as int
}

// ---------------------------------------------------------------------------------------------
// The parser.
// ---------------------------------------------------------------------------------------------

/// An error found by [`parse_markup`].
#[derive(Clone, Copy, Debug, PartialEq, Eq, Structural)]
pub struct ParseError {
    index: usize,
    kind: ParseErrorKind,
}

impl View for ParseError {
    type V = (usize, ParseErrorKind);

    closed spec fn view(&self) -> (usize, ParseErrorKind) {
        (self.index, self.kind)
    }
}

impl ParseError {
    /// Byte index in the input where the error was detected.
    pub fn index(&self) -> (r: usize)
        ensures
            r == self@.0,
    {
        self.index
    }

    /// What went wrong.
    pub fn kind(&self) -> (r: ParseErrorKind)
        ensures
            r == self@.1,
    {
        self.kind
    }

    /// Human-readable description of the error.
    pub fn message(&self) -> (r: &'static str)
        ensures
            r@ == error_message(self@.1),
    {
        match self.kind {
            ParseErrorKind::UnterminatedBold => "unterminated bold span",
            ParseErrorKind::UnterminatedItalic => "unterminated italic span",
            ParseErrorKind::UnterminatedColor => "unterminated color span",
            ParseErrorKind::UnexpectedBrace =>
                "unexpected closing token `}` without matching opening `[color=...]`",
            ParseErrorKind::UnexpectedBracket => "unexpected closing token `]`",
            ParseErrorKind::UnsupportedDirective =>
                "unsupported directive; expected `[color=#RRGGBB]{...}`",
            ParseErrorKind::MissingHash => "expected `#` followed by a hexadecimal RGB value",
            ParseErrorKind::IncompleteColor =>
                "incomplete color specification; expected 6 hexadecimal digits",
            ParseErrorKind::InvalidHexDigit =>
                "invalid RGB specification; use hexadecimal digits only",
            ParseErrorKind::MissingBracket => "expected `]` to close color directive",
            ParseErrorKind::MissingBrace => "expected `{` to start the colored text",
        }
    }
}

/// The message that [`ParseError::message`] gives for each kind.
pub open spec fn error_message(k: ParseErrorKind) -> Seq<char> {
    match k {
        ParseErrorKind::UnterminatedBold => "unterminated bold span"@,
        ParseErrorKind::UnterminatedItalic => "unterminated italic span"@,
        ParseErrorKind::UnterminatedColor => "unterminated color span"@,
        ParseErrorKind::UnexpectedBrace =>
            "unexpected closing token `}` without matching opening `[color=...]`"@,
        ParseErrorKind::UnexpectedBracket => "unexpected closing token `]`"@,
        ParseErrorKind::UnsupportedDirective =>
            "unsupported directive; expected `[color=#RRGGBB]{...}`"@,
        ParseErrorKind::MissingHash => "expected `#` followed by a hexadecimal RGB value"@,
        ParseErrorKind::IncompleteColor =>
            "incomplete color specification; expected 6 hexadecimal digits"@,
        ParseErrorKind::InvalidHexDigit => "invalid RGB specification; use hexadecimal digits only"@,
        ParseErrorKind::MissingBracket => "expected `]` to close color directive"@,
        ParseErrorKind::MissingBrace => "expected `{` to start the colored text"@,
    }
}

fn char_is(s: &Vec<char>, i: usize, c: char) -> (r: bool)
    ensures
        r == char_at(s@, i as int, c),
{
    i < s.len() && s[i] == c
}

fn is_hex(c: char) -> (r: bool)
    ensures
        r == is_hex_digit(c),
{
    let v = c as u32;
    (48 <= v && v <= 57) || (65 <= v && v <= 70) || (97 <= v && v <= 102)
}

fn hex_digit_value(c: char) -> (r: u8)
    requires
        is_hex_digit(c),
    ensures
        r as int == hex_value(c),
        r < 16,
{
    let v = c as u32;
    if v <= 57 {
        (v - 48) as u8
    } else if v <= 70 {
        (v - 55) as u8
    } else {
        (v - 87) as u8
    }
}

fn hex_pair(s: &Vec<char>, k: usize) -> (r: u8)
    requires
        k + 1 < s.len(),
        is_hex_digit(s@[k as int]),
        is_hex_digit(s@[k + 1]),
    ensures
        r == hex_byte(s@, k as int),
{
    let hi = hex_digit_value(s[k]);
    let lo = hex_digit_value(s[k + 1]);
    16 * hi + lo
}

proof fn lemma_first_non_hex_bounds(s: Seq<char>, from: int, to: int)
    requires
        from <= to,
    ensures
        from <= first_non_hex(s, from, to) <= to,
        first_non_hex(s, from, to) == to ==> forall|k: int| from <= k < to ==> is_hex_digit(#[trigger] s[k]),
    decreases to - from,
{
    if from < to && is_hex_digit(s[from]) {
        lemma_first_non_hex_bounds(s, from + 1, to);
    }
}

/// The number of bytes in the UTF-8 encoding of `c`.
fn utf8_width(c: char) -> (r: usize)
    ensures
        r == encode_scalar(c as u32).len(),
{
    proof {
        char_is_scalar(c);
    }
    let v = c as u32;
    if v < 0x80 {
        1
    } else if v < 0x800 {
        2
    } else if v < 0x10000 {
        3
    } else {
        4
    }
}

proof fn lemma_utf8_len_step(s: Seq<char>, k: int)
    requires
        0 <= k < s.len(),
    ensures
        utf8_len(s.subrange(k, s.len() as int)) == encode_scalar(s[k] as u32).len() + utf8_len(
            s.subrange(k + 1, s.len() as int),
        ),
{
    assert(s.subrange(k, s.len() as int).drop_first() =~= s.subrange(k + 1, s.len() as int));
}

/// Whether fewer than six bytes of the input follow position `h`.
fn fewer_than_six_bytes(s: &Vec<char>, h: usize) -> (r: bool)
    requires
        h <= s.len(),
    ensures
        r == (utf8_len(s@.subrange(h as int, s.len() as int)) < 6),
{
    let mut k: usize = h;
    let mut acc: usize = 0;
    while k < s.len() && acc < 6
        invariant
            h <= k <= s.len(),
            acc < 10,
            utf8_len(s@.subrange(h as int, s.len() as int)) == acc + utf8_len(s@.subrange(k as int, s.len() as int)),
        decreases s.len() - k,
    {
        proof {
            lemma_utf8_len_step(s@, k as int);
        }
        acc = acc + utf8_width(s[k]);
        k = k + 1;
    }
    if k == s.len() {
        assert(s@.subrange(k as int, s.len() as int) =~= Seq::<char>::empty());
    }
    acc < 6
}

/// Reads the colour directive whose `[color=` starts at `i`.
fn parse_color_directive(s: &Vec<char>, i: usize) -> (r: Result<Color, (ParseErrorKind, usize)>)
    requires
        color_prefix_at(s@, i as int),
    ensures
        match read_directive(s@, i as int) {
            Ok(c) => r == Ok::<Color, (ParseErrorKind, usize)>(c),
            Err(e) => r is Err && r->Err_0.0 == e.0 && r->Err_0.1 as int == e.1,
        },
        r is Err ==> r->Err_0.1 <= s.len(),
{
    assert(i + 7 <= s.len());
    if !char_is(s, i + 7, '#') {
        return Err((ParseErrorKind::MissingHash, i + 7));
    }
    let h = i + 8;
    let e = if s.len() - h >= 6 {
        h + 6
    } else {
        s.len()
    };
    assert(e as int == hex_window_end(s@, h as int));
    let mut k: usize = h;
    while k < e && is_hex(s[k])
        invariant
            h <= k <= e <= s.len(),
            e == hex_window_end(s@, h as int),
            first_non_hex(s@, h as int, e as int) == first_non_hex(s@, k as int, e as int),
        decreases e - k,
    {
        k = k + 1;
    }
    proof {
        lemma_first_non_hex_bounds(s@, h as int, e as int);
    }
    if k - h < 6 {
        assert(first_non_hex(s@, k as int, e as int) == k);
        if fewer_than_six_bytes(s, h) {
            return Err((ParseErrorKind::IncompleteColor, h));
        } else if k < e {
            return Err((ParseErrorKind::InvalidHexDigit, k));
        } else {
            return Err((ParseErrorKind::IncompleteColor, h));
        }
    }
    assert(first_non_hex(s@, k as int, e as int) == e);
    if !char_is(s, i + 14, ']') {
        return Err((ParseErrorKind::MissingBracket, i + 14));
    }
    if !char_is(s, i + 15, '{') {
        return Err((ParseErrorKind::MissingBrace, i + 15));
    }
    assert(is_hex_digit(s@[i + 8]) && is_hex_digit(s@[i + 9]) && is_hex_digit(s@[i + 10]));
    assert(is_hex_digit(s@[i + 11]) && is_hex_digit(s@[i + 12]) && is_hex_digit(s@[i + 13]));
    Ok(Color::Rgb(hex_pair(s, i + 8), hex_pair(s, i + 10), hex_pair(s, i + 12)))
}

/// The executable form of a [`Token`].
enum Step {
    Close,
    OpenBold,
    OpenItalic,
    OpenColor(Color),
    Fail(ParseErrorKind, usize),
    Plain,
}

impl View for Step {
    type V = Token;

    closed spec fn view(&self) -> Token {
        match *self {
            Step::Close => Token::Close,
            Step::OpenBold => Token::OpenBold,
            Step::OpenItalic => Token::OpenItalic,
            Step::OpenColor(c) => Token::OpenColor(c),
            Step::Fail(k, at) => Token::Fail(k, at as int),
            Step::Plain => Token::Plain,
        }
    }
}

fn closes(s: &Vec<char>, i: usize, m: Marker) -> (r: bool)
    requires
        i < s.len(),
    ensures
        r == closes_at(s@, i as int, m),
{
    match m {
        Marker::Bold => char_is(s, i, '*') && char_is(s, i + 1, '*'),
        Marker::Italic => char_is(s, i, '*'),
        Marker::Color => char_is(s, i, '}'),
    }
}

fn has_color_prefix(s: &Vec<char>, i: usize) -> (r: bool)
    requires
        i < s.len(),
    ensures
        r == color_prefix_at(s@, i as int),
{
    if s.len() - i < 7 {
        return false;
    }
    s[i] == '[' && s[i + 1] == 'c' && s[i + 2] == 'o' && s[i + 3] == 'l' && s[i + 4] == 'o'
        && s[i + 5] == 'r' && s[i + 6] == '='
}

/// Classifies what stands at `i`.
fn next_token(s: &Vec<char>, i: usize, top: Option<Marker>) -> (r: Step)
    requires
        i < s.len(),
    ensures
        r@ == token_at(s@, i as int, top),
{
    if let Some(m) = top {
        if closes(s, i, m) {
            return Step::Close;
        }
    }
    if char_is(s, i, '*') && char_is(s, i + 1, '*') {
        Step::OpenBold
    } else if char_is(s, i, '*') {
        Step::OpenItalic
    } else if has_color_prefix(s, i) {
        match parse_color_directive(s, i) {
            Ok(c) => Step::OpenColor(c),
            Err(e) => Step::Fail(e.0, e.1),
        }
    } else if char_is(s, i, '}') {
        Step::Fail(ParseErrorKind::UnexpectedBrace, i)
    } else if char_is(s, i, ']') {
        Step::Fail(ParseErrorKind::UnexpectedBracket, i)
    } else if char_is(s, i, '[') {
        Step::Fail(ParseErrorKind::UnsupportedDirective, i)
    } else {
        Step::Plain
    }
}

impl StyleState {
    fn to_span(&self, text: String) -> (r: Span)
        ensures
            r@ == styled(text@, *self),
    {
        Span { text, bold: self.bold, italic: self.italic, color: self.color, underline: false }
    }
}

/// Ends the current run of plain text, `input[start..end]` by characters.
fn flush_buffer(input: &str, start: usize, end: usize, style: StyleState, spans: &mut Vec<Span>)
    requires
        start <= end <= input@.len(),
    ensures
        spans_model(final(spans)@) == flush(spans_model(old(spans)@), input@, start as int, end as int, style),
{
    if start < end {
        let text = input.substring_char(start, end).to_owned();
        spans.push(style.to_span(text));
        proof {
            assert(spans_model(final(spans)@) =~= spans_model(old(spans)@).push(styled(input@.subrange(start as int, end as int), style)));
        }
    }
}

/// The characters of `input`.
fn chars_of(input: &str) -> (r: Vec<char>)
    ensures
        r@ == input@,
{
    let mut out: Vec<char> = Vec::new();
    let mut it = input.chars();
    loop
        invariant
            out@ + it.remaining() == input@,
            it.decrease() is Some,
        ensures
            out@ == input@,
        decreases it.decrease()->0,
    {
        match it.next() {
            Some(c) => out.push(c),
            None => {
                assert(out@ + it.remaining() =~= out@);
                break;
            },
        }
    }
    out
}

fn unterminated_kind(m: Marker) -> (r: ParseErrorKind)
    ensures
        r == unterminated(m),
{
    match m {
        Marker::Bold => ParseErrorKind::UnterminatedBold,
        Marker::Italic => ParseErrorKind::UnterminatedItalic,
        Marker::Color => ParseErrorKind::UnterminatedColor,
    }
}

/// Runs the scan over the characters `s` of `input`; an error carries its character index.
fn parse_inner(input: &str, s: &Vec<char>) -> (r: Result<Vec<Span>, (ParseErrorKind, usize)>)
    requires
        s@ == input@,
    ensures
        match markup_result(s@) {
            Ok(m) => r is Ok && spans_model(r->Ok_0@) == m,
            Err(e) => r is Err && r->Err_0.0 == e.0 && r->Err_0.1 as int == e.1,
        },
        r is Err ==> r->Err_0.1 <= s.len(),
{
    let mut spans: Vec<Span> = Vec::new();
    let mut frames: Vec<(Marker, StyleState)> = Vec::new();
    let mut start: usize = 0;
    let mut i: usize = 0;
    assert(spans_model(spans@) =~= Seq::empty());
    assert(frames@ =~= Seq::empty());
    while i < s.len()
        invariant
            s@ == input@,
            start <= i <= s.len(),
            scan(s@, i as int, frames@, start as int, spans_model(spans@)) == markup_result(s@),
        decreases s.len() - i,
    {
        let depth = frames.len();
        let top = if depth > 0 {
            Some(frames[depth - 1].0)
        } else {
            None
        };
        let style = if depth > 0 {
            frames[depth - 1].1
        } else {
            StyleState { bold: false, italic: false, color: None }
        };
        assert(top == top_marker(frames@));
        assert(style == current_style(frames@));
        match next_token(s, i, top) {
            Step::Plain => {
                i = i + 1;
            },
            Step::Close => {
                flush_buffer(input, start, i, style, &mut spans);
                let closed = frames.pop();
                i = match closed {
                    Some((Marker::Bold, _)) => i + 2,
                    _ => i + 1,
                };
                start = i;
            },
            Step::OpenBold => {
                flush_buffer(input, start, i, style, &mut spans);
                frames.push((Marker::Bold, StyleState { bold: true, italic: style.italic, color: style.color }));
                i = i + 2;
                start = i;
            },
            Step::OpenItalic => {
                flush_buffer(input, start, i, style, &mut spans);
                frames.push((Marker::Italic, StyleState { bold: style.bold, italic: true, color: style.color }));
                i = i + 1;
                start = i;
            },
            Step::OpenColor(c) => {
                flush_buffer(input, start, i, style, &mut spans);
                frames.push((Marker::Color, StyleState { bold: style.bold, italic: style.italic, color: Some(c) }));
                i = i + 16;
                start = i;
            },
            Step::Fail(kind, at) => {
                return Err((kind, at));
            },
        }
    }
    if frames.len() > 0 {
        return Err((unterminated_kind(frames[frames.len() - 1].0), s.len()));
    }
    flush_buffer(input, start, s.len(), StyleState { bold: false, italic: false, color: None }, &mut spans);
    Ok(spans)
}

fn byte_index(input: &str, k: usize) -> (r: usize)
    requires
        k <= input@.len(),
    ensures
        r == byte_offset(input@, k as int) as usize,
{
    input.substring_char(0, k).len()
}

/// Parses the inline markup `input` into spans.
///
/// `**bold**`, `*italic*` and `[color=#RRGGBB]{coloured}` open scopes that nest; every
/// transition between scopes ends the current run of plain text.  The result is exactly
/// [`markup_result`] of the characters of `input`, with an error's index given in bytes.
pub fn parse_markup(input: &str) -> (r: Result<Vec<Span>, ParseError>)
    ensures
        match markup_result(input@) {
            Ok(m) => r is Ok && spans_model(r->Ok_0@) == m,
            Err(e) => r is Err && r->Err_0@ == (byte_offset(input@, e.1) as usize, e.0),
        },
{
    let chars = chars_of(input);
    match parse_inner(input, &chars) {
        Ok(spans) => Ok(spans),
        Err((kind, at)) => Err(ParseError { index: byte_index(input, at), kind }),
    }
}

// ---------------------------------------------------------------------------------------------
// Properties of the markup.
// ---------------------------------------------------------------------------------------------

/// The text of `s` with its markup taken out: every `*`, every `}`, and every colour
/// directive `[color=#RRGGBB]{`.
pub open spec fn strip_markup(s: Seq<char>) -> Seq<char>
    decreases s.len(),
{
    if s.len() == 0 {
        s
    } else if color_prefix_at(s, 0) && s.len() >= 16 {
        strip_markup(s.subrange(16, s.len() as int))
    } else if s[0] == '*' || s[0] == '}' {
        strip_markup(s.drop_first())
    } else {
        seq![s[0]] + strip_markup(s.drop_first())
    }
}

/// The texts of `spans`, one after the other.
pub open spec fn concat_texts(spans: Seq<SpanModel>) -> Seq<char>
    decreases spans.len(),
{
    if spans.len() == 0 {
        Seq::empty()
    } else {
        concat_texts(spans.drop_last()) + spans.last().text
    }
}

proof fn lemma_flush_text(spans: Seq<SpanModel>, s: Seq<char>, start: int, end: int, st: StyleState)
    requires
        0 <= start <= end <= s.len(),
    ensures
        concat_texts(flush(spans, s, start, end, st)) == concat_texts(spans) + s.subrange(start, end),
{
    if start == end {
        assert(concat_texts(spans) + s.subrange(start, end) =~= concat_texts(spans));
    } else {
        let out = spans.push(styled(s.subrange(start, end), st));
        assert(out.drop_last() =~= spans);
    }
}

proof fn lemma_strip_step(s: Seq<char>, i: int)
    requires
        0 <= i < s.len(),
    ensures
        (s[i] == '*' || s[i] == '}') ==> strip_markup(s.subrange(i, s.len() as int)) == strip_markup(
            s.subrange(i + 1, s.len() as int),
        ),
        color_prefix_at(s, i) && i + 16 <= s.len() ==> strip_markup(s.subrange(i, s.len() as int))
            == strip_markup(s.subrange(i + 16, s.len() as int)),
        !(s[i] == '*' || s[i] == '}' || s[i] == '[') ==> strip_markup(s.subrange(i, s.len() as int))
            == seq![s[i]] + strip_markup(s.subrange(i + 1, s.len() as int)),
{
    let t = s.subrange(i, s.len() as int);
    assert(t.drop_first() =~= s.subrange(i + 1, s.len() as int));
    if i + 16 <= s.len() {
        assert(t.subrange(16, t.len() as int) =~= s.subrange(i + 16, s.len() as int));
    }
    if color_prefix_at(s, i) {
        assert(color_prefix_at(t, 0));
    }
    if color_prefix_at(t, 0) {
        assert(s[i] == '[');
    }
}

proof fn lemma_scan_text(
    s: Seq<char>,
    i: int,
    frames: Seq<(Marker, StyleState)>,
    start: int,
    spans: Seq<SpanModel>,
)
    requires
        0 <= start <= i <= s.len(),
        scan(s, i, frames, start, spans) is Ok,
    ensures
        concat_texts(scan(s, i, frames, start, spans)->Ok_0) == concat_texts(spans) + s.subrange(start, i)
            + strip_markup(s.subrange(i, s.len() as int)),
    decreases s.len() + 16 - i,
{
    let n = s.len() as int;
    if i >= n {
        lemma_flush_text(spans, s, start, n, plain_style());
        assert(strip_markup(s.subrange(i, n)) =~= Seq::<char>::empty());
        assert(concat_texts(spans) + s.subrange(start, i) + Seq::<char>::empty() =~= concat_texts(spans)
            + s.subrange(start, i));
    } else {
        let st = current_style(frames);
        lemma_strip_step(s, i);
        let before = concat_texts(spans) + s.subrange(start, i);
        match token_at(s, i, top_marker(frames)) {
            Token::Plain => {
                lemma_scan_text(s, i + 1, frames, start, spans);
                assert(s.subrange(start, i + 1) =~= s.subrange(start, i) + seq![s[i]]);
                assert(before + (seq![s[i]] + strip_markup(s.subrange(i + 1, n))) =~= concat_texts(spans)
                    + s.subrange(start, i + 1) + strip_markup(s.subrange(i + 1, n)));
            },
            Token::Close => {
                let m = frames.last().0;
                let k = i + closing_len(m);
                lemma_flush_text(spans, s, start, i, st);
                lemma_scan_text(s, k, frames.drop_last(), k, flush(spans, s, start, i, st));
                if m == Marker::Bold {
                    lemma_strip_step(s, i + 1);
                }
                assert(s.subrange(k, k) =~= Seq::<char>::empty());
                assert(before + Seq::<char>::empty() =~= before);
            },
            Token::OpenBold => {
                lemma_flush_text(spans, s, start, i, st);
                lemma_strip_step(s, i + 1);
                lemma_scan_text(
                    s,
                    i + 2,
                    frames.push((Marker::Bold, StyleState { bold: true, ..st })),
                    i + 2,
                    flush(spans, s, start, i, st),
                );
                assert(s.subrange(i + 2, i + 2) =~= Seq::<char>::empty());
                assert(before + Seq::<char>::empty() =~= before);
            },
            Token::OpenItalic => {
                lemma_flush_text(spans, s, start, i, st);
                lemma_scan_text(
                    s,
                    i + 1,
                    frames.push((Marker::Italic, StyleState { italic: true, ..st })),
                    i + 1,
                    flush(spans, s, start, i, st),
                );
                assert(s.subrange(i + 1, i + 1) =~= Seq::<char>::empty());
                assert(before + Seq::<char>::empty() =~= before);
            },
            Token::OpenColor(c) => {
                lemma_flush_text(spans, s, start, i, st);
                lemma_scan_text(
                    s,
                    i + 16,
                    frames.push((Marker::Color, StyleState { color: Some(c), ..st })),
                    i + 16,
                    flush(spans, s, start, i, st),
                );
                assert(s.subrange(i + 16, i + 16) =~= Seq::<char>::empty());
                assert(before + Seq::<char>::empty() =~= before);
            },
            Token::Fail(_, _) => {},
        }
    }
}

/// Parsing loses no text: when markup parses, the texts of its spans, one after the other,
/// are the input with its markup taken out; for input without any markup character that is
/// the input itself.
pub proof fn lemma_spans_keep_text(s: Seq<char>)
    requires
        markup_result(s) is Ok,
    ensures
        concat_texts(markup_result(s)->Ok_0) == strip_markup(s),
        (forall|k: int| 0 <= k < s.len() ==> !is_markup_char(#[trigger] s[k])) ==> concat_texts(
            markup_result(s)->Ok_0,
        ) == s,
{
    lemma_scan_text(s, 0, Seq::empty(), 0, Seq::empty());
    assert(s.subrange(0, s.len() as int) =~= s);
    assert(Seq::<char>::empty() + s.subrange(0, 0) + strip_markup(s) =~= strip_markup(s));
    if forall|k: int| 0 <= k < s.len() ==> !is_markup_char(#[trigger] s[k]) {
        lemma_plain_text_is_one_span(s);
    }
}

proof fn lemma_plain_scan(s: Seq<char>, i: int)
    requires
        0 <= i <= s.len(),
        forall|k: int| 0 <= k < s.len() ==> !is_markup_char(#[trigger] s[k]),
    ensures
        scan(s, i, Seq::empty(), 0, Seq::empty()) == Ok::<Seq<SpanModel>, (ParseErrorKind, int)>(
            flush(Seq::empty(), s, 0, s.len() as int, plain_style()),
        ),
    decreases s.len() - i,
{
    if i < s.len() {
        assert(!is_markup_char(s[i]));
        lemma_plain_scan(s, i + 1);
    }
}

/// Text without any markup character parses into nothing, if empty, and otherwise into
/// exactly one span: the whole input, with no style set.
pub proof fn lemma_plain_text_is_one_span(s: Seq<char>)
    requires
        forall|k: int| 0 <= k < s.len() ==> !is_markup_char(#[trigger] s[k]),
    ensures
        s.len() == 0 ==> markup_result(s) == Ok::<Seq<SpanModel>, (ParseErrorKind, int)>(Seq::empty()),
        s.len() > 0 ==> markup_result(s) == Ok::<Seq<SpanModel>, (ParseErrorKind, int)>(
            seq![SpanModel { text: s, bold: false, italic: false, underline: false, color: None }],
        ),
        s.len() > 0 ==> concat_texts(markup_result(s)->Ok_0) == s,
{
    lemma_plain_scan(s, 0);
    assert(s.subrange(0, s.len() as int) =~= s);
    if s.len() > 0 {
        let out = seq![SpanModel { text: s, bold: false, italic: false, underline: false, color: None }];
        assert(Seq::<SpanModel>::empty().push(styled(s, plain_style())) =~= out);
        assert(out.drop_last() =~= Seq::<SpanModel>::empty());
        assert(concat_texts(out) == concat_texts(out.drop_last()) + out.last().text);
        assert(concat_texts(Seq::<SpanModel>::empty()) == Seq::<char>::empty());
        assert(Seq::<char>::empty() + s =~= s);
    }
}

pub open spec fn all_nonempty(spans: Seq<SpanModel>) -> bool {
    forall|k: int| 0 <= k < spans.len() ==> (#[trigger] spans[k]).text.len() > 0
}

proof fn lemma_scan_nonempty(
    s: Seq<char>,
    i: int,
    frames: Seq<(Marker, StyleState)>,
    start: int,
    spans: Seq<SpanModel>,
)
    requires
        0 <= start <= i <= s.len(),
        all_nonempty(spans),
        scan(s, i, frames, start, spans) is Ok,
    ensures
        all_nonempty(scan(s, i, frames, start, spans)->Ok_0),
    decreases s.len() + 16 - i,
{
    let n = s.len() as int;
    let st = current_style(frames);
    assert forall|a: int, b: int, t: StyleState| 0 <= a <= b <= n implies #[trigger] all_nonempty(flush(spans, s, a, b, t)) by {
        if a < b {
            let out = spans.push(styled(s.subrange(a, b), t));
            assert forall|k: int| 0 <= k < out.len() implies (#[trigger] out[k]).text.len() > 0 by {
                if k < spans.len() {
                    assert(out[k] == spans[k]);
                }
            }
        }
    }
    if i < n {
        match token_at(s, i, top_marker(frames)) {
            Token::Plain => lemma_scan_nonempty(s, i + 1, frames, start, spans),
            Token::Close => {
                let k = i + closing_len(frames.last().0);
                assert(all_nonempty(flush(spans, s, start, i, st)));
                lemma_scan_nonempty(s, k, frames.drop_last(), k, flush(spans, s, start, i, st));
            },
            Token::OpenBold => {
                assert(all_nonempty(flush(spans, s, start, i, st)));
                lemma_scan_nonempty(s, i + 2, frames.push((Marker::Bold, StyleState { bold: true, ..st })), i + 2, flush(spans, s, start, i, st));
            },
            Token::OpenItalic => {
                assert(all_nonempty(flush(spans, s, start, i, st)));
                lemma_scan_nonempty(s, i + 1, frames.push((Marker::Italic, StyleState { italic: true, ..st })), i + 1, flush(spans, s, start, i, st));
            },
            Token::OpenColor(c) => {
                assert(all_nonempty(flush(spans, s, start, i, st)));
                lemma_scan_nonempty(s, i + 16, frames.push((Marker::Color, StyleState { color: Some(c), ..st })), i + 16, flush(spans, s, start, i, st));
            },
            Token::Fail(_, _) => {},
        }
    } else {
        assert(all_nonempty(flush(spans, s, start, n, plain_style())));
    }
}

/// No span of parsed markup is empty: a run of plain text becomes a span only if it holds
/// at least one character.
pub proof fn lemma_spans_are_nonempty(s: Seq<char>)
    requires
        markup_result(s) is Ok,
    ensures
        all_nonempty(markup_result(s)->Ok_0),
{
    lemma_scan_nonempty(s, 0, Seq::empty(), 0, Seq::empty());
}

} // verus!
