//! Inline span lexing: bold, italics, strikethrough, inline equations and
//! plain text, recognized in a fixed priority order. Plain text is scanned
//! lazily: it grows one character at a time and stops as soon as any
//! delimited form would match at the current position.

use vstd::prelude::*;

use crate::ParseError;

verus! {

/// A typed fragment of inline-formatted text.
#[derive(Debug, PartialEq, Clone)]
pub enum Span {
    Bold(String),
    Strikethrough(String),
    Italics(String),
    Text(String),
    Equation(String),
}

/// The mathematical shape of a `Span`: the same variants over plain
/// character sequences.
pub enum SpanView {
    Bold(Seq<char>),
    Strikethrough(Seq<char>),
    Italics(Seq<char>),
    Text(Seq<char>),
    Equation(Seq<char>),
}

impl View for Span {
    type V = SpanView;

    open spec fn view(&self) -> SpanView {
        match self {
            Span::Bold(s) => SpanView::Bold(s@),
            Span::Strikethrough(s) => SpanView::Strikethrough(s@),
            Span::Italics(s) => SpanView::Italics(s@),
            Span::Text(s) => SpanView::Text(s@),
            Span::Equation(s) => SpanView::Equation(s@),
        }
    }
}

/// The views of a sequence of spans.
pub open spec fn spans_view(spans: Seq<Span>) -> Seq<SpanView> {
    spans.map_values(|sp: Span| sp@)
}

/// The delimiter pair that opens and closes a bold span.
pub open spec fn bold_tag() -> Seq<char> {
    seq!['*', '*']
}

/// The delimiter pair that opens and closes a strikethrough span.
pub open spec fn strike_tag() -> Seq<char> {
    seq!['~', '~']
}

/// The delimiter that opens and closes an italics span.
pub open spec fn italics_tag() -> Seq<char> {
    seq!['*']
}

/// The delimiter pair that opens and closes an inline equation.
pub open spec fn equation_tag() -> Seq<char> {
    seq!['$', '$']
}

/// `t` occurs in `s` starting exactly at `pos`.
pub open spec fn tag_at(s: Seq<char>, pos: int, t: Seq<char>) -> bool {
    0 <= pos && pos + t.len() <= s.len() && s.subrange(pos, pos + t.len()) == t
}

/// The first position at or after `pos` where `t` occurs in `s`, if any.
pub open spec fn find_tag(s: Seq<char>, pos: int, t: Seq<char>) -> Option<int>
    decreases s.len() - pos,
{
    if t.len() == 0 || pos < 0 || pos + t.len() > s.len() {
        None
    } else if tag_at(s, pos, t) {
        Some(pos)
    } else {
        find_tag(s, pos + 1, t)
    }
}

/// A delimited form at `pos`: the opening delimiter `t`, the content up to
/// the nearest closing `t`, then the closing `t`. Yields the position just
/// past the closing delimiter and the content between the delimiters.
pub open spec fn spec_delimited(s: Seq<char>, pos: int, t: Seq<char>) -> Option<(int, Seq<char>)> {
    if tag_at(s, pos, t) {
        match find_tag(s, pos + t.len(), t) {
            Some(k) => Some((k + t.len(), s.subrange(pos + t.len(), k))),
            None => None,
        }
    } else {
        None
    }
}

/// A bold span at `pos`.
pub open spec fn spec_parse_bold(s: Seq<char>, pos: int) -> Option<(int, SpanView)> {
    match spec_delimited(s, pos, bold_tag()) {
        Some((p, content)) => Some((p, SpanView::Bold(content))),
        None => None,
    }
}

/// A strikethrough span at `pos`.
pub open spec fn spec_parse_strikethrough(s: Seq<char>, pos: int) -> Option<(int, SpanView)> {
    match spec_delimited(s, pos, strike_tag()) {
        Some((p, content)) => Some((p, SpanView::Strikethrough(content))),
        None => None,
    }
}

/// An italics span at `pos`.
pub open spec fn spec_parse_italics(s: Seq<char>, pos: int) -> Option<(int, SpanView)> {
    match spec_delimited(s, pos, italics_tag()) {
        Some((p, content)) => Some((p, SpanView::Italics(content))),
        None => None,
    }
}

/// An inline equation at `pos`.
pub open spec fn spec_parse_equation(s: Seq<char>, pos: int) -> Option<(int, SpanView)> {
    match spec_delimited(s, pos, equation_tag()) {
        Some((p, content)) => Some((p, SpanView::Equation(content))),
        None => None,
    }
}

/// Some delimited form begins at `pos`: the stop condition for lazy
/// plain-text scanning.
pub open spec fn delim_at(s: Seq<char>, pos: int) -> bool {
    ||| spec_parse_strikethrough(s, pos) is Some
    ||| spec_parse_bold(s, pos) is Some
    ||| spec_parse_italics(s, pos) is Some
    ||| spec_parse_equation(s, pos) is Some
}

/// The first position at or after `pos` where a delimited form begins, or
/// the end of the input: where a lazily scanned text span stops growing.
pub open spec fn text_end(s: Seq<char>, pos: int) -> int
    decreases s.len() - pos,
{
    if pos >= s.len() {
        s.len() as int
    } else if delim_at(s, pos) {
        pos
    } else {
        text_end(s, pos + 1)
    }
}

/// A plain-text span at `pos`: everything up to the next delimited form.
pub open spec fn spec_parse_text(s: Seq<char>, pos: int) -> Option<(int, SpanView)> {
    if pos >= s.len() {
        None
    } else {
        Some((text_end(s, pos), SpanView::Text(s.subrange(pos, text_end(s, pos)))))
    }
}

/// One span at `pos`, trying the alternatives in priority order:
/// strikethrough, bold, italics, equation, then plain text.
pub open spec fn spec_parse_span(s: Seq<char>, pos: int) -> Option<(int, SpanView)> {
    if spec_parse_strikethrough(s, pos) is Some {
        spec_parse_strikethrough(s, pos)
    } else if spec_parse_bold(s, pos) is Some {
        spec_parse_bold(s, pos)
    } else if spec_parse_italics(s, pos) is Some {
        spec_parse_italics(s, pos)
    } else if spec_parse_equation(s, pos) is Some {
        spec_parse_equation(s, pos)
    } else {
        spec_parse_text(s, pos)
    }
}

/// The span sequence lexed from `s` starting at `pos`: spans are taken one
/// after the other until the input is exhausted. The guard on the recursion
/// is always satisfied, since every successful span parse advances the
/// position (`lemma_span_progress`).
pub open spec fn spec_lex_spans(s: Seq<char>, pos: int) -> Seq<SpanView>
    decreases s.len() - pos,
{
    if pos >= s.len() {
        seq![]
    } else {
        match spec_parse_span(s, pos) {
            Some((p, sp)) => if pos < p <= s.len() {
                seq![sp] + spec_lex_spans(s, p)
            } else {
                seq![sp]
            },
            None => seq![],
        }
    }
}

/// A successful tag search returns a position no earlier than where the
/// search began, with the tag there.
proof fn lemma_find_tag_some(s: Seq<char>, pos: int, t: Seq<char>)
    ensures
        find_tag(s, pos, t) matches Some(k) ==> pos <= k && tag_at(s, k, t),
    decreases s.len() - pos,
{
    if !(t.len() == 0 || pos < 0 || pos + t.len() > s.len()) && !tag_at(s, pos, t) {
        lemma_find_tag_some(s, pos + 1, t);
    }
}

/// A successful span parse at a position inside the input always advances
/// the position, and never past the end of the input.
pub proof fn lemma_span_progress(s: Seq<char>, pos: int)
    requires
        0 <= pos < s.len(),
    ensures
        spec_parse_span(s, pos) matches Some((p, sp)) && pos < p <= s.len(),
{
    lemma_find_tag_some(s, pos + strike_tag().len(), strike_tag());
    lemma_find_tag_some(s, pos + bold_tag().len(), bold_tag());
    lemma_find_tag_some(s, pos + italics_tag().len(), italics_tag());
    lemma_find_tag_some(s, pos + equation_tag().len(), equation_tag());
    if !delim_at(s, pos) {
        lemma_text_end_bounds(s, pos);
        assert(text_end(s, pos) == text_end(s, pos + 1));
    }
}

/// Where a lazily scanned text span stops lies between its start and the
/// end of the input, and no delimited form begins before it.
pub proof fn lemma_text_end_bounds(s: Seq<char>, pos: int)
    requires
        0 <= pos <= s.len(),
    ensures
        pos <= text_end(s, pos) <= s.len(),
        forall|j: int| pos <= j < text_end(s, pos) ==> !delim_at(s, j),
        text_end(s, pos) < s.len() ==> delim_at(s, text_end(s, pos)),
    decreases s.len() - pos,
{
    if pos < s.len() && !delim_at(s, pos) {
        lemma_text_end_bounds(s, pos + 1);
    }
}

/// Relies on `String: FromIterator<char>` through `Iterator::collect`: the
/// collected string holds exactly the characters of the vector, in order.
#[verifier::external_body]
pub fn chars_to_string(v: &Vec<char>) -> (r: String)
    ensures
        r@ == v@,
{
    v.iter().collect()
}

/// The characters of `input` from `from` up to `to`, as a new vector.
pub fn sub_chars(input: &Vec<char>, from: usize, to: usize) -> (r: Vec<char>)
    requires
        from <= to <= input@.len(),
    ensures
        r@ == input@.subrange(from as int, to as int),
{
    let mut r: Vec<char> = Vec::new();
    let mut i: usize = from;
    while i < to
        invariant
            from <= i <= to <= input@.len(),
            r@ == input@.subrange(from as int, i as int),
        decreases to - i,
    {
        r.push(input[i]);
        i = i + 1;
        proof {
            assert(r@ =~= input@.subrange(from as int, i as int));
        }
    }
    r
}

/// The substring of `input` from `from` up to `to`, as a `String`.
pub fn sub_string(input: &Vec<char>, from: usize, to: usize) -> (r: String)
    requires
        from <= to <= input@.len(),
    ensures
        r@ == input@.subrange(from as int, to as int),
{
    let sub = sub_chars(input, from, to);
    chars_to_string(&sub)
}

/// The two-character tag `c0 c1` occurs in `input` at `pos`.
fn tag2_at(input: &Vec<char>, pos: usize, c0: char, c1: char) -> (b: bool)
    ensures
        b == tag_at(input@, pos as int, seq![c0, c1]),
{
    if pos < input.len() && pos + 1 < input.len() {
        let b = input[pos] == c0 && input[pos + 1] == c1;
        proof {
            if b {
                assert(input@.subrange(pos as int, pos as int + 2) =~= seq![c0, c1]);
            } else {
                assert(input@.subrange(pos as int, pos as int + 2)[0] == input@[pos as int]);
                assert(input@.subrange(pos as int, pos as int + 2)[1] == input@[pos as int + 1]);
            }
        }
        b
    } else {
        false
    }
}

/// The one-character tag `c` occurs in `input` at `pos`.
fn tag1_at(input: &Vec<char>, pos: usize, c: char) -> (b: bool)
    ensures
        b == tag_at(input@, pos as int, seq![c]),
{
    if pos < input.len() {
        let b = input[pos] == c;
        proof {
            if b {
                assert(input@.subrange(pos as int, pos as int + 1) =~= seq![c]);
            } else {
                assert(input@.subrange(pos as int, pos as int + 1)[0] == input@[pos as int]);
            }
        }
        b
    } else {
        false
    }
}

/// The first occurrence of the two-character tag `c0 c1` at or after `pos`.
fn find_tag2(input: &Vec<char>, pos: usize, c0: char, c1: char) -> (r: Option<usize>)
    requires
        pos <= input@.len(),
    ensures
        match r {
            Some(k) => pos <= k && k + 2 <= input@.len() && find_tag(
                input@,
                pos as int,
                seq![c0, c1],
            ) == Some(k as int),
            None => find_tag(input@, pos as int, seq![c0, c1]) is None,
        },
{
    let mut i: usize = pos;
    while input.len() - i >= 2
        invariant
            pos <= i <= input@.len(),
            find_tag(input@, pos as int, seq![c0, c1]) == find_tag(input@, i as int, seq![c0, c1]),
        decreases input@.len() - i,
    {
        if tag2_at(input, i, c0, c1) {
            return Some(i);
        }
        proof {
            assert(find_tag(input@, i as int, seq![c0, c1]) == find_tag(
                input@,
                i as int + 1,
                seq![c0, c1],
            ));
        }
        i = i + 1;
    }
    None
}

/// The first occurrence of the one-character tag `c` at or after `pos`.
fn find_tag1(input: &Vec<char>, pos: usize, c: char) -> (r: Option<usize>)
    requires
        pos <= input@.len(),
    ensures
        match r {
            Some(k) => pos <= k && k + 1 <= input@.len() && find_tag(input@, pos as int, seq![c])
                == Some(k as int),
            None => find_tag(input@, pos as int, seq![c]) is None,
        },
{
    let mut i: usize = pos;
    while input.len() - i >= 1
        invariant
            pos <= i <= input@.len(),
            find_tag(input@, pos as int, seq![c]) == find_tag(input@, i as int, seq![c]),
        decreases input@.len() - i,
    {
        if tag1_at(input, i, c) {
            return Some(i);
        }
        proof {
            assert(find_tag(input@, i as int, seq![c]) == find_tag(input@, i as int + 1, seq![c]));
        }
        i = i + 1;
    }
    None
}

/// A delimited form with a two-character delimiter at `pos`: the position
/// past the closing delimiter and the content between the delimiters.
fn parse_delimited2(input: &Vec<char>, pos: usize, c0: char, c1: char) -> (r: Option<
    (usize, String),
>)
    requires
        pos <= input@.len(),
    ensures
        match r {
            Some((p, content)) => spec_delimited(input@, pos as int, seq![c0, c1]) == Some(
                (p as int, content@),
            ) && pos < p <= input@.len(),
            None => spec_delimited(input@, pos as int, seq![c0, c1]) is None,
        },
{
    if !tag2_at(input, pos, c0, c1) {
        return None;
    }
    proof {
        assert(input.len() == input@.len());
    }
    match find_tag2(input, pos + 2, c0, c1) {
        None => None,
        Some(k) => {
            let content = sub_string(input, pos + 2, k);
            Some((k + 2, content))
        },
    }
}

/// A delimited form with a one-character delimiter at `pos`.
fn parse_delimited1(input: &Vec<char>, pos: usize, c: char) -> (r: Option<(usize, String)>)
    requires
        pos <= input@.len(),
    ensures
        match r {
            Some((p, content)) => spec_delimited(input@, pos as int, seq![c]) == Some(
                (p as int, content@),
            ) && pos < p <= input@.len(),
            None => spec_delimited(input@, pos as int, seq![c]) is None,
        },
{
    if !tag1_at(input, pos, c) {
        return None;
    }
    proof {
        assert(input.len() == input@.len());
    }
    match find_tag1(input, pos + 1, c) {
        None => None,
        Some(k) => {
            let content = sub_string(input, pos + 1, k);
            Some((k + 1, content))
        },
    }
}

/// Lexes one bold span `**…**` beginning at `pos`.
pub fn parse_bold(input: &Vec<char>, pos: usize) -> (r: Option<(usize, Span)>)
    requires
        pos <= input@.len(),
    ensures
        match r {
            Some((p, sp)) => spec_parse_bold(input@, pos as int) == Some((p as int, sp@)) && pos < p
                <= input@.len(),
            None => spec_parse_bold(input@, pos as int) is None,
        },
{
    match parse_delimited2(input, pos, '*', '*') {
        Some((p, content)) => Some((p, Span::Bold(content))),
        None => None,
    }
}

/// Lexes one strikethrough span `~~…~~` beginning at `pos`.
pub fn parse_strikethrough(input: &Vec<char>, pos: usize) -> (r: Option<(usize, Span)>)
    requires
        pos <= input@.len(),
    ensures
        match r {
            Some((p, sp)) => spec_parse_strikethrough(input@, pos as int) == Some((p as int, sp@))
                && pos < p <= input@.len(),
            None => spec_parse_strikethrough(input@, pos as int) is None,
        },
{
    match parse_delimited2(input, pos, '~', '~') {
        Some((p, content)) => Some((p, Span::Strikethrough(content))),
        None => None,
    }
}

/// Lexes one italics span `*…*` beginning at `pos`.
pub fn parse_italics(input: &Vec<char>, pos: usize) -> (r: Option<(usize, Span)>)
    requires
        pos <= input@.len(),
    ensures
        match r {
            Some((p, sp)) => spec_parse_italics(input@, pos as int) == Some((p as int, sp@)) && pos
                < p <= input@.len(),
            None => spec_parse_italics(input@, pos as int) is None,
        },
{
    match parse_delimited1(input, pos, '*') {
        Some((p, content)) => Some((p, Span::Italics(content))),
        None => None,
    }
}

/// Lexes one inline equation `$$…$$` beginning at `pos`.
pub fn parse_equation(input: &Vec<char>, pos: usize) -> (r: Option<(usize, Span)>)
    requires
        pos <= input@.len(),
    ensures
        match r {
            Some((p, sp)) => spec_parse_equation(input@, pos as int) == Some((p as int, sp@))
                && pos < p <= input@.len(),
            None => spec_parse_equation(input@, pos as int) is None,
        },
{
    match parse_delimited2(input, pos, '$', '$') {
        Some((p, content)) => Some((p, Span::Equation(content))),
        None => None,
    }
}

/// Some delimited form begins at `pos`, with a two-character delimiter.
fn delim2_at(input: &Vec<char>, pos: usize, c0: char, c1: char) -> (b: bool)
    requires
        pos <= input@.len(),
    ensures
        b == (spec_delimited(input@, pos as int, seq![c0, c1]) is Some),
{
    if tag2_at(input, pos, c0, c1) {
        proof {
            assert(input.len() == input@.len());
        }
        find_tag2(input, pos + 2, c0, c1).is_some()
    } else {
        false
    }
}

/// Some delimited form begins at `pos`, with a one-character delimiter.
fn delim1_at(input: &Vec<char>, pos: usize, c: char) -> (b: bool)
    requires
        pos <= input@.len(),
    ensures
        b == (spec_delimited(input@, pos as int, seq![c]) is Some),
{
    if tag1_at(input, pos, c) {
        proof {
            assert(input.len() == input@.len());
        }
        find_tag1(input, pos + 1, c).is_some()
    } else {
        false
    }
}

/// Some delimited form begins at `pos`: the exact stop condition of the
/// lazy text scan.
fn delim_at_exec(input: &Vec<char>, pos: usize) -> (b: bool)
    requires
        pos <= input@.len(),
    ensures
        b == delim_at(input@, pos as int),
{
    let strike = delim2_at(input, pos, '~', '~');
    let bold = delim2_at(input, pos, '*', '*');
    let ital = delim1_at(input, pos, '*');
    let equation = delim2_at(input, pos, '$', '$');
    strike || bold || ital || equation
}

/// Lexes one plain-text span beginning at `pos`: the text grows lazily and
/// stops at the first position where some delimited form would match, or at
/// the end of the input. Fails only when `pos` is already at the end.
pub fn parse_regular_text(input: &Vec<char>, pos: usize) -> (r: Option<(usize, Span)>)
    requires
        pos <= input@.len(),
    ensures
        match r {
            Some((p, sp)) => spec_parse_text(input@, pos as int) == Some((p as int, sp@)) && p
                <= input@.len(),
            None => spec_parse_text(input@, pos as int) is None,
        },
{
    if pos >= input.len() {
        return None;
    }
    let mut i: usize = pos;
    while i < input.len() && !delim_at_exec(input, i)
        invariant
            pos <= i <= input@.len(),
            text_end(input@, pos as int) == text_end(input@, i as int),
        decreases input@.len() - i,
    {
        proof {
            assert(text_end(input@, i as int) == text_end(input@, i as int + 1));
        }
        i = i + 1;
    }
    let content = sub_string(input, pos, i);
    Some((i, Span::Text(content)))
}

/// Lexes one span beginning at `pos`, trying the alternatives in priority
/// order: strikethrough, bold, italics, equation, then plain text. Fails
/// only at the end of the input; a successful parse advances the position.
pub fn parse_span_at(input: &Vec<char>, pos: usize) -> (r: Option<(usize, Span)>)
    requires
        pos <= input@.len(),
    ensures
        match r {
            Some((p, sp)) => spec_parse_span(input@, pos as int) == Some((p as int, sp@)) && pos
                < p <= input@.len(),
            None => pos == input@.len() && spec_parse_span(input@, pos as int) is None,
        },
{
    if let Some(r) = parse_strikethrough(input, pos) {
        return Some(r);
    }
    if let Some(r) = parse_bold(input, pos) {
        return Some(r);
    }
    if let Some(r) = parse_italics(input, pos) {
        return Some(r);
    }
    if let Some(r) = parse_equation(input, pos) {
        return Some(r);
    }
    match parse_regular_text(input, pos) {
        Some((p, sp)) => {
            proof {
                lemma_text_end_bounds(input@, pos as int + 1);
            }
            Some((p, sp))
        },
        None => None,
    }
}

/// Lexes a whole line of text into its ordered, non-empty sequence of
/// spans. Fails exactly on empty input, with `ParseError::EmptySpan`.
pub fn parse_string(input: &Vec<char>) -> (r: Result<Vec<Span>, ParseError>)
    ensures
        match r {
            Ok(spans) => input@.len() > 0 && spans_view(spans@) == spec_lex_spans(input@, 0)
                && spans@.len() > 0,
            Err(e) => input@.len() == 0 && e == ParseError::EmptySpan,
        },
{
    if input.len() == 0 {
        return Err(ParseError::EmptySpan);
    }
    let mut spans: Vec<Span> = Vec::new();
    let mut pos: usize = 0;
    while pos < input.len()
        invariant
            pos <= input@.len(),
            spans_view(spans@) + spec_lex_spans(input@, pos as int) == spec_lex_spans(input@, 0),
            spans@.len() > 0 || pos == 0,
        decreases input@.len() - pos,
    {
        let ghost prev = spans@;
        let ghost prev_pos = pos as int;
        match parse_span_at(input, pos) {
            Some((p, sp)) => {
                let ghost spv = sp@;
                spans.push(sp);
                pos = p;
                proof {
                    assert(spans_view(prev.push(sp)) =~= spans_view(prev).push(spv));
                    assert(spec_lex_spans(input@, prev_pos) == seq![spv] + spec_lex_spans(
                        input@,
                        pos as int,
                    ));
                    assert(spans_view(spans@) + spec_lex_spans(input@, pos as int)
                        =~= spans_view(prev) + spec_lex_spans(input@, prev_pos));
                }
            },
            None => {
                return Err(ParseError::EmptySpan);
            },
        }
    }
    proof {
        assert(spec_lex_spans(input@, pos as int) =~= Seq::<SpanView>::empty());
        assert(spans_view(spans@) =~= spans_view(spans@) + spec_lex_spans(input@, pos as int));
    }
    Ok(spans)
}

/// A copy of a span that is equal to the original.
pub fn clone_span(sp: &Span) -> (r: Span)
    ensures
        r == sp,
{
    match sp {
        Span::Bold(s) => Span::Bold(s.clone()),
        Span::Strikethrough(s) => Span::Strikethrough(s.clone()),
        Span::Italics(s) => Span::Italics(s.clone()),
        Span::Text(s) => Span::Text(s.clone()),
        Span::Equation(s) => Span::Equation(s.clone()),
    }
}

/// A copy of a span sequence that is equal to the original.
pub fn clone_spans(v: &Vec<Span>) -> (r: Vec<Span>)
    ensures
        r@ == v@,
{
    let mut r: Vec<Span> = Vec::new();
    let mut i: usize = 0;
    while i < v.len()
        invariant
            i <= v@.len(),
            r@ == v@.subrange(0, i as int),
        decreases v@.len() - i,
    {
        r.push(clone_span(&v[i]));
        i = i + 1;
        proof {
            assert(r@ =~= v@.subrange(0, i as int));
        }
    }
    proof {
        assert(v@.subrange(0, v@.len() as int) =~= v@);
    }
    r
}

/// Law: a line holding none of the delimiter characters lexes to exactly
/// one plain-text span equal to the whole line.
pub proof fn lemma_plain_text_single_span(s: Seq<char>)
    requires
        s.len() > 0,
        forall|i: int| 0 <= i < s.len() ==> s[i] != '*' && s[i] != '~' && s[i] != '$',
    ensures
        spec_lex_spans(s, 0) == seq![SpanView::Text(s)],
{
    assert forall|j: int| 0 <= j < s.len() implies !delim_at(s, j) by {
        if tag_at(s, j, strike_tag()) {
            assert(s.subrange(j, j + 2)[0] == s[j]);
        }
        if tag_at(s, j, bold_tag()) {
            assert(s.subrange(j, j + 2)[0] == s[j]);
        }
        if tag_at(s, j, italics_tag()) {
            assert(s.subrange(j, j + 1)[0] == s[j]);
        }
        if tag_at(s, j, equation_tag()) {
            assert(s.subrange(j, j + 2)[0] == s[j]);
        }
    }
    lemma_text_end_no_delims(s, 0);
    assert(s.subrange(0, s.len() as int) =~= s);
    assert(spec_lex_spans(s, s.len() as int) =~= Seq::<SpanView>::empty());
    assert(spec_lex_spans(s, 0) =~= seq![SpanView::Text(s)]);
}

/// When no delimited form begins at or after `pos`, the lazy text scan runs
/// to the end of the input.
proof fn lemma_text_end_no_delims(s: Seq<char>, pos: int)
    requires
        0 <= pos <= s.len(),
        forall|j: int| pos <= j < s.len() ==> !delim_at(s, j),
    ensures
        text_end(s, pos) == s.len(),
    decreases s.len() - pos,
{
    if pos < s.len() {
        lemma_text_end_no_delims(s, pos + 1);
    }
}

} // verus!
