//! The document grammar: a title line `# …` immediately followed by an
//! `AUTHOR=…` line, then zero or more slide sections, each a `## …` header
//! line followed by a slide body of blocks. Slides are taken until a
//! section fails to parse; the title and slide headers are span-lexed.

use vstd::prelude::*;

use crate::blockparse::{parse_block, spec_parse_blocks};
use crate::blocks::{blocks_view, Block, BlockView};
use crate::scan::{char_end, find_char, find_tag_str, tag_str_at};
use crate::spans::{
    find_tag, parse_string, spans_view, spec_lex_spans, sub_chars, sub_string, tag_at, Span,
    SpanView,
};
use crate::ParseError;

verus! {

/// The document header: the span-lexed title and the author's name.
#[derive(Debug, PartialEq)]
pub struct ParsedTitle {
    pub title: Vec<Span>,
    pub author: String,
}

/// The mathematical shape of a `ParsedTitle`.
pub struct ParsedTitleView {
    pub title: Seq<SpanView>,
    pub author: Seq<char>,
}

impl View for ParsedTitle {
    type V = ParsedTitleView;

    open spec fn view(&self) -> ParsedTitleView {
        ParsedTitleView { title: spans_view(self.title@), author: self.author@ }
    }
}

/// One slide section as parsed: its span-lexed header and its blocks, in
/// order, before postprocessing splits it further.
#[derive(Debug, PartialEq)]
pub struct ParsedSlide {
    pub title: Vec<Span>,
    pub contents: Vec<Block>,
}

/// The mathematical shape of a `ParsedSlide`.
pub struct ParsedSlideView {
    pub title: Seq<SpanView>,
    pub contents: Seq<BlockView>,
}

impl View for ParsedSlide {
    type V = ParsedSlideView;

    open spec fn view(&self) -> ParsedSlideView {
        ParsedSlideView { title: spans_view(self.title@), contents: blocks_view(self.contents@) }
    }
}

/// The views of a sequence of parsed slides.
pub open spec fn parsed_slides_view(slides: Seq<ParsedSlide>) -> Seq<ParsedSlideView> {
    slides.map_values(|sl: ParsedSlide| sl@)
}

/// A whole parsed document: the header and the slide sections in order.
#[derive(Debug, PartialEq)]
pub struct Document {
    pub first: ParsedTitle,
    pub slides: Vec<ParsedSlide>,
}

/// The mathematical shape of a `Document`.
pub struct DocumentView {
    pub first: ParsedTitleView,
    pub slides: Seq<ParsedSlideView>,
}

impl View for Document {
    type V = DocumentView;

    open spec fn view(&self) -> DocumentView {
        DocumentView { first: self.first@, slides: parsed_slides_view(self.slides@) }
    }
}

/// The document header: anything up to the first `#`, then `# `, the title
/// text to the end of the line, then `\nAUTHOR=` and the author's name to
/// the end of that line (not consumed). Fails when the header is malformed
/// or the title is empty.
pub open spec fn spec_parse_header(s: Seq<char>) -> Option<(int, ParsedTitleView)> {
    let h = char_end(s, 0, '#');
    if tag_at(s, h, "# "@) {
        let te = char_end(s, h + 2, '\n');
        if te > h + 2 && tag_at(s, te, "\nAUTHOR="@) {
            let ae = char_end(s, te + "\nAUTHOR="@.len(), '\n');
            Some(
                (
                    ae,
                    ParsedTitleView {
                        title: spec_lex_spans(s.subrange(h + 2, te), 0),
                        author: s.subrange(te + "\nAUTHOR="@.len(), ae),
                    },
                ),
            )
        } else {
            None
        }
    } else {
        None
    }
}

/// One slide section at `pos`: anything up to the first `##`, which must
/// open a `## ` header line; the header text is span-lexed and the body is
/// parsed as blocks. Fails when there is no further header, the header
/// lacks its space or its text is empty, or the body fails to parse.
pub open spec fn spec_parse_slide(s: Seq<char>, pos: int) -> Option<(int, ParsedSlideView)> {
    match find_tag(s, pos, "##"@) {
        None => None,
        Some(k) => {
            if tag_at(s, k, "## "@) {
                let te = char_end(s, k + 3, '\n');
                if te > k + 3 {
                    match spec_parse_blocks(s, te) {
                        Some((e, blocks)) => Some(
                            (
                                e,
                                ParsedSlideView {
                                    title: spec_lex_spans(s.subrange(k + 3, te), 0),
                                    contents: blocks,
                                },
                            ),
                        ),
                        None => None,
                    }
                } else {
                    None
                }
            } else {
                None
            }
        },
    }
}

/// The run of slide sections at `pos`: sections are taken until one fails
/// to parse; what follows the last section is left unread. The guard on the
/// recursion is always satisfied, since a successful slide parse advances
/// the position.
pub open spec fn spec_lex_slides(s: Seq<char>, pos: int) -> Seq<ParsedSlideView>
    decreases s.len() - pos,
{
    match spec_parse_slide(s, pos) {
        Some((p, slide)) => {
            if pos < p <= s.len() {
                seq![slide] + spec_lex_slides(s, p)
            } else {
                seq![slide]
            }
        },
        None => seq![],
    }
}

/// A whole document: the header, then the run of slide sections.
pub open spec fn spec_parse_document(s: Seq<char>) -> Option<DocumentView> {
    match spec_parse_header(s) {
        Some((p, first)) => {
            if 0 <= p <= s.len() {
                Some(DocumentView { first, slides: spec_lex_slides(s, p) })
            } else {
                None
            }
        },
        None => None,
    }
}

/// Parses the document header: the `# …` title line and the `AUTHOR=…`
/// line.
pub fn parse_start_header(input: &Vec<char>) -> (r: Option<(usize, ParsedTitle)>)
    ensures
        match r {
            Some((p, t)) => spec_parse_header(input@) == Some((p as int, t@)) && p <= input@.len(),
            None => spec_parse_header(input@) is None,
        },
{
    let h = find_char(input, 0, '#');
    if !tag_str_at(input, h, "# ") {
        return None;
    }
    proof {
        reveal_strlit("# ");
        assert(input.len() == input@.len());
    }
    let te = find_char(input, h + 2, '\n');
    if te <= h + 2 {
        return None;
    }
    if !tag_str_at(input, te, "\nAUTHOR=") {
        return None;
    }
    let n = "\nAUTHOR=".unicode_len();
    let ae = find_char(input, te + n, '\n');
    let title_text = sub_chars(input, h + 2, te);
    match parse_string(&title_text) {
        Ok(title) => {
            let author = sub_string(input, te + n, ae);
            Some((ae, ParsedTitle { title, author }))
        },
        Err(_) => None,
    }
}

/// Parses one slide section: the `## …` header line and the block run that
/// forms its body.
pub fn parse_slide(input: &Vec<char>, pos: usize) -> (r: Option<(usize, ParsedSlide)>)
    requires
        pos <= input@.len(),
    ensures
        match r {
            Some((p, sl)) => spec_parse_slide(input@, pos as int) == Some((p as int, sl@)) && pos
                < p <= input@.len(),
            None => spec_parse_slide(input@, pos as int) is None,
        },
{
    let k = match find_tag_str(input, pos, "##") {
        Some(k) => k,
        None => {
            return None;
        },
    };
    if !tag_str_at(input, k, "## ") {
        return None;
    }
    proof {
        reveal_strlit("##");
        reveal_strlit("## ");
        assert(input.len() == input@.len());
    }
    let te = find_char(input, k + 3, '\n');
    if te <= k + 3 {
        return None;
    }
    let title_text = sub_chars(input, k + 3, te);
    let title = match parse_string(&title_text) {
        Ok(title) => title,
        Err(_) => {
            return None;
        },
    };
    match parse_block(input, te) {
        Ok((e, contents)) => Some((e, ParsedSlide { title, contents })),
        Err(_) => None,
    }
}

/// Parses a whole document from its characters: the header, then slide
/// sections taken until one fails to parse. Fails exactly when the header
/// is malformed.
pub fn inner_parse(input: &Vec<char>) -> (r: Result<Document, ParseError>)
    ensures
        match r {
            Ok(d) => spec_parse_document(input@) == Some(d@),
            Err(e) => spec_parse_document(input@) is None && e == ParseError::BadStructure,
        },
{
    let ghost s = input@;
    let (p0, first) = match parse_start_header(input) {
        Some(r) => r,
        None => {
            return Err(ParseError::BadStructure);
        },
    };
    let mut slides: Vec<ParsedSlide> = Vec::new();
    let ghost mut acc: Seq<ParsedSlideView> = Seq::empty();
    let mut cur: usize = p0;
    let mut done = false;
    proof {
        assert(parsed_slides_view(slides@) =~= acc);
        assert(spec_lex_slides(s, p0 as int) =~= acc + spec_lex_slides(s, cur as int));
    }
    while !done
        invariant
            p0 <= cur <= input@.len(),
            input@.len() == input.len(),
            s == input@,
            slides@.len() == acc.len(),
            parsed_slides_view(slides@) == acc,
            spec_lex_slides(s, p0 as int) == acc + spec_lex_slides(s, cur as int),
            done ==> spec_lex_slides(s, cur as int) == Seq::<ParsedSlideView>::empty(),
        decreases input@.len() - cur + (if done { 0int } else { 1int }),
    {
        match parse_slide(input, cur) {
            Some((p, sl)) => {
                let ghost prev = acc;
                let ghost prev_slides = slides@;
                let ghost slv = sl@;
                proof {
                    assert(spec_lex_slides(s, cur as int) == seq![slv] + spec_lex_slides(
                        s,
                        p as int,
                    ));
                    acc = acc + seq![slv];
                    assert(prev + (seq![slv] + spec_lex_slides(s, p as int)) =~= acc
                        + spec_lex_slides(s, p as int));
                }
                slides.push(sl);
                proof {
                    assert forall|j: int| 0 <= j < slides@.len() implies parsed_slides_view(
                        slides@,
                    )[j] == acc[j] by {
                        if j < slides@.len() - 1 {
                            assert(parsed_slides_view(prev_slides)[j] == prev[j]);
                        }
                    }
                    assert(parsed_slides_view(slides@) =~= acc);
                }
                cur = p;
            },
            None => {
                proof {
                    assert(spec_lex_slides(s, cur as int) =~= Seq::<ParsedSlideView>::empty());
                    assert(acc + Seq::<ParsedSlideView>::empty() =~= acc);
                }
                done = true;
            },
        }
    }
    proof {
        assert(spec_lex_slides(s, p0 as int) =~= acc);
    }
    Ok(Document { first, slides })
}

/// The characters of a string, as a vector.
pub fn str_chars(text: &str) -> (r: Vec<char>)
    ensures
        r@ == text@,
{
    let n = text.unicode_len();
    let mut r: Vec<char> = Vec::new();
    let mut i: usize = 0;
    while i < n
        invariant
            i <= n,
            n == text@.len(),
            r@ == text@.subrange(0, i as int),
        decreases n - i,
    {
        r.push(text.get_char(i));
        i = i + 1;
        proof {
            assert(r@ =~= text@.subrange(0, i as int));
        }
    }
    proof {
        assert(text@.subrange(0, text@.len() as int) =~= text@);
    }
    r
}

/// Parses a whole document from source text. Fails exactly when the
/// title/author header is malformed; slide sections after the header are
/// taken until one fails to parse, and anything after them is ignored.
pub fn parse_markdown(text: &str) -> (r: Result<Document, ParseError>)
    ensures
        match r {
            Ok(d) => spec_parse_document(text@) == Some(d@),
            Err(e) => spec_parse_document(text@) is None && e == ParseError::BadStructure,
        },
{
    let chars = str_chars(text);
    inner_parse(&chars)
}

} // verus!
