//! The block grammar: a slide body is a run of blocks, each tried in fixed
//! priority order — slide-break directive, picture, bulleted list, fenced
//! code, then paragraph as the fallback. Scanning stops at the end of the
//! input or just before the next slide header, which is left unconsumed.

use vstd::arithmetic::div_mod::{lemma_div_multiples_vanish_fancy, lemma_fundamental_div_mod};
use vstd::prelude::*;

use crate::blocks::{
    blocks_view, Block, BlockView, Code, CodeView, Directive, ParsePicture, ParsePictureView,
    PictureDirective, PictureDirectiveView,
};
use crate::bullets::{
    flat_view, indent_end, indent_units, spec_collect, spec_lex_bullets, spec_parse_bullet_item,
    collect_bullet_items,
};
use crate::scan::{
    char_end, find_char, find_tag_str, skip_nl, skip_nl_exec, skip_ws, skip_ws_exec, tag_str_at,
};
use crate::spans::{
    find_tag, parse_string, spec_lex_spans, sub_chars, sub_string, tag_at, SpanView,
};
use crate::ParseError;

verus! {

/// A slide-break directive at `pos`: any run of newlines, then the marker.
pub open spec fn spec_parse_directive(s: Seq<char>, pos: int) -> Option<(int, BlockView)> {
    let p = skip_nl(s, pos);
    if tag_at(s, p, "%NEWSLIDE"@) {
        Some((p + "%NEWSLIDE"@.len(), BlockView::Directive(Directive::NewSlide)))
    } else {
        None
    }
}

/// Where a paragraph beginning at `pos` stops: at the first blank line or
/// slide-header lookahead, or at the end of the input.
pub open spec fn para_end(s: Seq<char>, pos: int) -> int
    decreases s.len() - pos,
{
    if pos < 0 || pos >= s.len() {
        s.len() as int
    } else if tag_at(s, pos, "\n\n"@) || tag_at(s, pos, "\n##"@) {
        pos
    } else {
        para_end(s, pos + 1)
    }
}

/// A paragraph at `pos`: span-lexed text running to the next blank line,
/// slide-header lookahead or end of input, whichever comes first; the
/// terminator is not consumed. Fails only on an empty run of text.
pub open spec fn spec_parse_paragraph(s: Seq<char>, pos: int) -> Option<(int, BlockView)> {
    let e = para_end(s, pos);
    if e > pos {
        Some((e, BlockView::Paragraph(spec_lex_spans(s.subrange(pos, e), 0))))
    } else {
        None
    }
}

/// A fenced code block at `pos`: any run of newlines, the opening fence,
/// a language tag running to the end of that line, then the verbatim body
/// up to the closing fence.
pub open spec fn spec_parse_code(s: Seq<char>, pos: int) -> Option<(int, BlockView)> {
    let p = skip_nl(s, pos);
    if tag_at(s, p, "```"@) {
        let le = char_end(s, p + 3, '\n');
        if le < s.len() {
            match find_tag(s, le + 1, "```"@) {
                Some(k) => Some(
                    (
                        k + 3,
                        BlockView::Code(
                            CodeView {
                                language: s.subrange(p + 3, le),
                                text: s.subrange(le + 1, k),
                            },
                        ),
                    ),
                ),
                None => None,
            }
        } else {
            None
        }
    } else {
        None
    }
}

/// One picture layout directive at `pos`: optional whitespace, then the
/// orientation marker, or a width or height override whose value runs to
/// the end of the line (the newline is required and not consumed).
pub open spec fn spec_parse_pic_directive(s: Seq<char>, pos: int) -> Option<
    (int, PictureDirectiveView),
> {
    let p = skip_ws(s, pos);
    if tag_at(s, p, "%VERTICAL"@) {
        Some((p + "%VERTICAL"@.len(), PictureDirectiveView::Vertical))
    } else if tag_at(s, p, "%WIDTH="@) {
        match find_tag(s, p + "%WIDTH="@.len(), "\n"@) {
            Some(k) => Some((k, PictureDirectiveView::Width(s.subrange(p + "%WIDTH="@.len(), k)))),
            None => None,
        }
    } else if tag_at(s, p, "%HEIGHT="@) {
        match find_tag(s, p + "%HEIGHT="@.len(), "\n"@) {
            Some(k) => Some(
                (k, PictureDirectiveView::Height(s.subrange(p + "%HEIGHT="@.len(), k))),
            ),
            None => None,
        }
    } else {
        None
    }
}

/// The run of picture layout directives at `pos`: directives are taken
/// greedily until a line matches none of them. Yields the position after
/// the last directive and the directives in order. The guard on the
/// recursion is always satisfied, since a successful directive parse
/// advances the position.
pub open spec fn spec_lex_pic_directives(s: Seq<char>, pos: int) -> (
    int,
    Seq<PictureDirectiveView>,
)
    decreases s.len() - pos,
{
    match spec_parse_pic_directive(s, pos) {
        Some((p2, d)) => {
            if pos < p2 <= s.len() {
                let rest = spec_lex_pic_directives(s, p2);
                (rest.0, seq![d] + rest.1)
            } else {
                (p2, seq![d])
            }
        },
        None => (pos, seq![]),
    }
}

/// A picture at `pos`: `![caption](path)` followed by zero or more layout
/// directive lines. An empty caption means no caption; an empty directive
/// run means no directive list.
pub open spec fn spec_parse_picture(s: Seq<char>, pos: int) -> Option<(int, BlockView)> {
    if tag_at(s, pos, "!["@) {
        let ce = char_end(s, pos + 2, ']');
        if tag_at(s, ce, "]("@) {
            let pe = char_end(s, ce + 2, ')');
            if pe < s.len() {
                let d = spec_lex_pic_directives(s, pe + 1);
                let caption = s.subrange(pos + 2, ce);
                Some(
                    (
                        d.0,
                        BlockView::Picture(
                            ParsePictureView {
                                path: s.subrange(ce + 2, pe),
                                caption: if caption.len() == 0 {
                                    None
                                } else {
                                    Some(caption)
                                },
                                directive: if d.1.len() == 0 {
                                    None
                                } else {
                                    Some(d.1)
                                },
                            },
                        ),
                    ),
                )
            } else {
                None
            }
        } else {
            None
        }
    } else {
        None
    }
}

/// The `(level, spans)` pairs of a flat bullet run, as flat tree input.
pub open spec fn bullets_to_flat(items: Seq<(int, Seq<SpanView>)>) -> Seq<
    (int, crate::blocks::BulletItemView),
> {
    items.map_values(
        |p: (int, Seq<SpanView>)| (p.0, crate::blocks::BulletItemView::Single(p.1)),
    )
}

/// A bulleted list at `pos`: at least one bullet line, the flat run folded
/// into a nested tree rooted at level zero.
pub open spec fn spec_parse_bullets_block(s: Seq<char>, pos: int) -> Option<(int, BlockView)> {
    let lb = spec_lex_bullets(s, pos);
    if lb.1.len() > 0 {
        Some((lb.0, BlockView::BulletedList(spec_collect(bullets_to_flat(lb.1), 0, 0))))
    } else {
        None
    }
}

/// One block at `pos` (whitespace already skipped), trying the alternatives
/// in priority order: directive, picture, bulleted list, code, paragraph.
pub open spec fn spec_parse_block_at(s: Seq<char>, pos: int) -> Option<(int, BlockView)> {
    if spec_parse_directive(s, pos) is Some {
        spec_parse_directive(s, pos)
    } else if spec_parse_picture(s, pos) is Some {
        spec_parse_picture(s, pos)
    } else if spec_parse_bullets_block(s, pos) is Some {
        spec_parse_bullets_block(s, pos)
    } else if spec_parse_code(s, pos) is Some {
        spec_parse_code(s, pos)
    } else {
        spec_parse_paragraph(s, pos)
    }
}

/// The run of blocks forming a slide body at `pos`. Each attempt first
/// skips whitespace; scanning ends cleanly just before a slide-header
/// lookahead or at the end of the input, and fails if a block attempt fails
/// anywhere else. The guard on the recursion is always satisfied, since a
/// successful block parse advances the position.
pub open spec fn spec_parse_blocks(s: Seq<char>, pos: int) -> Option<(int, Seq<BlockView>)>
    decreases s.len() - pos,
{
    let p = skip_ws(s, pos);
    if p >= s.len() || tag_at(s, p, "##"@) {
        Some((p, seq![]))
    } else {
        match spec_parse_block_at(s, p) {
            Some((p2, b)) => {
                if pos < p2 <= s.len() {
                    match spec_parse_blocks(s, p2) {
                        Some((e, rest)) => Some((e, seq![b] + rest)),
                        None => None,
                    }
                } else {
                    None
                }
            },
            None => None,
        }
    }
}

/// Parses a slide-break directive line.
pub fn parse_as_directive(input: &Vec<char>, pos: usize) -> (r: Option<(usize, Block)>)
    requires
        pos <= input@.len(),
    ensures
        match r {
            Some((p, b)) => spec_parse_directive(input@, pos as int) == Some((p as int, b@)) && pos
                < p <= input@.len(),
            None => spec_parse_directive(input@, pos as int) is None,
        },
{
    let p = skip_nl_exec(input, pos);
    if tag_str_at(input, p, "%NEWSLIDE") {
        let n = "%NEWSLIDE".unicode_len();
        proof {
            assert(input.len() == input@.len());
            reveal_strlit("%NEWSLIDE");
        }
        Some((p + n, Block::Directive(Directive::NewSlide)))
    } else {
        None
    }
}

/// Scans for the nearest paragraph terminator: a blank line or a
/// slide-header lookahead.
fn find_para_end(input: &Vec<char>, pos: usize) -> (r: usize)
    requires
        pos <= input@.len(),
    ensures
        r == para_end(input@, pos as int),
        pos <= r <= input@.len(),
{
    let mut i: usize = pos;
    while i < input.len() && !tag_str_at(input, i, "\n\n") && !tag_str_at(input, i, "\n##")
        invariant
            pos <= i <= input@.len(),
            para_end(input@, pos as int) == para_end(input@, i as int),
        decreases input@.len() - i,
    {
        proof {
            assert(para_end(input@, i as int) == para_end(input@, i as int + 1));
        }
        i = i + 1;
    }
    i
}

/// Parses a paragraph: text up to the next blank line, slide-header
/// lookahead or end of input, lexed into spans.
pub fn parse_block_as_paragraph(input: &Vec<char>, pos: usize) -> (r: Option<(usize, Block)>)
    requires
        pos <= input@.len(),
    ensures
        match r {
            Some((p, b)) => spec_parse_paragraph(input@, pos as int) == Some((p as int, b@)) && pos
                < p <= input@.len(),
            None => spec_parse_paragraph(input@, pos as int) is None,
        },
{
    let e = find_para_end(input, pos);
    if e > pos {
        let text = sub_chars(input, pos, e);
        match parse_string(&text) {
            Ok(spans) => Some((e, Block::Paragraph(spans))),
            Err(_) => None,
        }
    } else {
        None
    }
}

/// The header of a fenced code block: the language tag named on the
/// opening fence line.
#[derive(Debug, PartialEq, Clone)]
pub struct CodeHeader {
    pub language: String,
}

/// Parses the opening fence line of a code block: the fence, a language
/// tag running to the end of the line, and the newline that ends it.
/// Yields the position where the code body starts.
pub fn code_block_header(input: &Vec<char>, pos: usize) -> (r: Option<(usize, CodeHeader)>)
    requires
        pos <= input@.len(),
    ensures
        match r {
            Some((p, h)) => ({
                &&& tag_at(input@, pos as int, "```"@)
                &&& char_end(input@, pos as int + 3, '\n') < input@.len()
                &&& p == char_end(input@, pos as int + 3, '\n') + 1
                &&& h.language@ == input@.subrange(
                    pos as int + 3,
                    char_end(input@, pos as int + 3, '\n'),
                )
                &&& pos < p <= input@.len()
            }),
            None => !tag_at(input@, pos as int, "```"@) || char_end(input@, pos as int + 3, '\n')
                >= input@.len(),
        },
{
    if !tag_str_at(input, pos, "```") {
        return None;
    }
    proof {
        assert(input.len() == input@.len());
        reveal_strlit("```");
    }
    let le = find_char(input, pos + 3, '\n');
    if le < input.len() {
        let language = sub_string(input, pos + 3, le);
        Some((le + 1, CodeHeader { language }))
    } else {
        None
    }
}

/// Parses a fenced code block: any run of newlines, the opening fence line,
/// then the verbatim body up to the closing fence.
pub fn parse_as_code(input: &Vec<char>, pos: usize) -> (r: Option<(usize, Block)>)
    requires
        pos <= input@.len(),
    ensures
        match r {
            Some((p, b)) => spec_parse_code(input@, pos as int) == Some((p as int, b@)) && pos < p
                <= input@.len(),
            None => spec_parse_code(input@, pos as int) is None,
        },
{
    let p = skip_nl_exec(input, pos);
    match code_block_header(input, p) {
        None => None,
        Some((code_start, header)) => {
            match find_tag_str(input, code_start, "```") {
                Some(k) => {
                    proof {
                        reveal_strlit("```");
                        assert(input.len() == input@.len());
                    }
                    let text = sub_string(input, code_start, k);
                    Some((k + 3, Block::Code(Code::new(text, header.language))))
                },
                None => None,
            }
        },
    }
}

/// Parses one picture layout directive line.
pub fn picture_directive(input: &Vec<char>, pos: usize) -> (r: Option<(usize, PictureDirective)>)
    requires
        pos <= input@.len(),
    ensures
        match r {
            Some((p, d)) => spec_parse_pic_directive(input@, pos as int) == Some((p as int, d@))
                && pos < p <= input@.len(),
            None => spec_parse_pic_directive(input@, pos as int) is None,
        },
{
    let p = skip_ws_exec(input, pos);
    proof {
        assert(input.len() == input@.len());
    }
    if tag_str_at(input, p, "%VERTICAL") {
        let n = "%VERTICAL".unicode_len();
        proof {
            reveal_strlit("%VERTICAL");
        }
        Some((p + n, PictureDirective::Vertical))
    } else if tag_str_at(input, p, "%WIDTH=") {
        let n = "%WIDTH=".unicode_len();
        proof {
            reveal_strlit("%WIDTH=");
        }
        match find_tag_str(input, p + n, "\n") {
            Some(k) => {
                let value = sub_string(input, p + n, k);
                Some((k, PictureDirective::Width(value)))
            },
            None => None,
        }
    } else if tag_str_at(input, p, "%HEIGHT=") {
        let n = "%HEIGHT=".unicode_len();
        proof {
            reveal_strlit("%HEIGHT=");
        }
        match find_tag_str(input, p + n, "\n") {
            Some(k) => {
                let value = sub_string(input, p + n, k);
                Some((k, PictureDirective::Height(value)))
            },
            None => None,
        }
    } else {
        None
    }
}

/// Parses one bullet line: leading indentation, the `* ` marker, then
/// span-lexed text running to the end of the line. The indentation level
/// counts one unit per leading space and four per tab, divided by four and
/// floored.
pub fn parse_bullet_item(input: &Vec<char>, pos: usize) -> (r: Option<
    (usize, (usize, crate::blocks::BulletItem)),
>)
    requires
        pos <= input@.len(),
    ensures
        match r {
            Some((p, lb)) => {
                &&& spec_parse_bullet_item(input@, pos as int) == Some(
                    (p as int, lb.0 as int, spec_lex_spans_of_bullet(input@, pos as int)),
                )
                &&& lb.1@ == crate::blocks::BulletItemView::Single(
                    spec_lex_spans_of_bullet(input@, pos as int),
                )
                &&& pos < p <= input@.len()
            },
            None => spec_parse_bullet_item(input@, pos as int) is None,
        },
{
    let ghost s = input@;
    let mut i: usize = pos;
    let mut spaces: usize = 0;
    let mut tabs: usize = 0;
    while i < input.len() && (input[i] == ' ' || input[i] == '\t')
        invariant
            pos <= i <= input@.len(),
            input@.len() == input.len(),
            indent_end(input@, pos as int) == indent_end(input@, i as int),
            spaces + tabs == i - pos,
            indent_units(input@, pos as int) == spaces + 4 * tabs + indent_units(
                input@,
                i as int,
            ),
        decreases input@.len() - i,
    {
        proof {
            assert(indent_end(input@, i as int) == indent_end(input@, i as int + 1));
        }
        if input[i] == ' ' {
            spaces = spaces + 1;
        } else {
            tabs = tabs + 1;
        }
        i = i + 1;
    }
    proof {
        assert(indent_units(input@, i as int) == 0);
        assert(indent_end(input@, pos as int) == i);
    }
    let level = tabs + spaces / 4;
    proof {
        lemma_fundamental_div_mod(spaces as int, 4);
        assert(spaces as int + 4 * tabs as int == 4 * (tabs as int + spaces as int / 4)
            + spaces as int % 4);
        lemma_div_multiples_vanish_fancy(
            tabs as int + spaces as int / 4,
            spaces as int % 4,
            4,
        );
        assert(indent_units(input@, pos as int) / 4 == level as int);
    }
    if !tag_str_at(input, i, "* ") {
        return None;
    }
    proof {
        reveal_strlit("* ");
    }
    let te = find_char(input, i + 2, '\n');
    if te > i + 2 {
        let text = sub_chars(input, i + 2, te);
        match parse_string(&text) {
            Ok(spans) => Some((te, (level, crate::blocks::BulletItem::Single(spans)))),
            Err(_) => None,
        }
    } else {
        None
    }
}

/// The spans of the bullet line at `pos`: the text between the marker and
/// the end of the line, span-lexed.
pub open spec fn spec_lex_spans_of_bullet(s: Seq<char>, pos: int) -> Seq<SpanView> {
    let ie = indent_end(s, pos);
    let te = char_end(s, ie + 2, '\n');
    spec_lex_spans(s.subrange(ie + 2, te), 0)
}

/// Parses a bulleted list: one or more bullet lines, each preceded by any
/// number of newlines, the flat run then folded into a nested tree rooted
/// at level zero.
pub fn parse_block_as_bullets(input: &Vec<char>, pos: usize) -> (r: Option<(usize, Block)>)
    requires
        pos <= input@.len(),
    ensures
        match r {
            Some((p, b)) => spec_parse_bullets_block(input@, pos as int) == Some((p as int, b@))
                && pos < p <= input@.len(),
            None => spec_parse_bullets_block(input@, pos as int) is None,
        },
{
    let ghost s = input@;
    let mut flat: Vec<(usize, crate::blocks::BulletItem)> = Vec::new();
    let ghost mut acc: Seq<(int, Seq<SpanView>)> = Seq::empty();
    let mut cur: usize = pos;
    let mut done = false;
    proof {
        assert(flat_view(flat@) =~= bullets_to_flat(acc));
        assert(spec_lex_bullets(s, pos as int).1 =~= acc + spec_lex_bullets(s, pos as int).1);
    }
    while !done
        invariant
            pos <= cur <= input@.len(),
            input@.len() == input.len(),
            s == input@,
            flat@.len() == acc.len(),
            flat_view(flat@) == bullets_to_flat(acc),
            spec_lex_bullets(s, pos as int).0 == spec_lex_bullets(s, cur as int).0,
            spec_lex_bullets(s, pos as int).1 == acc + spec_lex_bullets(s, cur as int).1,
            acc.len() > 0 ==> pos < cur,
            done ==> spec_lex_bullets(s, cur as int).1 == Seq::<(int, Seq<SpanView>)>::empty()
                && spec_lex_bullets(s, cur as int).0 == cur as int,
        decreases input@.len() - cur + (if done { 0int } else { 1int }),
    {
        let p1 = skip_nl_exec(input, cur);
        match parse_bullet_item(input, p1) {
            Some((p2, lb)) => {
                let ghost spans = spec_lex_spans_of_bullet(s, p1 as int);
                let ghost prev = acc;
                let ghost prev_flat = flat@;
                let ghost lbv = (lb.0 as int, lb.1@);
                proof {
                    assert(spec_lex_bullets(s, cur as int) == (
                        spec_lex_bullets(s, p2 as int).0,
                        seq![(lb.0 as int, spans)] + spec_lex_bullets(s, p2 as int).1,
                    ));
                    acc = acc + seq![(lb.0 as int, spans)];
                    assert(prev + (seq![(lb.0 as int, spans)] + spec_lex_bullets(
                        s,
                        p2 as int,
                    ).1) =~= acc + spec_lex_bullets(s, p2 as int).1);
                }
                flat.push(lb);
                proof {
                    assert(flat@ == prev_flat.push((lbv.0 as usize, flat@.last().1)));
                    assert(flat@.last().1@ == crate::blocks::BulletItemView::Single(spans));
                    assert forall|k: int| 0 <= k < flat@.len() implies flat_view(flat@)[k]
                        == bullets_to_flat(acc)[k] by {
                        if k < flat@.len() - 1 {
                            assert(flat_view(prev_flat)[k] == bullets_to_flat(prev)[k]);
                        }
                    }
                    assert(flat_view(flat@) =~= bullets_to_flat(acc));
                }
                cur = p2;
            },
            None => {
                proof {
                    assert(spec_lex_bullets(s, cur as int) == (
                        cur as int,
                        Seq::<(int, Seq<SpanView>)>::empty(),
                    ));
                    assert(acc + Seq::<(int, Seq<SpanView>)>::empty() =~= acc);
                }
                done = true;
            },
        }
    }
    proof {
        assert(spec_lex_bullets(s, pos as int).1 =~= acc);
    }
    if flat.len() == 0 {
        return None;
    }
    let ghost fv = flat_view(flat@);
    let mut organized: Vec<crate::blocks::BulletItem> = Vec::new();
    collect_bullet_items(&mut flat, &mut organized, 0);
    proof {
        assert(crate::blocks::bullet_items_view(Seq::<crate::blocks::BulletItem>::empty())
            == Seq::<crate::blocks::BulletItemView>::empty());
        assert(crate::blocks::bullet_items_view(organized@) =~= spec_collect(
            bullets_to_flat(acc),
            0,
            0,
        ));
    }
    Some((cur, Block::BulletedList(organized)))
}

/// Parses a picture: `![caption](path)` followed by zero or more layout
/// directive lines, taken greedily.
pub fn parse_block_as_picture(input: &Vec<char>, pos: usize) -> (r: Option<(usize, Block)>)
    requires
        pos <= input@.len(),
    ensures
        match r {
            Some((p, b)) => spec_parse_picture(input@, pos as int) == Some((p as int, b@)) && pos
                < p <= input@.len(),
            None => spec_parse_picture(input@, pos as int) is None,
        },
{
    let ghost s = input@;
    if !tag_str_at(input, pos, "![") {
        return None;
    }
    proof {
        reveal_strlit("![");
        assert(input.len() == input@.len());
    }
    let ce = find_char(input, pos + 2, ']');
    if !tag_str_at(input, ce, "](") {
        return None;
    }
    proof {
        reveal_strlit("](");
    }
    let pe = find_char(input, ce + 2, ')');
    if pe >= input.len() {
        return None;
    }
    let mut dirs: Vec<PictureDirective> = Vec::new();
    let ghost mut acc: Seq<PictureDirectiveView> = Seq::empty();
    let mut cur: usize = pe + 1;
    let mut done = false;
    proof {
        assert(crate::blocks::directives_view(dirs@) =~= acc);
        assert(spec_lex_pic_directives(s, cur as int).1 =~= acc + spec_lex_pic_directives(
            s,
            cur as int,
        ).1);
    }
    while !done
        invariant
            pe + 1 <= cur <= input@.len(),
            input@.len() == input.len(),
            s == input@,
            dirs@.len() == acc.len(),
            crate::blocks::directives_view(dirs@) == acc,
            spec_lex_pic_directives(s, pe + 1 as int).0 == spec_lex_pic_directives(
                s,
                cur as int,
            ).0,
            spec_lex_pic_directives(s, pe + 1 as int).1 == acc + spec_lex_pic_directives(
                s,
                cur as int,
            ).1,
            done ==> spec_lex_pic_directives(s, cur as int).1
                == Seq::<PictureDirectiveView>::empty() && spec_lex_pic_directives(
                s,
                cur as int,
            ).0 == cur as int,
        decreases input@.len() - cur + (if done { 0int } else { 1int }),
    {
        match picture_directive(input, cur) {
            Some((p2, d)) => {
                let ghost prev = acc;
                let ghost dv = d@;
                proof {
                    assert(spec_lex_pic_directives(s, cur as int) == (
                        spec_lex_pic_directives(s, p2 as int).0,
                        seq![dv] + spec_lex_pic_directives(s, p2 as int).1,
                    ));
                    acc = acc + seq![dv];
                    assert(prev + (seq![dv] + spec_lex_pic_directives(s, p2 as int).1)
                        =~= acc + spec_lex_pic_directives(s, p2 as int).1);
                }
                dirs.push(d);
                proof {
                    assert(crate::blocks::directives_view(dirs@) =~= acc);
                }
                cur = p2;
            },
            None => {
                proof {
                    assert(spec_lex_pic_directives(s, cur as int) == (
                        cur as int,
                        Seq::<PictureDirectiveView>::empty(),
                    ));
                    assert(acc + Seq::<PictureDirectiveView>::empty() =~= acc);
                }
                done = true;
            },
        }
    }
    proof {
        assert(spec_lex_pic_directives(s, pe + 1 as int).1 =~= acc);
    }
    let caption = if ce == pos + 2 {
        None
    } else {
        Some(sub_string(input, pos + 2, ce))
    };
    let path = sub_string(input, ce + 2, pe);
    let directive = if dirs.len() == 0 {
        None
    } else {
        Some(dirs)
    };
    let pic = ParsePicture { path, caption, directive };
    Some((cur, Block::Picture(pic)))
}

/// Parses one block at `pos` (whitespace already skipped), trying the
/// alternatives in priority order: directive, picture, bulleted list,
/// code, paragraph.
pub fn parse_block_at(input: &Vec<char>, pos: usize) -> (r: Option<(usize, Block)>)
    requires
        pos <= input@.len(),
    ensures
        match r {
            Some((p, b)) => spec_parse_block_at(input@, pos as int) == Some((p as int, b@)) && pos
                < p <= input@.len(),
            None => spec_parse_block_at(input@, pos as int) is None,
        },
{
    if let Some(r) = parse_as_directive(input, pos) {
        return Some(r);
    }
    if let Some(r) = parse_block_as_picture(input, pos) {
        return Some(r);
    }
    if let Some(r) = parse_block_as_bullets(input, pos) {
        return Some(r);
    }
    if let Some(r) = parse_as_code(input, pos) {
        return Some(r);
    }
    parse_block_as_paragraph(input, pos)
}

/// The lookahead that ends a slide body: a slide header `##` begins at
/// `pos`. Nothing is consumed.
pub fn is_start_header(input: &Vec<char>, pos: usize) -> (r: bool)
    ensures
        r == tag_at(input@, pos as int, "##"@),
{
    tag_str_at(input, pos, "##")
}

/// Glues a run of already-parsed blocks onto the outcome of parsing the
/// remainder.
pub open spec fn prepend_blocks(acc: Seq<BlockView>, r: Option<(int, Seq<BlockView>)>) -> Option<
    (int, Seq<BlockView>),
> {
    match r {
        Some((e, rest)) => Some((e, acc + rest)),
        None => None,
    }
}

/// Parses the run of blocks forming a slide body. Scanning ends cleanly at
/// the end of the input or just before a slide-header lookahead, which is
/// not consumed; it fails if some block attempt fails anywhere else.
pub fn parse_block(input: &Vec<char>, pos: usize) -> (r: Result<(usize, Vec<Block>), ParseError>)
    requires
        pos <= input@.len(),
    ensures
        match r {
            Ok((p, blocks)) => spec_parse_blocks(input@, pos as int) == Some(
                (p as int, blocks_view(blocks@)),
            ) && pos <= p <= input@.len(),
            Err(e) => spec_parse_blocks(input@, pos as int) is None && e
                == ParseError::BadStructure,
        },
{
    let ghost s = input@;
    let mut out: Vec<Block> = Vec::new();
    let mut cur: usize = pos;
    proof {
        assert(blocks_view(out@) =~= Seq::<BlockView>::empty());
    }
    loop
        invariant
            pos <= cur <= input@.len(),
            input@.len() == input.len(),
            s == input@,
            spec_parse_blocks(s, pos as int) == prepend_blocks(
                blocks_view(out@),
                spec_parse_blocks(s, cur as int),
            ),
        decreases input@.len() - cur,
    {
        let p = skip_ws_exec(input, cur);
        let at_end = p >= input.len();
        let at_header = if at_end {
            false
        } else {
            is_start_header(input, p)
        };
        if at_end || at_header {
            proof {
                assert(spec_parse_blocks(s, cur as int) == Some(
                    (p as int, Seq::<BlockView>::empty()),
                ));
                assert(blocks_view(out@) + Seq::<BlockView>::empty() =~= blocks_view(out@));
            }
            return Ok((p, out));
        }
        match parse_block_at(input, p) {
            Some((p2, b)) => {
                let ghost prev = out@;
                let ghost bv = b@;
                proof {
                    assert(spec_parse_blocks(s, cur as int) == prepend_blocks(
                        seq![bv],
                        spec_parse_blocks(s, p2 as int),
                    ));
                }
                out.push(b);
                cur = p2;
                proof {
                    assert(blocks_view(out@) =~= blocks_view(prev) + seq![bv]);
                    assert forall|rest: Seq<BlockView>|
                        true implies (blocks_view(prev) + (seq![bv] + rest)) == (blocks_view(
                        out@,
                    ) + rest) by {
                        assert(blocks_view(prev) + (seq![bv] + rest) =~= blocks_view(out@)
                            + rest);
                    }
                }
            },
            None => {
                return Err(ParseError::BadStructure);
            },
        }
    }
}


} // verus!
