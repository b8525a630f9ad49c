//! The postprocessor: each parsed slide's block run is split into one or
//! more output units at slide-break directives, and every unit is
//! classified into a rendering mode by whether it holds pictures. On a
//! split, the content gathered so far is carried forward into the next
//! unit, so each unit holds every non-directive block seen before its
//! break; the final unit holds them all. Only the first picture of a mixed
//! or all-picture unit is kept — the others are dropped by design.

use vstd::prelude::*;

use crate::blocks::{blocks_view, clone_block, clone_blocks, Block, BlockView, ParsePictureView};
use crate::data::{
    slides_view, spec_picture_of, ContentOptions, ContentOptionsView, Picture, Presentation,
    PresentationView, Slide, SlideView, Title,
};
use crate::document::{parsed_slides_view, Document, DocumentView, ParsedSlide, ParsedSlideView};
use crate::spans::{clone_spans, spans_view, Span};

verus! {

/// How many slide-break directives a block run holds.
pub open spec fn count_directives(blocks: Seq<BlockView>) -> int
    decreases blocks.len(),
{
    if blocks.len() == 0 {
        0
    } else {
        (if blocks[0] is Directive {
            1int
        } else {
            0int
        }) + count_directives(blocks.drop_first())
    }
}

/// The units a block run splits into at its slide-break directives, having
/// already gathered `current`: a directive closes the gathered unit and
/// carries its content forward; any other block joins the gathered unit;
/// the final gathered unit is also emitted.
pub open spec fn spec_split_units(blocks: Seq<BlockView>, current: Seq<BlockView>) -> Seq<
    Seq<BlockView>,
>
    decreases blocks.len(),
{
    if blocks.len() == 0 {
        seq![current]
    } else if blocks[0] is Directive {
        seq![current] + spec_split_units(blocks.drop_first(), current)
    } else {
        spec_split_units(blocks.drop_first(), current.push(blocks[0]))
    }
}

/// Law: a block run with N slide-break directives splits into exactly N + 1
/// units.
pub proof fn lemma_split_units_count(blocks: Seq<BlockView>, current: Seq<BlockView>)
    ensures
        spec_split_units(blocks, current).len() == count_directives(blocks) + 1,
    decreases blocks.len(),
{
    if blocks.len() > 0 {
        if blocks[0] is Directive {
            lemma_split_units_count(blocks.drop_first(), current);
        } else {
            lemma_split_units_count(blocks.drop_first(), current.push(blocks[0]));
        }
    }
}

/// Some block of the run is a picture.
pub open spec fn has_picture(blocks: Seq<BlockView>) -> bool {
    exists|i: int| 0 <= i < blocks.len() && (#[trigger] blocks[i]) is Picture
}

/// Every block of the run is a picture.
pub open spec fn all_pictures(blocks: Seq<BlockView>) -> bool {
    forall|i: int| 0 <= i < blocks.len() ==> (#[trigger] blocks[i]) is Picture
}

/// The first picture of the run (meaningful only when it has one).
pub open spec fn first_picture_val(blocks: Seq<BlockView>) -> ParsePictureView
    decreases blocks.len(),
{
    if blocks.len() == 0 {
        arbitrary()
    } else {
        match blocks[0] {
            BlockView::Picture(p) => p,
            _ => first_picture_val(blocks.drop_first()),
        }
    }
}

/// When everything before `j` is not a picture and the block at `j` is one,
/// the first picture of the run is the one at `j`.
pub proof fn lemma_first_picture(blocks: Seq<BlockView>, j: int)
    requires
        0 <= j < blocks.len(),
        blocks[j] is Picture,
        forall|k: int| 0 <= k < j ==> !((#[trigger] blocks[k]) is Picture),
    ensures
        BlockView::Picture(first_picture_val(blocks)) == blocks[j],
    decreases j,
{
    if j > 0 {
        lemma_first_picture(blocks.drop_first(), j - 1);
    }
}

/// The blocks of the run that are not pictures, in order.
pub open spec fn non_pictures(blocks: Seq<BlockView>) -> Seq<BlockView>
    decreases blocks.len(),
{
    if blocks.len() == 0 {
        seq![]
    } else {
        let prefix = non_pictures(blocks.drop_last());
        if blocks.last() is Picture {
            prefix
        } else {
            prefix.push(blocks.last())
        }
    }
}

/// The rendering mode a unit's block run classifies into: with no picture,
/// all the blocks as text; with nothing but pictures, the first picture
/// alone; otherwise the non-picture blocks as text beside the first
/// picture. Later pictures are dropped either way.
pub open spec fn spec_to_content_options(blocks: Seq<BlockView>) -> ContentOptionsView {
    if !has_picture(blocks) {
        ContentOptionsView::OnlyText(blocks)
    } else if all_pictures(blocks) {
        ContentOptionsView::OnlyPicture(spec_picture_of(first_picture_val(blocks)))
    } else {
        ContentOptionsView::TextAndPicture(
            non_pictures(blocks),
            spec_picture_of(first_picture_val(blocks)),
        )
    }
}

/// No block of the run is a picture.
pub fn is_only_text(current_contents: &Vec<Block>) -> (r: bool)
    ensures
        r == !has_picture(blocks_view(current_contents@)),
{
    let ghost bv = blocks_view(current_contents@);
    let mut i: usize = 0;
    while i < current_contents.len()
        invariant
            i <= current_contents@.len(),
            bv == blocks_view(current_contents@),
            bv.len() == current_contents@.len(),
            forall|k: int| 0 <= k < i ==> !((#[trigger] bv[k]) is Picture),
        decreases current_contents@.len() - i,
    {
        let is_pic = match &current_contents[i] {
            Block::Picture(_) => true,
            _ => false,
        };
        if is_pic {
            proof {
                assert(bv[i as int] is Picture);
            }
            return false;
        }
        i = i + 1;
    }
    true
}

/// Every block of the run is a picture.
pub fn is_only_picture(current_contents: &Vec<Block>) -> (r: bool)
    ensures
        r == all_pictures(blocks_view(current_contents@)),
{
    let ghost bv = blocks_view(current_contents@);
    let mut i: usize = 0;
    while i < current_contents.len()
        invariant
            i <= current_contents@.len(),
            bv == blocks_view(current_contents@),
            bv.len() == current_contents@.len(),
            forall|k: int| 0 <= k < i ==> (#[trigger] bv[k]) is Picture,
        decreases current_contents@.len() - i,
    {
        let is_pic = match &current_contents[i] {
            Block::Picture(_) => true,
            _ => false,
        };
        if !is_pic {
            proof {
                assert(!(bv[i as int] is Picture));
            }
            return false;
        }
        i = i + 1;
    }
    true
}

/// Classifies one unit's block run into its rendering mode.
pub fn to_content_options(slide_content: Vec<Block>) -> (r: ContentOptions)
    ensures
        r@ == spec_to_content_options(blocks_view(slide_content@)),
{
    let ghost bv = blocks_view(slide_content@);
    if is_only_text(&slide_content) {
        return ContentOptions::OnlyText(slide_content);
    }
    // find the first picture
    let mut j: usize = 0;
    let mut text: Vec<Block> = Vec::new();
    let mut found: Option<crate::blocks::ParsePicture> = None;
    while j < slide_content.len()
        invariant
            j <= slide_content@.len(),
            bv == blocks_view(slide_content@),
            bv.len() == slide_content@.len(),
            blocks_view(text@) == non_pictures(bv.subrange(0, j as int)),
            match found {
                Some(p) => has_picture(bv) && p@ == first_picture_val(bv),
                None => forall|k: int| 0 <= k < j ==> !((#[trigger] bv[k]) is Picture),
            },
        decreases slide_content@.len() - j,
    {
        proof {
            assert(bv.subrange(0, j as int + 1).drop_last() =~= bv.subrange(0, j as int));
            assert(bv.subrange(0, j as int + 1).last() == bv[j as int]);
        }
        match &slide_content[j] {
            Block::Picture(p) => {
                if found.is_none() {
                    proof {
                        lemma_first_picture(bv, j as int);
                    }
                    found = Some(crate::blocks::clone_parse_picture(p));
                }
            },
            _ => {
                let b = clone_block(&slide_content[j]);
                text.push(b);
                proof {
                    assert(blocks_view(text@) =~= non_pictures(bv.subrange(0, j as int + 1)));
                }
            },
        }
        j = j + 1;
    }
    proof {
        assert(bv.subrange(0, bv.len() as int) =~= bv);
    }
    let pic = match found {
        Some(p) => p,
        None => {
            proof {
                assert(false);
            }
            crate::blocks::ParsePicture { path: String::new(), caption: None, directive: None }
        },
    };
    if is_only_picture(&slide_content) {
        ContentOptions::OnlyPicture(Picture::from_parse(pic))
    } else {
        ContentOptions::TextAndPicture(text, Picture::from_parse(pic))
    }
}

/// The views of a sequence of block-run units.
pub open spec fn units_view(units: Seq<Vec<Block>>) -> Seq<Seq<BlockView>> {
    units.map_values(|u: Vec<Block>| blocks_view(u@))
}

/// Splits a slide's block run into units at its slide-break directives. On
/// a split the gathered content is carried forward, so every unit holds the
/// non-directive blocks seen before its break and the final unit holds them
/// all; a run with N directives yields N + 1 units.
pub fn text_directive_handler(contents: Vec<Block>) -> (r: Vec<Vec<Block>>)
    ensures
        units_view(r@) == spec_split_units(blocks_view(contents@), Seq::empty()),
        r@.len() == count_directives(blocks_view(contents@)) + 1,
{
    let ghost bv = blocks_view(contents@);
    let mut current_slide_contents: Vec<Block> = Vec::new();
    let mut out: Vec<Vec<Block>> = Vec::new();
    let mut i: usize = 0;
    proof {
        assert(bv.skip(0) =~= bv);
        assert(blocks_view(current_slide_contents@) =~= Seq::<BlockView>::empty());
        assert(units_view(out@) =~= Seq::<Seq<BlockView>>::empty());
    }
    while i < contents.len()
        invariant
            i <= contents@.len(),
            bv == blocks_view(contents@),
            bv.len() == contents@.len(),
            spec_split_units(bv, Seq::empty()) == units_view(out@) + spec_split_units(
                bv.skip(i as int),
                blocks_view(current_slide_contents@),
            ),
        decreases contents@.len() - i,
    {
        let ghost cur = blocks_view(current_slide_contents@);
        let ghost prev_out = out@;
        proof {
            assert(bv.skip(i as int)[0] == bv[i as int]);
            assert(bv.skip(i as int).drop_first() =~= bv.skip(i as int + 1));
        }
        let is_directive = match &contents[i] {
            Block::Directive(_) => true,
            _ => false,
        };
        if is_directive {
            proof {
                assert(bv[i as int] is Directive);
                assert(spec_split_units(bv.skip(i as int), cur) == seq![cur] + spec_split_units(
                    bv.skip(i as int + 1),
                    cur,
                ));
            }
            let tmp_contents = clone_blocks(&current_slide_contents);
            out.push(current_slide_contents);
            current_slide_contents = tmp_contents;
            proof {
                assert forall|k: int| 0 <= k < out@.len() implies units_view(out@)[k] == (
                prev_out.map_values(|u: Vec<Block>| blocks_view(u@)) + seq![cur])[k] by {}
                assert(units_view(out@) =~= units_view(prev_out) + seq![cur]);
                assert(units_view(prev_out) + (seq![cur] + spec_split_units(
                    bv.skip(i as int + 1),
                    cur,
                )) =~= units_view(out@) + spec_split_units(bv.skip(i as int + 1), cur));
            }
        } else {
            proof {
                assert(!(bv[i as int] is Directive));
                assert(spec_split_units(bv.skip(i as int), cur) == spec_split_units(
                    bv.skip(i as int + 1),
                    cur.push(bv[i as int]),
                ));
            }
            let b = clone_block(&contents[i]);
            current_slide_contents.push(b);
            proof {
                assert(blocks_view(current_slide_contents@) =~= cur.push(bv[i as int]));
            }
        }
        i = i + 1;
    }
    proof {
        assert(bv.skip(bv.len() as int) =~= Seq::<BlockView>::empty());
        assert(spec_split_units(
            Seq::<BlockView>::empty(),
            blocks_view(current_slide_contents@),
        ) == seq![blocks_view(current_slide_contents@)]);
    }
    let ghost prev_out = out@;
    let ghost cur = blocks_view(current_slide_contents@);
    out.push(current_slide_contents);
    proof {
        assert(units_view(out@) =~= units_view(prev_out) + seq![cur]);
        lemma_split_units_count(bv, Seq::empty());
    }
    out
}

/// The slides one parsed slide expands into: its block run split at
/// slide-break directives, each unit classified, and the slide's title
/// cloned onto every unit.
pub open spec fn spec_process_slide(sv: ParsedSlideView) -> Seq<SlideView> {
    spec_split_units(sv.contents, Seq::empty()).map_values(
        |u: Seq<BlockView>| SlideView { title: sv.title, contents: spec_to_content_options(u) },
    )
}

/// Expands one parsed slide into its output slides: one per slide-break
/// directive plus one, each carrying the same title.
pub fn process_slide(slide: ParsedSlide) -> (r: Vec<Slide>)
    ensures
        slides_view(r@) == spec_process_slide(slide@),
        r@.len() == count_directives(blocks_view(slide.contents@)) + 1,
        forall|k: int| 0 <= k < r@.len() ==> (#[trigger] r@[k])@.title == spans_view(slide.title@),
{
    let ghost sv = slide@;
    let ParsedSlide { title, contents } = slide;
    let units = text_directive_handler(contents);
    let ghost uv = units_view(units@);
    let mut out: Vec<Slide> = Vec::new();
    let mut i: usize = 0;
    while i < units.len()
        invariant
            i <= units@.len(),
            uv == units_view(units@),
            uv.len() == units@.len(),
            spans_view(title@) == sv.title,
            uv == spec_split_units(sv.contents, Seq::empty()),
            out@.len() == i,
            forall|k: int|
                0 <= k < i ==> (#[trigger] out@[k])@ == (SlideView {
                    title: sv.title,
                    contents: spec_to_content_options(uv[k]),
                }),
        decreases units@.len() - i,
    {
        let unit = clone_blocks(&units[i]);
        let contents_k = to_content_options(unit);
        let slide_title = Title { title: clone_spans(&title) };
        out.push(Slide { title: slide_title, contents: contents_k });
        i = i + 1;
    }
    proof {
        assert(slides_view(out@) =~= spec_process_slide(sv));
    }
    out
}

/// The slides a whole document's parsed slides expand into, in order.
pub open spec fn spec_process_slides(slides: Seq<ParsedSlideView>) -> Seq<SlideView>
    decreases slides.len(),
{
    if slides.len() == 0 {
        seq![]
    } else {
        spec_process_slide(slides[0]) + spec_process_slides(slides.drop_first())
    }
}

/// The finished presentation a parsed document turns into: title and author
/// kept, every parsed slide expanded in order.
pub open spec fn spec_postprocess(d: DocumentView) -> PresentationView {
    PresentationView {
        title: d.first.title,
        author: d.first.author,
        slides: spec_process_slides(d.slides),
    }
}

/// Turns a parsed document into the finished presentation: the header's
/// title and author carried over, and every parsed slide expanded into its
/// output slides, in order.
pub fn postprocess(presentation: Document) -> (r: Presentation)
    ensures
        r@ == spec_postprocess(presentation@),
{
    let ghost dv = presentation@;
    let Document { first, mut slides } = presentation;
    let mut out: Vec<Slide> = Vec::new();
    proof {
        assert(parsed_slides_view(slides@) == dv.slides);
        assert(slides_view(out@) =~= Seq::<SlideView>::empty());
        assert(slides_view(out@) + spec_process_slides(dv.slides) =~= spec_process_slides(
            dv.slides,
        ));
    }
    while slides.len() > 0
        invariant
            spec_process_slides(dv.slides) == slides_view(out@) + spec_process_slides(
                parsed_slides_view(slides@),
            ),
        decreases slides@.len(),
    {
        let ghost prev = slides@;
        let ghost prev_out = out@;
        let sl = slides.remove(0);
        proof {
            assert(parsed_slides_view(prev)[0] == sl@);
            assert(parsed_slides_view(slides@) =~= parsed_slides_view(prev).drop_first());
            assert(spec_process_slides(parsed_slides_view(prev)) == spec_process_slide(sl@)
                + spec_process_slides(parsed_slides_view(slides@)));
        }
        let mut produced = process_slide(sl);
        let ghost pv = slides_view(produced@);
        out.append(&mut produced);
        proof {
            assert(slides_view(out@) =~= slides_view(prev_out) + pv);
            assert(slides_view(prev_out) + (pv + spec_process_slides(parsed_slides_view(slides@)))
                =~= slides_view(out@) + spec_process_slides(parsed_slides_view(slides@)));
        }
    }
    proof {
        assert(parsed_slides_view(slides@) =~= Seq::<ParsedSlideView>::empty());
        assert(slides_view(out@) + spec_process_slides(Seq::<ParsedSlideView>::empty())
            =~= slides_view(out@));
    }
    Presentation { title: Title { title: first.title }, author: first.author, slides: out }
}

/// Expands one slide's block run under an explicit title: split at
/// slide-break directives, each unit classified and given the title.
pub fn text_with_pictures(title: Vec<Span>, contents: Vec<Block>) -> (r: Vec<Slide>)
    ensures
        slides_view(r@) == spec_process_slide(
            crate::document::ParsedSlideView {
                title: spans_view(title@),
                contents: blocks_view(contents@),
            },
        ),
{
    process_slide(ParsedSlide { title, contents })
}

/// Expands a slide whose block run holds only text and directives: the
/// split-and-classify pipeline handles that shape directly.
pub fn only_text_with_directives(title: Vec<Span>, contents: Vec<Block>) -> (r: Vec<Slide>)
    ensures
        slides_view(r@) == spec_process_slide(
            crate::document::ParsedSlideView {
                title: spans_view(title@),
                contents: blocks_view(contents@),
            },
        ),
{
    process_slide(ParsedSlide { title, contents })
}

/// Expands a slide whose block run holds only pictures and directives: the
/// split-and-classify pipeline handles that shape directly.
pub fn picture_with_directives(title: Vec<Span>, contents: Vec<Block>) -> (r: Vec<Slide>)
    ensures
        slides_view(r@) == spec_process_slide(
            crate::document::ParsedSlideView {
                title: spans_view(title@),
                contents: blocks_view(contents@),
            },
        ),
{
    process_slide(ParsedSlide { title, contents })
}

} // verus!
