//! A converter from a small markdown dialect to a slide-oriented document
//! model: a span lexer for inline formatting, a block parser for slide
//! bodies, a document parser for the whole input, a postprocessor that
//! splits slides at break directives and classifies their contents, and an
//! emitter that renders the finished model as presentation markup text.

use vstd::prelude::*;

pub mod blocks;
pub mod blockparse;
pub mod bullets;
pub mod data;
pub mod document;
pub mod latex;
pub mod postprocess;
pub mod scan;
pub mod spans;

verus! {

/// Errors the parsing pipeline can report.
///
/// `BadStructure` covers any input that no grammar alternative matches;
/// `EmptySpan` is the span lexer's failure on zero-length input.
#[derive(Debug, Clone, Copy, PartialEq, Eq)]
pub enum ParseError {
    BadStructure,
    EmptySpan,
}

/// No block of the run is a slide-break directive.
pub open spec fn no_directives(blocks: Seq<crate::blocks::BlockView>) -> bool {
    forall|k: int|
        0 <= k < blocks.len() ==> !((#[trigger] blocks[k]) is Directive)
}

/// The units a block run splits into hold no slide-break directives,
/// provided the already-gathered unit held none.
proof fn lemma_split_units_no_directives(
    blocks: Seq<crate::blocks::BlockView>,
    current: Seq<crate::blocks::BlockView>,
)
    requires
        no_directives(current),
    ensures
        forall|j: int|
            0 <= j < crate::postprocess::spec_split_units(blocks, current).len()
                ==> no_directives(#[trigger] crate::postprocess::spec_split_units(blocks, current)[j]),
    decreases blocks.len(),
{
    let r = crate::postprocess::spec_split_units(blocks, current);
    if blocks.len() == 0 {
        assert forall|j: int| 0 <= j < r.len() implies no_directives(r[j]) by {
            assert(r[j] == current);
        }
    } else if blocks[0] is Directive {
        lemma_split_units_no_directives(blocks.drop_first(), current);
        let rest = crate::postprocess::spec_split_units(blocks.drop_first(), current);
        assert forall|j: int| 0 <= j < r.len() implies no_directives(r[j]) by {
            if j == 0 {
                assert(r[j] == current);
            } else {
                assert(r[j] == rest[j - 1]);
            }
        }
    } else {
        assert(no_directives(current.push(blocks[0]))) by {
            assert forall|k: int|
                0 <= k < current.push(blocks[0]).len() implies !((#[trigger] current.push(
                blocks[0],
            )[k]) is Directive) by {
                if k < current.len() {
                    assert(current.push(blocks[0])[k] == current[k]);
                }
            }
        }
        lemma_split_units_no_directives(blocks.drop_first(), current.push(blocks[0]));
        let rest = crate::postprocess::spec_split_units(blocks.drop_first(), current.push(blocks[0]));
        assert forall|j: int| 0 <= j < r.len() implies no_directives(r[j]) by {
            assert(r[j] == rest[j]);
        }
    }
}

/// The non-picture blocks of a directive-free run are renderable.
proof fn lemma_non_pictures_renderable(blocks: Seq<crate::blocks::BlockView>)
    requires
        no_directives(blocks),
    ensures
        crate::latex::renderable_blocks(crate::postprocess::non_pictures(blocks)),
    decreases blocks.len(),
{
    if blocks.len() > 0 {
        assert(no_directives(blocks.drop_last())) by {
            assert forall|k: int|
                0 <= k < blocks.drop_last().len() implies !((#[trigger] blocks.drop_last()[k])
                is Directive) by {
                assert(blocks.drop_last()[k] == blocks[k]);
            }
        }
        lemma_non_pictures_renderable(blocks.drop_last());
        let prefix = crate::postprocess::non_pictures(blocks.drop_last());
        if !(blocks.last() is Picture) {
            assert forall|k: int|
                0 <= k < prefix.push(blocks.last()).len() implies crate::latex::renderable_block(
                #[trigger] prefix.push(blocks.last())[k],
            ) by {
                if k < prefix.len() {
                    assert(prefix.push(blocks.last())[k] == prefix[k]);
                }
            }
        }
    }
}

/// Classifying a directive-free unit yields renderable contents.
proof fn lemma_classify_renderable(u: Seq<crate::blocks::BlockView>)
    requires
        no_directives(u),
    ensures
        crate::latex::renderable_contents(crate::postprocess::spec_to_content_options(u)),
{
    if !crate::postprocess::has_picture(u) {
        assert forall|i: int| 0 <= i < u.len() implies crate::latex::renderable_block(
            #[trigger] u[i],
        ) by {
            assert(!(u[i] is Picture));
        }
    } else if crate::postprocess::all_pictures(u) {
    } else {
        lemma_non_pictures_renderable(u);
    }
}

/// Every slide one parsed slide expands into has renderable contents.
proof fn lemma_process_slide_renderable(sv: crate::document::ParsedSlideView)
    ensures
        forall|k: int|
            0 <= k < crate::postprocess::spec_process_slide(sv).len()
                ==> crate::latex::renderable_contents(
                (#[trigger] crate::postprocess::spec_process_slide(sv)[k]).contents,
            ),
{
    let units = crate::postprocess::spec_split_units(sv.contents, Seq::empty());
    lemma_split_units_no_directives(sv.contents, Seq::empty());
    assert forall|k: int|
        0 <= k < crate::postprocess::spec_process_slide(sv).len()
            implies crate::latex::renderable_contents(
        (#[trigger] crate::postprocess::spec_process_slide(sv)[k]).contents,
    ) by {
        lemma_classify_renderable(units[k]);
    }
}

/// Every slide a run of parsed slides expands into has renderable contents.
proof fn lemma_process_slides_renderable(slides: Seq<crate::document::ParsedSlideView>)
    ensures
        forall|k: int|
            0 <= k < crate::postprocess::spec_process_slides(slides).len()
                ==> crate::latex::renderable_contents(
                (#[trigger] crate::postprocess::spec_process_slides(slides)[k]).contents,
            ),
    decreases slides.len(),
{
    if slides.len() > 0 {
        lemma_process_slide_renderable(slides[0]);
        lemma_process_slides_renderable(slides.drop_first());
        let head = crate::postprocess::spec_process_slide(slides[0]);
        let tail = crate::postprocess::spec_process_slides(slides.drop_first());
        assert forall|k: int|
            0 <= k < crate::postprocess::spec_process_slides(slides).len()
                implies crate::latex::renderable_contents(
            (#[trigger] crate::postprocess::spec_process_slides(slides)[k]).contents,
        ) by {
            if k < head.len() {
                assert(crate::postprocess::spec_process_slides(slides)[k] == head[k]);
            } else {
                assert(crate::postprocess::spec_process_slides(slides)[k] == tail[k - head.len()]);
            }
        }
    }
}

/// The postprocessor only produces presentations the renderer accepts: no
/// picture or directive survives into a slide's text blocks.
pub proof fn lemma_postprocess_renderable(d: crate::document::DocumentView)
    ensures
        crate::latex::renderable_presentation(crate::postprocess::spec_postprocess(d)),
{
    lemma_process_slides_renderable(d.slides);
}

/// What the whole pipeline turns source text into: the parsed document,
/// postprocessed and rendered as markup text; nothing when the text does
/// not parse.
pub open spec fn spec_pipeline(s: Seq<char>) -> Option<Seq<char>> {
    match crate::document::spec_parse_document(s) {
        Some(d) => Some(
            crate::latex::spec_write_latex(crate::postprocess::spec_postprocess(d)),
        ),
        None => None,
    }
}

/// Runs the whole pipeline on source text: parse, postprocess, render.
pub fn markdown_to_latex(text: &str) -> (r: Result<String, ParseError>)
    ensures
        match r {
            Ok(out) => spec_pipeline(text@) == Some(out@),
            Err(e) => spec_pipeline(text@) is None && e == ParseError::BadStructure,
        },
{
    match crate::document::parse_markdown(text) {
        Err(e) => Err(e),
        Ok(doc) => {
            let ghost dv = doc@;
            let pres = crate::postprocess::postprocess(doc);
            proof {
                lemma_postprocess_renderable(dv);
            }
            Ok(crate::latex::write_latex(pres))
        },
    }
}

/// Law: the pipeline's outcome is a function of the input text alone — the
/// same text yields structurally equal output on every run, there being no
/// hidden state anywhere in the pipeline.
pub proof fn lemma_pipeline_deterministic(s1: Seq<char>, s2: Seq<char>)
    requires
        s1 == s2,
    ensures
        spec_pipeline(s1) == spec_pipeline(s2),
{
}


} // verus!
