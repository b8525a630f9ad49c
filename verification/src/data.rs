//! The final, post-processing document model: a presentation of slides,
//! each classified into a rendering mode (text-only, picture-only, or text
//! and picture), and the picture type whose layout directives have been
//! resolved into orientation, width and height.

use vstd::prelude::*;

use crate::blocks::{Block, BlockView, ParsePicture, ParsePictureView, PictureDirectiveView};
use crate::spans::{spans_view, Span, SpanView};

verus! {

/// A span-lexed heading, shared by the document title and slide titles.
#[derive(Debug, PartialEq, Clone)]
pub struct Title {
    pub title: Vec<Span>,
}

impl View for Title {
    type V = Seq<SpanView>;

    open spec fn view(&self) -> Seq<SpanView> {
        spans_view(self.title@)
    }
}

impl Title {
    /// A title made of the given spans.
    pub fn new(title: Vec<Span>) -> (r: Self)
        ensures
            r@ == spans_view(title@),
    {
        Title { title }
    }
}

/// The orientation a picture is laid out in: vertical pictures sit below
/// their text, horizontal ones beside it.
#[derive(Debug, PartialEq, Clone, Copy)]
pub enum Orientation {
    Vertical,
    Horizontal,
}

/// A picture whose layout directives have been resolved: the first width
/// and height overrides, and the orientation hint if any directive gave
/// one.
#[derive(Debug, PartialEq, Clone)]
pub struct Picture {
    pub path: String,
    pub caption: Option<String>,
    pub orientation: Orientation,
    pub width: Option<String>,
    pub height: Option<String>,
}

/// The mathematical shape of a `Picture`.
pub struct PictureView {
    pub path: Seq<char>,
    pub caption: Option<Seq<char>>,
    pub orientation: Orientation,
    pub width: Option<Seq<char>>,
    pub height: Option<Seq<char>>,
}

impl View for Picture {
    type V = PictureView;

    open spec fn view(&self) -> PictureView {
        PictureView {
            path: self.path@,
            caption: match self.caption {
                Some(c) => Some(c@),
                None => None,
            },
            orientation: self.orientation,
            width: match self.width {
                Some(w) => Some(w@),
                None => None,
            },
            height: match self.height {
                Some(h) => Some(h@),
                None => None,
            },
        }
    }
}

/// The value of the first width override among the directives, if any.
pub open spec fn first_width(dirs: Seq<PictureDirectiveView>) -> Option<Seq<char>>
    decreases dirs.len(),
{
    if dirs.len() == 0 {
        None
    } else {
        match dirs[0] {
            PictureDirectiveView::Width(w) => Some(w),
            _ => first_width(dirs.drop_first()),
        }
    }
}

/// The value of the first height override among the directives, if any.
pub open spec fn first_height(dirs: Seq<PictureDirectiveView>) -> Option<Seq<char>>
    decreases dirs.len(),
{
    if dirs.len() == 0 {
        None
    } else {
        match dirs[0] {
            PictureDirectiveView::Height(h) => Some(h),
            _ => first_height(dirs.drop_first()),
        }
    }
}

/// Some directive gives the vertical orientation hint.
pub open spec fn has_vertical(dirs: Seq<PictureDirectiveView>) -> bool
    decreases dirs.len(),
{
    if dirs.len() == 0 {
        false
    } else {
        dirs[0] is Vertical || has_vertical(dirs.drop_first())
    }
}

/// The directives of a parsed picture, with no list meaning no directives.
pub open spec fn directives_of(pv: ParsePictureView) -> Seq<PictureDirectiveView> {
    match pv.directive {
        Some(d) => d,
        None => Seq::empty(),
    }
}

/// The resolved picture a parsed picture turns into: path and caption kept,
/// the first width and height overrides taken, and the orientation vertical
/// exactly when some directive asks for it.
pub open spec fn spec_picture_of(pv: ParsePictureView) -> PictureView {
    PictureView {
        path: pv.path,
        caption: pv.caption,
        orientation: if has_vertical(directives_of(pv)) {
            Orientation::Vertical
        } else {
            Orientation::Horizontal
        },
        width: first_width(directives_of(pv)),
        height: first_height(directives_of(pv)),
    }
}

impl Picture {
    /// Resolves a parsed picture's directives into a final picture.
    pub fn from_parse(x: ParsePicture) -> (r: Self)
        ensures
            r@ == spec_picture_of(x@),
    {
        let ghost xv = x@;
        let ParsePicture { path, caption, directive } = x;
        let mut width: Option<String> = None;
        let mut height: Option<String> = None;
        let mut vertical = false;
        match &directive {
            None => {
                proof {
                    assert(directives_of(xv) =~= Seq::<PictureDirectiveView>::empty());
                }
            },
            Some(dirs) => {
                let ghost dv = crate::blocks::directives_view(dirs@);
                proof {
                    assert(dv.skip(0) =~= dv);
                }
                let mut i: usize = 0;
                while i < dirs.len()
                    invariant
                        i <= dirs@.len(),
                        dv == crate::blocks::directives_view(dirs@),
                        dv.len() == dirs@.len(),
                        match width {
                            Some(w) => first_width(dv) == Some(w@),
                            None => first_width(dv) == first_width(dv.skip(i as int)),
                        },
                        match height {
                            Some(h) => first_height(dv) == Some(h@),
                            None => first_height(dv) == first_height(dv.skip(i as int)),
                        },
                        vertical ==> has_vertical(dv),
                        !vertical ==> has_vertical(dv) == has_vertical(dv.skip(i as int)),
                    decreases dirs@.len() - i,
                {
                    proof {
                        assert(dv.skip(i as int)[0] == dv[i as int]);
                        assert(dv.skip(i as int).drop_first() =~= dv.skip(i as int + 1));
                        assert(dv[i as int] == dirs@[i as int]@);
                    }
                    match &dirs[i] {
                        crate::blocks::PictureDirective::Vertical => {
                            vertical = true;
                        },
                        crate::blocks::PictureDirective::Width(w) => {
                            if width.is_none() {
                                width = Some(w.clone());
                            }
                        },
                        crate::blocks::PictureDirective::Height(h) => {
                            if height.is_none() {
                                height = Some(h.clone());
                            }
                        },
                    }
                    i = i + 1;
                }
                proof {
                    assert(dv.skip(dv.len() as int) =~= Seq::<PictureDirectiveView>::empty());
                    assert(directives_of(xv) == dv);
                }
            },
        }
        Picture {
            path,
            caption,
            orientation: if vertical {
                Orientation::Vertical
            } else {
                Orientation::Horizontal
            },
            width,
            height,
        }
    }
}

/// A presentation-ready picture together with the layout mode it is
/// rendered in: `is_split` says the picture shares the slide with text.
/// The height override currently mirrors the width override.
#[derive(Debug, PartialEq)]
pub struct LatexPicture<'a> {
    pub picture: &'a Picture,
    pub is_split: bool,
    pub width: Option<&'a str>,
    pub height: Option<&'a str>,
}

/// The mathematical shape of a `LatexPicture`.
pub struct LatexPictureView {
    pub picture: PictureView,
    pub is_split: bool,
    pub width: Option<Seq<char>>,
    pub height: Option<Seq<char>>,
}

impl<'a> View for LatexPicture<'a> {
    type V = LatexPictureView;

    open spec fn view(&self) -> LatexPictureView {
        LatexPictureView {
            picture: self.picture@,
            is_split: self.is_split,
            width: match self.width {
                Some(w) => Some(w@),
                None => None,
            },
            height: match self.height {
                Some(h) => Some(h@),
                None => None,
            },
        }
    }
}

impl Picture {
    /// Pairs the picture with its rendering mode. Both the width and the
    /// height of the rendered picture take the width override.
    pub fn to_latex_picture(&self, is_split: bool) -> (r: LatexPicture<'_>)
        ensures
            r@.picture == self@,
            r@.is_split == is_split,
            r@.width == self@.width,
            r@.height == self@.width,
    {
        LatexPicture {
            picture: self,
            is_split,
            width: match &self.width {
                Some(x) => Some(x.as_str()),
                None => None,
            },
            height: match &self.width {
                Some(x) => Some(x.as_str()),
                None => None,
            },
        }
    }
}

impl<'a> LatexPicture<'a> {
    /// The path of the underlying picture.
    pub fn get_path(&self) -> (r: String)
        ensures
            r@ == self@.picture.path,
    {
        self.picture.path.clone()
    }

    /// The caption of the underlying picture, if it has one.
    pub fn caption(&self) -> (r: Option<&str>)
        ensures
            match r {
                Some(c) => self@.picture.caption == Some(c@),
                None => self@.picture.caption is None,
            },
    {
        match &self.picture.caption {
            Some(x) => Some(x.as_str()),
            None => None,
        }
    }
}

/// The rendering mode of one finished slide: only text, only a picture, or
/// text beside a picture. Exactly one variant holds.
#[derive(Debug, PartialEq, Clone)]
pub enum ContentOptions {
    OnlyText(Vec<Block>),
    OnlyPicture(Picture),
    TextAndPicture(Vec<Block>, Picture),
}

/// The mathematical shape of a `ContentOptions`.
pub enum ContentOptionsView {
    OnlyText(Seq<BlockView>),
    OnlyPicture(PictureView),
    TextAndPicture(Seq<BlockView>, PictureView),
}

impl View for ContentOptions {
    type V = ContentOptionsView;

    open spec fn view(&self) -> ContentOptionsView {
        match self {
            ContentOptions::OnlyText(blocks) => ContentOptionsView::OnlyText(
                crate::blocks::blocks_view(blocks@),
            ),
            ContentOptions::OnlyPicture(p) => ContentOptionsView::OnlyPicture(p@),
            ContentOptions::TextAndPicture(blocks, p) => ContentOptionsView::TextAndPicture(
                crate::blocks::blocks_view(blocks@),
                p@,
            ),
        }
    }
}

/// One finished slide: its title and its classified contents.
#[derive(Debug, PartialEq)]
pub struct Slide {
    pub title: Title,
    pub contents: ContentOptions,
}

/// The mathematical shape of a `Slide`.
pub struct SlideView {
    pub title: Seq<SpanView>,
    pub contents: ContentOptionsView,
}

impl View for Slide {
    type V = SlideView;

    open spec fn view(&self) -> SlideView {
        SlideView { title: self.title@, contents: self.contents@ }
    }
}

/// The views of a sequence of slides.
pub open spec fn slides_view(slides: Seq<Slide>) -> Seq<SlideView> {
    slides.map_values(|sl: Slide| sl@)
}

/// A finished presentation: title, author and the slides in order.
#[derive(Debug, PartialEq)]
pub struct Presentation {
    pub title: Title,
    pub author: String,
    pub slides: Vec<Slide>,
}

/// The mathematical shape of a `Presentation`.
pub struct PresentationView {
    pub title: Seq<SpanView>,
    pub author: Seq<char>,
    pub slides: Seq<SlideView>,
}

impl View for Presentation {
    type V = PresentationView;

    open spec fn view(&self) -> PresentationView {
        PresentationView { title: self.title@, author: self.author@, slides: slides_view(self.slides@) }
    }
}

} // verus!
