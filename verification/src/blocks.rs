//! The typed units of slide content: paragraphs, bulleted lists (possibly
//! nested), fenced code, pictures with layout directives, and slide-break
//! directives; together with their mathematical views and equality-preserving
//! copy functions.

use vstd::prelude::*;

use crate::spans::{clone_spans, spans_view, Span, SpanView};

verus! {

/// A layout hint attached to a picture: orientation, or a width or height
/// override whose value is free-form text.
#[derive(Debug, PartialEq, Clone)]
pub enum PictureDirective {
    Vertical,
    Width(String),
    Height(String),
}

/// The mathematical shape of a `PictureDirective`.
pub enum PictureDirectiveView {
    Vertical,
    Width(Seq<char>),
    Height(Seq<char>),
}

impl View for PictureDirective {
    type V = PictureDirectiveView;

    open spec fn view(&self) -> PictureDirectiveView {
        match self {
            PictureDirective::Vertical => PictureDirectiveView::Vertical,
            PictureDirective::Width(s) => PictureDirectiveView::Width(s@),
            PictureDirective::Height(s) => PictureDirectiveView::Height(s@),
        }
    }
}

/// The views of a sequence of picture directives.
pub open spec fn directives_view(dirs: Seq<PictureDirective>) -> Seq<PictureDirectiveView> {
    dirs.map_values(|d: PictureDirective| d@)
}

impl PictureDirective {
    /// The directive is the orientation hint.
    pub fn is_orientation(&self) -> (r: bool)
        ensures
            r == (self@ is Vertical),
    {
        match self {
            Self::Vertical => true,
            Self::Width(_) | Self::Height(_) => false,
        }
    }

    /// The directive is a width override.
    pub fn is_width(&self) -> (r: bool)
        ensures
            r == (self@ is Width),
    {
        match self {
            Self::Width(_) => true,
            Self::Vertical | Self::Height(_) => false,
        }
    }

    /// The directive is a height override.
    pub fn is_height(&self) -> (r: bool)
        ensures
            r == (self@ is Height),
    {
        match self {
            Self::Height(_) => true,
            Self::Vertical | Self::Width(_) => false,
        }
    }
}

/// A picture as parsed from the source text: path, optional caption, and
/// the optional list of layout directives that followed it.
#[derive(Debug, PartialEq, Clone)]
pub struct ParsePicture {
    pub path: String,
    pub caption: Option<String>,
    pub directive: Option<Vec<PictureDirective>>,
}

/// The mathematical shape of a `ParsePicture`.
pub struct ParsePictureView {
    pub path: Seq<char>,
    pub caption: Option<Seq<char>>,
    pub directive: Option<Seq<PictureDirectiveView>>,
}

impl View for ParsePicture {
    type V = ParsePictureView;

    open spec fn view(&self) -> ParsePictureView {
        ParsePictureView {
            path: self.path@,
            caption: match self.caption {
                Some(c) => Some(c@),
                None => None,
            },
            directive: match self.directive {
                Some(d) => Some(directives_view(d@)),
                None => None,
            },
        }
    }
}

/// An in-band control marker, distinct from renderable content.
#[derive(Debug, PartialEq, Clone)]
pub enum Directive {
    NewSlide,
}

/// A fenced code block: the language tag from the opening fence and the
/// verbatim text between the fences.
#[derive(Debug, PartialEq, Clone)]
pub struct Code {
    pub language: String,
    pub text: String,
}

/// The mathematical shape of a `Code` block.
pub struct CodeView {
    pub language: Seq<char>,
    pub text: Seq<char>,
}

impl View for Code {
    type V = CodeView;

    open spec fn view(&self) -> CodeView {
        CodeView { language: self.language@, text: self.text@ }
    }
}

impl Code {
    /// A code block holding `text` verbatim, tagged with `language`.
    pub fn new(text: String, language: String) -> (r: Self)
        ensures
            r@.text == text@,
            r@.language == language@,
    {
        Code { language, text }
    }

    /// The language tag from the opening fence.
    pub fn language(&self) -> (r: &String)
        ensures
            r@ == self@.language,
    {
        &self.language
    }

    /// The verbatim text between the fences.
    pub fn text(&self) -> (r: &String)
        ensures
            r@ == self@.text,
    {
        &self.text
    }
}

/// One entry of a bulleted list: a single bullet at the current level, or a
/// sub-list one indentation level deeper.
#[derive(Debug, PartialEq)]
pub enum BulletItem {
    Single(Vec<Span>),
    Nested(Vec<BulletItem>),
}

impl Clone for BulletItem {
    /// A copy of the item whose view equals the original's.
    fn clone(&self) -> (r: Self)
        ensures
            r@ == self@,
    {
        clone_bullet_item(self)
    }
}

/// The mathematical shape of a `BulletItem`.
pub enum BulletItemView {
    Single(Seq<SpanView>),
    Nested(Seq<BulletItemView>),
}

impl View for BulletItem {
    type V = BulletItemView;

    open spec fn view(&self) -> BulletItemView
        decreases self,
    {
        match self {
            BulletItem::Single(spans) => BulletItemView::Single(spans_view(spans@)),
            BulletItem::Nested(children) => BulletItemView::Nested(bullet_items_view(children@)),
        }
    }
}

/// The views of a sequence of bullet items.
pub open spec fn bullet_items_view(items: Seq<BulletItem>) -> Seq<BulletItemView>
    decreases items,
{
    if items.len() == 0 {
        seq![]
    } else {
        seq![items[0]@] + bullet_items_view(items.drop_first())
    }
}

/// Taking the views of bullet items commutes with indexing.
pub proof fn lemma_bullet_items_view_index(items: Seq<BulletItem>, i: int)
    requires
        0 <= i < items.len(),
    ensures
        bullet_items_view(items).len() == items.len(),
        bullet_items_view(items)[i] == items[i]@,
    decreases items,
{
    lemma_bullet_items_view_len(items);
    assert(bullet_items_view(items) == seq![items[0]@] + bullet_items_view(items.drop_first()));
    if i > 0 {
        lemma_bullet_items_view_index(items.drop_first(), i - 1);
        assert(items.drop_first()[i - 1] == items[i]);
    }
}

/// Taking the views of bullet items commutes with appending one item.
pub proof fn lemma_bullet_items_view_push(items: Seq<BulletItem>, x: BulletItem)
    ensures
        bullet_items_view(items.push(x)) == bullet_items_view(items).push(x@),
    decreases items,
{
    if items.len() == 0 {
        assert(items.push(x)[0] == x);
        assert(items.push(x).drop_first() =~= Seq::<BulletItem>::empty());
        assert(bullet_items_view(Seq::<BulletItem>::empty()) == Seq::<BulletItemView>::empty());
        assert(bullet_items_view(items.push(x)) == seq![x@] + bullet_items_view(
            items.push(x).drop_first(),
        ));
        assert(bullet_items_view(items.push(x)) =~= bullet_items_view(items).push(x@));
    } else {
        lemma_bullet_items_view_push(items.drop_first(), x);
        assert(items.push(x).drop_first() =~= items.drop_first().push(x));
        assert(items.push(x)[0] == items[0]);
        assert(bullet_items_view(items.push(x)) == seq![items[0]@] + bullet_items_view(
            items.drop_first().push(x),
        ));
        assert(bullet_items_view(items.push(x)) =~= bullet_items_view(items).push(x@));
    }
}

/// Taking the views of bullet items preserves length.
pub proof fn lemma_bullet_items_view_len(items: Seq<BulletItem>)
    ensures
        bullet_items_view(items).len() == items.len(),
    decreases items,
{
    if items.len() > 0 {
        assert(bullet_items_view(items) == seq![items[0]@] + bullet_items_view(
            items.drop_first(),
        ));
        lemma_bullet_items_view_len(items.drop_first());
    } else {
        assert(bullet_items_view(items) == Seq::<BulletItemView>::empty());
    }
}

/// A typed unit of slide content. Order within a slide is significant.
#[derive(Debug, PartialEq, Clone)]
pub enum Block {
    Paragraph(Vec<Span>),
    BulletedList(Vec<BulletItem>),
    Picture(ParsePicture),
    Code(Code),
    Directive(Directive),
}

/// The mathematical shape of a `Block`.
pub enum BlockView {
    Paragraph(Seq<SpanView>),
    BulletedList(Seq<BulletItemView>),
    Picture(ParsePictureView),
    Code(CodeView),
    Directive(Directive),
}

impl View for Block {
    type V = BlockView;

    open spec fn view(&self) -> BlockView {
        match self {
            Block::Paragraph(spans) => BlockView::Paragraph(spans_view(spans@)),
            Block::BulletedList(items) => BlockView::BulletedList(bullet_items_view(items@)),
            Block::Picture(p) => BlockView::Picture(p@),
            Block::Code(c) => BlockView::Code(c@),
            Block::Directive(d) => BlockView::Directive(*d),
        }
    }
}

/// The views of a sequence of blocks.
pub open spec fn blocks_view(blocks: Seq<Block>) -> Seq<BlockView> {
    blocks.map_values(|b: Block| b@)
}

/// A copy of an optional string that is equal to the original.
pub fn clone_opt_string(s: &Option<String>) -> (r: Option<String>)
    ensures
        r == s,
{
    match s {
        Some(x) => Some(x.clone()),
        None => None,
    }
}

/// A copy of a picture directive that is equal to the original.
pub fn clone_picture_directive(d: &PictureDirective) -> (r: PictureDirective)
    ensures
        r == d,
{
    match d {
        PictureDirective::Vertical => PictureDirective::Vertical,
        PictureDirective::Width(s) => PictureDirective::Width(s.clone()),
        PictureDirective::Height(s) => PictureDirective::Height(s.clone()),
    }
}

/// A copy of a parsed picture whose view equals the original's.
pub fn clone_parse_picture(p: &ParsePicture) -> (r: ParsePicture)
    ensures
        r@ == p@,
{
    let directive = match &p.directive {
        None => None,
        Some(dirs) => {
            let mut out: Vec<PictureDirective> = Vec::new();
            let mut i: usize = 0;
            while i < dirs.len()
                invariant
                    i <= dirs@.len(),
                    out@ == dirs@.subrange(0, i as int),
                decreases dirs@.len() - i,
            {
                out.push(clone_picture_directive(&dirs[i]));
                i = i + 1;
                proof {
                    assert(out@ =~= dirs@.subrange(0, i as int));
                }
            }
            proof {
                assert(dirs@.subrange(0, dirs@.len() as int) =~= dirs@);
            }
            Some(out)
        },
    };
    ParsePicture { path: p.path.clone(), caption: clone_opt_string(&p.caption), directive }
}

/// A copy of a bullet item whose view equals the original's.
#[verifier::loop_isolation(false)]
pub fn clone_bullet_item(b: &BulletItem) -> (r: BulletItem)
    ensures
        r@ == b@,
    decreases *b,
{
    match b {
        BulletItem::Single(spans) => BulletItem::Single(clone_spans(spans)),
        BulletItem::Nested(children) => {
            let mut out: Vec<BulletItem> = Vec::new();
            let mut i: usize = 0;
            while i < children.len()
                invariant
                    i <= children@.len(),
                    out@.len() == i,
                    forall|k: int| 0 <= k < i ==> out@[k]@ == children@[k]@,
                decreases children@.len() - i,
            {
                proof {
                    assert(*b == BulletItem::Nested(*children));
                    assert(decreases_to!(*b => *children));
                    assert(decreases_to!(*children => children@[i as int]));
                }
                let item = clone_bullet_item(&children[i]);
                out.push(item);
                i = i + 1;
            }
            proof {
                lemma_bullet_items_view_ext(out@, children@);
            }
            BulletItem::Nested(out)
        },
    }
}

/// A copy of a bullet item sequence whose views equal the originals'.
pub fn clone_bullet_items(items: &Vec<BulletItem>) -> (r: Vec<BulletItem>)
    ensures
        bullet_items_view(r@) == bullet_items_view(items@),
{
    let mut out: Vec<BulletItem> = Vec::new();
    let mut i: usize = 0;
    while i < items.len()
        invariant
            i <= items@.len(),
            out@.len() == i,
            forall|k: int| 0 <= k < i ==> out@[k]@ == items@[k]@,
        decreases items@.len() - i,
    {
        let item = clone_bullet_item(&items[i]);
        out.push(item);
        i = i + 1;
    }
    proof {
        lemma_bullet_items_view_ext(out@, items@);
    }
    out
}

/// Sequences of bullet items whose elements have equal views have equal
/// view sequences.
pub proof fn lemma_bullet_items_view_ext(s1: Seq<BulletItem>, s2: Seq<BulletItem>)
    requires
        s1.len() == s2.len(),
        forall|k: int| 0 <= k < s1.len() ==> s1[k]@ == s2[k]@,
    ensures
        bullet_items_view(s1) == bullet_items_view(s2),
{
    lemma_bullet_items_view_len(s1);
    lemma_bullet_items_view_len(s2);
    assert forall|k: int| 0 <= k < s1.len() implies bullet_items_view(s1)[k]
        == bullet_items_view(s2)[k] by {
        lemma_bullet_items_view_index(s1, k);
        lemma_bullet_items_view_index(s2, k);
    }
    assert(bullet_items_view(s1) =~= bullet_items_view(s2));
}

/// A copy of a block whose view equals the original's.
pub fn clone_block(b: &Block) -> (r: Block)
    ensures
        r@ == b@,
{
    match b {
        Block::Paragraph(spans) => Block::Paragraph(clone_spans(spans)),
        Block::BulletedList(items) => Block::BulletedList(clone_bullet_items(items)),
        Block::Picture(p) => Block::Picture(clone_parse_picture(p)),
        Block::Code(c) => Block::Code(
            Code { language: c.language.clone(), text: c.text.clone() },
        ),
        Block::Directive(d) => Block::Directive(match d {
            Directive::NewSlide => Directive::NewSlide,
        }),
    }
}

/// A copy of a block sequence whose views equal the originals'.
pub fn clone_blocks(blocks: &Vec<Block>) -> (r: Vec<Block>)
    ensures
        blocks_view(r@) == blocks_view(blocks@),
{
    let mut out: Vec<Block> = Vec::new();
    let mut i: usize = 0;
    while i < blocks.len()
        invariant
            i <= blocks@.len(),
            out@.len() == i,
            forall|k: int| 0 <= k < i ==> out@[k]@ == blocks@[k]@,
        decreases blocks@.len() - i,
    {
        let item = clone_block(&blocks[i]);
        out.push(item);
        i = i + 1;
    }
    proof {
        assert(blocks_view(out@) =~= blocks_view(blocks@));
    }
    out
}

} // verus!
