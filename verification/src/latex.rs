//! The emitter: renders the finished presentation model as presentation
//! markup text. Every rendering function appends to a growing buffer and
//! states exactly what text it adds. Pictures and directives never reach
//! the block renderer: the postprocessor has resolved them, and the
//! renderable well-formedness conditions say so.

use vstd::prelude::*;
use vstd::string::StringExecFns;

use crate::blocks::{
    blocks_view, bullet_items_view, lemma_bullet_items_view_index, Block, BlockView, BulletItem,
    BulletItemView, Code, CodeView,
};
use crate::data::{
    slides_view, ContentOptions, ContentOptionsView, LatexPicture, LatexPictureView, Orientation,
    Picture, PictureView, Presentation, PresentationView, Slide, SlideView, Title,
};
use crate::spans::{spans_view, Span, SpanView};

verus! {

/// The markup for one span: plain text as it stands, the other forms
/// wrapped in their commands.
pub open spec fn spec_span_latex(sp: SpanView) -> Seq<char> {
    match sp {
        SpanView::Bold(s) => "\\textbf{"@ + s + "}"@,
        SpanView::Strikethrough(s) => "\\sout{"@ + s + "}"@,
        SpanView::Italics(s) => "\\emph{"@ + s + "}"@,
        SpanView::Text(s) => s,
        SpanView::Equation(s) => "$$"@ + s + "$$"@,
    }
}

/// The markup for a run of spans, in order.
pub open spec fn spec_spans_latex(spans: Seq<SpanView>) -> Seq<char>
    decreases spans.len(),
{
    if spans.len() == 0 {
        Seq::empty()
    } else {
        spec_spans_latex(spans.drop_last()) + spec_span_latex(spans.last())
    }
}

/// The markup for one bullet item: a leaf as an `\item` line, a nested
/// sub-list as its own itemize environment.
pub open spec fn spec_bullet_latex(item: BulletItemView) -> Seq<char>
    decreases item,
{
    match item {
        BulletItemView::Single(spans) => "\\item "@ + spec_spans_latex(spans) + "\n"@,
        BulletItemView::Nested(children) => "\n\\begin{itemize}\n"@ + spec_bullet_items_latex(
            children,
        ) + "\n\\end{itemize}\n"@,
    }
}

/// The markup for the items of a bullet forest, in order.
pub open spec fn spec_bullet_items_latex(items: Seq<BulletItemView>) -> Seq<char>
    decreases items,
{
    if items.len() == 0 {
        Seq::empty()
    } else {
        spec_bullet_items_latex(items.drop_last()) + spec_bullet_latex(items.last())
    }
}

/// The markup for a whole bulleted list: its items inside an itemize
/// environment.
pub open spec fn spec_bullet_list_latex(items: Seq<BulletItemView>) -> Seq<char> {
    "\n\\begin{itemize}\n"@ + spec_bullet_items_latex(items) + "\n\\end{itemize}\n"@
}

/// The markup for a fenced code block: a listing environment naming the
/// language, holding the text verbatim.
pub open spec fn spec_code_latex(c: CodeView) -> Seq<char> {
    "\\begin{lstlisting}[language="@ + c.language + "]\n"@ + c.text + "\\end{lstlisting}"@
}

/// The markup for one renderable block. Pictures and directives are not
/// renderable as blocks: the postprocessor resolves them beforehand.
pub open spec fn spec_block_latex(b: BlockView) -> Seq<char> {
    match b {
        BlockView::Paragraph(spans) => spec_spans_latex(spans),
        BlockView::BulletedList(items) => spec_bullet_list_latex(items),
        BlockView::Code(c) => spec_code_latex(c),
        BlockView::Picture(_) => Seq::empty(),
        BlockView::Directive(_) => Seq::empty(),
    }
}

/// A block the renderer accepts: neither a picture nor a directive.
pub open spec fn renderable_block(b: BlockView) -> bool {
    !(b is Picture) && !(b is Directive)
}

/// Every block of the run is renderable.
pub open spec fn renderable_blocks(blocks: Seq<BlockView>) -> bool {
    forall|i: int| 0 <= i < blocks.len() ==> renderable_block(#[trigger] blocks[i])
}

/// The markup for a run of blocks, each followed by a blank line.
pub open spec fn spec_blocks_latex_gap(blocks: Seq<BlockView>) -> Seq<char>
    decreases blocks.len(),
{
    if blocks.len() == 0 {
        Seq::empty()
    } else {
        spec_blocks_latex_gap(blocks.drop_last()) + spec_block_latex(blocks.last()) + "\n\n"@
    }
}

/// The markup for a run of blocks, with nothing between them.
pub open spec fn spec_blocks_latex(blocks: Seq<BlockView>) -> Seq<char>
    decreases blocks.len(),
{
    if blocks.len() == 0 {
        Seq::empty()
    } else {
        spec_blocks_latex(blocks.drop_last()) + spec_block_latex(blocks.last())
    }
}

/// The width option on the includegraphics line: the override if there is
/// one, else the default for the rendering mode.
pub open spec fn spec_width_part(is_split: bool, w: Option<Seq<char>>) -> Seq<char> {
    match w {
        Some(w) => "width="@ + w,
        None => if is_split {
            "width="@ + "\\textwidth"@
        } else {
            "width="@ + "0.9\\paperwidth"@
        },
    }
}

/// The height option on the includegraphics line: the override if there is
/// one, else nothing in split mode and the default otherwise.
pub open spec fn spec_height_part(is_split: bool, h: Option<Seq<char>>) -> Seq<char> {
    match h {
        Some(h) => "height="@ + h,
        None => if is_split {
            Seq::<char>::empty()
        } else {
            "height="@ + "0.7\\paperheight"@
        },
    }
}

/// The caption command, if the picture has a caption.
pub open spec fn spec_caption_part(c: Option<Seq<char>>) -> Seq<char> {
    match c {
        Some(c) => "\\caption{"@ + c + "}"@,
        None => Seq::<char>::empty(),
    }
}

/// The markup for a rendered picture: a figure environment whose
/// includegraphics line takes the resolved width and height, with defaults
/// that depend on whether the picture shares the slide with text, and an
/// optional caption.
pub open spec fn spec_latex_picture(lp: LatexPictureView) -> Seq<char> {
    "\n    \\begin{figure}\n        \\centering"@ + "\n\\includegraphics["@ + spec_width_part(
        lp.is_split,
        lp.width,
    ) + ","@ + spec_height_part(lp.is_split, lp.height) + "]{"@ + lp.picture.path + "}"@
        + spec_caption_part(lp.picture.caption) + "\\end{figure}"@
}

/// The view of the rendered form a picture takes in the given mode: both
/// the width and the height of the rendered picture take the width
/// override.
pub open spec fn spec_latex_pic_of(pic: PictureView, is_split: bool) -> Seq<char> {
    spec_latex_picture(
        LatexPictureView { picture: pic, is_split, width: pic.width, height: pic.height_from_width() },
    )
}

impl PictureView {
    /// What the rendered height override is taken from: the width override.
    pub open spec fn height_from_width(self) -> Option<Seq<char>> {
        self.width
    }
}

/// The markup for one classified slide body: text-only as its blocks each
/// followed by a blank line; picture-only as the full-size figure; text
/// beside a vertical picture as the text then the figure, and beside a
/// horizontal picture as two minipages.
pub open spec fn spec_contents_latex(c: ContentOptionsView) -> Seq<char> {
    match c {
        ContentOptionsView::OnlyText(blocks) => spec_blocks_latex_gap(blocks),
        ContentOptionsView::OnlyPicture(pic) => spec_latex_pic_of(pic, false),
        ContentOptionsView::TextAndPicture(blocks, pic) => match pic.orientation {
            Orientation::Vertical => spec_blocks_latex(blocks) + spec_latex_pic_of(pic, false),
            Orientation::Horizontal => "\t\\begin{minipage}{0.4\\textwidth}\n"@
                + spec_blocks_latex(blocks) + "\n\t\\end{minipage}%\n"@ + "\t\\hfill\n"@
                + "\t\\begin{minipage}{0.55\\textwidth}\n"@ + spec_latex_pic_of(pic, true)
                + "\t\\end{minipage}\n"@,
        },
    }
}

/// A classified slide body the renderer accepts: its text parts hold no
/// pictures and no directives.
pub open spec fn renderable_contents(c: ContentOptionsView) -> bool {
    match c {
        ContentOptionsView::OnlyText(blocks) => renderable_blocks(blocks),
        ContentOptionsView::OnlyPicture(_) => true,
        ContentOptionsView::TextAndPicture(blocks, _) => renderable_blocks(blocks),
    }
}

/// Appends `start`, `inner` and `end` to the buffer, in that order.
pub fn wrap_text(buffer: &mut String, start: &'static str, inner: &str, end: &'static str)
    ensures
        final(buffer)@ == old(buffer)@ + start@ + inner@ + end@,
{
    buffer.append(start);
    buffer.append(inner);
    buffer.append(end);
    proof {
        assert(buffer@ =~= old(buffer)@ + start@ + inner@ + end@);
    }
}

impl Span {
    /// Appends the span's markup to the buffer.
    pub fn to_latex(&self, buffer: &mut String)
        ensures
            final(buffer)@ == old(buffer)@ + spec_span_latex(self@),
    {
        match self {
            Span::Bold(s) => wrap_text(buffer, "\\textbf{", s.as_str(), "}"),
            Span::Strikethrough(s) => wrap_text(buffer, "\\sout{", s.as_str(), "}"),
            Span::Italics(s) => wrap_text(buffer, "\\emph{", s.as_str(), "}"),
            Span::Text(s) => wrap_text(buffer, "", s.as_str(), ""),
            Span::Equation(s) => wrap_text(buffer, "$$", s.as_str(), "$$"),
        }
        proof {
            reveal_strlit("");
            assert(buffer@ =~= old(buffer)@ + spec_span_latex(self@));
        }
    }
}

/// Appends the markup of a run of spans to the buffer, in order.
pub fn spans_to_latex(spans: &Vec<Span>, buffer: &mut String)
    ensures
        final(buffer)@ == old(buffer)@ + spec_spans_latex(spans_view(spans@)),
{
    let ghost sv = spans_view(spans@);
    let mut i: usize = 0;
    proof {
        assert(spec_spans_latex(sv.subrange(0, 0)) =~= Seq::<char>::empty());
        assert(buffer@ =~= old(buffer)@ + spec_spans_latex(sv.subrange(0, 0)));
    }
    while i < spans.len()
        invariant
            i <= spans@.len(),
            sv == spans_view(spans@),
            sv.len() == spans@.len(),
            buffer@ == old(buffer)@ + spec_spans_latex(sv.subrange(0, i as int)),
        decreases spans@.len() - i,
    {
        spans[i].to_latex(buffer);
        proof {
            assert(sv.subrange(0, i as int + 1).drop_last() =~= sv.subrange(0, i as int));
            assert(sv.subrange(0, i as int + 1).last() == sv[i as int]);
            assert(sv[i as int] == spans@[i as int]@);
            assert(buffer@ =~= old(buffer)@ + spec_spans_latex(sv.subrange(0, i as int + 1)));
        }
        i = i + 1;
    }
    proof {
        assert(sv.subrange(0, sv.len() as int) =~= sv);
    }
}

impl BulletItem {
    /// Appends the item's markup to the buffer: an `\item` line for a leaf,
    /// a nested itemize environment for a sub-list.
    #[verifier::loop_isolation(false)]
    pub fn to_latex(&self, buffer: &mut String)
        ensures
            final(buffer)@ == old(buffer)@ + spec_bullet_latex(self@),
        decreases *self,
    {
        match self {
            BulletItem::Single(spans) => {
                buffer.append("\\item ");
                spans_to_latex(spans, buffer);
                buffer.append("\n");
                proof {
                    assert(buffer@ =~= old(buffer)@ + spec_bullet_latex(self@));
                }
            },
            BulletItem::Nested(children) => {
                buffer.append("\n\\begin{itemize}\n");
                let ghost entry = buffer@;
                let ghost cv = bullet_items_view(children@);
                let mut i: usize = 0;
                proof {
                    crate::blocks::lemma_bullet_items_view_len(children@);
                    assert(spec_bullet_items_latex(cv.subrange(0, 0)) =~= Seq::<char>::empty());
                    assert(buffer@ =~= entry + spec_bullet_items_latex(cv.subrange(0, 0)));
                }
                while i < children.len()
                    invariant
                        i <= children@.len(),
                        cv == bullet_items_view(children@),
                        cv.len() == children@.len(),
                        buffer@ == entry + spec_bullet_items_latex(cv.subrange(0, i as int)),
                    decreases children@.len() - i,
                {
                    proof {
                        assert(decreases_to!(*self => *children));
                        assert(decreases_to!(*children => children@[i as int]));
                    }
                    children[i].to_latex(buffer);
                    proof {
                        lemma_bullet_items_view_index(children@, i as int);
                        assert(cv.subrange(0, i as int + 1).drop_last() =~= cv.subrange(
                            0,
                            i as int,
                        ));
                        assert(cv.subrange(0, i as int + 1).last() == cv[i as int]);
                        assert(buffer@ =~= entry + spec_bullet_items_latex(
                            cv.subrange(0, i as int + 1),
                        ));
                    }
                    i = i + 1;
                }
                buffer.append("\n\\end{itemize}\n");
                proof {
                    assert(cv.subrange(0, cv.len() as int) =~= cv);
                    assert(buffer@ =~= old(buffer)@ + spec_bullet_latex(self@));
                }
            },
        }
    }
}

/// Appends the markup of a whole bulleted list to the buffer: its items
/// inside an itemize environment.
pub fn bullet_list_to_latex(items: &Vec<BulletItem>, buffer: &mut String)
    ensures
        final(buffer)@ == old(buffer)@ + spec_bullet_list_latex(bullet_items_view(items@)),
{
    let item = BulletItem::Nested(crate::blocks::clone_bullet_items(items));
    item.to_latex(buffer);
}

impl Code {
    /// Appends the code block's markup to the buffer: a listing environment
    /// naming the language, holding the text verbatim.
    pub fn to_latex(&self, buffer: &mut String)
        ensures
            final(buffer)@ == old(buffer)@ + spec_code_latex(self@),
    {
        buffer.append("\\begin{lstlisting}[language=");
        buffer.append(self.language().as_str());
        buffer.append("]\n");
        buffer.append(self.text().as_str());
        buffer.append("\\end{lstlisting}");
        proof {
            assert(buffer@ =~= old(buffer)@ + spec_code_latex(self@));
        }
    }
}

impl Block {
    /// Appends one renderable block's markup to the buffer. Pictures and
    /// directives are resolved by the postprocessor and never rendered as
    /// blocks.
    pub fn to_latex(&self, buffer: &mut String)
        requires
            renderable_block(self@),
        ensures
            final(buffer)@ == old(buffer)@ + spec_block_latex(self@),
    {
        match self {
            Block::Paragraph(spans) => spans_to_latex(spans, buffer),
            Block::BulletedList(items) => bullet_list_to_latex(items, buffer),
            Block::Code(code) => code.to_latex(buffer),
            Block::Picture(_) => proof {
                assert(false);
            },
            Block::Directive(_) => proof {
                assert(false);
            },
        }
    }
}

/// Appends the includegraphics width option for the given rendering mode.
fn append_width(buffer: &mut String, is_split: bool, width: Option<&str>)
    ensures
        final(buffer)@ == old(buffer)@ + spec_width_part(
            is_split,
            match width {
                Some(w) => Some(w@),
                None => None,
            },
        ),
{
    buffer.append("width=");
    match width {
        Some(w) => buffer.append(w),
        None => {
            if is_split {
                buffer.append("\\textwidth");
            } else {
                buffer.append("0.9\\paperwidth");
            }
        },
    }
    proof {
        assert(buffer@ =~= old(buffer)@ + spec_width_part(
            is_split,
            match width {
                Some(w) => Some(w@),
                None => None,
            },
        ));
    }
}

/// Appends the includegraphics height option for the given rendering mode.
fn append_height(buffer: &mut String, is_split: bool, height: Option<&str>)
    ensures
        final(buffer)@ == old(buffer)@ + spec_height_part(
            is_split,
            match height {
                Some(h) => Some(h@),
                None => None,
            },
        ),
{
    if is_split {
        match height {
            Some(h) => {
                buffer.append("height=");
                buffer.append(h);
            },
            None => {},
        }
    } else {
        buffer.append("height=");
        match height {
            Some(h) => buffer.append(h),
            None => buffer.append("0.7\\paperheight"),
        }
    }
    proof {
        assert(buffer@ =~= old(buffer)@ + spec_height_part(
            is_split,
            match height {
                Some(h) => Some(h@),
                None => None,
            },
        ));
    }
}

impl<'a> LatexPicture<'a> {
    /// Appends the rendered picture's markup to the buffer: the figure
    /// environment with the resolved width, height and caption.
    pub fn to_latex(&self, buffer: &mut String)
        ensures
            final(buffer)@ == old(buffer)@ + spec_latex_picture(self@),
    {
        buffer.append("\n    \\begin{figure}\n        \\centering");
        buffer.append("\n\\includegraphics[");
        append_width(buffer, self.is_split, self.width);
        buffer.append(",");
        append_height(buffer, self.is_split, self.height);
        buffer.append("]{");
        let path = self.get_path();
        buffer.append(path.as_str());
        buffer.append("}");
        match self.caption() {
            Some(caption) => {
                buffer.append("\\caption{");
                buffer.append(caption);
                buffer.append("}");
            },
            None => {},
        }
        buffer.append("\\end{figure}");
        proof {
            assert(buffer@ =~= old(buffer)@ + spec_latex_picture(self@));
        }
    }
}

impl Title {
    /// Appends the title's markup to the buffer.
    pub fn to_latex(&self, buffer: &mut String)
        ensures
            final(buffer)@ == old(buffer)@ + spec_spans_latex(self@),
    {
        spans_to_latex(&self.title, buffer);
    }
}

/// Appends the markup of a run of renderable blocks, each followed by a
/// blank line.
fn blocks_to_latex_gap(blocks: &Vec<Block>, buffer: &mut String)
    requires
        renderable_blocks(blocks_view(blocks@)),
    ensures
        final(buffer)@ == old(buffer)@ + spec_blocks_latex_gap(blocks_view(blocks@)),
{
    let ghost bv = blocks_view(blocks@);
    let mut i: usize = 0;
    proof {
        assert(spec_blocks_latex_gap(bv.subrange(0, 0)) =~= Seq::<char>::empty());
        assert(buffer@ =~= old(buffer)@ + spec_blocks_latex_gap(bv.subrange(0, 0)));
    }
    while i < blocks.len()
        invariant
            i <= blocks@.len(),
            bv == blocks_view(blocks@),
            bv.len() == blocks@.len(),
            renderable_blocks(bv),
            buffer@ == old(buffer)@ + spec_blocks_latex_gap(bv.subrange(0, i as int)),
        decreases blocks@.len() - i,
    {
        proof {
            assert(bv[i as int] == blocks@[i as int]@);
            assert(renderable_block(bv[i as int]));
        }
        blocks[i].to_latex(buffer);
        buffer.append("\n\n");
        proof {
            assert(bv.subrange(0, i as int + 1).drop_last() =~= bv.subrange(0, i as int));
            assert(bv.subrange(0, i as int + 1).last() == bv[i as int]);
            assert(buffer@ =~= old(buffer)@ + spec_blocks_latex_gap(bv.subrange(0, i as int + 1)));
        }
        i = i + 1;
    }
    proof {
        assert(bv.subrange(0, bv.len() as int) =~= bv);
    }
}

/// Appends the markup of a run of renderable blocks, with nothing between
/// them.
fn blocks_to_latex(blocks: &Vec<Block>, buffer: &mut String)
    requires
        renderable_blocks(blocks_view(blocks@)),
    ensures
        final(buffer)@ == old(buffer)@ + spec_blocks_latex(blocks_view(blocks@)),
{
    let ghost bv = blocks_view(blocks@);
    let mut i: usize = 0;
    proof {
        assert(spec_blocks_latex(bv.subrange(0, 0)) =~= Seq::<char>::empty());
        assert(buffer@ =~= old(buffer)@ + spec_blocks_latex(bv.subrange(0, 0)));
    }
    while i < blocks.len()
        invariant
            i <= blocks@.len(),
            bv == blocks_view(blocks@),
            bv.len() == blocks@.len(),
            renderable_blocks(bv),
            buffer@ == old(buffer)@ + spec_blocks_latex(bv.subrange(0, i as int)),
        decreases blocks@.len() - i,
    {
        proof {
            assert(bv[i as int] == blocks@[i as int]@);
            assert(renderable_block(bv[i as int]));
        }
        blocks[i].to_latex(buffer);
        proof {
            assert(bv.subrange(0, i as int + 1).drop_last() =~= bv.subrange(0, i as int));
            assert(bv.subrange(0, i as int + 1).last() == bv[i as int]);
            assert(buffer@ =~= old(buffer)@ + spec_blocks_latex(bv.subrange(0, i as int + 1)));
        }
        i = i + 1;
    }
    proof {
        assert(bv.subrange(0, bv.len() as int) =~= bv);
    }
}

impl ContentOptions {
    /// Appends the classified slide body's markup to the buffer.
    pub fn to_latex(&self, buffer: &mut String)
        requires
            renderable_contents(self@),
        ensures
            final(buffer)@ == old(buffer)@ + spec_contents_latex(self@),
    {
        match self {
            ContentOptions::OnlyText(content_list) => {
                blocks_to_latex_gap(content_list, buffer);
            },
            ContentOptions::OnlyPicture(picture) => {
                let lp = picture.to_latex_picture(false);
                lp.to_latex(buffer);
            },
            ContentOptions::TextAndPicture(content, picture) => match picture.orientation {
                Orientation::Vertical => {
                    blocks_to_latex(content, buffer);
                    let lp = picture.to_latex_picture(false);
                    lp.to_latex(buffer);
                    proof {
                        assert(buffer@ =~= old(buffer)@ + spec_contents_latex(self@));
                    }
                },
                Orientation::Horizontal => {
                    buffer.append("\t\\begin{minipage}{0.4\\textwidth}\n");
                    blocks_to_latex(content, buffer);
                    buffer.append("\n\t\\end{minipage}%\n");
                    buffer.append("\t\\hfill\n");
                    buffer.append("\t\\begin{minipage}{0.55\\textwidth}\n");
                    let lp = picture.to_latex_picture(true);
                    lp.to_latex(buffer);
                    buffer.append("\t\\end{minipage}\n");
                    proof {
                        assert(buffer@ =~= old(buffer)@ + spec_contents_latex(self@));
                    }
                },
            },
        }
    }
}

/// The markup for one finished slide: a fragile frame holding the title and
/// the rendered contents.
pub open spec fn spec_slide_latex(sl: SlideView) -> Seq<char> {
    "\\begin{frame}[fragile]\n    \\frametitle{"@ + spec_spans_latex(sl.title) + "}\n\n"@
        + spec_contents_latex(sl.contents) + "\n\\end{frame}\n\n\n"@
}

/// Appends one finished slide's markup to the buffer: a fragile frame with
/// the title and the rendered contents.
pub fn write_slide(buffer: &mut String, slide: Slide)
    requires
        renderable_contents(slide.contents@),
    ensures
        final(buffer)@ == old(buffer)@ + spec_slide_latex(slide@),
{
    buffer.append("\\begin{frame}[fragile]\n    \\frametitle{");
    slide.title.to_latex(buffer);
    buffer.append("}\n\n");
    slide.contents.to_latex(buffer);
    buffer.append("\n\\end{frame}\n\n\n");
    proof {
        assert(buffer@ =~= old(buffer)@ + spec_slide_latex(slide@));
    }
}

/// The fixed document preamble, up to and including the opening of the
/// title command.
pub open spec fn spec_latex_preamble() -> Seq<char> {
    "\n\\documentclass{beamer}\n\\usepackage{graphicx}\n\\usepackage{float}\n\\usepackage{hyperref}\n\\usepackage{ulem}\n\\usepackage{listings}\n\\usepackage{xcolor}\n\\usepackage{esint}\n\\usepackage{gensymb}\n\\usepackage{mathtools}\n\\usepackage{multirow}\n\n\\definecolor{codegreen}{rgb}{0,0.6,0}\n\\definecolor{codegray}{rgb}{0.5,0.5,0.5}\n\\definecolor{codepurple}{rgb}{0.58,0,0.82}\n\\definecolor{backcolour}{rgb}{0.95,0.95,0.92}\n\n\\lstdefinestyle{mystyle}{\n    backgroundcolor=\\color{backcolour},\n    commentstyle=\\color{codegreen},\n    keywordstyle=\\color{magenta},\n    numberstyle=\\tiny\\color{codegray},\n    stringstyle=\\color{codepurple},\n    basicstyle=\\ttfamily\\tiny,\n    breakatwhitespace=false,\n    breaklines=true,\n    captionpos=b,\n    keepspaces=true,\n    numbers=left,\n    numbersep=5pt,\n    showspaces=false,\n    showstringspaces=false,\n    showtabs=false,\n    tabsize=2\n}\n\n\\lstset{style=mystyle}\n\n\\hypersetup{\ncolorlinks=true,\nlinkcolor=blue,\nfilecolor=magenta,\nurlcolor=cyan,\n}\n\n\\urlstyle{same}\n\n\\title{"@
}

/// The markup for the document header: the preamble, the rendered title,
/// today's date, the author, and the opening of the document with its title
/// page.
pub open spec fn spec_header_latex(title: Seq<SpanView>, author: Seq<char>) -> Seq<char> {
    spec_latex_preamble() + spec_spans_latex(title) + "}\n\\date{\\today}\n\\author{"@ + author
        + "}\n\\begin{document}\n\\frame{\\titlepage}\n\n"@
}

/// Appends the document header to the buffer: the preamble, the rendered
/// title, today's date, the author, and the opening of the document.
pub fn latex_header(buffer: &mut String, title: Title, author: String)
    ensures
        final(buffer)@ == old(buffer)@ + spec_header_latex(title@, author@),
{
    buffer.append("\n\\documentclass{beamer}\n\\usepackage{graphicx}\n\\usepackage{float}\n\\usepackage{hyperref}\n\\usepackage{ulem}\n\\usepackage{listings}\n\\usepackage{xcolor}\n\\usepackage{esint}\n\\usepackage{gensymb}\n\\usepackage{mathtools}\n\\usepackage{multirow}\n\n\\definecolor{codegreen}{rgb}{0,0.6,0}\n\\definecolor{codegray}{rgb}{0.5,0.5,0.5}\n\\definecolor{codepurple}{rgb}{0.58,0,0.82}\n\\definecolor{backcolour}{rgb}{0.95,0.95,0.92}\n\n\\lstdefinestyle{mystyle}{\n    backgroundcolor=\\color{backcolour},\n    commentstyle=\\color{codegreen},\n    keywordstyle=\\color{magenta},\n    numberstyle=\\tiny\\color{codegray},\n    stringstyle=\\color{codepurple},\n    basicstyle=\\ttfamily\\tiny,\n    breakatwhitespace=false,\n    breaklines=true,\n    captionpos=b,\n    keepspaces=true,\n    numbers=left,\n    numbersep=5pt,\n    showspaces=false,\n    showstringspaces=false,\n    showtabs=false,\n    tabsize=2\n}\n\n\\lstset{style=mystyle}\n\n\\hypersetup{\ncolorlinks=true,\nlinkcolor=blue,\nfilecolor=magenta,\nurlcolor=cyan,\n}\n\n\\urlstyle{same}\n\n\\title{");
    title.to_latex(buffer);
    buffer.append("}\n\\date{\\today}\n\\author{");
    buffer.append(author.as_str());
    buffer.append("}\n\\begin{document}\n\\frame{\\titlepage}\n\n");
    proof {
        assert(buffer@ =~= old(buffer)@ + spec_header_latex(title@, author@));
    }
}

/// Appends the document footer to the buffer.
pub fn latex_footer(buffer: &mut String)
    ensures
        final(buffer)@ == old(buffer)@ + "\n\\end{document}"@,
{
    buffer.append("\n\\end{document}");
}

/// The markup for a run of finished slides, in order.
pub open spec fn spec_slides_latex(slides: Seq<SlideView>) -> Seq<char>
    decreases slides.len(),
{
    if slides.len() == 0 {
        Seq::empty()
    } else {
        spec_slide_latex(slides[0]) + spec_slides_latex(slides.drop_first())
    }
}

/// Every slide of the presentation has renderable contents.
pub open spec fn renderable_presentation(p: PresentationView) -> bool {
    forall|k: int| 0 <= k < p.slides.len() ==> renderable_contents((#[trigger] p.slides[k]).contents)
}

/// The markup for a whole presentation: the header, every slide in order,
/// and the footer.
pub open spec fn spec_write_latex(p: PresentationView) -> Seq<char> {
    spec_header_latex(p.title, p.author) + spec_slides_latex(p.slides) + "\n\\end{document}"@
}

/// Renders a whole presentation as markup text: the header, every slide in
/// order, and the footer.
pub fn write_latex(presentation: Presentation) -> (r: String)
    requires
        renderable_presentation(presentation@),
    ensures
        r@ == spec_write_latex(presentation@),
{
    let ghost pv = presentation@;
    let Presentation { title, author, mut slides } = presentation;
    let mut buffer = String::new();
    latex_header(&mut buffer, title, author);
    let ghost header = spec_header_latex(pv.title, pv.author);
    let ghost mut emitted: Seq<char> = Seq::empty();
    proof {
        assert(slides_view(slides@) == pv.slides);
        assert(buffer@ =~= header + emitted);
        assert(emitted + spec_slides_latex(slides_view(slides@)) =~= spec_slides_latex(pv.slides));
    }
    while slides.len() > 0
        invariant
            buffer@ == header + emitted,
            emitted + spec_slides_latex(slides_view(slides@)) == spec_slides_latex(pv.slides),
            forall|k: int|
                0 <= k < slides@.len() ==> renderable_contents(
                    (#[trigger] slides_view(slides@)[k]).contents,
                ),
        decreases slides@.len(),
    {
        let ghost prev = slides@;
        let ghost prev_emitted = emitted;
        let slide = slides.remove(0);
        proof {
            assert(slides_view(prev)[0] == slide@);
            assert(slides_view(slides@) =~= slides_view(prev).drop_first());
            assert(spec_slides_latex(slides_view(prev)) == spec_slide_latex(slide@)
                + spec_slides_latex(slides_view(slides@)));
        }
        write_slide(&mut buffer, slide);
        proof {
            emitted = prev_emitted + spec_slide_latex(slide@);
            assert(buffer@ =~= header + emitted);
            assert(prev_emitted + (spec_slide_latex(slide@) + spec_slides_latex(
                slides_view(slides@),
            )) =~= emitted + spec_slides_latex(slides_view(slides@)));
        }
    }
    proof {
        assert(slides_view(slides@) =~= Seq::<SlideView>::empty());
        assert(emitted + spec_slides_latex(Seq::<SlideView>::empty()) =~= emitted);
    }
    latex_footer(&mut buffer);
    proof {
        assert(buffer@ =~= spec_write_latex(pv));
    }
    buffer
}


} // verus!
