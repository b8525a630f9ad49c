use mdslides::blocks::{Block, BulletItem, Code, Directive, ParsePicture, PictureDirective};
use mdslides::bullets::collect_bullet_items;
use mdslides::data::Picture;
use mdslides::data::{ContentOptions, Orientation};
use mdslides::postprocess::{
    is_only_picture, is_only_text, process_slide, text_directive_handler, to_content_options,
};
use mdslides::document::ParsedSlide;
use mdslides::spans::Span;

fn spans_from_text(text: &str) -> Vec<Span> {
    vec![Span::Text(text.to_string())]
}

fn paragraph(text: &str) -> Block {
    Block::Paragraph(spans_from_text(text))
}

fn picture(path: &str) -> ParsePicture {
    ParsePicture {
        path: path.to_string(),
        caption: None,
        directive: None,
    }
}

#[test]
fn simple_newslide_directive() {
    let blocks = vec![
        paragraph("1"),
        Block::Directive(Directive::NewSlide),
        paragraph("2"),
    ];

    let out_blocks = text_directive_handler(blocks);

    let slide_1 = vec![paragraph("1")];

    let slide_2 = vec![paragraph("1"), paragraph("2")];

    assert_eq!(out_blocks[0], slide_1);
    assert_eq!(out_blocks[1], slide_2);
}

#[test]
fn two_breaks_make_three_slides() {
    let blocks = vec![
        paragraph("a"),
        Block::Directive(Directive::NewSlide),
        paragraph("b"),
        Block::Directive(Directive::NewSlide),
        paragraph("c"),
    ];

    let slides = process_slide(ParsedSlide {
        title: spans_from_text("T"),
        contents: blocks,
    });

    assert_eq!(slides.len(), 3);
    for slide in &slides {
        assert_eq!(slide.title.title, spans_from_text("T"));
    }
}

#[test]
fn no_breaks_make_one_slide() {
    let blocks = vec![paragraph("a"), paragraph("b")];

    let slides = process_slide(ParsedSlide {
        title: spans_from_text("T"),
        contents: blocks,
    });

    assert_eq!(slides.len(), 1);
    assert_eq!(
        slides[0].contents,
        ContentOptions::OnlyText(vec![paragraph("a"), paragraph("b")])
    );
}

#[test]
fn classify_text_and_picture() {
    let blocks = vec![
        paragraph("before"),
        Block::Picture(picture("p")),
        paragraph("after"),
    ];

    let out = to_content_options(blocks);

    match out {
        ContentOptions::TextAndPicture(text, pic) => {
            assert_eq!(text, vec![paragraph("before"), paragraph("after")]);
            assert_eq!(pic.path, "p");
        }
        _ => panic!("expected text and picture"),
    }
}

#[test]
fn classify_only_picture_keeps_first() {
    let blocks = vec![Block::Picture(picture("p1")), Block::Picture(picture("p2"))];

    let out = to_content_options(blocks);

    match out {
        ContentOptions::OnlyPicture(pic) => {
            assert_eq!(pic.path, "p1");
        }
        _ => panic!("expected only picture"),
    }
}

#[test]
fn classify_only_text() {
    let blocks = vec![paragraph("a")];
    assert!(is_only_text(&blocks));
    assert!(!is_only_picture(&blocks));

    let out = to_content_options(blocks);
    assert_eq!(out, ContentOptions::OnlyText(vec![paragraph("a")]));
}

#[test]
fn empty_unit_classifies_as_text() {
    let blocks: Vec<Block> = Vec::new();
    assert!(is_only_text(&blocks));
    assert!(is_only_picture(&blocks));

    let out = to_content_options(blocks);
    assert_eq!(out, ContentOptions::OnlyText(Vec::new()));
}

#[test]
fn picture_directives_resolve() {
    let parsed = ParsePicture {
        path: "p".to_string(),
        caption: Some("c".to_string()),
        directive: Some(vec![
            PictureDirective::Vertical,
            PictureDirective::Width("w1".to_string()),
            PictureDirective::Width("w2".to_string()),
            PictureDirective::Height("h1".to_string()),
        ]),
    };

    let pic = Picture::from_parse(parsed);
    assert_eq!(pic.path, "p");
    assert_eq!(pic.caption, Some("c".to_string()));
    assert_eq!(pic.orientation, Orientation::Vertical);
    assert_eq!(pic.width, Some("w1".to_string()));
    assert_eq!(pic.height, Some("h1".to_string()));
}

#[test]
fn picture_without_directives_is_horizontal() {
    let pic = Picture::from_parse(picture("p"));
    assert_eq!(pic.orientation, Orientation::Horizontal);
    assert_eq!(pic.width, None);
    assert_eq!(pic.height, None);
}

#[test]
fn directive_kind_predicates() {
    let v = PictureDirective::Vertical;
    let w = PictureDirective::Width("x".to_string());
    let h = PictureDirective::Height("y".to_string());

    assert!(v.is_orientation() && !v.is_width() && !v.is_height());
    assert!(!w.is_orientation() && w.is_width() && !w.is_height());
    assert!(!h.is_orientation() && !h.is_width() && h.is_height());
}

#[test]
fn collect_bullet_items_rebuilds_tree() {
    let single = |t: &str| BulletItem::Single(spans_from_text(t));

    let mut flat = vec![
        (0usize, single("a")),
        (0usize, single("b")),
        (1usize, single("c")),
        (1usize, single("d")),
        (0usize, single("e")),
    ];
    let mut nested: Vec<BulletItem> = Vec::new();

    collect_bullet_items(&mut flat, &mut nested, 0);

    let expected = vec![
        single("a"),
        single("b"),
        BulletItem::Nested(vec![single("c"), single("d")]),
        single("e"),
    ];

    assert_eq!(nested, expected);
    assert!(flat.is_empty());
}
