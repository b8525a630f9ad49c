use mdslides::blockparse::{
    code_block_header, parse_as_code, parse_block, parse_block_as_bullets, parse_block_as_picture,
    parse_bullet_item, picture_directive,
};
use mdslides::blocks::{Block, BulletItem, Code, Directive, ParsePicture, PictureDirective};
use mdslides::document::{parse_slide, parse_start_header};
use mdslides::spans::{
    parse_bold, parse_italics, parse_regular_text, parse_string, parse_strikethrough, Span,
};

fn chars(text: &str) -> Vec<char> {
    text.chars().collect()
}

fn rest_of(text: &str, pos: usize) -> String {
    text.chars().skip(pos).collect()
}

#[test]
fn bold_1() {
    let text = "**some bold thing here** other stuff";
    let out = parse_bold(&chars(text), 0);

    let out = out.unwrap();

    assert_eq!(out.1, Span::Bold("some bold thing here".into()));
    assert_eq!(rest_of(text, out.0), " other stuff");
}

#[test]
fn strikethrough_1() {
    let text = "~~some strikethrough thing here~~ other stuff";
    let out = parse_strikethrough(&chars(text), 0);

    let out = out.unwrap();

    assert_eq!(
        out.1,
        Span::Strikethrough("some strikethrough thing here".into())
    );

    assert_eq!(rest_of(text, out.0), " other stuff");
}

#[test]
fn italics_1() {
    let text = "*some italic thing here* other stuff";
    let out = parse_italics(&chars(text), 0);

    let out = out.unwrap();

    assert_eq!(out.1, Span::Italics("some italic thing here".into()));

    assert_eq!(rest_of(text, out.0), " other stuff");
}

#[test]
fn text_1() {
    let text = "start text **bold text**";
    let out = parse_regular_text(&chars(text), 0);
    let out = out.unwrap();
    assert_eq!(out.1, Span::Text("start text ".to_string()));
    assert_eq!(rest_of(text, out.0), "**bold text**");
}

#[test]
fn text_2_only_text() {
    let text = "only text";
    let out = parse_regular_text(&chars(text), 0);
    let out = out.unwrap();
    assert_eq!(out.1, Span::Text("only text".to_string()));
    assert_eq!(rest_of(text, out.0), "");
}

#[test]
fn block_1() {
    let text = "\n\nblock text here\n\nanother block of something here \n## a new header here";
    let out = parse_block(&chars(text), 0);
    let _out = out.unwrap();
}

#[test]
fn parse_string_1() {
    let text = "something **bold** *italics* ~~strike~~";
    let out = parse_string(&chars(text));
    let out = out.unwrap();

    let expected = vec![
        Span::Text("something ".into()),
        Span::Bold("bold".into()),
        Span::Text(" ".into()),
        Span::Italics("italics".into()),
        Span::Text(" ".into()),
        Span::Strikethrough("strike".into()),
    ];

    assert_eq!(out, expected);
}

#[test]
fn parse_single_bullet_1() {
    let text = "* bullet text";
    let out = parse_bullet_item(&chars(text), 0);
    let _out = out.unwrap();
}

#[test]
fn parse_unnested_bullet_block() {
    let text = "* bullet text\n* bullet text\n* **bolded bullet text**";
    let out = parse_block_as_bullets(&chars(text), 0);
    let out = out.unwrap();
    let expected = Block::BulletedList(vec![
        BulletItem::Single(vec![Span::Text("bullet text".into())]),
        BulletItem::Single(vec![Span::Text("bullet text".into())]),
        BulletItem::Single(vec![Span::Bold("bolded bullet text".into())]),
    ]);
    assert_eq!(out.1, expected);
}

#[test]
fn parse_nested_bullet_block() {
    let text = r#"
* item
* item
    * nested item
    * nested item
* regular item
        "#;

    let out = parse_block_as_bullets(&chars(text), 0);
    let out = out.unwrap();
    let expected = Block::BulletedList(vec![
        BulletItem::Single(vec![Span::Text("item".into())]),
        BulletItem::Single(vec![Span::Text("item".into())]),
        BulletItem::Nested(vec![
            BulletItem::Single(vec![Span::Text("nested item".into())]),
            BulletItem::Single(vec![Span::Text("nested item".into())]),
        ]),
        BulletItem::Single(vec![Span::Text("regular item".into())]),
    ]);

    assert_eq!(out.1, expected)
}

#[test]
fn get_header() {
    let text = r#"
# Presentation Title
AUTHOR=Author Name

        "#;

    let out = parse_start_header(&chars(text));
    let (_, first_slide) = out.unwrap();
    let expected_title = vec![Span::Text("Presentation Title".to_string())];

    assert_eq!(first_slide.title, expected_title);
    assert_eq!(first_slide.author, "Author Name");
}

#[test]
fn parse_slide_1() {
    let text = r#"
## Slide Title

some inner text

some more text

"#;

    let out = parse_slide(&chars(text), 0);
    let out = out.unwrap();

    let expected = vec![
        Block::Paragraph(vec![Span::Text("some inner text".to_string())]),
        Block::Paragraph(vec![Span::Text("some more text".to_string())]),
    ];

    assert_eq!(out.1.contents, expected);
}

#[test]
fn parse_slide_2() {
    let text = r#"
## Energy

```
! from calculate_energy https://github.com/Fluid-Dynamics-Group/hit3d/blob/master/src/write_data.f90#L127
do i =1,nx
	do j=1,ny
		do k=1,nz
			u = wrk(i,j,k,1)
			v = wrk(i,j,k,2)
			w = wrk(i,j,k,3)

			energy = energy + u**2 + v**2 + w**2
		end do
	end do
end do

energy = energy * dx * dy * dz
```

"#;

    let out = parse_slide(&chars(text), 0);
    let out = out.unwrap();

    for c in out.1.contents {
        assert_eq!(matches!(c, Block::Picture(_)), false)
    }
}

#[test]
fn parse_picture_1() {
    let text = "![caption](path)";
    let out = parse_block_as_picture(&chars(text), 0);
    let out = out.unwrap().1;
    let expected = ParsePicture {
        path: "path".to_string(),
        caption: Some("caption".to_string()),
        directive: None,
    };
    assert_eq!(out, Block::Picture(expected));
}

#[test]
fn parse_code_1() {
    let code = r#"
```language
code here
```
        "#;

    let out = parse_as_code(&chars(code), 0);
    let out = out.unwrap().1;
    let expected = Block::Code(Code::new("code here\n".to_string(), "language".to_string()));
    assert_eq!(out, expected);
}

#[test]
fn parse_code_2() {
    let code = r#"

```
! from calculate_energy https://github.com/Fluid-Dynamics-Group/hit3d/blob/master/src/write_data.f90#L127
do i =1,nx
	do j=1,ny
		do k=1,nz
			u = wrk(i,j,k,1)
			v = wrk(i,j,k,2)
			w = wrk(i,j,k,3)

			energy = energy + u**2 + v**2 + w**2
		end do
	end do
end do

energy = energy * dx * dy * dz
```
        "#;

    let out = parse_as_code(&chars(code), 0);
    let out = out.unwrap().1;
    assert_eq!(matches!(out, Block::Code(_)), true);
}

#[test]
fn code_header_1() {
    let text = "```python\n";
    let out = code_block_header(&chars(text), 0);
    let out = out.unwrap();
    assert_eq!(&out.1.language, "python")
}

#[test]
fn slide_with_breaks() {
    let text = "\n\n
            ## Some Slide

            text1

            %NEWSLIDE

            text2";

    let out = parse_slide(&chars(text), 0);

    let out = out.unwrap().1;

    assert_eq!(out.title, vec![Span::Text("Some Slide".into())]);

    let expected_blocks = vec![
        Block::Paragraph(vec![Span::Text("text1".into())]),
        Block::Directive(Directive::NewSlide),
        Block::Paragraph(vec![Span::Text("text2".into())]),
    ];

    assert_eq!(out.contents, expected_blocks);
}

#[test]
fn picture_with_directive() {
    let text = "![](somepicture)\n%VERTICAL";
    let out = parse_block_as_picture(&chars(text), 0).unwrap();
    let picture = out.1;

    let expected = ParsePicture {
        path: "somepicture".to_string(),
        caption: None,
        directive: Some(vec![PictureDirective::Vertical]),
    };

    assert_eq!(picture, Block::Picture(expected));
}

#[test]
fn non_ascii_characters() {
    let slide = "
            ## Slide Name

            ```
            .
            └── example_namespace

            ```
        ";

    let output = parse_slide(&chars(slide), 0);

    output.unwrap();
}

#[test]
fn multiple_picture_directives() {
    let text = "%VERTICAL\n%WIDTH=SOMETHING\nREST";

    let first = picture_directive(&chars(text), 0);
    let (rest, dir1) = first.unwrap();

    let second = picture_directive(&chars(text), rest);
    let (rest, dir2) = second.unwrap();

    assert!(dir1 == PictureDirective::Vertical);
    assert!(dir2 == PictureDirective::Width("SOMETHING".into()));
    assert!(rest_of(text, rest) == "\nREST");
}

#[test]
fn slide_multiple_directives() {
    let text = "
            ## Slide Name

            ![caption](./image/path)
            %VERTICAL
            %WIDTH=SOMETHING

            REST";

    let slide = parse_slide(&chars(text), 0);

    let slide = slide.unwrap();

    let output = match &slide.1.contents[0] {
        Block::Picture(x) => x,
        _ => panic!("unexpected slide"),
    };

    let expected = ParsePicture {
        path: "./image/path".into(),
        caption: Some("caption".into()),
        directive: Some(vec![
            PictureDirective::Vertical,
            PictureDirective::Width("SOMETHING".into()),
        ]),
    };

    assert_eq!(&expected, output);
}
