use mdslides::blockparse::parse_block_as_picture;
use mdslides::blocks::{Block, Code, ParsePicture, PictureDirective};
use mdslides::document::parse_markdown;
use mdslides::latex::wrap_text;
use mdslides::markdown_to_latex;
use mdslides::spans::{parse_string, Span};
use mdslides::ParseError;

fn chars(text: &str) -> Vec<char> {
    text.chars().collect()
}

const SAMPLE: &str = "# My Talk\nAUTHOR=Someone\n\n## First

intro paragraph

%NEWSLIDE

![shot](images/shot.png)
%VERTICAL
%WIDTH=0.5\\textwidth

closing words

## Second

* point one
* point two
    * sub point

```python
print(1)
```
";

#[test]
fn plain_text_round_trip() {
    let out = parse_string(&chars("no markup here at all")).unwrap();
    assert_eq!(out, vec![Span::Text("no markup here at all".to_string())]);
}

#[test]
fn balanced_delimiters() {
    let out = parse_string(&chars("**bold** *italics* ~~strike~~")).unwrap();
    let expected = vec![
        Span::Bold("bold".into()),
        Span::Text(" ".into()),
        Span::Italics("italics".into()),
        Span::Text(" ".into()),
        Span::Strikethrough("strike".into()),
    ];
    assert_eq!(out, expected);
}

#[test]
fn empty_input_is_empty_span_error() {
    let out = parse_string(&chars(""));
    assert_eq!(out, Err(ParseError::EmptySpan));
}

#[test]
fn missing_header_is_structural_error() {
    let out = parse_markdown("just some text with no header");
    assert!(matches!(out, Err(ParseError::BadStructure)));
}

#[test]
fn picture_directive_parsing() {
    let out = parse_block_as_picture(&chars("![](path)\n%VERTICAL"), 0).unwrap();
    let expected = ParsePicture {
        path: "path".to_string(),
        caption: None,
        directive: Some(vec![PictureDirective::Vertical]),
    };
    assert_eq!(out.1, Block::Picture(expected));
}

#[test]
fn pipeline_is_idempotent() {
    let first = parse_markdown(SAMPLE).unwrap();
    let second = parse_markdown(SAMPLE).unwrap();
    assert_eq!(first, second);

    let out1 = markdown_to_latex(SAMPLE).unwrap();
    let out2 = markdown_to_latex(SAMPLE).unwrap();
    assert_eq!(out1, out2);
}

#[test]
fn pipeline_renders_whole_document() {
    let out = markdown_to_latex(SAMPLE).unwrap();
    assert!(out.starts_with("\n\\documentclass{beamer}"));
    assert!(out.ends_with("\n\\end{document}"));
    assert!(out.contains("\\title{My Talk}"));
    assert!(out.contains("\\author{Someone}"));
    assert!(out.contains("\\frametitle{First}"));
    assert!(out.contains("\\frametitle{Second}"));
    assert!(out.contains("intro paragraph"));
    assert!(out.contains("\\includegraphics[width=0.5\\textwidth,height=0.5\\textwidth]{images/shot.png}"));
    assert!(out.contains("\\caption{shot}"));
    assert!(out.contains("\\begin{itemize}"));
    assert!(out.contains("\\item point one\n"));
    assert!(out.contains("\\begin{lstlisting}[language=python]\nprint(1)\n\\end{lstlisting}"));
    // the slide break makes three frames out of two sections
    assert_eq!(out.matches("\\begin{frame}[fragile]").count(), 3);
}

#[test]
fn document_structure_after_parse() {
    let doc = parse_markdown(SAMPLE).unwrap();
    assert_eq!(doc.first.title, vec![Span::Text("My Talk".to_string())]);
    assert_eq!(doc.first.author, "Someone");
    assert_eq!(doc.slides.len(), 2);
    assert_eq!(doc.slides[0].title, vec![Span::Text("First".to_string())]);
    assert_eq!(doc.slides[1].title, vec![Span::Text("Second".to_string())]);
    // first slide: paragraph, break, picture, paragraph
    assert_eq!(doc.slides[0].contents.len(), 4);
}

#[test]
fn wrap_text_appends_in_order() {
    let mut buffer = String::new();
    wrap_text(&mut buffer, "\\emph{", "middle", "}");
    assert_eq!(buffer, "\\emph{middle}");
}

#[test]
fn span_latex_forms() {
    let mut buffer = String::new();
    Span::Bold("b".to_string()).to_latex(&mut buffer);
    Span::Strikethrough("s".to_string()).to_latex(&mut buffer);
    Span::Italics("i".to_string()).to_latex(&mut buffer);
    Span::Text("t".to_string()).to_latex(&mut buffer);
    Span::Equation("e".to_string()).to_latex(&mut buffer);
    assert_eq!(buffer, "\\textbf{b}\\sout{s}\\emph{i}t$$e$$");
}

#[test]
fn code_block_latex() {
    let code = Code::new("body\n".to_string(), "rust".to_string());
    let mut buffer = String::new();
    code.to_latex(&mut buffer);
    assert_eq!(
        buffer,
        "\\begin{lstlisting}[language=rust]\nbody\n\\end{lstlisting}"
    );
}

#[test]
fn equation_span_parses() {
    let out = parse_string(&chars("$$x + y$$ rest")).unwrap();
    assert_eq!(
        out,
        vec![
            Span::Equation("x + y".to_string()),
            Span::Text(" rest".to_string()),
        ]
    );
}

#[test]
fn unmatched_delimiter_is_plain_text() {
    let out = parse_string(&chars("a * b")).unwrap();
    assert_eq!(out, vec![Span::Text("a * b".to_string())]);
}

#[test]
fn document_with_no_slides() {
    let doc = parse_markdown("# T\nAUTHOR=a").unwrap();
    assert_eq!(doc.first.title, vec![Span::Text("T".to_string())]);
    assert_eq!(doc.first.author, "a");
    assert!(doc.slides.is_empty());

    let out = markdown_to_latex("# T\nAUTHOR=a").unwrap();
    assert!(out.contains("\\title{T}"));
    assert!(out.ends_with("\n\\end{document}"));
    assert!(!out.contains("\\begin{frame}"));
}

#[test]
fn width_directive_needs_line_end() {
    let out = parse_block_as_picture(&chars("![](p)\n%WIDTH=5"), 0).unwrap();
    let expected = ParsePicture {
        path: "p".to_string(),
        caption: None,
        directive: None,
    };
    assert_eq!(out.1, Block::Picture(expected));
}

#[test]
fn empty_title_fails_header() {
    let out = parse_markdown("# \nAUTHOR=a");
    assert!(matches!(out, Err(ParseError::BadStructure)));
}
