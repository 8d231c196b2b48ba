use slm_inference::epubscan::archive::EpubError;
use slm_inference::epubscan::book::{extract_sections, EpubScan};
use slm_inference::epubscan::paths::{dir_of, normalize_path, resolve};
use slm_inference::epubscan::xhtml::parse_xhtml;
use std::io::{Cursor, Write};
use zip::write::SimpleFileOptions;
use zip::ZipWriter;

fn xhtml(body: &str) -> String {
    format!(
        r#"<?xml version="1.0" encoding="UTF-8"?>
<html xmlns="http://www.w3.org/1999/xhtml">
<head><title>Test</title></head>
<body>{}</body>
</html>"#,
        body
    )
}

fn parse(body: &str) -> (String, Vec<(usize, usize)>) {
    parse_xhtml(&xhtml(body))
}

#[test]
fn plain_paragraph() {
    let (text, segs) = parse("<p>Hello world</p>");
    assert_eq!(segs.len(), 1);
    assert!(text.contains("Hello world"));
}

#[test]
fn bold_inline() {
    let (text, _) = parse("<p>A <strong>bold</strong> B</p>");
    assert!(text.contains("**bold**"), "got: {:?}", text);
}

#[test]
fn em_inline() {
    let (text, _) = parse("<p>A <em>em</em> B</p>");
    assert!(text.contains("*em*"), "got: {:?}", text);
}

#[test]
fn italic_tag() {
    let (text, _) = parse("<p>A <i>it</i> B</p>");
    assert!(text.contains("*it*"), "got: {:?}", text);
}

#[test]
fn strikethrough_inline() {
    let (text, _) = parse("<p>A <s>del</s> B</p>");
    assert!(text.contains("~~del~~"), "got: {:?}", text);
}

#[test]
fn code_inline() {
    let (text, _) = parse("<p>A <code>fn x()</code> B</p>");
    assert!(text.contains("`fn x()`"), "got: {:?}", text);
}

#[test]
fn heading_becomes_hash_prefix() {
    let (text, _) = parse("<h1>Chapter One</h1>");
    assert!(text.contains("## Chapter One"), "got: {:?}", text);
}

#[test]
fn h2_also_heading() {
    let (text, _) = parse("<h2>Section</h2>");
    assert!(text.contains("## Section"), "got: {:?}", text);
}

#[test]
fn image_skipped() {
    let (text, _) = parse("<p>Before</p><img src=\"cover.jpg\" alt=\"cover\"/><p>After</p>");
    assert!(!text.contains("cover"), "image leaked: {:?}", text);
    assert!(text.contains("Before"));
    assert!(text.contains("After"));
}

#[test]
fn script_content_skipped() {
    let (text, _) = parse("<p>Real</p><script>alert('x')</script>");
    assert!(!text.contains("alert"), "script leaked: {:?}", text);
    assert!(text.contains("Real"));
}

#[test]
fn style_content_skipped() {
    let (text, _) = parse("<style>body{color:red}</style><p>Text</p>");
    assert!(!text.contains("color"), "style leaked: {:?}", text);
    assert!(text.contains("Text"));
}

#[test]
fn multiple_paragraphs_become_segments() {
    let (_, segs) = parse("<p>One</p><p>Two</p><p>Three</p>");
    assert_eq!(segs.len(), 3);
}

#[test]
fn segment_content_by_index() {
    let (text, segs) = parse("<p>Alpha</p><p>Beta</p>");
    assert_eq!(segs.len(), 2);
    assert_eq!(text[segs[0].0..segs[0].1].trim(), "Alpha");
    assert_eq!(text[segs[1].0..segs[1].1].trim(), "Beta");
}

#[test]
fn empty_paragraph_not_a_segment() {
    let (_, segs) = parse("<p>A</p><p></p><p>B</p>");
    assert_eq!(segs.len(), 2);
}

fn make_epub(chapters: &[(&str, &str, &str)]) -> Vec<u8> {
    let buf = Cursor::new(Vec::new());
    let mut zip = ZipWriter::new(buf);
    let stored = SimpleFileOptions::default().compression_method(zip::CompressionMethod::Stored);
    let deflated =
        SimpleFileOptions::default().compression_method(zip::CompressionMethod::Deflated);

    zip.start_file("mimetype", stored).unwrap();
    zip.write_all(b"application/epub+zip").unwrap();

    let container = r#"<?xml version="1.0"?>
<container version="1.0" xmlns="urn:oasis:names:tc:opendocument:xmlns:container">
  <rootfiles>
    <rootfile full-path="OEBPS/content.opf" media-type="application/oebps-package+xml"/>
  </rootfiles>
</container>"#;
    zip.start_file("META-INF/container.xml", deflated).unwrap();
    zip.write_all(container.as_bytes()).unwrap();

    let manifest_items: String = chapters
        .iter()
        .map(|(id, _, _)| {
            format!(
                r#"<item id="{id}" href="Text/{id}.xhtml" media-type="application/xhtml+xml"/>"#,
                id = id
            )
        })
        .collect::<Vec<_>>()
        .join("\n    ");
    let spine_items: String = chapters
        .iter()
        .map(|(id, _, _)| format!(r#"<itemref idref="{id}"/>"#, id = id))
        .collect::<Vec<_>>()
        .join("\n    ");
    let ncx_items: String = chapters
        .iter()
        .enumerate()
        .map(|(i, (id, title, _))| {
            format!(
                r#"<navPoint id="np{i}" playOrder="{po}">
      <navLabel><text>{title}</text></navLabel>
      <content src="Text/{id}.xhtml"/>
    </navPoint>"#,
                i = i,
                po = i + 1,
                title = title,
                id = id
            )
        })
        .collect::<Vec<_>>()
        .join("\n    ");

    let opf = format!(
        r#"<?xml version="1.0" encoding="UTF-8"?>
<package xmlns="http://www.idpf.org/2007/opf" version="2.0">
  <metadata xmlns:dc="http://purl.org/dc/elements/1.1/">
    <dc:language>en</dc:language>
  </metadata>
  <manifest>
    <item id="ncx" href="toc.ncx" media-type="application/x-dtbncx+xml"/>
    {manifest_items}
  </manifest>
  <spine toc="ncx">
    {spine_items}
  </spine>
</package>"#
    );
    zip.start_file("OEBPS/content.opf", deflated).unwrap();
    zip.write_all(opf.as_bytes()).unwrap();

    let ncx = format!(
        r#"<?xml version="1.0"?>
<ncx xmlns="http://www.daisy.org/z3986/2005/ncx/" version="2005-1">
  <navMap>
    {ncx_items}
  </navMap>
</ncx>"#
    );
    zip.start_file("OEBPS/toc.ncx", deflated).unwrap();
    zip.write_all(ncx.as_bytes()).unwrap();

    for (id, _, body) in chapters {
        let content = format!(
            r#"<?xml version="1.0" encoding="UTF-8"?>
<html xmlns="http://www.w3.org/1999/xhtml">
<head><title>{id}</title></head>
<body>{body}</body>
</html>"#,
            id = id,
            body = body
        );
        zip.start_file(format!("OEBPS/Text/{}.xhtml", id), deflated).unwrap();
        zip.write_all(content.as_bytes()).unwrap();
    }

    zip.finish().unwrap().into_inner()
}

fn scan_from_bytes(bytes: Vec<u8>) -> EpubScan {
    EpubScan::from_archive(&bytes).expect("extract")
}

#[test]
fn single_chapter_extracted() {
    let epub = make_epub(&[("ch1", "Chapter One", "<p>Hello world</p>")]);
    let scan = scan_from_bytes(epub);
    assert_eq!(scan.sections().len(), 1);
    assert!(scan.sections()[0].text().contains("Hello world"));
}

#[test]
fn chapter_title_from_ncx() {
    let epub = make_epub(&[("ch1", "Chapter One", "<p>Content</p>")]);
    let scan = scan_from_bytes(epub);
    assert_eq!(scan.sections()[0].title(), Some("Chapter One"));
}

#[test]
fn multiple_chapters() {
    let epub = make_epub(&[
        ("ch1", "First", "<p>First content</p>"),
        ("ch2", "Second", "<p>Second content</p>"),
    ]);
    let scan = scan_from_bytes(epub);
    assert_eq!(scan.sections().len(), 2);
    assert_eq!(scan.sections()[0].title(), Some("First"));
    assert_eq!(scan.sections()[1].title(), Some("Second"));
}

#[test]
fn pars_count_matches_paragraphs() {
    let epub = make_epub(&[("ch1", "Ch", "<p>One</p><p>Two</p><p>Three</p>")]);
    let scan = scan_from_bytes(epub);
    assert_eq!(scan.sections()[0].pars().len(), 3);
}

#[test]
fn language_from_opf_metadata() {
    let epub = make_epub(&[("ch1", "Ch", "<p>Text</p>")]);
    let scan = scan_from_bytes(epub);
    assert_eq!(scan.sections()[0].language(), Some("en"));
}

// Further cases of the renderer and the archive reader.

#[test]
fn exact_rendering_of_paragraphs() {
    let (text, segs) = parse("<p>  One </p><p>Two</p>");
    assert_eq!(text, "One\n\nTwo\n\n");
    assert_eq!(segs, vec![(0, 5), (5, 10)]);
}

#[test]
fn byte_offsets_count_utf8_bytes() {
    let (text, segs) = parse("<p>é</p><p>ü</p>");
    assert_eq!(text, "é\n\nü\n\n");
    assert_eq!(segs, vec![(0, 4), (4, 8)]);
    assert_eq!(&text[segs[1].0..segs[1].1], "ü\n\n");
}

#[test]
fn line_break_and_nested_styles() {
    let (text, _) = parse("<p>a<br/>b <b><i>c</i></b></p>");
    assert_eq!(text, "a  \nb ***c***\n\n");
}

#[test]
fn unclosed_inline_is_dropped_at_paragraph_end() {
    let (text, _) = parse("<p><b>x</p><p>y</p>");
    assert_eq!(text, "**x\n\ny\n\n");
}

#[test]
fn text_outside_body_is_ignored() {
    let (text, segs) = parse_xhtml("<html><head><title>T</title></head><p>x</p></html>");
    assert_eq!(text, "");
    assert!(segs.is_empty());
}

#[test]
fn body_end_flushes_loose_text() {
    let (text, segs) = parse("loose <em>words</em>");
    assert_eq!(text, "loose *words*\n\n");
    assert_eq!(segs.len(), 1);
}

#[test]
fn empty_heading_adds_nothing() {
    let (text, segs) = parse("<h3>  </h3><p>p</p>");
    assert_eq!(text, "p\n\n");
    assert_eq!(segs.len(), 1);
}

#[test]
fn nested_skipped_elements() {
    let (text, _) = parse("<svg><g><text>hidden</text></g></svg><div>shown</div>");
    assert_eq!(text, "shown\n\n");
}

#[test]
fn dir_of_examples() {
    assert_eq!(dir_of("OEBPS/content.opf"), "OEBPS");
    assert_eq!(dir_of("a/b/c.xhtml"), "a/b");
    assert_eq!(dir_of("content.opf"), "");
}

#[test]
fn normalize_path_examples() {
    assert_eq!(normalize_path("a/./b/../c"), "a/c");
    assert_eq!(normalize_path("../x//y/"), "x/y");
    assert_eq!(normalize_path(""), "");
}

#[test]
fn resolve_examples() {
    assert_eq!(resolve("OEBPS", "Text/ch1.xhtml#top"), "OEBPS/Text/ch1.xhtml");
    assert_eq!(resolve("", "toc.ncx"), "toc.ncx");
    assert_eq!(resolve("OEBPS/Text", "../Images/a.png"), "OEBPS/Images/a.png");
}

#[test]
fn not_a_zip_archive() {
    let r = EpubScan::from_archive(b"not a zip");
    assert!(matches!(r, Err(EpubError::NotZip)));
}

#[test]
fn missing_container_is_reported() {
    let buf = Cursor::new(Vec::new());
    let mut zip = ZipWriter::new(buf);
    zip.start_file("mimetype", SimpleFileOptions::default()).unwrap();
    zip.write_all(b"application/epub+zip").unwrap();
    let bytes = zip.finish().unwrap().into_inner();
    match extract_sections(&bytes) {
        Err(EpubError::EntryNotFound(name)) => assert_eq!(name, "META-INF/container.xml"),
        _ => panic!("expected a missing container"),
    }
}

#[test]
fn section_pars_are_slices_of_text() {
    let epub = make_epub(&[("ch1", "Ch", "<p>One</p><h2>Two</h2>")]);
    let scan = scan_from_bytes(epub);
    let s = &scan.sections()[0];
    assert_eq!(s.text(), "One\n\n## Two\n\n");
    assert_eq!(s.pars(), vec!["One\n\n", "## Two\n\n"]);
}

#[test]
fn segments_tile_the_text() {
    let (text, segs) = parse("<p>a</p><h4>b</h4><li>c</li><td> </td><blockquote>d</blockquote>");
    assert_eq!(segs.len(), 4);
    assert_eq!(segs[0].0, 0);
    for w in segs.windows(2) {
        assert_eq!(w[0].1, w[1].0);
    }
    assert_eq!(segs.last().unwrap().1, text.len());
    let joined: String = segs.iter().map(|&(s, e)| &text[s..e]).collect();
    assert_eq!(joined, text);
}

#[test]
fn normalize_path_twice_is_once() {
    for p in ["a/./b/../c", "../x//y/", "", "a/b", "./../a/./", "x/../../y"] {
        let once = normalize_path(p);
        assert_eq!(normalize_path(&once), once);
    }
}

#[test]
fn section_pars_join_to_text() {
    let epub = make_epub(&[("ch1", "Ch", "<p>One</p><p>Two <b>b</b></p>")]);
    let scan = scan_from_bytes(epub);
    let s = &scan.sections()[0];
    assert_eq!(s.pars().concat(), s.text());
}

#[test]
fn paragraph_bytes_tile_the_text() {
    let (text, spans) = slm_inference::epubscan::xhtml::parse_xhtml(
        "<html><body><p>  Caf\u{e9}  </p><h1>T\u{ed}tulo</h1><p>x</p></body></html>",
    );
    assert_eq!(text, "Caf\u{e9}\n\n## T\u{ed}tulo\n\nx\n\n");
    assert_eq!(spans.first().map(|s| s.0), Some(0));
    assert_eq!(spans.last().map(|s| s.1), Some(text.len()));
    for w in spans.windows(2) {
        assert_eq!(w[0].1, w[1].0);
    }
    for &(a, b) in &spans {
        let p = &text[a..b];
        assert!(p.ends_with("\n\n"));
        assert_eq!(p[..p.len() - 2].trim(), &p[..p.len() - 2]);
    }
}
