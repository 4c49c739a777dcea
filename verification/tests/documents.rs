use capsa::executor::Executor;
use capsa::metadata::{merge_metadata, Fields, MergeError, MetaValue, Metadata};
use capsa::pdf::{no_info, pdf_metadata, pdf_source, pdf_text, PdfInfo};
use capsa::pptx::{
    pptx_core_prop, pptx_document, pptx_extract_drawingml_text, pptx_is_slide, pptx_metadata,
    pptx_slide_number, pptx_source, pptx_text, slide_names,
};
use capsa::youtube::{
    extract_video_id, transcript_metadata, transcript_text, video_source, video_url,
};
use lopdf::{Dictionary, Document, Object, Stream};
use std::io::{Cursor, Read, Write};

/// Builds a PDF of several pages, each of which holds "MARKER_PAGE_N".
fn make_synthetic_pdf(page_count: usize, title: Option<&[u8]>) -> Vec<u8> {
    let mut doc = Document::with_version("1.5");
    let pages_id = doc.new_object_id();

    let mut font = Dictionary::new();
    font.set("Type", Object::Name(b"Font".to_vec()));
    font.set("Subtype", Object::Name(b"Type1".to_vec()));
    font.set("BaseFont", Object::Name(b"Helvetica".to_vec()));
    let font_id = doc.add_object(Object::Dictionary(font));

    let mut fonts_dict = Dictionary::new();
    fonts_dict.set("F1", Object::Reference(font_id));
    let mut resources = Dictionary::new();
    resources.set("Font", Object::Dictionary(fonts_dict));

    let mut page_ids = vec![];
    for i in 0..page_count {
        let marker = format!("MARKER_PAGE_{}", i + 1);
        let content_bytes = format!("BT /F1 12 Tf 72 720 Td ({}) Tj ET", marker).into_bytes();
        let content_id =
            doc.add_object(Object::Stream(Stream::new(Dictionary::new(), content_bytes)));

        let mut page = Dictionary::new();
        page.set("Type", Object::Name(b"Page".to_vec()));
        page.set("Parent", Object::Reference(pages_id));
        page.set(
            "MediaBox",
            Object::Array(vec![
                Object::Integer(0),
                Object::Integer(0),
                Object::Integer(612),
                Object::Integer(792),
            ]),
        );
        page.set("Contents", Object::Reference(content_id));
        page.set("Resources", Object::Dictionary(resources.clone()));
        page_ids.push(doc.add_object(Object::Dictionary(page)));
    }

    let kids: Vec<Object> = page_ids.iter().map(|id| Object::Reference(*id)).collect();
    let mut pages = Dictionary::new();
    pages.set("Type", Object::Name(b"Pages".to_vec()));
    pages.set("Kids", Object::Array(kids));
    pages.set("Count", Object::Integer(page_count as i64));
    doc.objects.insert(pages_id, Object::Dictionary(pages));

    let mut catalog = Dictionary::new();
    catalog.set("Type", Object::Name(b"Catalog".to_vec()));
    catalog.set("Pages", Object::Reference(pages_id));
    let catalog_id = doc.add_object(Object::Dictionary(catalog));
    doc.trailer.set("Root", Object::Reference(catalog_id));

    if let Some(title) = title {
        let mut info = Dictionary::new();
        info.set("Title", Object::String(title.to_vec(), lopdf::StringFormat::Literal));
        let info_id = doc.add_object(Object::Dictionary(info));
        doc.trailer.set("Info", Object::Reference(info_id));
    }

    let mut buf = Vec::new();
    doc.save_to(&mut buf).expect("save pdf");
    buf
}

fn extract_pdf_metadata_and_text(bytes: &[u8]) -> Result<(Metadata, String), String> {
    let doc = Document::load_mem(bytes).map_err(|e| e.to_string())?;
    let entry = |dict: &Dictionary, key: &[u8]| match dict.get(key) {
        Ok(Object::String(bytes, _)) => Some(bytes.clone()),
        _ => None,
    };
    let mut info = no_info();
    if let Ok(id) = doc.trailer.get(b"Info").and_then(|obj| obj.as_reference()) {
        if let Ok(Object::Dictionary(dict)) = doc.get_object(id) {
            info = PdfInfo {
                title: entry(dict, b"Title"),
                author: entry(dict, b"Author"),
                subject: entry(dict, b"Subject"),
                keywords: entry(dict, b"Keywords"),
                creator: entry(dict, b"Creator"),
                producer: entry(dict, b"Producer"),
            };
        }
    }
    let mut pages: Vec<(u32, Option<String>)> = doc
        .get_pages()
        .keys()
        .map(|n| (*n, doc.extract_text(&[*n]).ok()))
        .collect();
    pages.reverse();
    let text = pdf_text(&pages)?;
    Ok((pdf_metadata(info, "x.pdf"), text))
}

#[test]
fn test_pdf_extraction_returns_text() {
    let (metadata, text) = extract_pdf_metadata_and_text(&make_synthetic_pdf(20, None))
        .expect("extraction should succeed");
    assert!(!text.trim().is_empty(), "extracted text must not be empty");
    assert!(metadata.get_text("title").is_some(), "metadata must contain a title field");
    for i in 1..=20 {
        assert!(text.contains(&format!("MARKER_PAGE_{}", i)), "missing marker for page {}", i);
    }
}

#[test]
fn test_pdf_extraction_page_order() {
    let (_, text) = extract_pdf_metadata_and_text(&make_synthetic_pdf(30, None)).unwrap();
    let positions: Vec<usize> = (1..=30)
        .map(|i| {
            text.find(&format!("MARKER_PAGE_{}", i))
                .unwrap_or_else(|| panic!("missing marker for page {}", i))
        })
        .collect();
    for w in positions.windows(2) {
        assert!(w[0] < w[1], "page order not preserved: pos {} >= {}", w[0], w[1]);
    }
}

#[test]
fn pdf_metadata_is_that_of_the_info_dictionary() {
    let (metadata, _) =
        extract_pdf_metadata_and_text(&make_synthetic_pdf(1, Some(b"My title"))).unwrap();
    assert_eq!(metadata.get_text("title"), Some("My title".to_string()));
    assert_eq!(metadata.get_text("author"), Some("Unknown".to_string()));
    assert_eq!(metadata.get_text("subject"), None);
    assert_eq!(metadata.get_text("path"), Some("x.pdf".to_string()));
    let (metadata, _) =
        extract_pdf_metadata_and_text(&make_synthetic_pdf(1, Some(&[0xff, 0x41]))).unwrap();
    assert_eq!(metadata.get_text("title"), Some("Unknown".to_string()));
}

#[test]
fn pdf_pages_without_text_are_left_out() {
    let page = |n: u32, t: &str| (n, Some(t.to_string()));
    assert_eq!(pdf_text(&vec![page(3, "c"), (2, None), page(1, "a")]), Ok("a\nc\n".to_string()));
    let none = Err("No text could be extracted from the PDF".to_string());
    assert_eq!(pdf_text(&vec![]), none);
    assert_eq!(pdf_text(&vec![page(1, " \n"), (2, None)]), none);
    assert_eq!(
        pdf_text(&vec![page(u32::MAX, "z"), page(0, "a")]),
        Ok("a\nz\n".to_string())
    );
}

/// Builds a PPTX archive with several slides, each of which holds "SLIDE_N_TEXT".
fn make_synthetic_pptx(slide_count: usize) -> Vec<u8> {
    let mut zip = zip::ZipWriter::new(Cursor::new(Vec::new()));
    let options = zip::write::SimpleFileOptions::default()
        .compression_method(zip::CompressionMethod::Stored);

    zip.start_file("docProps/core.xml", options).unwrap();
    zip.write_all(
        br#"<?xml version="1.0"?>
<cp:coreProperties xmlns:cp="http://schemas.openxmlformats.org/package/2006/metadata/core-properties"
  xmlns:dc="http://purl.org/dc/elements/1.1/">
  <dc:title>Synthetic Presentation</dc:title>
  <dc:creator>Test Author</dc:creator>
</cp:coreProperties>"#,
    )
    .unwrap();

    for i in 1..=slide_count {
        let name = format!("ppt/slides/slide{}.xml", i);
        zip.start_file(name, options).unwrap();
        let xml = format!(
            r#"<?xml version="1.0"?>
<p:sld xmlns:p="http://schemas.openxmlformats.org/presentationml/2006/main"
       xmlns:a="http://schemas.openxmlformats.org/drawingml/2006/main">
  <p:cSld><p:spTree>
    <p:sp><p:txBody>
      <a:p><a:r><a:t>SLIDE_{}_TEXT</a:t></a:r></a:p>
    </p:txBody></p:sp>
  </p:spTree></p:cSld>
</p:sld>"#,
            i
        );
        zip.write_all(xml.as_bytes()).unwrap();
    }
    zip.finish().unwrap().into_inner()
}

fn extract_pptx_metadata_and_text(bytes: Vec<u8>) -> Result<(Metadata, String), String> {
    let mut archive = zip::ZipArchive::new(Cursor::new(bytes)).map_err(|e| e.to_string())?;
    let core = match archive.by_name("docProps/core.xml") {
        Ok(mut entry) => {
            let mut xml = String::new();
            let _ = entry.read_to_string(&mut xml);
            Some(xml)
        }
        Err(_) => None,
    };
    let mut entries: Vec<String> = Vec::new();
    for i in 0..archive.len() {
        if let Ok(entry) = archive.by_index(i) {
            entries.push(entry.name().to_string());
        }
    }
    let names = slide_names(&entries);
    let mut slides = Vec::new();
    for name in &names {
        let mut entry = archive.by_name(name).map_err(|e| e.to_string())?;
        let mut xml = String::new();
        entry.read_to_string(&mut xml).map_err(|e| e.to_string())?;
        slides.push(xml);
    }
    pptx_document(core.as_deref(), slides, "x.pptx", Executor::parallel())
}

fn json_field(metadata: &Metadata, key: &str) -> Option<String> {
    match metadata {
        Metadata::Object(fields) => match fields.get(key) {
            Some(MetaValue::Json(text)) => Some(text),
            _ => None,
        },
        _ => None,
    }
}

#[test]
fn test_pptx_extraction_returns_text() {
    let (metadata, text) = extract_pptx_metadata_and_text(make_synthetic_pptx(10))
        .expect("extraction should succeed");
    assert!(!text.trim().is_empty(), "extracted text must not be empty");
    assert_eq!(metadata.get_text("title"), Some("Synthetic Presentation".to_string()));
    assert_eq!(metadata.get_text("creator"), Some("Test Author".to_string()));
    assert_eq!(json_field(&metadata, "slide_count"), Some("10".to_string()));
    for i in 1..=10 {
        assert!(text.contains(&format!("SLIDE_{}_TEXT", i)), "missing text for slide {}", i);
    }
}

#[test]
fn test_pptx_extraction_slide_order() {
    let (_, text) = extract_pptx_metadata_and_text(make_synthetic_pptx(20)).unwrap();
    let positions: Vec<usize> = (1..=20)
        .map(|i| {
            text.find(&format!("SLIDE_{}_TEXT", i))
                .unwrap_or_else(|| panic!("missing text for slide {}", i))
        })
        .collect();
    for w in positions.windows(2) {
        assert!(w[0] < w[1], "slide order not preserved: pos {} >= {}", w[0], w[1]);
    }
}

#[test]
fn slides_are_told_from_other_entries() {
    assert!(pptx_is_slide("ppt/slides/slide1.xml"));
    assert!(!pptx_is_slide("ppt/slides/_rels/slide1.xml.rels"));
    assert!(!pptx_is_slide("ppt/slides/slide/_rels/1.xml"));
    assert!(!pptx_is_slide("ppt/slideLayouts/slide1.xml"));
    assert!(!pptx_is_slide("ppt/slides/slide1.xml.bak"));
    assert_eq!(pptx_slide_number("ppt/slides/slide12.xml"), 12);
    assert_eq!(pptx_slide_number("ppt/slides/slide7.xml.xml"), 7);
    assert_eq!(pptx_slide_number("ppt/slides/slideppt/slides/slide3.xml"), 3);
    assert_eq!(pptx_slide_number("ppt/slides/slideX.xml"), 0);
    let names: Vec<String> = [
        "ppt/slides/slide10.xml",
        "docProps/core.xml",
        "ppt/slides/slideB.xml",
        "ppt/slides/slide2.xml",
        "ppt/slides/slideA.xml",
        "ppt/slides/slide02.xml",
    ]
    .iter()
    .map(|s| s.to_string())
    .collect();
    assert_eq!(
        slide_names(&names),
        vec![
            "ppt/slides/slideB.xml",
            "ppt/slides/slideA.xml",
            "ppt/slides/slide2.xml",
            "ppt/slides/slide02.xml",
            "ppt/slides/slide10.xml",
        ]
    );
}

#[test]
fn core_properties_are_found_by_local_name() {
    let prop = |xml: &str, tag: &str| pptx_core_prop(xml, tag);
    assert_eq!(prop("<dc:title> A b </dc:title>", "title"), Some("A b".to_string()));
    assert_eq!(prop("<x:creator>C</x:creator>", "creator"), Some("C".to_string()));
    assert_eq!(prop("<dc:title>  </dc:title>", "title"), None);
    assert_eq!(prop("<dc:title>open", "title"), None);
    assert_eq!(prop("<title>A</title>", "title"), None);
    assert_eq!(prop("", "title"), None);
}

#[test]
fn slide_text_is_that_of_its_runs() {
    let text = |xml: &str| pptx_extract_drawingml_text(xml);
    assert_eq!(text("<a:p><a:t>one</a:t><a:t> two </a:t></a:p><a:p><a:t>3</a:t></a:p>"), "one two\n3\n");
    assert_eq!(text("<a:p>outside<a:t>A &amp; B &lt;</a:t></a:p>"), "A & B <\n");
    assert_eq!(text("<a:p><a:t>  </a:t></a:p>"), "");
    assert_eq!(text("<a:t>no paragraph</a:t>"), "");
    assert_eq!(text("<a:p><a:t>kept</a:t></a:p><a:p><a:t>lost</a:q>"), "kept\n");
    assert_eq!(text("<p><t>x &bogus; y</t><t>z</t></p>"), "z\n");
    assert_eq!(text(""), "");
}

#[test]
fn blank_slides_are_left_out() {
    let slides = |v: &[&str]| -> Vec<String> { v.iter().map(|s| s.to_string()).collect() };
    assert_eq!(pptx_text(&slides(&["a\n", " ", "b\n"])), Ok("a\n\nb\n".to_string()));
    let none = Err("No text could be extracted from the PPTX".to_string());
    assert_eq!(pptx_text(&slides(&[])), none);
    assert_eq!(pptx_text(&slides(&["", "\n"])), none);
    let metadata = pptx_metadata(None, 0, "p");
    assert_eq!(metadata.get_text("title"), Some("Unknown".to_string()));
    assert_eq!(metadata.get_text("creator"), Some("Unknown".to_string()));
}

#[test]
fn video_ids_are_found() {
    let id = |s: &str| extract_video_id(s);
    assert_eq!(id("dQw4w9WgXcQ"), Ok("dQw4w9WgXcQ".to_string()));
    assert_eq!(
        id("https://www.youtube.com/watch?v=dQw4w9WgXcQ&t=1"),
        Ok("dQw4w9WgXcQ".to_string())
    );
    assert_eq!(id("https://youtu.be/dQw4w9WgXcQ?si=x"), Ok("dQw4w9WgXcQ".to_string()));
    assert_eq!(id("youtu.be/"), Ok("".to_string()));
    assert_eq!(id("v="), Ok("".to_string()));
    assert_eq!(id("a/b=34567v="), Ok("".to_string()));
    assert_eq!(id("ééééé1"), Ok("ééééé1".to_string()));
    assert_eq!(id("short"), Err("Could not extract video ID from: short".to_string()));
    assert_eq!(id("https://example.com/x"), Err(
        "Could not extract video ID from: https://example.com/x".to_string()
    ));
}

#[test]
fn transcripts_become_documents() {
    let snippets: Vec<String> = ["one", "two", "three"].iter().map(|s| s.to_string()).collect();
    assert_eq!(transcript_text(&snippets), "one two three");
    assert_eq!(video_url("abc"), "https://www.youtube.com/watch?v=abc");
    assert_eq!(video_source("abc"), "yt:abc");
    let metadata = transcript_metadata("T", "A", "abc", "en");
    assert_eq!(metadata.get_text("title"), Some("T".to_string()));
    assert_eq!(metadata.get_text("author"), Some("A".to_string()));
    assert_eq!(metadata.get_text("video_url"), Some(video_url("abc")));
    assert_eq!(metadata.get_text("video_id"), Some("abc".to_string()));
    assert_eq!(metadata.get_text("language"), Some("en".to_string()));
}

#[test]
fn merging_prefers_the_overlay_and_keeps_the_rest() {
    let mut base = Metadata::from_json("{\"a\":\"1\",\"b\":\"2\"}").unwrap();
    let overlay = Metadata::from_json("{\"b\":null,\"c\":[1, 2]}").unwrap();
    merge_metadata(&mut base, overlay).unwrap();
    assert_eq!(base.get_text("a"), Some("1".to_string()));
    assert_eq!(base.get_text("b"), None);
    assert_eq!(json_field(&base, "c"), Some("[1,2]".to_string()));
    match &base {
        Metadata::Object(fields) => assert_eq!(fields.entries.len(), 3),
        _ => unreachable!(),
    }

    let value = Metadata::from_json("7").unwrap();
    assert_eq!(merge_metadata(&mut base, value), Err(MergeError::Overlay));
    let mut value = Metadata::from_json("\"s\"").unwrap();
    assert_eq!(merge_metadata(&mut value, base), Err(MergeError::Base));
    assert_eq!(MergeError::Base.message(), "Base metadata must be a JSON object");
    assert_eq!(MergeError::Overlay.message(), "Overlay metadata must be a JSON object");
    assert!(Metadata::from_json("{").is_err());
    assert!(Fields::new().get("x").is_none());
}

#[test]
fn sources_name_the_kind_of_document() {
    assert_eq!(pdf_source("/a/b.pdf"), "pdf:/a/b.pdf");
    assert_eq!(pptx_source("c.pptx"), "pptx:c.pptx");
}

#[test]
fn a_presentation_is_read_in_the_order_of_its_slides() {
    let slide = |text: &str| format!("<a:p><a:t>{}</a:t></a:p>", text);
    let core = "<dc:title> T </dc:title>";
    for executor in [Executor::sequential(), Executor::parallel()] {
        let slides = vec![slide("one"), slide(" "), slide("two")];
        let (metadata, text) = pptx_document(Some(core), slides, "p.pptx", executor).unwrap();
        assert_eq!(text, "one\n\ntwo\n");
        assert_eq!(metadata.get_text("title"), Some("T".to_string()));
        assert_eq!(metadata.get_text("creator"), Some("Unknown".to_string()));
        assert_eq!(json_field(&metadata, "slide_count"), Some("3".to_string()));
        assert_eq!(metadata.get_text("path"), Some("p.pptx".to_string()));
    }
    assert_eq!(
        pptx_document(None, vec![slide(" ")], "p", Executor::default()).unwrap_err(),
        "No text could be extracted from the PPTX"
    );
}

#[test]
fn a_presentation_has_metadata_without_core_properties() {
    let metadata = pptx_metadata(None, 2, "q.pptx");
    assert_eq!(metadata.get_text("title"), Some("Unknown".to_string()));
    assert_eq!(json_field(&metadata, "slide_count"), Some("2".to_string()));
}
