use capsa::metadata::Metadata;
use capsa::queue::{FailedItem, PipelineStatus};
use capsa::report::{
    ask_header, clipped_chunk, file_header, listening_lines, no_records, not_found, offset_text,
    pdf_summary, pptx_summary, print_metadata, queued_footer, record_report, record_title_line,
    requested_results, retry_line, serve_header, shown_chunk, status_lines, transcript_header,
    DocumentCache, SearchCache,
};

fn double() -> String {
    "=".repeat(80)
}

fn single() -> String {
    "-".repeat(80)
}

#[test]
fn metadata_is_shown_in_the_order_of_its_names() {
    let metadata = Metadata::from_json(
        "{\"title\":\"T\",\"zähler\":2,\"author\":\"A\",\"empty\":\"\",\"none\":null,\"list\":[1,\"x\"]}",
    )
    .unwrap();
    assert_eq!(
        print_metadata(&metadata),
        vec!["AUTHOR: A", "LIST: [1,\"x\"]", "TITLE: T", "ZÄHLER: 2"]
    );
    assert!(print_metadata(&Metadata::from_json("[1]").unwrap()).is_empty());
}

#[test]
fn records_are_shown_as_lines() {
    assert_eq!(record_title_line(7, 42, None), "RECORD 007  DOCID=000042");
    assert_eq!(
        record_title_line(1234, -5, Some(" 97.50")),
        "RECORD 1234  DOCID=-00005  SIMILARITY= 97.50%"
    );
    assert_eq!(
        record_title_line(1, 1234567, Some("x")),
        format!("RECORD {:03}  DOCID={:06}  SIMILARITY=x%", 1, 1234567)
    );
    assert_eq!(offset_text(10, 25), "OFFSET.: 10-25 (15 BYTES)");
    assert_eq!(offset_text(25, 10), "OFFSET.: 25-10 (-15 BYTES)");
    let metadata = Metadata::from_json("{\"title\":\"T\"}").unwrap();
    let lines = record_report("R".to_string(), &metadata, "O".to_string(), Some("C".to_string()));
    assert_eq!(
        lines,
        vec![
            double(),
            "R".to_string(),
            double(),
            "TITLE: T".to_string(),
            "O".to_string(),
            single(),
            "CONTENT:".to_string(),
            single(),
            "C".to_string(),
            single(),
            "".to_string(),
        ]
    );
    let lines = record_report("R".to_string(), &metadata, "O".to_string(), None);
    assert_eq!(lines.len(), 6);
}

#[test]
fn chunks_are_cut_from_documents() {
    assert_eq!(shown_chunk("aäb", 1, 3), Some("ä".to_string()));
    assert_eq!(shown_chunk("aäb", 0, 4), Some("aäb".to_string()));
    assert_eq!(shown_chunk("aäb", 0, 5), None);
    assert_eq!(shown_chunk("aäb", 0, -1), None);
    assert_eq!(clipped_chunk("aäb", 1, 3), "ä");
    assert_eq!(clipped_chunk("aäb", 1, 99), "äb");
    assert_eq!(clipped_chunk("aäb", 3, -1), "b");
}

#[test]
fn the_cache_keeps_the_documents_used_last() {
    let mut cache = DocumentCache::new();
    assert!(cache.is_missing(1));
    assert_eq!(cache.recall(1), None);
    for id in 0..64 {
        cache.keep(id, format!("doc {}", id));
    }
    assert_eq!(cache.recall(0), Some("doc 0".to_string()));
    cache.keep(100, "doc 100".to_string());
    assert!(!cache.is_missing(0));
    assert!(cache.is_missing(1));
    assert!(!cache.is_missing(100));
    cache.keep(2, "new".to_string());
    assert_eq!(cache.recall(2), Some("new".to_string()));
    assert!(!cache.is_missing(3));
}

#[test]
fn shown_documents_are_fetched_once() {
    let mut cache = DocumentCache::new();
    assert_eq!(cache.content(7, None), None);
    assert!(cache.is_missing(7));
    assert_eq!(cache.content(7, Some("seven".to_string())), Some("seven".to_string()));
    assert!(!cache.is_missing(7));
    assert_eq!(cache.content(7, Some("other".to_string())), Some("seven".to_string()));
    assert_eq!(cache.content(7, None), Some("seven".to_string()));
    for id in 100..163 {
        cache.content(id, Some("x".to_string()));
    }
    assert_eq!(cache.content(7, None), Some("seven".to_string()));
    cache.content(200, Some("x".to_string()));
    assert!(!cache.is_missing(7));
    assert!(cache.is_missing(100));
}

#[test]
fn a_search_fetches_each_document_once() {
    let mut cache = SearchCache::new();
    assert!(cache.is_missing(-3));
    assert_eq!(cache.content(-3, None), None);
    assert_eq!(cache.content(-3, Some("a".to_string())), Some("a".to_string()));
    assert_eq!(cache.content(4, Some("b".to_string())), Some("b".to_string()));
    assert!(!cache.is_missing(-3));
    assert_eq!(cache.content(-3, Some("c".to_string())), Some("a".to_string()));
    assert_eq!(cache.content(4, None), Some("b".to_string()));
}

#[test]
fn commands_print_their_lines() {
    assert_eq!(
        ask_header("what?", 5),
        vec![
            double(),
            "DOCUMENT RETRIEVAL SYSTEM".to_string(),
            double(),
            "QUERY.....: what?".to_string(),
            "TOP-K.....: 5".to_string(),
            "".to_string(),
        ]
    );
    assert_eq!(no_records(), "*** NO RECORDS FOUND ***");
    assert_eq!(file_header("H", "p.pdf")[3..], ["FILE......: p.pdf", "", "EXTRACTING TEXT..."]);
    assert_eq!(
        transcript_header("in", "en")[3..],
        ["INPUT.....: in", "LANGUAGE..: en", "", "EXTRACTING VIDEO ID..."]
    );
    let metadata =
        Metadata::from_json("{\"title\":\"T\",\"creator\":\"C\",\"slide_count\":12}").unwrap();
    assert_eq!(
        pdf_summary(&metadata, "größe"),
        vec![
            "EXTRACTION COMPLETE",
            "TEXT SIZE.: 7 CHARACTERS",
            "TITLE.....: T",
            "AUTHOR....: N/A",
            "",
        ]
    );
    assert_eq!(
        pptx_summary(&metadata, "")[1..],
        ["TEXT SIZE.: 0 CHARACTERS", "TITLE.....: T", "CREATOR...: C", "SLIDES....: 12", ""]
    );
    for other in ["{\"slide_count\":-1}", "{\"slide_count\":1.5}", "{\"slide_count\":\"9\"}", "{}"] {
        let metadata = Metadata::from_json(other).unwrap();
        assert_eq!(pptx_summary(&metadata, "")[4], "SLIDES....: 0");
    }
    assert_eq!(
        queued_footer(),
        vec!["".to_string(), double(), "QUEUED FOR INGESTION".to_string(), double()]
    );
    assert_eq!(
        serve_header("127.0.0.1:1", true)[3..],
        ["BIND......: 127.0.0.1:1", "MODE......: READ-WRITE", ""]
    );
    assert_eq!(serve_header("h", false)[4], "MODE......: READ-ONLY");
    assert_eq!(listening_lines("h:1"), vec!["LISTENING ON http://h:1/".to_string(), double()]);
    assert_eq!(requested_results(None), 5);
    assert_eq!(requested_results(Some(9)), 9);
    assert_eq!(not_found(12), "document 12 not found");
    assert_eq!(retry_line(0), "No failed jobs to retry.");
    assert_eq!(retry_line(3), "Re-queued 3 failed job(s).");
}

#[test]
fn the_status_is_shown_with_the_failures() {
    let status = PipelineStatus { pending: 1, chunked: 2, embedded: 3, done: 4, failed: 5 };
    let lines = status_lines(&status, &vec![]);
    assert_eq!(
        lines[3..],
        [
            "  PENDING.....: 1",
            "  CHUNKED.....: 2",
            "  EMBEDDED....: 3",
            "  DONE........: 4",
            "  FAILED......: 5",
        ]
    );
    let item = FailedItem {
        job_id: 9,
        display_name: "d".to_string(),
        source: "s:x".to_string(),
        error: "boom".to_string(),
        created_at: 0,
    };
    let lines = status_lines(&status, &vec![item.clone(), item]);
    assert_eq!(
        lines[8..],
        [
            "".to_string(),
            "FAILED ITEMS".to_string(),
            single(),
            "  job_id=9 source=s:x".to_string(),
            "  error: boom".to_string(),
            "".to_string(),
            "  job_id=9 source=s:x".to_string(),
            "  error: boom".to_string(),
            "".to_string(),
        ]
    );
}
