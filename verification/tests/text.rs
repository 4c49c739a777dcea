use capsa::metadata::{basename, display_name_from_metadata, take_after_char, Metadata};
use capsa::paths::{extension, file_name, file_stem, parent};
use capsa::queue::queue_db_path;
use capsa::text::{
    begins_with, byte_length, byte_slice, check_whitespace, comes_before, contains_text,
    decimal_string, finishes_with, join_texts, parse_unsigned, parse_usize, same_text,
    signed_decimal_string, take_before_char, trim, trim_end_char, zero_padded_string, NumberError,
};
use std::path::Path;

fn all_paths() -> Vec<String> {
    let parts = ["", "a", ".", "..", "b.c", ".d", "e.", "f.g.h", "...", "ü"];
    let mut paths: Vec<String> = Vec::new();
    for p in parts {
        for q in parts {
            for r in parts {
                paths.push(format!("{}/{}/{}", p, q, r));
            }
            paths.push(format!("{}/{}", p, q));
        }
        paths.push(p.to_string());
        paths.push(format!("//{}", p));
        paths.push(format!("{}//", p));
    }
    paths
}

#[test]
fn paths_are_read_as_std_reads_them() {
    for path in all_paths() {
        let std_path = Path::new(&path);
        let std_name = std_path.file_name().map(|s| s.to_str().unwrap().to_string());
        assert_eq!(file_name(&path), std_name, "file name of {:?}", path);
        let std_parent = std_path.parent().map(|s| s.to_str().unwrap().to_string());
        assert_eq!(parent(&path), std_parent, "parent of {:?}", path);
        if let Some(name) = std_name {
            let std_stem = std_path.file_stem().unwrap().to_str().unwrap();
            assert_eq!(file_stem(&name), std_stem, "stem of {:?}", path);
            let std_ext = std_path.extension().map(|s| s.to_str().unwrap().to_string());
            assert_eq!(extension(&name), std_ext, "extension of {:?}", path);
        }
    }
}

#[test]
fn queue_paths_are_built_as_std_builds_them() {
    for path in all_paths() {
        let std_path = Path::new(&path);
        let stem = std_path.file_stem().unwrap_or_default().to_string_lossy();
        let ext = std_path
            .extension()
            .map(|e| format!(".{}", e.to_string_lossy()))
            .unwrap_or_default();
        let name = format!("{}-queue{}", stem, ext);
        let expected = match std_path.parent() {
            Some(dir) if dir != Path::new("") => dir.join(name).to_string_lossy().into_owned(),
            _ => name,
        };
        assert_eq!(queue_db_path(&path), expected, "queue path of {:?}", path);
    }
}

#[test]
fn white_space_is_that_of_std() {
    for n in 0..0x11_0000u32 {
        if let Some(c) = char::from_u32(n) {
            assert_eq!(check_whitespace(c), c.is_whitespace(), "{:x}", n);
        }
    }
}

#[test]
fn texts_are_trimmed_and_cut_as_by_std() {
    for s in ["", " ", "a", " a ", "\t\n a b \u{3000}", "a/b//", "//", "x?y?z", "?", "a:b:c", "äö "] {
        assert_eq!(trim(s), s.trim());
        assert_eq!(trim_end_char(s, '/'), s.trim_end_matches('/'));
        assert_eq!(take_before_char(s, '?'), s.split('?').next().unwrap());
        assert_eq!(take_after_char(s, ':'), s.split_once(':').map(|(_, r)| r.to_string()));
        assert_eq!(byte_length(s), s.len());
        for t in ["", "a", "b", " a", "/", "äö", "a b"] {
            assert_eq!(contains_text(s, t), s.contains(t), "{:?} in {:?}", t, s);
            assert_eq!(begins_with(s, t), s.starts_with(t));
            assert_eq!(finishes_with(s, t), s.ends_with(t));
            assert_eq!(same_text(s, t), s == t);
            assert_eq!(comes_before(s, t), s < t);
        }
    }
    assert!(comes_before("\u{ffff}", "\u{10000}"));
    assert_eq!(byte_slice("aäb", 1, 3), "ä");
    assert_eq!(byte_slice("aäb", 3, 3), "");
}

#[test]
fn numbers_are_written_as_by_std() {
    for n in [0u64, 1, 9, 10, 99, 100, 12345, u64::MAX] {
        assert_eq!(decimal_string(n), n.to_string());
        assert_eq!(zero_padded_string(n, 3), format!("{:03}", n));
    }
    for n in [0i64, 1, -1, 42, -42, i64::MAX, i64::MIN] {
        assert_eq!(signed_decimal_string(n), n.to_string());
    }
}

#[test]
fn numbers_are_read_as_by_std() {
    let inputs = [
        "", "+", "-", "0", "+0", "-0", "007", "18446744073709551615", "18446744073709551616",
        "+18446744073709551615", "1a", "a", " 1", "1 ", "99999999999999999999x", "x9", "++1", "1+", "٣",
    ];
    for s in inputs {
        match (parse_usize(s), s.parse::<usize>()) {
            (Ok(a), Ok(b)) => assert_eq!(a, b),
            (Err(a), Err(b)) => assert_eq!(a.message(), b.to_string(), "{:?}", s),
            (a, b) => panic!("{:?}: {:?} and {:?}", s, a, b),
        }
    }
    assert_eq!(parse_unsigned("255", 255), Ok(255));
    assert_eq!(parse_unsigned("256", 255), Err(NumberError::TooLarge));
}

#[test]
fn texts_are_joined() {
    let parts = |v: &[&str]| -> Vec<String> { v.iter().map(|s| s.to_string()).collect() };
    assert_eq!(join_texts(&parts(&[]), ", "), "");
    assert_eq!(join_texts(&parts(&["a"]), ", "), "a");
    assert_eq!(join_texts(&parts(&["a", "", "b"]), ", "), "a, , b");
}

#[test]
fn base_names_of_paths_and_urls() {
    assert_eq!(basename("/tmp/random.pdf"), Some("random.pdf".to_string()));
    assert_eq!(basename(" https://host/a/b.html?x=1/2 "), Some("b.html".to_string()));
    assert_eq!(basename("dir///"), Some("dir".to_string()));
    assert_eq!(basename("a/ b "), Some("b".to_string()));
    assert_eq!(basename("///"), None);
    assert_eq!(basename(""), None);
    assert_eq!(basename(".."), None);
    assert_eq!(basename("a/?q"), Some("a".to_string()));
}

fn shown(metadata: &str, source: &str) -> String {
    display_name_from_metadata(&Metadata::from_json(metadata).unwrap(), source)
}

#[test]
fn documents_are_shown_under_the_best_name() {
    assert_eq!(shown("{\"title\":\"T\",\"name\":\"N\",\"drive_name\":\" D \"}", "s"), "D");
    assert_eq!(shown("{\"title\":\"T\",\"name\":\"N\",\"drive_name\":\"Unknown\"}", "s"), "T");
    assert_eq!(shown("{\"title\":7,\"name\":\"N\"}", "s"), "N");
    assert_eq!(shown("{\"title\":\" \",\"path\":\"/x/y.pdf\"}", "s"), "y.pdf");
    assert_eq!(shown("{\"path\":\"/\"}", "pdf:/tmp/z.pdf"), "z.pdf");
    assert_eq!(shown("{}", "plain/name"), "name");
    assert_eq!(shown("{}", "a:"), "a:");
    assert_eq!(shown("[1]", "yt:abc"), "abc");
    assert_eq!(shown("{}", ".."), "..");
    assert_eq!(shown("{}", ""), "");
}
