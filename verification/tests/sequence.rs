use std::collections::HashSet;

use skia_canvas::sequence::{fill_placeholders, folio, folio_width, page_file_name_for, PageSequence};

#[test]
fn folio_pads_with_zeros() {
    assert_eq!(folio(7, 3), "007");
    assert_eq!(folio(42, 2), "42");
    assert_eq!(folio(1234, 2), "1234");
    assert_eq!(folio(1, 0), "1");
    assert_eq!(folio(0, 0), "0");
    assert_eq!(folio(10, 5), "00010");
}

#[test]
fn folio_matches_std_formatting() {
    for n in [0usize, 1, 9, 10, 99, 100, 12345, usize::MAX] {
        for width in 0..8usize {
            assert_eq!(folio(n, width), format!("{:0width$}", n, width = width));
        }
    }
}

#[test]
fn fill_replaces_every_placeholder() {
    assert_eq!(fill_placeholders("page-{}.png", "01"), "page-01.png");
    assert_eq!(fill_placeholders("{}-{}", "3"), "3-3");
    assert_eq!(fill_placeholders("{{}", "x"), "{x");
    assert_eq!(fill_placeholders("{}}", "x"), "x}");
    assert_eq!(fill_placeholders("{", "x"), "{");
    assert_eq!(fill_placeholders("", "x"), "");
    assert_eq!(fill_placeholders("päge-{}.jpg", "2"), "päge-2.jpg");
}

#[test]
fn fill_matches_str_replace() {
    for pattern in ["a{}b", "{}{}{}", "{{}}", "}{", "no placeholder", "x{y}z{}"] {
        assert_eq!(fill_placeholders(pattern, "07"), pattern.replace("{}", "07"));
    }
}

#[test]
fn pattern_without_placeholder_is_kept() {
    assert_eq!(page_file_name_for("out.png", 0, 2), "out.png");
    assert_eq!(page_file_name_for("out.png", 5, 2), "out.png");
}

#[test]
fn page_names_count_from_one() {
    assert_eq!(page_file_name_for("page-{}.png", 0, 2), "page-01.png");
    assert_eq!(page_file_name_for("page-{}.png", 9, 2), "page-10.png");
    assert_eq!(page_file_name_for("page-{}.png", 99, 2), "page-100.png");
}

#[test]
fn distinct_pages_get_distinct_names() {
    let names: HashSet<String> = (0..120).map(|i| page_file_name_for("p{}.png", i, 2)).collect();
    assert_eq!(names.len(), 120);
    let names: HashSet<String> = (0..120).map(|i| page_file_name_for("{}{}", i, 0)).collect();
    assert_eq!(names.len(), 120);
}

#[test]
fn folio_width_from_padding() {
    assert_eq!(folio_width(-1, 3), 3);
    assert_eq!(folio_width(0, 3), 0);
    assert_eq!(folio_width(4, 3), 4);
    assert_eq!(folio_width(-2, 3), -2i32 as usize);
}

#[test]
fn page_sequence_first_and_len() {
    let seq = PageSequence::from(vec!["a", "b", "c"], 7u8);
    assert_eq!(seq.len(), 3);
    assert_eq!(*seq.first(), "a");
    assert_eq!(seq.engine, 7);
    let empty: PageSequence<u32, ()> = PageSequence::from(vec![], ());
    assert_eq!(empty.len(), 0);
}
