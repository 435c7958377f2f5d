use booklet_imposition::calculator::{
    calculate_signatures, format_page_list, parse_total_pages, signature_report_lines, Signature,
};

#[test]
fn report_for_exact_signature() {
    let lines = signature_report_lines(8);
    let expected: Vec<String> = vec![
        "Total PDF pages: 8",
        "Number of signatures: 1",
        "",
        "1st signature:",
        "  - 1, 3, 5, 7",
        "  - 8, 6, 4, 2",
        "",
    ]
    .into_iter()
    .map(|s| s.to_string())
    .collect();
    assert_eq!(lines, expected);
}

#[test]
fn report_mentions_padding() {
    let lines = signature_report_lines(10);
    assert_eq!(lines[0], "Total PDF pages: 10");
    assert_eq!(lines[1], "Padded to: 16 pages (6 blank PDF pages needed)");
    assert_eq!(lines[2], "Number of signatures: 2");
    assert_eq!(lines[3], "");
    assert_eq!(lines[8], "2nd signature:");
    assert_eq!(lines[9], "  - 9, 11, 13, 15");
    assert_eq!(lines[10], "  - 16, 14, 12, 10");
    assert_eq!(lines.len(), 12);
}

#[test]
fn report_suffixes_past_third() {
    let lines = signature_report_lines(100);
    assert_eq!(lines[0], "Total PDF pages: 100");
    assert_eq!(lines[1], "Padded to: 104 pages (4 blank PDF pages needed)");
    assert_eq!(lines[2], "Number of signatures: 13");
    assert_eq!(lines[12], "3rd signature:");
    assert_eq!(lines[16], "4th signature:");
    assert_eq!(lines[4 + 4 * 10], "11th signature:");
    assert_eq!(lines[4 + 4 * 12], "13th signature:");
    assert_eq!(lines[4 + 4 * 12 + 1], "  - 97, 99, 101, 103");
}

#[test]
fn report_for_zero_pages() {
    let lines = signature_report_lines(0);
    assert_eq!(lines, vec!["Total PDF pages: 0", "Number of signatures: 0", ""]);
}

#[test]
fn page_list_formatting() {
    assert_eq!(format_page_list(&vec![]), "");
    assert_eq!(format_page_list(&vec![7]), "7");
    assert_eq!(format_page_list(&vec![104, 102, 100, 98]), "104, 102, 100, 98");
}

#[test]
fn ordinal_suffix_only_for_one_two_three() {
    let sig = |n: usize| Signature { number: n, odd_pages: vec![], even_pages: vec![] };
    assert_eq!(sig(11).ordinal_suffix(), "th");
    assert_eq!(sig(21).ordinal_suffix(), "th");
    assert_eq!(sig(0).ordinal_suffix(), "th");
}

#[test]
fn zero_pages_need_no_signature() {
    let (signatures, padded) = calculate_signatures(0);
    assert!(signatures.is_empty());
    assert_eq!(padded, 0);
}

#[test]
fn padding_is_minimal_multiple_of_eight() {
    for total in 0..200usize {
        let (signatures, padded) = calculate_signatures(total);
        assert!(padded >= total);
        assert_eq!(padded % 8, 0);
        assert!(padded - total < 8);
        assert_eq!(signatures.len() * 8, padded);
    }
}

#[test]
fn every_padded_page_printed_once() {
    for total in [1usize, 8, 9, 17, 63, 64, 65] {
        let (signatures, padded) = calculate_signatures(total);
        let mut seen = vec![0usize; padded + 1];
        for sig in &signatures {
            for p in sig.odd_pages.iter().chain(sig.even_pages.iter()) {
                assert!(*p >= 1 && *p <= padded);
                seen[*p] += 1;
            }
            assert!(sig.odd_pages.iter().all(|p| p % 2 == 1));
            assert!(sig.even_pages.iter().all(|p| p % 2 == 0));
        }
        assert!(seen[1..].iter().all(|c| *c == 1));
    }
}

#[test]
fn total_pages_argument() {
    assert_eq!(parse_total_pages("24"), Ok(24));
    assert_eq!(parse_total_pages("+7"), Ok(7));
    assert_eq!(parse_total_pages("0"), Err("Page count must be positive".to_string()));
    assert_eq!(parse_total_pages(""), Err("cannot parse integer from empty string".to_string()));
    assert_eq!(parse_total_pages("12a"), Err("invalid digit found in string".to_string()));
    assert_eq!(parse_total_pages("-3"), Err("invalid digit found in string".to_string()));
    assert_eq!(parse_total_pages(" 5"), Err("invalid digit found in string".to_string()));
    assert_eq!(
        parse_total_pages("99999999999999999999999"),
        Err("number too large to fit in target type".to_string())
    );
}
