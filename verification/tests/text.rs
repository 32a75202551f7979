use web_server::text::{
    begins_with, chars_of, count_of, decimal_text, find_from, holds, last_part_start, lines,
    same_text,
};

fn chars(text: &str) -> Vec<char> {
    text.chars().collect()
}

#[test]
fn decimal_text_of_numbers() {
    assert_eq!(decimal_text(0), "0");
    assert_eq!(decimal_text(7), "7");
    assert_eq!(decimal_text(10), "10");
    assert_eq!(decimal_text(1024), "1024");
    assert_eq!(decimal_text(9_876_543_210), "9876543210");
    assert_eq!(decimal_text(usize::MAX), usize::MAX.to_string());
}

#[test]
fn chars_of_reads_every_character() {
    assert_eq!(chars_of(""), Vec::<char>::new());
    assert_eq!(chars_of("aé\u{1F600}z"), vec!['a', 'é', '\u{1F600}', 'z']);
}

#[test]
fn same_text_compares_characters() {
    assert!(same_text("", ""));
    assert!(same_text("MSFT", "MSFT"));
    assert!(!same_text("MSFT", "MSFt"));
    assert!(!same_text("MSFT", "MSF"));
    assert!(!same_text("MSF", "MSFT"));
    assert!(same_text("é", "é"));
    assert!(!same_text("é", "e"));
}

#[test]
fn find_from_finds_the_next_occurrence() {
    let text = chars("a b  c");
    assert_eq!(find_from(&text, ' ', 0), 1);
    assert_eq!(find_from(&text, ' ', 1), 1);
    assert_eq!(find_from(&text, ' ', 2), 3);
    assert_eq!(find_from(&text, ' ', 5), 6);
    assert_eq!(find_from(&text, ' ', 6), 6);
    assert_eq!(find_from(&text, ' ', 60), 6);
    assert_eq!(find_from(&text, 'x', 0), 6);
}

#[test]
fn holds_looks_for_a_character() {
    assert!(holds("$.a[?(@.b)]", '?'));
    assert!(holds("?", '?'));
    assert!(!holds("$.a.b", '?'));
    assert!(!holds("", '?'));
}

#[test]
fn count_of_counts() {
    assert_eq!(count_of(&chars(""), '/'), 0);
    assert_eq!(count_of(&chars("/api/v1/quotes/A"), '/'), 4);
    assert_eq!(count_of(&chars("////"), '/'), 4);
    assert_eq!(count_of(&chars("abc"), '/'), 0);
}

#[test]
fn last_part_start_points_behind_the_last_separator() {
    assert_eq!(last_part_start(&chars("/api/v1/quotes/AAA"), '/'), 15);
    assert_eq!(last_part_start(&chars("AAA"), '/'), 0);
    assert_eq!(last_part_start(&chars("AAA/"), '/'), 4);
    assert_eq!(last_part_start(&chars(""), '/'), 0);
}

#[test]
fn begins_with_checks_the_prefix() {
    assert!(begins_with(&chars("/api/v1/quotes/A"), &chars("/api/v1/quotes")));
    assert!(begins_with(&chars("abc"), &chars("")));
    assert!(begins_with(&chars("abc"), &chars("abc")));
    assert!(!begins_with(&chars("ab"), &chars("abc")));
    assert!(!begins_with(&chars("abd"), &chars("abc")));
}

#[test]
fn lines_splits_like_the_standard_library() {
    let samples = [
        "",
        "AAA",
        "AAA\n",
        "AAA\nBBB",
        "AAA\nBBB\n",
        "AAA\r\nBBB\r\n",
        "AAA\r\nBBB",
        "AAA\n\nBBB",
        "\n",
        "\n\n",
        "\r\n",
        "\r",
        "AAA\r",
        "AAA\r\r\n",
        "A\rB\nC",
        " AAA \n\tBBB",
        "é\nü\r\n",
    ];
    for sample in samples {
        let expected: Vec<String> = sample.lines().map(|line| line.to_string()).collect();
        assert_eq!(lines(sample), expected, "{:?}", sample);
    }
}

#[test]
fn lines_of_a_symbol_list() {
    assert_eq!(
        lines("MSFT\nAAPL\nGOOG\n"),
        vec!["MSFT".to_string(), "AAPL".to_string(), "GOOG".to_string()]
    );
}
