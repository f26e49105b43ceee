use pyrometer_fiesta::order::stable_sort;
use pyrometer_fiesta::seconds::Seconds;
use pyrometer_fiesta::text::{
    chars_of, push_decimal, replace_commas, text_contains, text_starts_with, trim_text,
    white_space,
};

#[test]
fn chars_are_those_of_the_text() {
    assert_eq!(chars_of("aé語"), vec!['a', 'é', '語']);
    assert!(chars_of("").is_empty());
}

#[test]
fn searching_agrees_with_the_standard_library() {
    let samples = ["", "a", "ab", "ba", "aab", "abab", "contract A {", "vyper", "é語é"];
    for text in samples {
        for part in samples {
            assert_eq!(text_contains(text, part), text.contains(part), "{} {}", text, part);
            assert_eq!(text_starts_with(text, part), text.starts_with(part));
        }
    }
}

#[test]
fn white_space_agrees_with_the_standard_library() {
    for c in '\0'..=char::MAX {
        assert_eq!(white_space(c), c.is_whitespace(), "{:?}", c);
    }
}

#[test]
fn trimming_agrees_with_the_standard_library() {
    for text in ["", " ", "a", " a", "a ", "\n a b\t\u{a0}", "\u{200b}a", " \u{2028} "] {
        assert_eq!(trim_text(text), text.trim());
    }
}

#[test]
fn what_is_left_of_a_text_stands_in_it() {
    let text = "  contract A {} \n";
    let inner = trim_text(text);
    assert!(text_contains(text, &inner));
    assert!(text_contains(&inner, "A {"));
    assert!(text_contains(text, "A {"));
}

#[test]
fn commas_become_colons() {
    assert_eq!(replace_commas("a,b:c,,"), "a:b:c::");
    assert_eq!(replace_commas(""), "");
}

#[test]
fn decimals_are_written_out() {
    for n in [0u128, 7, 9, 10, 99, 100, 1005, 18_446_744_073_709_551_615, u128::MAX] {
        let mut text = "n=".to_string();
        push_decimal(&mut text, n);
        assert_eq!(text, format!("n={}", n));
    }
}

#[test]
fn spans_are_written_with_three_decimals() {
    for (millis, text) in [
        (0u128, "0.000"),
        (7, "0.007"),
        (120, "0.120"),
        (1000, "1.000"),
        (61_005, "61.005"),
        (u128::MAX, "340282366920938463463374607431768211.455"),
    ] {
        assert_eq!(Seconds { millis }.to_string(), text);
        assert_eq!(Seconds::from_text(text), Some(Seconds { millis }));
    }
}

#[test]
fn spans_read_as_floating_point_numbers_are_written() {
    for time in [0.0f64, 0.0004, 0.0005, 0.125, 1.0, 1.9996, 123456.789, 1_000_000.0, 1.8e19] {
        let text = format!("{:.3}", time);
        assert_eq!(Seconds::from_text(&text).unwrap().to_string(), text);
    }
}

#[test]
fn other_text_is_no_span() {
    for text in [
        "", ".", "1", "1.00", ".000", "01.000", "1,000", "1.0000", "-1.000", "NaN", "inf", "1.0a0",
        "a.000", "1:000", "340282366920938463463374607431768211.456",
        "9999999999999999999999999999999999999999.000",
    ] {
        assert_eq!(Seconds::from_text(text), None, "{}", text);
    }
}

fn files(names: &[&str]) -> Vec<(String, String)> {
    names
        .iter()
        .enumerate()
        .map(|(i, name)| (name.to_string(), i.to_string()))
        .collect()
}

#[test]
fn files_sort_by_name_as_in_the_standard_library() {
    for names in [
        vec![],
        vec!["b"],
        vec!["b", "a"],
        vec!["a", "B", "ab", "", "a", "é", "z", "語", "a"],
        vec!["x.sol", "X.sol", "Main.sol", "main.sol", "main", "main.sol"],
    ] {
        let mut expected = files(&names);
        expected.sort_by(|a, b| a.0.cmp(&b.0));
        assert_eq!(stable_sort(files(&names)), expected);
    }
}

#[test]
fn distinct_names_sort_alike_in_any_listing() {
    let listing = vec![
        ("b".to_string(), "2".to_string()),
        ("a".to_string(), "1".to_string()),
        ("c".to_string(), "3".to_string()),
    ];
    let mut other = listing.clone();
    other.reverse();
    assert_eq!(stable_sort(listing), stable_sort(other));
}

#[test]
fn counts_sort_from_the_largest_and_keep_ties() {
    let counts = vec![
        ("a".to_string(), 2usize),
        ("b".to_string(), 5),
        ("c".to_string(), 2),
        ("d".to_string(), 7),
        ("e".to_string(), 5),
    ];
    let order: Vec<String> = stable_sort(counts).into_iter().map(|entry| entry.0).collect();
    assert_eq!(order, vec!["d", "b", "e", "a", "c"]);
}
