use music_player::lookup::{rank_keys, rank_matches};
use music_player::text::{chars_of, comes_first, contains};

fn chars(text: &str) -> Vec<char> {
    text.chars().collect()
}

fn keys(texts: &[&str]) -> Vec<Vec<char>> {
    texts.iter().map(|t| chars(t)).collect()
}

#[test]
fn chars_of_lists_the_characters_in_order() {
    assert_eq!(chars_of(""), Vec::<char>::new());
    assert_eq!(chars_of("abc"), vec!['a', 'b', 'c']);
    assert_eq!(chars_of("Öl é"), vec!['Ö', 'l', ' ', 'é']);
}

#[test]
fn contains_finds_a_needle_anywhere() {
    assert!(contains(&chars("yesterday"), &chars("yes")));
    assert!(contains(&chars("yesterday"), &chars("ster")));
    assert!(contains(&chars("yesterday"), &chars("day")));
    assert!(contains(&chars("yesterday"), &chars("yesterday")));
    assert!(contains(&chars("aab"), &chars("ab")));
    assert!(contains(&chars("ödland"), &chars("dl")));
}

#[test]
fn contains_takes_the_empty_needle_everywhere() {
    assert!(contains(&chars("abc"), &chars("")));
    assert!(contains(&chars(""), &chars("")));
}

#[test]
fn contains_refuses_what_is_not_there() {
    assert!(!contains(&chars("yesterday"), &chars("yesterdays")));
    assert!(!contains(&chars("yesterday"), &chars("dya")));
    assert!(!contains(&chars(""), &chars("a")));
    assert!(!contains(&chars("abc"), &chars("ac")));
    assert!(!contains(&chars("abc"), &chars("ABC")));
}

#[test]
fn comes_first_follows_the_dictionary() {
    assert!(comes_first(&chars(""), &chars("")));
    assert!(comes_first(&chars(""), &chars("a")));
    assert!(!comes_first(&chars("a"), &chars("")));
    assert!(comes_first(&chars("a"), &chars("a")));
    assert!(comes_first(&chars("a"), &chars("b")));
    assert!(!comes_first(&chars("b"), &chars("a")));
    assert!(comes_first(&chars("ab"), &chars("abc")));
    assert!(!comes_first(&chars("abc"), &chars("ab")));
    assert!(comes_first(&chars("abc"), &chars("abd")));
    assert!(comes_first(&chars("Z"), &chars("a")));
    assert!(comes_first(&chars("z"), &chars("é")));
    assert!(!comes_first(&chars("é"), &chars("z")));
}

#[test]
fn comes_first_agrees_with_the_order_of_strings() {
    let samples = ["", "a", "A", "ab", "abc", "b", "é", "z", "zz", "Ödland", "日本", "\u{10ffff}"];
    for a in samples {
        for b in samples {
            assert_eq!(comes_first(&chars(a), &chars(b)), a <= b, "{:?} against {:?}", a, b);
        }
    }
}

#[test]
fn contains_agrees_with_the_search_of_strings() {
    let samples = ["", "a", "ab", "ba", "aba", "abab", "b", "é", "aé", "éa"];
    for hay in samples {
        for needle in samples {
            assert_eq!(
                contains(&chars(hay), &chars(needle)),
                hay.contains(needle),
                "{:?} in {:?}",
                needle,
                hay
            );
        }
    }
}

#[test]
fn rank_keys_orders_the_selected_positions() {
    let list = keys(&["delta", "alpha", "charlie", "bravo"]);
    assert_eq!(rank_keys(&list, &chars(""), true), vec![1, 3, 2, 0]);
    assert_eq!(rank_keys(&list, &chars("a"), false), vec![1, 3, 2, 0]);
    assert_eq!(rank_keys(&list, &chars("l"), false), vec![1, 2, 0]);
    assert_eq!(rank_keys(&list, &chars("bravo"), false), vec![3]);
    assert_eq!(rank_keys(&list, &chars("x"), false), Vec::<usize>::new());
    assert_eq!(rank_keys(&list, &chars("x"), true), vec![1, 3, 2, 0]);
}

#[test]
fn rank_keys_keeps_equal_keys_in_their_order() {
    let list = keys(&["b", "a", "b", "a", "b"]);
    assert_eq!(rank_keys(&list, &chars(""), true), vec![1, 3, 0, 2, 4]);
    assert_eq!(rank_keys(&list, &chars("b"), false), vec![0, 2, 4]);
}

#[test]
fn rank_keys_of_nothing_is_nothing() {
    assert_eq!(rank_keys(&Vec::new(), &chars(""), true), Vec::<usize>::new());
    assert_eq!(rank_keys(&Vec::new(), &chars("a"), false), Vec::<usize>::new());
}

#[test]
fn rank_matches_lowers_names_and_query() {
    let names = vec!["Delta".to_string(), "ALPHA".to_string(), "charlie".to_string()];
    assert_eq!(rank_matches("", &names), vec![1, 2, 0]);
    assert_eq!(rank_matches("AL", &names), vec![1]);
    assert_eq!(rank_matches("l", &names), vec![1, 2, 0]);
    assert_eq!(rank_matches("E", &names), vec![2, 0]);
    assert_eq!(rank_matches("q", &names), Vec::<usize>::new());
}
