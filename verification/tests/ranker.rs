use dstl::order::{le, sort_positions};
use fuzzy_matcher::FuzzyMatcher;
use dstl::score::{matches_search, rank, rank_positions, MAX_FUZZY_CHARS};

fn cs(s: &str) -> Vec<char> {
    s.chars().collect()
}

#[test]
fn empty_query_matches_everything_with_neutral_score() {
    assert_eq!(matches_search("Firefox", ""), Some(0));
    assert_eq!(matches_search("", ""), Some(0));
}

#[test]
fn prefix_gets_highest_score_case_aside() {
    assert_eq!(matches_search("Firefox", "fir"), Some(i64::MAX));
    assert_eq!(matches_search("firefox", "FIR"), Some(i64::MAX));
    assert_eq!(matches_search("Firefox", "Firefox"), Some(i64::MAX));
}

#[test]
fn fuzzy_match_scores_below_prefix() {
    let fuzzy = matches_search("axbycz", "abc");
    assert!(fuzzy.is_some());
    assert!(fuzzy.unwrap() < i64::MAX);
    let prefix = matches_search("abcxyz", "abc");
    assert!(prefix.unwrap() > fuzzy.unwrap());
}

#[test]
fn fuzzy_score_is_that_of_the_matcher() {
    let matcher = fuzzy_matcher::skim::SkimMatcherV2::default();
    assert_eq!(matches_search("LibreOffice Writer", "ow"), matcher.fuzzy_match("libreoffice writer", "ow"));
    assert_eq!(matches_search("Terminal", "tml"), matcher.fuzzy_match("terminal", "tml"));
    assert!(matches_search("Terminal", "tml").is_some());
}

#[test]
fn fuzzy_needs_every_character_in_order() {
    assert!(matches_search("a-b-c", "abc").is_some());
    assert!(matches_search("A-B-C", "bc").is_some());
    assert_eq!(matches_search("cab", "abc"), None);
    assert_eq!(matches_search("ab", "abb"), None);
}

#[test]
fn no_subsequence_no_score() {
    assert_eq!(matches_search("Files", "fir"), None);
    assert_eq!(matches_search("abc", "abx"), None);
    assert_eq!(matches_search("", "a"), None);
}

#[test]
fn overlong_texts_are_matched_by_prefix_only() {
    let long: String = "a".repeat(MAX_FUZZY_CHARS + 1);
    assert_eq!(matches_search(&long, "aa"), Some(i64::MAX));
    assert_eq!(matches_search(&long, "ba"), None);
    let mut other = String::from("b");
    other.push_str(&long);
    assert_eq!(matches_search(&other, "aa"), None);
}

#[test]
fn rank_prefers_prefix_over_any_verdict() {
    assert_eq!(rank(&cs("firefox"), &cs("fir"), None), Some(i64::MAX));
    assert_eq!(rank(&cs("firefox"), &cs("fir"), Some(3)), Some(i64::MAX));
    assert_eq!(rank(&cs("files"), &cs("fir"), None), None);
    assert_eq!(rank(&cs("files"), &cs("fls"), Some(41)), Some(41));
    assert_eq!(rank(&cs("files"), &cs("fls"), Some(-7)), Some(-7));
}

#[test]
fn ranking_is_stable_and_drops_unscored() {
    let scores = vec![Some(5), None, Some(9), Some(5), Some(i64::MAX), None, Some(9)];
    assert_eq!(rank_positions(&scores), vec![4, 2, 6, 0, 3]);
    assert_eq!(rank_positions(&Vec::new()), Vec::<usize>::new());
    assert_eq!(rank_positions(&vec![None, None]), Vec::<usize>::new());
    assert_eq!(rank_positions(&vec![Some(0), Some(0), Some(0)]), vec![0, 1, 2]);
    assert_eq!(rank_positions(&vec![Some(1), Some(2), Some(3)]), vec![2, 1, 0]);
    assert_eq!(rank_positions(&vec![Some(i64::MIN), Some(-1)]), vec![1, 0]);
}

#[test]
fn text_order_is_that_of_str() {
    let words = ["", "a", "A", "ab", "abc", "b", "é", "z", "Zebra", "zebra"];
    for a in words {
        for b in words {
            assert_eq!(le(&cs(a), &cs(b)), a <= b, "{:?} <= {:?}", a, b);
        }
    }
}

#[test]
fn sorting_positions_is_stable() {
    let keys = vec![cs("b"), cs("a"), cs("c"), cs("a"), cs("b")];
    assert_eq!(sort_positions(&keys), vec![1, 3, 0, 4, 2]);
    assert_eq!(sort_positions(&Vec::new()), Vec::<usize>::new());
}
