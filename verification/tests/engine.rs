use fuzzy_matcher::skim::SkimMatcherV2;
use fuzzy_matcher::FuzzyMatcher;
use fuzzy_pick::engine::{select_matched, FilterEngine, FilterUpdate};
use fuzzy_pick::matcher::MATCH_LIMIT;

fn lines(texts: &[&str]) -> Vec<String> {
    texts.iter().map(|t| t.to_string()).collect()
}

fn fruit() -> FilterEngine {
    FilterEngine::new(lines(&["apple", "banana", "grape"]))
}

/// The indices of the lines that the matcher itself accepts for `pattern`.
fn direct_mask(texts: &[&str], among: &[usize], pattern: &str) -> Vec<usize> {
    let matcher = SkimMatcherV2::default();
    among
        .iter()
        .copied()
        .filter(|&i| matcher.fuzzy_match(texts[i], pattern).is_some())
        .collect()
}

fn shown(engine: &FilterEngine) -> Vec<String> {
    engine.current_view().into_iter().map(|(_, text)| text.clone()).collect()
}

#[test]
fn new_engine_shows_every_line_in_order() {
    let engine = fruit();
    assert_eq!(engine.current_mask(), vec![0, 1, 2]);
    assert_eq!(shown(&engine), lines(&["apple", "banana", "grape"]));
    assert_eq!(engine.view_texts(), lines(&["apple", "banana", "grape"]));
    assert_eq!(engine.view_len(), 3);
    assert_eq!(engine.depth(), 0);
    assert_eq!(engine.query().as_str(), "");
}

#[test]
fn new_engine_over_nothing_is_empty() {
    let engine = FilterEngine::new(Vec::new());
    assert_eq!(engine.current_mask(), Vec::<usize>::new());
    assert_eq!(engine.view_len(), 0);
    assert_eq!(engine.text_at(0), None);
    assert_eq!(engine.index_at(0), None);
}

#[test]
fn typing_narrows_and_backspace_restores() {
    let texts = ["apple", "banana", "grape"];
    let mut engine = fruit();
    engine.append('a');
    engine.append('p');
    assert_eq!(engine.query().as_str(), "ap");
    assert_eq!(engine.depth(), 2);
    // "banana" has no 'p'; "grape" has an 'a' and then a 'p'.
    assert_eq!(engine.current_mask(), vec![0, 2]);
    assert_eq!(shown(&engine), lines(&["apple", "grape"]));
    let after_a = direct_mask(&texts, &[0, 1, 2], "a");
    assert_eq!(engine.current_mask(), direct_mask(&texts, &after_a, "ap"));

    engine.backspace();
    assert_eq!(engine.query().as_str(), "a");
    assert_eq!(engine.depth(), 1);
    assert_eq!(engine.current_mask(), after_a);
    assert_eq!(engine.current_mask(), vec![0, 1, 2]);
}

#[test]
fn typing_matches_the_whole_query_not_the_last_character() {
    // Both lines hold a 'b' and an 'a', but only the first holds them in
    // the order of the query.
    let mut engine = FilterEngine::new(lines(&["abc", "bca"]));
    engine.append('a');
    assert_eq!(engine.current_mask(), vec![0, 1]);
    engine.append('b');
    assert_eq!(engine.current_mask(), vec![0]);
}

#[test]
fn view_keeps_the_order_of_the_list_whatever_the_scores() {
    let texts = ["xaxbx", "ab", "b_a", "a-b"];
    let matcher = SkimMatcherV2::default();
    let loose = matcher.fuzzy_match(texts[0], "ab").unwrap();
    let tight = matcher.fuzzy_match(texts[1], "ab").unwrap();
    assert!(tight > loose);
    let mut engine = FilterEngine::new(lines(&texts));
    engine.append('a');
    engine.append('b');
    assert_eq!(engine.current_mask(), vec![0, 1, 3]);
    let view = engine.current_view();
    assert_eq!(view.len(), 3);
    assert_eq!(view[0], (0, &"xaxbx".to_string()));
    assert_eq!(view[1], (1, &"ab".to_string()));
    assert_eq!(view[2], (3, &"a-b".to_string()));
}

#[test]
fn round_trip_brings_back_view_and_query() {
    let mut engine = fruit();
    let view_before = engine.current_mask();
    let query_before = engine.query().clone();
    for c in "grz".chars() {
        engine.append(c);
    }
    assert_eq!(engine.depth(), 3);
    assert_eq!(engine.view_len(), 0);
    for _ in 0..3 {
        engine.backspace();
    }
    assert_eq!(engine.current_mask(), view_before);
    assert_eq!(engine.query(), &query_before);
    assert_eq!(engine.depth(), 0);
}

#[test]
fn round_trip_from_a_narrowed_view() {
    let mut engine = fruit();
    engine.append('g');
    let view_before = engine.current_mask();
    assert_eq!(view_before, vec![2]);
    engine.append('r');
    engine.append('a');
    engine.backspace();
    engine.backspace();
    assert_eq!(engine.current_mask(), view_before);
    assert_eq!(engine.query().as_str(), "g");
}

#[test]
fn typing_into_an_empty_view_still_grows_the_stack() {
    let mut engine = fruit();
    engine.append('a');
    engine.append('z');
    assert_eq!(engine.view_len(), 0);
    engine.append('q');
    assert_eq!(engine.view_len(), 0);
    assert_eq!(engine.depth(), 3);
    assert_eq!(engine.query().as_str(), "azq");
    engine.backspace();
    assert_eq!(engine.view_len(), 0);
    assert_eq!(engine.depth(), 2);
    engine.backspace();
    assert_eq!(engine.current_mask(), vec![0, 1, 2]);
    assert_eq!(engine.depth(), 1);
    assert_eq!(engine.query().as_str(), "a");
}

#[test]
fn backspace_on_an_empty_query_changes_nothing() {
    let mut engine = fruit();
    engine.backspace();
    engine.backspace();
    assert_eq!(engine.depth(), 0);
    assert_eq!(engine.query().as_str(), "");
    assert_eq!(engine.current_mask(), vec![0, 1, 2]);
}

#[test]
fn depth_is_the_length_of_the_query_in_characters() {
    let mut engine = FilterEngine::new(lines(&["żółw", "zolw"]));
    engine.append('ż');
    engine.append('ó');
    assert_eq!(engine.depth(), 2);
    assert_eq!(engine.query().as_str(), "żó");
    assert_eq!(engine.current_mask(), vec![0]);
    engine.backspace();
    assert_eq!(engine.query().as_str(), "ż");
    assert_eq!(engine.depth(), 1);
}

#[test]
fn text_and_index_at_a_position() {
    let mut engine = fruit();
    engine.append('g');
    assert_eq!(engine.index_at(0), Some(2));
    assert_eq!(engine.text_at(0), Some(&"grape".to_string()));
    assert_eq!(engine.index_at(1), None);
    assert_eq!(engine.text_at(1), None);
    engine.backspace();
    assert_eq!(engine.index_at(1), Some(1));
    assert_eq!(engine.text_at(1), Some(&"banana".to_string()));
    assert_eq!(engine.text_at(3), None);
}

#[test]
fn try_append_types_where_the_matcher_can_take_it() {
    let mut engine = fruit();
    assert!(engine.try_append('b'));
    assert_eq!(engine.query().as_str(), "b");
    assert_eq!(engine.current_mask(), vec![1]);
}

#[test]
fn a_line_longer_than_the_longest_query_is_matched_like_any_other() {
    let long = "x".repeat(MATCH_LIMIT + 1);
    let mut engine = FilterEngine::new(vec!["a".to_string(), long, "ba".to_string()]);
    assert!(engine.try_append('a'));
    assert_eq!(engine.depth(), 1);
    assert_eq!(engine.query().as_str(), "a");
    assert_eq!(engine.current_mask(), vec![0, 2]);
    assert!(engine.update_filter(FilterUpdate::Backspace));
    assert_eq!(engine.current_mask(), vec![0, 1, 2]);
}

#[test]
fn a_long_line_that_matches_stays_in_view() {
    let long = format!("{}needle", "x".repeat(100_000));
    let mut engine = FilterEngine::new(vec!["hay".to_string(), long.clone()]);
    for c in "ndl".chars() {
        engine.append(c);
    }
    assert_eq!(engine.current_mask(), vec![1]);
    assert_eq!(engine.text_at(0), Some(&long));
}

#[test]
fn matching_regards_case_only_where_the_query_has_a_capital() {
    let mut engine = FilterEngine::new(lines(&["Apple", "apple", "APPLE"]));
    engine.append('a');
    assert_eq!(engine.current_mask(), vec![0, 1, 2]);
    engine.backspace();
    engine.append('A');
    assert_eq!(engine.current_mask(), vec![0, 2]);
    engine.append('p');
    assert_eq!(engine.current_mask(), vec![0]);
}

#[test]
fn a_query_at_the_limit_takes_no_more_characters() {
    let mut engine = FilterEngine::new(Vec::new());
    for _ in 0..MATCH_LIMIT {
        assert!(engine.try_append('q'));
    }
    assert_eq!(engine.depth(), MATCH_LIMIT);
    assert!(!engine.try_append('q'));
    assert_eq!(engine.depth(), MATCH_LIMIT);
    assert_eq!(engine.query().len(), MATCH_LIMIT);
    assert!(!engine.update_filter(FilterUpdate::Append { c: 'q' }));
    engine.backspace();
    assert_eq!(engine.depth(), MATCH_LIMIT - 1);
    assert!(engine.try_append('r'));
    assert_eq!(engine.depth(), MATCH_LIMIT);
}

#[test]
fn update_filter_applies_both_changes() {
    let mut engine = fruit();
    assert!(engine.update_filter(FilterUpdate::Append { c: 'n' }));
    assert_eq!(engine.current_mask(), vec![1]);
    assert_eq!(engine.query().as_str(), "n");
    assert!(engine.update_filter(FilterUpdate::Backspace));
    assert_eq!(engine.current_mask(), vec![0, 1, 2]);
    assert_eq!(engine.query().as_str(), "");
    assert!(engine.update_filter(FilterUpdate::Backspace));
    assert_eq!(engine.depth(), 0);
}

#[test]
fn select_matched_keeps_the_scored_entries_in_order() {
    let view = vec![0, 2, 5, 9];
    let scores = vec![Some(3), None, Some(-1), Some(0)];
    assert_eq!(select_matched(&view, &scores), vec![0, 5, 9]);
}

#[test]
fn select_matched_drops_entries_without_a_score() {
    assert_eq!(select_matched(&vec![4, 7], &vec![None, None]), Vec::<usize>::new());
    assert_eq!(select_matched(&vec![4, 7, 8], &vec![Some(1)]), vec![4]);
    assert_eq!(select_matched(&Vec::new(), &vec![Some(1)]), Vec::<usize>::new());
    assert_eq!(select_matched(&vec![4, 7], &Vec::new()), Vec::<usize>::new());
}
