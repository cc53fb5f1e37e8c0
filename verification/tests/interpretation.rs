use brawler_core::interpretation::{
    classification_text, download_weights, evaluate_predictions, feature_compiled, model_dir, required_weight_paths,
    rule_matches, token_overlap, token_set, weights_present, weights_state, AnnVectorIndex, InterpretationError,
    LabeledSample, LexicalSimilarity, WeightsState, DEFAULT_EMBEDDING_MODEL_ID, LEXICAL_SIMILARITY_ID,
};

#[test]
fn empty_text_is_invalid() {
    let error = classification_text("   ").unwrap_err();
    assert!(matches!(error, InterpretationError::InvalidRequest(_)));
    assert_eq!(error.message(), "invalid interpretation request: text to classify is empty");
}

#[test]
fn classification_text_is_trimmed_and_lowercased() {
    assert_eq!(classification_text("  Zawiadomienie o TRANSAKCJE ").unwrap(), "zawiadomienie o transakcje");
}

#[test]
fn a_rule_matches_when_any_trimmed_lowercased_pattern_occurs() {
    let text = classification_text("Zawiadomienie o TRANSAKCJE na akcjach").unwrap();
    assert!(rule_matches(&vec!["dywidend".to_owned(), " Transakcj ".to_owned()], &text));
    assert!(!rule_matches(&vec!["dywidend".to_owned()], &text));
    assert!(!rule_matches(&vec!["   ".to_owned()], &text), "a blank pattern never matches");
    assert!(!rule_matches(&Vec::new(), &text));
}

#[test]
fn token_sets_are_distinct_lowercased_words() {
    assert_eq!(token_set("Alfa, beta ALFA; 2025"), vec!["alfa".to_owned(), "beta".to_owned(), "2025".to_owned()]);
    assert!(token_set("  ...  ").is_empty());
}

#[test]
fn identical_token_sets_overlap_fully_and_disjoint_ones_not_at_all() {
    assert_eq!(token_overlap("alfa beta", "beta alfa"), (2, 2));
    assert_eq!(token_overlap("alfa", "gamma"), (0, 2));
    assert_eq!(token_overlap("zarząd rekomenduje wypłatę dywidendy", "rekomendacja wypłaty dywidendy"), (1, 6));
}

#[test]
fn a_classifier_evaluation_counts_correct_wrong_and_unknown() {
    let samples = vec![
        LabeledSample { text: "Rekomendacja wypłaty dywidendy".to_owned(), expected: Some("dividend".to_owned()) },
        LabeledSample { text: "Raport okresowy".to_owned(), expected: None },
    ];
    let report = evaluate_predictions(&samples, &vec![Some("dividend".to_owned()), None]);
    assert_eq!((report.total, report.correct, report.wrong, report.unknown_predicted), (2, 2, 0, 1));

    // Expected unknown, but a category was assigned: a wrong assignment.
    let mislabeled = vec![LabeledSample { text: "Polityka dywidendowa spółki".to_owned(), expected: None }];
    let report = evaluate_predictions(&mislabeled, &vec![Some("dividend".to_owned())]);
    assert_eq!(report.wrong, 1);
    assert_eq!(report.correct, 0);
}

#[test]
fn weights_absent_on_empty_dir() {
    let paths = required_weight_paths("/data", DEFAULT_EMBEDDING_MODEL_ID);
    let dir = model_dir("/data", DEFAULT_EMBEDDING_MODEL_ID);
    assert_eq!(
        paths,
        vec![format!("{dir}/config.json"), format!("{dir}/tokenizer.json"), format!("{dir}/model.safetensors")]
    );
    assert!(!weights_present(&vec![false, false, false]));
    assert!(!weights_present(&vec![true, true, false]));
    assert!(weights_present(&vec![true, true, true]));
}

#[test]
fn state_reflects_feature_compilation() {
    let state = weights_state(false);
    if feature_compiled() {
        assert_eq!(state, WeightsState::Absent);
    } else {
        assert_eq!(state, WeightsState::Unsupported);
    }
    assert!(download_weights("/data", DEFAULT_EMBEDDING_MODEL_ID).is_err());
}

#[test]
fn the_lexical_provider_and_the_ann_index_have_fixed_identities() {
    assert_eq!(LexicalSimilarity::new().id(), LEXICAL_SIMILARITY_ID);
    assert_eq!(AnnVectorIndex::new().seed, 0x5EED);
}
