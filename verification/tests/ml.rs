use ferrotick::ml::{
    pick,
    cv_folds, train_test_counts, Action, ActionKey, ConfusionCounts, DatasetBuilder, FoldBounds,
    IndicatorSelection, MlError, Position, PositionBucket, RandomAgent, RowAvailability,
    TargetColumn,
};

#[test]
fn test_random_agent() {
    let mut agent = RandomAgent::new(7);
    let actions = Action::all();

    for _ in 0..32 {
        let action = agent.choose_action(&actions);
        assert!(actions.contains(&action));
    }
}

#[test]
fn random_agent_with_no_actions_holds() {
    let mut agent = RandomAgent::new(1);
    assert_eq!(agent.choose_action(&[]), Action::Hold);
}

#[test]
fn random_agent_is_reproducible_for_a_seed() {
    let actions = Action::all();
    let mut a = RandomAgent::new(42);
    let mut b = RandomAgent::new(42);
    for _ in 0..16 {
        assert_eq!(a.choose_action(&actions), b.choose_action(&actions));
    }
}

#[test]
fn action_and_position_keys() {
    assert_eq!(ActionKey::from(Action::Buy), ActionKey::Buy);
    assert_eq!(ActionKey::from(Action::Sell), ActionKey::Sell);
    assert_eq!(ActionKey::from(Action::Hold), ActionKey::Hold);
    assert_eq!(PositionBucket::from(Position::Flat), PositionBucket::Flat);
    assert_eq!(PositionBucket::from(Position::Long), PositionBucket::Long);
}

#[test]
fn indicator_selection_parses_csv() {
    let s = IndicatorSelection::from_csv(" RSI, macd ").unwrap();
    assert!(s.rsi && s.macd && !s.bb && !s.atr);
    let all = IndicatorSelection::from_csv("all").unwrap();
    assert_eq!(all, IndicatorSelection::all());
    let empty = IndicatorSelection::from_csv("  ").unwrap();
    assert_eq!(empty, IndicatorSelection::all());
}

#[test]
fn indicator_selection_rejects_unknown() {
    match IndicatorSelection::from_csv("rsi,foo") {
        Err(MlError::InvalidInput(m)) => {
            assert_eq!(m, "unsupported indicator 'foo'. Valid values: all,rsi,macd,bb,atr")
        }
        other => panic!("unexpected {:?}", other.is_ok()),
    }
}

#[test]
fn confusion_counts_tally_pairs() {
    let preds = [true, true, false, false, true];
    let labels = [true, false, true, false];
    let c = ConfusionCounts::from_predictions(&preds, &labels);
    assert_eq!(c.true_positives, 1);
    assert_eq!(c.false_positives, 1);
    assert_eq!(c.false_negatives, 1);
    assert_eq!(c.true_negatives, 1);
    assert_eq!(c.total(), 4);
}

#[test]
fn cv_folds_walk_forward() {
    let folds = cv_folds(10, 2).unwrap();
    assert_eq!(
        folds,
        vec![
            FoldBounds { test_start: 3, test_end: 6 },
            FoldBounds { test_start: 6, test_end: 10 },
        ]
    );
}

#[test]
fn cv_folds_refuses_bad_inputs() {
    match cv_folds(100, 1) {
        Err(MlError::InvalidInput(m)) => assert_eq!(m, "k must be at least 2 for cross-validation"),
        _ => panic!("expected invalid input"),
    }
    match cv_folds(2, 3) {
        Err(MlError::NoData(m)) => assert_eq!(m, "insufficient data for cross-validation"),
        _ => panic!("expected no data"),
    }
}

#[test]
fn train_test_counts_split_or_refuse() {
    assert_eq!(train_test_counts(10, 2).unwrap(), (8, 2));
    assert!(matches!(train_test_counts(10, 0), Err(MlError::NoData(_))));
    match train_test_counts(3, 3) {
        Err(MlError::NoData(m)) => assert_eq!(m, "insufficient data for train/test split"),
        _ => panic!("expected no data"),
    }
}

#[test]
fn dataset_builder_names_and_rows() {
    let b = DatasetBuilder::new();
    let names = b.feature_names();
    assert_eq!(names.len(), 12);
    assert_eq!(names[0], "rsi");
    assert_eq!(names[11], "rolling_momentum");
    let full = RowAvailability { features_complete: true, return_1d: true, return_5d: false, return_20d: true };
    let partial = RowAvailability { features_complete: false, return_1d: true, return_5d: true, return_20d: true };
    let rows = [full, partial, full];
    assert_eq!(b.select_rows(&rows, TargetColumn::Return1d).unwrap(), vec![0, 2]);
    match b.select_rows(&rows, TargetColumn::Return5d) {
        Err(MlError::NoData(m)) => assert_eq!(m, "no rows with complete features and target"),
        _ => panic!("expected no data"),
    }
}

#[test]
fn lag_features_shift_values() {
    let (l1, l2, l3) = ferrotick::ml::lag_features(&[1.0, 2.0, 3.0, 4.0]);
    assert_eq!(l1, vec![None, Some(1.0), Some(2.0), Some(3.0)]);
    assert_eq!(l2, vec![None, None, Some(1.0), Some(2.0)]);
    assert_eq!(l3, vec![None, None, None, Some(1.0)]);
}

#[test]
fn pick_takes_the_drawn_position() {
    let actions = Action::all();
    assert_eq!(pick(&actions, 0), Action::Hold);
    assert_eq!(pick(&actions, 2), Action::Sell);
}
