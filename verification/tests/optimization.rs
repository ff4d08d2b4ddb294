use ferrotick::optimization::{walk_forward_plan, GridSearchOptimizer, WindowBounds};

#[test]
fn test_generate_combinations() {
    let mut optimizer = GridSearchOptimizer::new();
    optimizer.add_param("a", vec![1.0, 2.0]);
    optimizer.add_param("b", vec![3.0, 4.0]);

    let combinations = optimizer.generate_combinations();
    assert_eq!(combinations.len(), 4);
    assert_eq!(optimizer.total_combinations(), 4);
}

#[test]
fn test_empty_optimizer() {
    let optimizer: GridSearchOptimizer<f64> = GridSearchOptimizer::new();
    assert_eq!(optimizer.total_combinations(), 0);

    let combinations = optimizer.generate_combinations();
    assert_eq!(combinations.len(), 1);
    assert!(combinations[0].is_empty());
}

#[test]
fn test_grid_search_generates_combinations() {
    let mut optimizer = GridSearchOptimizer::new();
    optimizer
        .add_param("short_period", vec![5.0, 10.0])
        .add_param("long_period", vec![20.0, 50.0]);

    assert_eq!(optimizer.total_combinations(), 4);
}

#[test]
fn combinations_are_lexicographic() {
    let mut optimizer = GridSearchOptimizer::new();
    optimizer.add_param("a", vec![1, 2]).add_param("b", vec![3, 4, 5]);
    assert_eq!(
        optimizer.generate_combinations(),
        vec![vec![1, 3], vec![1, 4], vec![1, 5], vec![2, 3], vec![2, 4], vec![2, 5]]
    );
    assert_eq!(optimizer.param_names(), vec!["a".to_string(), "b".to_string()]);
}

#[test]
fn empty_axis_gives_no_combination() {
    let mut optimizer = GridSearchOptimizer::new();
    optimizer.add_param("a", vec![1, 2]).add_param("b", Vec::<i32>::new());
    assert_eq!(optimizer.total_combinations(), 0);
    assert!(optimizer.generate_combinations().is_empty());
}

#[test]
fn test_walk_forward_splits_data() {
    // 100 bars: 70 for training, 20 for testing, 10 leftover
    let windows = walk_forward_plan(100, 70, 20, 20);
    assert!(windows.len() >= 1);
    let window = windows[0];
    assert_eq!(window.train_end - window.train_start, 70);
    assert_eq!(window.test_end - window.test_start, 20);
}

#[test]
fn walk_forward_rolls_by_step() {
    let windows = walk_forward_plan(100, 50, 20, 10);
    assert_eq!(windows.len(), 4);
    assert_eq!(
        windows[3],
        WindowBounds { train_start: 30, train_end: 80, test_start: 80, test_end: 100 }
    );
    assert!(walk_forward_plan(100, 0, 20, 10).is_empty());
    assert!(walk_forward_plan(10, 8, 5, 0).is_empty());
    let single = walk_forward_plan(10, 5, 3, 0);
    assert_eq!(single.len(), 1);
    assert_eq!(
        (single[0].train_start, single[0].train_end, single[0].test_start, single[0].test_end),
        (0, 5, 5, 8)
    );
}
