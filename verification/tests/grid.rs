use worktime::activity::allocate;
use worktime::activity::try_weight_grid;
use worktime::activity::Activity;
use worktime::activity::GitAction;
use worktime::time::Duration;

fn act(issue: &str, action: GitAction) -> Activity {
    Activity {
        issue_name: issue.to_string(),
        action,
        datetime: None,
    }
}

#[test]
fn get_weight_map_test() {
    // arrange
    let activities = vec![
        act("1", GitAction::PushedNew),
        act("1", GitAction::CommentedOn),
        act("2", GitAction::CommentedOn),
    ];

    // act
    let weight_map = Activity::get_weigth_map(Duration::hours(1), &activities);

    // assert
    assert_eq!(weight_map.total_weight, 9);
    assert_eq!(weight_map.items[0].weight, 8);
    assert_eq!(weight_map.items[1].weight, 1);
}

#[test]
fn duration_percentage_test() {
    let duration = Duration::hours(18 - 9);
    let duration: Duration = allocate(duration, 2, 9);

    assert_eq!(duration.num_hours(), 2);
    assert_eq!(duration.num_minutes(), 120);
    assert_eq!(duration.num_seconds(), 7200);
}

#[test]
fn scoring_table_is_total() {
    assert_eq!(act("1", GitAction::Created).calculate_weight(), 10);
    assert_eq!(act("1", GitAction::PushedNew).calculate_weight(), 7);
    assert_eq!(act("1", GitAction::PushedTo).calculate_weight(), 5);
    assert_eq!(act("1", GitAction::Deleted).calculate_weight(), 1);
    assert_eq!(act("1", GitAction::Accepted).calculate_weight(), 1);
    assert_eq!(act("1", GitAction::Opened).calculate_weight(), 1);
    assert_eq!(act("1", GitAction::Approved).calculate_weight(), 1);
    assert_eq!(act("1", GitAction::CommentedOn).calculate_weight(), 1);
}

#[test]
fn allocated_durations_follow_weight_shares() {
    let activities = vec![
        act("1", GitAction::PushedNew),
        act("1", GitAction::CommentedOn),
        act("2", GitAction::CommentedOn),
    ];

    let grid = Activity::get_weigth_map(Duration::hours(1), &activities);

    assert_eq!(grid.total_duration.num_seconds(), 3600);
    assert_eq!(grid.items[0].duration.num_seconds(), 3600 * 8 / 9);
    assert_eq!(grid.items[1].duration.num_seconds(), 3600 / 9);
}

#[test]
fn truncation_loses_less_than_one_second_per_issue() {
    let activities = vec![
        act("a", GitAction::CommentedOn),
        act("b", GitAction::CommentedOn),
        act("c", GitAction::CommentedOn),
    ];

    let grid = Activity::get_weigth_map(Duration::seconds(100), &activities);

    let sum: i64 = grid.items.iter().map(|item| item.duration.num_seconds()).sum();
    assert_eq!(sum, 99);
    assert!(sum <= 100);
    assert!(100 - sum < grid.items.len() as i64);
}

#[test]
fn empty_input_gives_empty_grid_without_division() {
    let activities: Vec<Activity> = Vec::new();

    let grid = Activity::get_weigth_map(Duration::hours(1), &activities);

    assert_eq!(grid.total_weight, 0);
    assert_eq!(grid.items.len(), 0);
    assert_eq!(grid.total_duration.num_seconds(), 3600);
}

#[test]
fn checked_aggregation_accepts_ordinary_input() {
    let activities = vec![act("1", GitAction::Created), act("2", GitAction::PushedTo)];

    let grid = try_weight_grid(Duration::minutes(30), &activities).unwrap();

    assert_eq!(grid.total_weight, 15);
    assert_eq!(grid.items[0].weight, 10);
    assert_eq!(grid.items[1].weight, 5);
    assert_eq!(grid.items[0].duration.num_seconds(), 1800 * 10 / 15);
    assert_eq!(grid.items[1].duration.num_seconds(), 1800 * 5 / 15);
}

#[test]
fn rerunning_the_pipeline_gives_identical_grids() {
    let record = worktime::activity::ActivityJson {
        action: GitAction::PushedNew,
        created_at: None,
        push_data: Some(worktime::activity::PushData {
            reference: "SBINV-10".to_string(),
            commit_title: Some("ITS-20: twice SBINV-10".to_string()),
        }),
        target_title: None,
    };

    let first: Vec<Activity> = record.get_activities();
    let second: Vec<Activity> = record.get_activities();
    assert_eq!(first, second);

    let grid1 = Activity::get_weigth_map(Duration::hours(2), &first);
    let grid2 = Activity::get_weigth_map(Duration::hours(2), &second);

    assert_eq!(grid1.total_weight, grid2.total_weight);
    assert_eq!(grid1.total_duration.num_seconds(), grid2.total_duration.num_seconds());
    assert_eq!(grid1.items.len(), grid2.items.len());
    for (a, b) in grid1.items.iter().zip(grid2.items.iter()) {
        assert_eq!(a.issue_name, b.issue_name);
        assert_eq!(a.weight, b.weight);
        assert_eq!(a.duration.num_seconds(), b.duration.num_seconds());
    }
}
