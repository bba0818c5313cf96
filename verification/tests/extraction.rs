use worktime::activity::Activity;
use worktime::activity::ActivityJson;
use worktime::activity::GitAction;
use worktime::activity::PushData;

#[test]
fn get_activities_success_test() {
    // arrange
    let activity = ActivityJson {
        action: GitAction::CommentedOn,
        created_at: None,
        push_data: Some(PushData {
            reference: "SBINV-00001".to_string(),
            commit_title: Some("SBINV-00002: Add stuff".to_string()),
        }),
        target_title: Some(
            "SBINV-23256: [Кодировка] ITS-100500 Не корректная кодировка pdf файлов в Расширенном экспорте"
                .to_string(),
        ),
    };

    let expected: Vec<Activity> = vec![
        "SBINV-23256",
        "ITS-100500",
        "SBINV-00001",
        "SBINV-00002",
    ]
        .iter()
        .map(|issue| Activity {
            issue_name: String::from(*issue),
            action: GitAction::CommentedOn,
            datetime: None,
        })
        .collect();

    // act
    let issues = activity.get_activities();

    // assert
    assert_eq!(issues, expected);
}

#[test]
fn get_empty_activity_list_test() {
    // arrange
    let activity = ActivityJson {
        action: GitAction::CommentedOn,
        push_data: None,
        created_at: None,
        target_title: None,
    };

    // act
    let activities = activity.get_activities();

    // assert
    assert_eq!(activities.len(), 0);
}

#[test]
fn prefix_without_digits_is_no_match() {
    let activity = ActivityJson {
        action: GitAction::Created,
        push_data: None,
        created_at: None,
        target_title: Some("ITS- and SBINV- alone say nothing".to_string()),
    };

    assert_eq!(activity.get_activities().len(), 0);
}

#[test]
fn keys_match_greedily_and_back_to_back() {
    let activity = ActivityJson {
        action: GitAction::Opened,
        push_data: None,
        created_at: Some(1700000000),
        target_title: Some("SBINV-1ITS-123456789x".to_string()),
    };

    let issues = activity.get_activities();

    assert_eq!(issues.len(), 2);
    assert_eq!(issues[0].issue_name, "SBINV-1");
    assert_eq!(issues[1].issue_name, "ITS-123456789");
    assert_eq!(issues[0].datetime, Some(1700000000));
    assert!(matches!(issues[1].action, GitAction::Opened));
}

#[test]
fn fields_are_joined_without_separator() {
    // The title ends in a prefix and the push reference begins with the
    // digits: joined directly they form one key.
    let activity = ActivityJson {
        action: GitAction::PushedTo,
        created_at: None,
        push_data: Some(PushData {
            reference: "77fix".to_string(),
            commit_title: None,
        }),
        target_title: Some("prepare ITS-".to_string()),
    };

    let issues = activity.get_activities();

    assert_eq!(issues.len(), 1);
    assert_eq!(issues[0].issue_name, "ITS-77");
}
