use task_tracker::models::status::Status;

#[test]
fn as_string_representation() {
    let expected = vec!["Done", "ToDo", "In Progress"];
    let statuses = vec![Status::Done, Status::ToDo, Status::InProgress];
    for (s, e) in statuses.iter().zip(expected) {
        assert_eq!(s.label(), e.to_string());
    }
}

#[test]
fn status_is_compared_by_variant() {
    assert_eq!(Status::Done, Status::Done);
    assert_ne!(Status::Done, Status::ToDo);
    assert_ne!(Status::ToDo, Status::InProgress);
    let copy = Status::InProgress;
    assert_eq!(copy.clone(), Status::InProgress);
}
