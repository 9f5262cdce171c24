use task_tracker::models::status::Status;
use task_tracker::models::store::Store;
use task_tracker::models::task::Task;
use task_tracker::models::timestamp::Timestamp;

fn ids(tasks: &[&Task]) -> Vec<usize> {
    tasks.iter().map(|t| t.id()).collect()
}

#[test]
fn create_store() {
    let temp_file = "tmp1.json";
    let store = Store::new(Some(temp_file));
    assert_eq!(store.tasks().len(), 0);
    assert_eq!(store.max_task_id(), 0);
    assert_eq!(store.path(), "tmp1.json");
}

#[test]
fn add_task() {
    let temp_file = "tmp2.json";
    let mut store = Store::new(Some(temp_file));
    let id = store.add_task("some description".to_string());
    assert_eq!(store.tasks().len(), 1);
    assert_eq!(store.max_task_id(), id);
    assert_eq!(store.tasks()[0].description(), "some description");
}

#[test]
fn update_task() {
    let temp_file = "tmp3.json";
    let mut store = Store::new(Some(temp_file));
    let id = store.add_task("some description".to_string());
    store.update_task(id, "new description".to_string());
    assert_eq!(store.tasks()[0].description(), "new description");
}

#[test]
fn delete_task() {
    let temp_file = "tmp4.json";
    let mut store = Store::new(Some(temp_file));
    let id = store.add_task("some description".to_string());
    store.delete_task(id);
    assert_eq!(store.tasks().len(), 0);
}

#[test]
fn mark_task() {
    let temp_file = "tmp5.json";
    let mut store = Store::new(Some(temp_file));
    let id = store.add_task("some description".to_string());
    store.mark_task(id, Status::Done);
    assert_eq!(store.tasks()[0].status(), &Status::Done);
}

#[test]
fn list_tasks() {
    let temp_file = "tmp6.json";
    let mut store = Store::new(Some(temp_file));
    store.add_task("some description".to_string());
    store.add_task("another description".to_string());
    let tasks = store.list_tasks(None);
    assert_eq!(tasks.len(), 2);
    assert_eq!(tasks[0].description(), "some description");
    assert_eq!(tasks[1].description(), "another description");
}

#[test]
fn list_tasks_with_status() {
    let temp_file = "tmp7.json";
    let mut store = Store::new(Some(temp_file));
    let id1 = store.add_task("some description".to_string());
    let _ = store.add_task("another description".to_string());
    store.mark_task(id1, Status::Done);
    let tasks = store.list_tasks(Some(Status::Done));
    assert_eq!(tasks.len(), 1);
    assert_eq!(tasks[0].id(), id1);
}

#[test]
fn store_without_a_path_uses_the_default_location() {
    let store = Store::new(None);
    assert_eq!(store.path(), "data/data.json");
    assert_eq!(store.tasks().len(), 0);
    assert_eq!(store.max_task_id(), 0);
}

#[test]
fn scenario_add_mark_list_delete() {
    let mut store = Store::new(Some("fresh.json"));
    assert_eq!(store.add_task("buy milk".to_string()), 1);
    assert_eq!(store.add_task("wash car".to_string()), 2);
    assert!(store.mark_task(1, Status::Done));
    {
        let done = store.list_tasks(Some(Status::Done));
        assert_eq!(done.len(), 1);
        assert_eq!(done[0].id(), 1);
        assert_eq!(done[0].description(), "buy milk");
    }
    assert!(store.delete_task(2));
    let all = store.list_tasks(None);
    assert_eq!(all.len(), 1);
    assert_eq!(all[0].id(), 1);
}

#[test]
fn scenario_update_of_a_missing_task_is_reported() {
    let at = Timestamp::new(50, 0);
    let mut store = Store::new(Some("fresh.json"));
    store.add_task_at("buy milk".to_string(), at);
    let found = store.update_task(99, "x".to_string());
    assert!(!found);
    assert_eq!(store.tasks().len(), 1);
    assert_eq!(store.max_task_id(), 1);
    assert_eq!(store.tasks()[0].id(), 1);
    assert_eq!(store.tasks()[0].description(), "buy milk");
    assert_eq!(*store.tasks()[0].status(), Status::ToDo);
    assert_eq!(store.tasks()[0].created_at(), at);
    assert_eq!(store.tasks()[0].updated_at(), at);
}

#[test]
fn missing_ids_are_reported_by_every_operation() {
    let at = Timestamp::new(50, 0);
    let later = Timestamp::new(60, 0);
    let mut store = Store::new(None);
    store.add_task_at("only".to_string(), at);
    assert!(!store.update_task_at(2, "x".to_string(), later));
    assert!(!store.mark_task_at(2, Status::Done, later));
    assert!(!store.mark_task(0, Status::Done));
    assert!(!store.delete_task(2));
    assert_eq!(store.find_task(2), None);
    assert_eq!(store.tasks().len(), 1);
    assert_eq!(store.tasks()[0].description(), "only");
    assert_eq!(*store.tasks()[0].status(), Status::ToDo);
    assert_eq!(store.tasks()[0].updated_at(), at);
    assert_eq!(store.max_task_id(), 1);
}

#[test]
fn ids_count_up_from_one_across_deletes() {
    let at = Timestamp::new(1, 0);
    let mut store = Store::new(None);
    assert_eq!(store.add_task_at("a".to_string(), at), 1);
    assert_eq!(store.add_task_at("b".to_string(), at), 2);
    assert!(store.delete_task(1));
    assert_eq!(store.add_task_at("c".to_string(), at), 3);
    assert!(store.delete_task(3));
    assert!(store.delete_task(2));
    assert_eq!(store.tasks().len(), 0);
    assert_eq!(store.max_task_id(), 3);
    assert_eq!(store.add_task_at("d".to_string(), at), 4);
    assert_eq!(store.add_task("e".to_string()), 5);
    assert_eq!(ids(&store.list_tasks(None)), vec![4, 5]);
}

#[test]
fn deleted_id_is_not_handed_out_again() {
    let at = Timestamp::new(1, 0);
    let mut store = Store::new(None);
    let first = store.add_task_at("a".to_string(), at);
    assert!(store.delete_task(first));
    let second = store.add_task_at("b".to_string(), at);
    assert_ne!(first, second);
    assert_eq!(second, 2);
    assert_eq!(store.find_task(first), None);
    assert_eq!(store.find_task(second), Some(0));
}

#[test]
fn delete_keeps_the_order_of_the_rest() {
    let at = Timestamp::new(1, 0);
    let mut store = Store::new(None);
    for text in ["a", "b", "c", "d"] {
        store.add_task_at(text.to_string(), at);
    }
    assert!(store.delete_task(2));
    assert_eq!(ids(&store.list_tasks(None)), vec![1, 3, 4]);
    let texts: Vec<String> = store.tasks().iter().map(|t| t.description().clone()).collect();
    assert_eq!(texts, vec!["a".to_string(), "c".to_string(), "d".to_string()]);
}

#[test]
fn update_at_moves_updated_at_and_keeps_created_at() {
    let created = Timestamp::new(10, 0);
    let later = Timestamp::new(10, 1);
    let mut store = Store::new(None);
    store.add_task_at("a".to_string(), created);
    store.add_task_at("b".to_string(), created);
    assert!(store.update_task_at(2, "b2".to_string(), later));
    let tasks = store.tasks();
    assert_eq!(tasks[1].description(), "b2");
    assert_eq!(tasks[1].created_at(), created);
    assert_eq!(tasks[1].updated_at(), later);
    assert!(created.is_before(&tasks[1].updated_at()));
    assert_eq!(tasks[0].description(), "a");
    assert_eq!(tasks[0].updated_at(), created);
    assert_eq!(ids(&store.list_tasks(None)), vec![1, 2]);
}

#[test]
fn mark_at_moves_updated_at_and_keeps_created_at() {
    let created = Timestamp::new(10, 0);
    let later = Timestamp::new(11, 0);
    let mut store = Store::new(None);
    store.add_task_at("a".to_string(), created);
    assert!(store.mark_task_at(1, Status::InProgress, later));
    assert_eq!(*store.tasks()[0].status(), Status::InProgress);
    assert_eq!(store.tasks()[0].created_at(), created);
    assert_eq!(store.tasks()[0].updated_at(), later);
    let again = Timestamp::new(12, 0);
    assert!(store.mark_task_at(1, Status::InProgress, again));
    assert_eq!(*store.tasks()[0].status(), Status::InProgress);
    assert_eq!(store.tasks()[0].updated_at(), again);
}

#[test]
fn listing_by_status_keeps_insertion_order() {
    let at = Timestamp::new(1, 0);
    let mut store = Store::new(None);
    for text in ["a", "b", "c", "d", "e"] {
        store.add_task_at(text.to_string(), at);
    }
    store.mark_task_at(4, Status::Done, at);
    store.mark_task_at(2, Status::Done, at);
    store.mark_task_at(5, Status::InProgress, at);
    assert_eq!(ids(&store.list_tasks(Some(Status::Done))), vec![2, 4]);
    assert_eq!(ids(&store.list_tasks(Some(Status::ToDo))), vec![1, 3]);
    assert_eq!(ids(&store.list_tasks(Some(Status::InProgress))), vec![5]);
    assert_eq!(ids(&store.list_tasks(None)), vec![1, 2, 3, 4, 5]);
}

#[test]
fn listing_an_empty_store_is_empty() {
    let store = Store::new(None);
    assert!(store.list_tasks(None).is_empty());
    assert!(store.list_tasks(Some(Status::ToDo)).is_empty());
}

#[test]
fn store_from_tasks_takes_the_highest_id() {
    let at = Timestamp::new(1, 0);
    let tasks = vec![
        Task::from_parts(3, "c".to_string(), Status::Done, at, at),
        Task::from_parts(9, "i".to_string(), Status::ToDo, at, at),
        Task::from_parts(4, "d".to_string(), Status::InProgress, at, at),
    ];
    let mut store = Store::with_tasks(Some("kept.json"), tasks);
    assert_eq!(store.path(), "kept.json");
    assert_eq!(store.max_task_id(), 9);
    assert_eq!(ids(&store.list_tasks(None)), vec![3, 9, 4]);
    assert_eq!(store.add_task_at("new".to_string(), at), 10);
    assert_eq!(ids(&store.list_tasks(None)), vec![3, 9, 4, 10]);
}

#[test]
fn store_from_no_tasks_starts_at_zero() {
    let mut store = Store::with_tasks(None, Vec::new());
    assert_eq!(store.path(), "data/data.json");
    assert_eq!(store.max_task_id(), 0);
    assert_eq!(store.tasks().len(), 0);
    assert_eq!(store.add_task("first".to_string()), 1);
}

#[test]
fn operations_reach_the_first_task_with_an_id() {
    let at = Timestamp::new(1, 0);
    let later = Timestamp::new(2, 0);
    let tasks = vec![
        Task::from_parts(5, "one".to_string(), Status::ToDo, at, at),
        Task::from_parts(5, "two".to_string(), Status::ToDo, at, at),
    ];
    let mut store = Store::with_tasks(None, tasks);
    assert_eq!(store.find_task(5), Some(0));
    assert!(store.update_task_at(5, "changed".to_string(), later));
    assert_eq!(store.tasks()[0].description(), "changed");
    assert_eq!(store.tasks()[1].description(), "two");
    assert!(store.delete_task(5));
    assert_eq!(store.tasks().len(), 1);
    assert_eq!(store.tasks()[0].description(), "two");
}

#[test]
fn opening_without_persisted_tasks_starts_empty_and_asks_for_a_write() {
    let (store, created) = Store::open(Some("new/place.json"), None);
    assert!(created);
    assert_eq!(store.path(), "new/place.json");
    assert_eq!(store.tasks().len(), 0);
    assert_eq!(store.max_task_id(), 0);
}

#[test]
fn opening_with_persisted_tasks_rebuilds_the_store() {
    let at = Timestamp::new(1, 0);
    let later = Timestamp::new(2, 5);
    let tasks = vec![
        Task::from_parts(2, "b".to_string(), Status::Done, at, later),
        Task::from_parts(1, "a".to_string(), Status::ToDo, at, at),
    ];
    let (store, created) = Store::open(None, Some(tasks));
    assert!(!created);
    assert_eq!(store.path(), "data/data.json");
    assert_eq!(store.max_task_id(), 2);
    assert_eq!(ids(&store.list_tasks(None)), vec![2, 1]);
    assert_eq!(store.tasks()[0].description(), "b");
    assert_eq!(*store.tasks()[0].status(), Status::Done);
    assert_eq!(store.tasks()[0].created_at(), at);
    assert_eq!(store.tasks()[0].updated_at(), later);
}

#[test]
fn opening_with_an_empty_collection_asks_for_no_write() {
    let (store, created) = Store::open(Some("kept.json"), Some(Vec::new()));
    assert!(!created);
    assert_eq!(store.tasks().len(), 0);
    assert_eq!(store.max_task_id(), 0);
}

#[test]
fn reopening_what_a_store_holds_gives_the_same_tasks() {
    let at = Timestamp::new(10, 0);
    let later = Timestamp::new(11, 0);
    let mut store = Store::new(Some("kept.json"));
    store.add_task_at("a".to_string(), at);
    store.add_task_at("b".to_string(), at);
    store.add_task_at("c".to_string(), at);
    store.mark_task_at(2, Status::Done, later);
    store.delete_task(3);
    let copies: Vec<Task> = store
        .tasks()
        .iter()
        .map(|t| {
            Task::from_parts(
                t.id(),
                t.description().clone(),
                *t.status(),
                t.created_at(),
                t.updated_at(),
            )
        })
        .collect();
    let (reopened, created) = Store::open(Some("kept.json"), Some(copies));
    assert!(!created);
    assert_eq!(reopened.tasks().len(), store.tasks().len());
    for (a, b) in reopened.tasks().iter().zip(store.tasks().iter()) {
        assert_eq!(a.id(), b.id());
        assert_eq!(a.description(), b.description());
        assert_eq!(a.status(), b.status());
        assert_eq!(a.created_at(), b.created_at());
        assert_eq!(a.updated_at(), b.updated_at());
    }
    assert_eq!(reopened.max_task_id(), 2);
    assert_eq!(store.max_task_id(), 3);
}

#[test]
fn location_is_the_path_given_or_the_default() {
    assert_eq!(Store::location(Some("a/b.json")), "a/b.json");
    assert_eq!(Store::location(None), "data/data.json");
}
