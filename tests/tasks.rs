use task_auth::status::Status;
use task_auth::tasks::{
    FieldUpdate, RequstTask, TaskPatch, TaskQueryParams, TaskTable, Timestamp, UpdateTask,
};

fn task(title: &str, priority: Option<&str>) -> RequstTask {
    RequstTask {
        title: title.to_string(),
        priority: priority.map(|p| p.to_string()),
        description: None,
    }
}

fn empty_patch() -> TaskPatch {
    TaskPatch {
        priority: FieldUpdate::Absent,
        title: FieldUpdate::Absent,
        completed_at: FieldUpdate::Absent,
        description: FieldUpdate::Absent,
        deleted_at: FieldUpdate::Absent,
        user_id: FieldUpdate::Absent,
        is_default: FieldUpdate::Absent,
    }
}

fn at(seconds: i64) -> Timestamp {
    Timestamp { seconds, nanos: 0, offset: 0 }
}

fn query(p: Option<&str>) -> TaskQueryParams {
    TaskQueryParams { priority: p.map(|s| s.to_string()) }
}

#[test]
fn null_priority_clears_it() {
    let mut t = TaskTable::new();
    let id = t.create_task(task("t", Some("high"))).unwrap();
    let mut p = empty_patch();
    p.priority = FieldUpdate::Null;
    assert_eq!(t.partial_update_task(id, p), Ok(()));
    let got = t.get_task(id).unwrap();
    assert_eq!(got.priority, None);
    assert_eq!(got.title, "t");
}

#[test]
fn empty_priority_filter_selects_absent() {
    let mut t = TaskTable::new();
    let a = t.create_task(task("a", None)).unwrap();
    t.create_task(task("b", Some("low"))).unwrap();
    let c = t.create_task(task("c", None)).unwrap();
    let got = t.get_tasks(&query(Some("")));
    let ids: Vec<i32> = got.iter().map(|r| r.id).collect();
    assert_eq!(ids, vec![a, c]);
}

#[test]
fn priority_filter_exact_and_absent() {
    let mut t = TaskTable::new();
    t.create_task(task("a", None)).unwrap();
    let b = t.create_task(task("b", Some("low"))).unwrap();
    t.create_task(task("c", Some("lowest"))).unwrap();
    let ids: Vec<i32> = t.get_tasks(&query(Some("low"))).iter().map(|r| r.id).collect();
    assert_eq!(ids, vec![b]);
    assert_eq!(t.get_tasks(&query(None)).len(), 3);
}

#[test]
fn soft_deleted_task_is_never_read() {
    let mut t = TaskTable::new();
    let a = t.create_task(task("a", None)).unwrap();
    let b = t.create_task(task("b", None)).unwrap();
    assert_eq!(t.soft_delete_task_at(a, at(100)), Ok(()));
    assert_eq!(t.get_task(a).err(), Some(Status::NotFound));
    let ids: Vec<i32> = t.get_tasks(&query(None)).iter().map(|r| r.id).collect();
    assert_eq!(ids, vec![b]);
    assert!(t.get_tasks(&query(Some(""))).iter().all(|r| r.id != a));
}

#[test]
fn soft_delete_twice_updates_timestamp() {
    let mut t = TaskTable::new();
    let a = t.create_task(task("a", Some("p"))).unwrap();
    assert_eq!(t.soft_delete_task_at(a, at(100)), Ok(()));
    assert_eq!(t.soft_delete_task_at(a, at(200)), Ok(()));
    let row = &t.rows()[0];
    assert_eq!(row.deleted_at, Some(at(200)));
    assert_eq!(row.title, "a");
    assert_eq!(row.priority.as_deref(), Some("p"));
}

#[test]
fn soft_delete_uses_current_time() {
    let mut t = TaskTable::new();
    let a = t.create_task(task("a", None)).unwrap();
    assert_eq!(t.soft_delete_task(a), Ok(()));
    let stamp = t.rows()[0].deleted_at.unwrap();
    assert!(stamp.seconds > 1_600_000_000);
    assert_eq!(stamp.offset, 0);
    assert_eq!(t.soft_delete_task(42), Err(Status::NotFound));
}

#[test]
fn absent_fields_keep_values() {
    let mut t = TaskTable::new();
    let id = t.create_task(RequstTask {
        title: "t".to_string(),
        priority: Some("high".to_string()),
        description: Some("d".to_string()),
    })
    .unwrap();
    assert_eq!(t.partial_update_task(id, empty_patch()), Ok(()));
    let row = &t.rows()[0];
    assert_eq!(row.title, "t");
    assert_eq!(row.priority.as_deref(), Some("high"));
    assert_eq!(row.description.as_deref(), Some("d"));
}

#[test]
fn each_field_set_and_cleared() {
    let mut t = TaskTable::new();
    let id = t.create_task(task("t", None)).unwrap();
    let p = TaskPatch {
        priority: FieldUpdate::Value("p".to_string()),
        title: FieldUpdate::Value("t2".to_string()),
        completed_at: FieldUpdate::Value(at(5)),
        description: FieldUpdate::Value("d".to_string()),
        deleted_at: FieldUpdate::Value(at(6)),
        user_id: FieldUpdate::Value(7),
        is_default: FieldUpdate::Value(true),
    };
    assert_eq!(t.partial_update_task(id, p), Ok(()));
    {
        let row = &t.rows()[0];
        assert_eq!(row.title, "t2");
        assert_eq!(row.priority.as_deref(), Some("p"));
        assert_eq!(row.description.as_deref(), Some("d"));
        assert_eq!(row.completed_at, Some(at(5)));
        assert_eq!(row.deleted_at, Some(at(6)));
        assert_eq!(row.user_id, Some(7));
        assert_eq!(row.is_default, Some(true));
    }
    let q = TaskPatch {
        priority: FieldUpdate::Null,
        title: FieldUpdate::Absent,
        completed_at: FieldUpdate::Null,
        description: FieldUpdate::Null,
        deleted_at: FieldUpdate::Null,
        user_id: FieldUpdate::Null,
        is_default: FieldUpdate::Null,
    };
    assert_eq!(t.partial_update_task(id, q), Ok(()));
    let row = &t.rows()[0];
    assert_eq!(row.title, "t2");
    assert_eq!(row.priority, None);
    assert_eq!(row.description, None);
    assert_eq!(row.completed_at, None);
    assert_eq!(row.deleted_at, None);
    assert_eq!(row.user_id, None);
    assert_eq!(row.is_default, None);
}

#[test]
fn null_title_keeps_title() {
    let mut t = TaskTable::new();
    let id = t.create_task(task("t", None)).unwrap();
    let mut p = empty_patch();
    p.title = FieldUpdate::Null;
    p.priority = FieldUpdate::Value("x".to_string());
    assert_eq!(t.partial_update_task(id, p), Ok(()));
    let row = &t.rows()[0];
    assert_eq!(row.title, "t");
    assert_eq!(row.priority.as_deref(), Some("x"));
}

#[test]
fn partial_update_unknown_id_not_found() {
    let mut t = TaskTable::new();
    assert_eq!(t.partial_update_task(3, empty_patch()), Err(Status::NotFound));
}

#[test]
fn atomic_update_clears_omitted_fields() {
    let mut t = TaskTable::new();
    let id = t.create_task(RequstTask {
        title: "t".to_string(),
        priority: Some("high".to_string()),
        description: Some("d".to_string()),
    })
    .unwrap();
    let u = UpdateTask {
        id: Some(999),
        priority: None,
        title: "new".to_string(),
        completed_at: Some(at(9)),
        description: None,
        deleted_at: None,
        user_id: Some(3),
        is_default: None,
    };
    assert_eq!(t.update_task_atomic(id, u), Ok(()));
    let row = &t.rows()[0];
    assert_eq!(row.id, id);
    assert_eq!(row.title, "new");
    assert_eq!(row.priority, None);
    assert_eq!(row.description, None);
    assert_eq!(row.completed_at, Some(at(9)));
    assert_eq!(row.user_id, Some(3));
}

#[test]
fn atomic_update_unknown_id_not_found() {
    let mut t = TaskTable::new();
    let u = UpdateTask {
        id: None,
        priority: None,
        title: "x".to_string(),
        completed_at: None,
        description: None,
        deleted_at: None,
        user_id: None,
        is_default: None,
    };
    assert_eq!(t.update_task_atomic(1, u), Err(Status::NotFound));
}

#[test]
fn hard_delete_removes_row() {
    let mut t = TaskTable::new();
    let a = t.create_task(task("a", None)).unwrap();
    let b = t.create_task(task("b", None)).unwrap();
    t.soft_delete_task_at(b, at(1)).unwrap();
    assert_eq!(t.delete_task(b), 1);
    assert_eq!(t.delete_task(b), 0);
    assert_eq!(t.len(), 1);
    assert_eq!(t.get_task(a).unwrap().title, "a");
}

#[test]
fn created_task_fields_start_absent() {
    let mut t = TaskTable::new();
    let id = t.create_task(task("a", None)).unwrap();
    assert_eq!(id, 1);
    let row = &t.rows()[0];
    assert_eq!(row.completed_at, None);
    assert_eq!(row.deleted_at, None);
    assert_eq!(row.user_id, None);
    assert_eq!(row.is_default, None);
    assert_eq!(t.get_task(2).err(), Some(Status::NotFound));
}

#[test]
fn ids_keep_counting_after_changes() {
    let mut t = TaskTable::new();
    let a = t.create_task(task("a", None)).unwrap();
    t.soft_delete_task_at(a, at(1)).unwrap();
    t.partial_update_task(a, empty_patch()).unwrap();
    assert_eq!(t.delete_task(a), 1);
    let b = t.create_task(task("b", None)).unwrap();
    let c = t.create_task(task("c", None)).unwrap();
    assert_eq!((a, b, c), (1, 2, 3));
}
