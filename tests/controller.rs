use app_controller::controller::{read_workspace_apps, AppController};
use app_controller::entities::{
    AppRevision, FlowyError, FolderNotification, Notification, TrashEvent, TrashItem, TrashType,
    UpdateAppParams,
};
use app_controller::persistence::FolderPersistence;
use app_controller::trash::TrashController;

fn rev(id: &str, workspace_id: &str, name: &str) -> AppRevision {
    AppRevision {
        id: id.to_string(),
        workspace_id: workspace_id.to_string(),
        name: name.to_string(),
        desc: String::new(),
        color_style: String::new(),
        modified_time: 0,
        create_time: 0,
    }
}

fn controller() -> AppController {
    AppController::new(FolderPersistence::new(), TrashController::new(Vec::new()))
}

fn ids_of(n: &Notification) -> Vec<String> {
    n.items.iter().map(|a| a.id.clone()).collect()
}

fn app_items(ids: &[&str]) -> Vec<TrashItem> {
    ids.iter().map(|i| TrashItem { id: i.to_string(), ty: TrashType::TrashApp }).collect()
}

#[test]
fn create_happy_path() {
    let mut c = controller();
    let r = c.create_app_from_params(Ok(rev("a1", "W1", "A"))).unwrap();
    assert_eq!(r.id, "a1");
    assert_eq!(r.name, "A");
    let notes = c.take_notifications();
    assert_eq!(notes.len(), 1);
    assert_eq!(notes[0].key, "W1");
    assert_eq!(notes[0].ty, FolderNotification::DidUpdateWorkspaceApps);
    assert_eq!(ids_of(&notes[0]), vec!["a1".to_string()]);
    let row = c.read_app(&"a1".to_string()).unwrap().unwrap();
    assert_eq!(row.workspace_id, "W1");
    assert_eq!(row.name, "A");
}

#[test]
fn create_cloud_failure() {
    let mut c = controller();
    c.create_app_on_local(rev("a0", "W1", "Z")).unwrap();
    c.take_notifications();
    let r = c.create_app_from_params(Err(FlowyError::Network));
    assert_eq!(r.unwrap_err(), FlowyError::Network);
    assert!(c.take_notifications().is_empty());
    let all = c.read_local_apps(&vec!["a0".to_string()]).unwrap();
    assert_eq!(all.len(), 1);
    assert_eq!(c.read_app(&"a1".to_string()).unwrap_err(), FlowyError::RecordNotFound);
}

#[test]
fn create_without_token_is_unauthorized() {
    let mut c = controller();
    let r = c.create_app_from_params(Err(FlowyError::Unauthorized));
    assert_eq!(r.unwrap_err(), FlowyError::Unauthorized);
    assert!(c.take_notifications().is_empty());
}

#[test]
fn create_duplicate_id_is_refused() {
    let mut c = controller();
    c.create_app_on_local(rev("a1", "W1", "A")).unwrap();
    c.take_notifications();
    assert_eq!(c.create_app_on_local(rev("a1", "W2", "B")).unwrap_err(), FlowyError::Internal);
    assert!(c.take_notifications().is_empty());
    assert_eq!(c.read_app(&"a1".to_string()).unwrap().unwrap().workspace_id, "W1");
}

#[test]
fn update_local_first() {
    let mut c = controller();
    c.create_app_on_local(rev("a1", "W1", "A")).unwrap();
    c.take_notifications();
    let params = UpdateAppParams {
        id: "a1".to_string(),
        name: Some("B".to_string()),
        desc: None,
        color_style: None,
        is_trash: None,
    };
    c.update_app(&params).unwrap();
    let notes = c.take_notifications();
    assert_eq!(notes.len(), 1);
    assert_eq!(notes[0].ty, FolderNotification::DidUpdateApp);
    assert_eq!(notes[0].key, "a1");
    assert_eq!(notes[0].items[0].name, "B");
    assert_eq!(c.read_app(&"a1".to_string()).unwrap().unwrap().name, "B");
}

#[test]
fn update_missing_app_is_not_found() {
    let mut c = controller();
    let params = UpdateAppParams {
        id: "nope".to_string(),
        name: Some("B".to_string()),
        desc: None,
        color_style: None,
        is_trash: None,
    };
    assert_eq!(c.update_app(&params).unwrap_err(), FlowyError::RecordNotFound);
    assert!(c.take_notifications().is_empty());
}

#[test]
fn update_keeps_unset_fields() {
    let mut c = controller();
    let mut a = rev("a1", "W1", "A");
    a.desc = "d".to_string();
    c.create_app_on_local(a).unwrap();
    let params = UpdateAppParams {
        id: "a1".to_string(),
        name: None,
        desc: None,
        color_style: Some("red".to_string()),
        is_trash: Some(true),
    };
    c.update_app(&params).unwrap();
    let row = c.read_app(&"a1".to_string()).unwrap().unwrap();
    assert_eq!(row.name, "A");
    assert_eq!(row.desc, "d");
    assert_eq!(row.color_style, "red");
}

#[test]
fn trash_hides_app() {
    let mut c = controller();
    c.create_app_on_local(rev("a1", "W1", "A")).unwrap();
    c.create_app_on_local(rev("a2", "W1", "B")).unwrap();
    c.take_notifications();
    c.set_trash_ids(vec!["a1".to_string()]);
    let ack = c.receive_trash_event(&TrashEvent::NewTrash(app_items(&["a1"])));
    assert_eq!(ack, Some(Ok(())));
    let notes = c.take_notifications();
    assert_eq!(notes.len(), 1);
    assert_eq!(notes[0].key, "W1");
    assert_eq!(ids_of(&notes[0]), vec!["a2".to_string()]);
    assert!(c.read_app(&"a1".to_string()).unwrap().is_none());
    assert_eq!(c.read_local_apps(&vec!["a1".to_string()]).unwrap()[0].id, "a1");
}

#[test]
fn trash_delete_removes_apps() {
    let mut c = controller();
    c.create_app_on_local(rev("a1", "W1", "A")).unwrap();
    c.create_app_on_local(rev("a3", "W2", "C")).unwrap();
    c.take_notifications();
    c.set_trash_ids(vec!["a1".to_string(), "a3".to_string()]);
    let ack = c.receive_trash_event(&TrashEvent::Delete(app_items(&["a1", "a3"])));
    assert_eq!(ack, Some(Ok(())));
    assert_eq!(c.read_app(&"a1".to_string()).unwrap_err(), FlowyError::RecordNotFound);
    assert_eq!(c.read_app(&"a3".to_string()).unwrap_err(), FlowyError::RecordNotFound);
    let notes = c.take_notifications();
    assert_eq!(notes.len(), 2);
    assert_eq!(notes[0].key, "W1");
    assert_eq!(notes[1].key, "W2");
    assert!(notes[0].items.is_empty());
    assert!(notes[1].items.is_empty());
}

#[test]
fn trash_delete_with_missing_id_changes_nothing() {
    let mut c = controller();
    c.create_app_on_local(rev("a1", "W1", "A")).unwrap();
    c.take_notifications();
    let ack = c.receive_trash_event(&TrashEvent::Delete(app_items(&["a1", "zz"])));
    assert_eq!(ack, Some(Err(FlowyError::RecordNotFound)));
    assert!(c.take_notifications().is_empty());
    assert_eq!(c.read_app(&"a1".to_string()).unwrap().unwrap().id, "a1");
}

#[test]
fn trash_delete_with_repeated_id_fails() {
    let mut c = controller();
    c.create_app_on_local(rev("a1", "W1", "A")).unwrap();
    let ack = c.receive_trash_event(&TrashEvent::Delete(app_items(&["a1", "a1"])));
    assert_eq!(ack, Some(Err(FlowyError::RecordNotFound)));
    assert!(c.read_app(&"a1".to_string()).unwrap().is_some());
}

#[test]
fn putback_notifies_each_workspace_once() {
    let mut c = controller();
    c.create_app_on_local(rev("a1", "W1", "A")).unwrap();
    c.create_app_on_local(rev("a2", "W1", "B")).unwrap();
    c.create_app_on_local(rev("a3", "W2", "C")).unwrap();
    c.take_notifications();
    let ack = c.receive_trash_event(&TrashEvent::Putback(app_items(&["a1", "a3", "a2"])));
    assert_eq!(ack, Some(Ok(())));
    let notes = c.take_notifications();
    assert_eq!(notes.len(), 2);
    assert_eq!(notes[0].key, "W1");
    assert_eq!(ids_of(&notes[0]), vec!["a1".to_string(), "a2".to_string()]);
    assert_eq!(notes[1].key, "W2");
}

#[test]
fn event_without_app_items_gets_no_ack() {
    let mut c = controller();
    c.create_app_on_local(rev("a1", "W1", "A")).unwrap();
    c.take_notifications();
    let items = vec![TrashItem { id: "v1".to_string(), ty: TrashType::TrashView }];
    assert_eq!(c.receive_trash_event(&TrashEvent::Delete(items)), None);
    assert!(c.take_notifications().is_empty());
}

#[test]
fn event_items_of_other_kinds_are_ignored() {
    let mut c = controller();
    c.create_app_on_local(rev("a1", "W1", "A")).unwrap();
    c.take_notifications();
    let items = vec![
        TrashItem { id: "v1".to_string(), ty: TrashType::TrashView },
        TrashItem { id: "a1".to_string(), ty: TrashType::TrashApp },
    ];
    assert_eq!(c.receive_trash_event(&TrashEvent::Delete(items)), Some(Ok(())));
    assert!(c.read_app(&"a1".to_string()).is_err());
}

#[test]
fn move_to_same_position_is_noop() {
    let mut c = controller();
    for (i, n) in ["a0", "b0", "a1", "a2"].iter().enumerate() {
        let w = if n.starts_with('b') { "W2" } else { "W1" };
        c.create_app_on_local(rev(n, w, &format!("n{}", i))).unwrap();
    }
    c.take_notifications();
    c.move_app(&"a1".to_string(), 2, 2).unwrap();
    let notes = c.take_notifications();
    assert_eq!(notes.len(), 1);
    assert_eq!(notes[0].key, "W1");
    assert_eq!(ids_of(&notes[0]), vec!["a0".to_string(), "a1".to_string(), "a2".to_string()]);
}

#[test]
fn move_reorders_workspace() {
    let mut c = controller();
    c.create_app_on_local(rev("a0", "W1", "x")).unwrap();
    c.create_app_on_local(rev("b0", "W2", "x")).unwrap();
    c.create_app_on_local(rev("a1", "W1", "x")).unwrap();
    c.create_app_on_local(rev("a2", "W1", "x")).unwrap();
    c.take_notifications();
    c.move_app(&"a0".to_string(), 0, 2).unwrap();
    let notes = c.take_notifications();
    assert_eq!(ids_of(&notes[0]), vec!["a1".to_string(), "a2".to_string(), "a0".to_string()]);
    c.move_app(&"a0".to_string(), 2, 0).unwrap();
    let notes = c.take_notifications();
    assert_eq!(ids_of(&notes[0]), vec!["a0".to_string(), "a1".to_string(), "a2".to_string()]);
}

#[test]
fn move_out_of_range_fails() {
    let mut c = controller();
    c.create_app_on_local(rev("a0", "W1", "x")).unwrap();
    c.take_notifications();
    assert_eq!(c.move_app(&"a0".to_string(), 0, 1).unwrap_err(), FlowyError::Internal);
    assert_eq!(c.move_app(&"zz".to_string(), 0, 0).unwrap_err(), FlowyError::RecordNotFound);
    assert!(c.take_notifications().is_empty());
}

#[test]
fn read_local_apps_fails_on_missing_id() {
    let mut c = controller();
    c.create_app_on_local(rev("a0", "W1", "x")).unwrap();
    c.create_app_on_local(rev("a1", "W1", "y")).unwrap();
    let got = c.read_local_apps(&vec!["a1".to_string(), "a0".to_string()]).unwrap();
    assert_eq!(got[0].name, "y");
    assert_eq!(got[1].name, "x");
    let r = c.read_local_apps(&vec!["a1".to_string(), "zz".to_string()]);
    assert_eq!(r.unwrap_err(), FlowyError::RecordNotFound);
}

#[test]
fn read_workspace_apps_filters_trash() {
    let mut store = FolderPersistence::new();
    store.create_app(rev("a0", "W1", "x")).unwrap();
    store.create_app(rev("b0", "W2", "x")).unwrap();
    store.create_app(rev("a1", "W1", "x")).unwrap();
    let trash = TrashController::new(vec!["a0".to_string()]);
    let got = read_workspace_apps(&"W1".to_string(), &trash, &store).unwrap();
    assert_eq!(got.len(), 1);
    assert_eq!(got[0].id, "a1");
}

#[test]
fn initialize_is_idempotent() {
    let mut c = controller();
    assert!(!c.is_listening());
    assert!(c.initialize().is_ok());
    assert!(c.initialize().is_ok());
    assert!(c.is_listening());
}
