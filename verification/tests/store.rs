use flexo_assistant::{Client, ClientData, Config, ErrorKind, Store, Todo};

fn fresh_store() -> Store {
    let conn = rusqlite::Connection::open_in_memory().unwrap();
    Store::new(conn).unwrap()
}

fn data(machine: Option<&str>, width: Option<&str>) -> ClientData {
    ClientData {
        machine: machine.map(|s| s.to_string()),
        width: width.map(|s| s.to_string()),
        gears: None,
        pitch: None,
        girth: None,
        count: None,
        thickness: None,
        distortion_rate: None,
        trimmer: None,
        note: None,
    }
}

fn todo(date: u64, content: &str, finished: bool) -> Todo {
    Todo {
        id: 0,
        date,
        content: content.to_string(),
        finished,
        top: false,
        top_time: 0,
        note: false,
    }
}

#[test]
fn init_twice_keeps_one_config() {
    let mut store = fresh_store();
    store.init().unwrap();
    let first = store.get_config().unwrap();
    store.init().unwrap();
    let second = store.get_config().unwrap();
    assert_eq!(first.id, second.id);
    assert_eq!(first.theme, second.theme);
    assert_eq!(first.precision, second.precision);
    assert_eq!(first.k_map, second.k_map);
    assert_eq!(first.app_tab, second.app_tab);
    assert_eq!(first.distortion_rate_tab, second.distortion_rate_tab);
    assert_eq!(first.todo_tab, second.todo_tab);
}

#[test]
fn defaults_after_init() {
    let mut store = fresh_store();
    store.init().unwrap();
    let c = store.get_config().unwrap();
    assert_eq!(c.theme, false);
    assert_eq!(c.precision, 4);
    assert_eq!(c.k_map, "");
    assert_eq!(c.app_tab, "distortionRate");
    assert_eq!(c.distortion_rate_tab, "通用");
    assert_eq!(c.todo_tab, "全部");
}

#[test]
fn get_config_without_init_is_not_found() {
    let store = fresh_store();
    let err = store.get_config().unwrap_err();
    assert!(err.kind() == ErrorKind::NotFound);
}

#[test]
fn update_config_replaces_row() {
    let mut store = fresh_store();
    store.init().unwrap();
    let c = Config {
        id: 1,
        theme: true,
        precision: 2,
        k_map: "k=1.5".to_string(),
        app_tab: "todo".to_string(),
        distortion_rate_tab: "special".to_string(),
        todo_tab: "done".to_string(),
    };
    store.update_config(c).unwrap();
    let got = store.get_config().unwrap();
    assert_eq!(got.theme, true);
    assert_eq!(got.precision, 2);
    assert_eq!(got.k_map, "k=1.5");
    assert_eq!(got.app_tab, "todo");
}

#[test]
fn config_update_last_write_wins() {
    let mut store = fresh_store();
    store.init().unwrap();
    let a = Config {
        id: 1,
        theme: true,
        precision: 7,
        k_map: "first".to_string(),
        app_tab: "a".to_string(),
        distortion_rate_tab: "a".to_string(),
        todo_tab: "a".to_string(),
    };
    let b = Config {
        id: 1,
        theme: false,
        precision: 3,
        k_map: "second".to_string(),
        app_tab: "b".to_string(),
        distortion_rate_tab: "b".to_string(),
        todo_tab: "b".to_string(),
    };
    store.update_config(a).unwrap();
    store.update_config(b).unwrap();
    let got = store.get_config().unwrap();
    assert_eq!(got.theme, false);
    assert_eq!(got.precision, 3);
    assert_eq!(got.k_map, "second");
    assert_eq!(got.app_tab, "b");
    assert_eq!(got.distortion_rate_tab, "b");
    assert_eq!(got.todo_tab, "b");
}

#[test]
fn add_client_duplicate_is_conflict() {
    let mut store = fresh_store();
    store.init().unwrap();
    let c1 = Client {
        id: 0,
        name: "Acme".to_string(),
        trimmer_data: Some(vec![data(Some("M1"), None)]),
        fixed_data: None,
    };
    store.add_client(c1).unwrap();
    let c2 = Client {
        id: 0,
        name: "Acme".to_string(),
        trimmer_data: None,
        fixed_data: None,
    };
    let err = store.add_client(c2).unwrap_err();
    assert!(err.kind() == ErrorKind::Conflict);
    let list = store.get_clients().unwrap();
    assert_eq!(list.len(), 1);
    let trimmer = list[0].trimmer_data.as_ref().unwrap();
    assert_eq!(trimmer.len(), 1);
    assert_eq!(trimmer[0].machine.as_deref(), Some("M1"));
}

#[test]
fn client_data_round_trip() {
    let mut store = fresh_store();
    store.init().unwrap();
    let c = Client {
        id: 0,
        name: "Acme".to_string(),
        trimmer_data: Some(vec![data(Some("M1"), Some("800"))]),
        fixed_data: None,
    };
    store.add_client(c).unwrap();
    let list = store.get_clients().unwrap();
    assert_eq!(list.len(), 1);
    assert_eq!(list[0].name, "Acme");
    let trimmer = list[0].trimmer_data.as_ref().unwrap();
    assert_eq!(trimmer.len(), 1);
    assert_eq!(trimmer[0].machine.as_deref(), Some("M1"));
    assert_eq!(trimmer[0].width.as_deref(), Some("800"));
    assert!(trimmer[0].gears.is_none());
    assert!(trimmer[0].pitch.is_none());
    assert!(trimmer[0].girth.is_none());
    assert!(trimmer[0].count.is_none());
    assert!(trimmer[0].thickness.is_none());
    assert!(trimmer[0].distortion_rate.is_none());
    assert!(trimmer[0].trimmer.is_none());
    assert!(trimmer[0].note.is_none());
    // an absent list reads back as an empty one, as a lenient read gives
    assert_eq!(list[0].fixed_data.as_ref().unwrap().len(), 0);
}

#[test]
fn update_client_fixed_only_changes_fixed() {
    let mut store = fresh_store();
    store.init().unwrap();
    let c = Client {
        id: 0,
        name: "Acme".to_string(),
        trimmer_data: Some(vec![data(Some("M1"), Some("800"))]),
        fixed_data: Some(vec![data(Some("M2"), None)]),
    };
    store.add_client(c).unwrap();
    store
        .update_client("Acme".to_string(), vec![data(Some("M9"), Some("1200"))], true)
        .unwrap();
    let list = store.get_clients().unwrap();
    assert_eq!(list.len(), 1);
    let trimmer = list[0].trimmer_data.as_ref().unwrap();
    assert_eq!(trimmer.len(), 1);
    assert_eq!(trimmer[0].machine.as_deref(), Some("M1"));
    assert_eq!(trimmer[0].width.as_deref(), Some("800"));
    let fixed = list[0].fixed_data.as_ref().unwrap();
    assert_eq!(fixed.len(), 1);
    assert_eq!(fixed[0].machine.as_deref(), Some("M9"));
    assert_eq!(fixed[0].width.as_deref(), Some("1200"));
}

#[test]
fn update_client_unknown_name_is_not_found() {
    let mut store = fresh_store();
    store.init().unwrap();
    let err = store
        .update_client("Nobody".to_string(), vec![], false)
        .unwrap_err();
    assert!(err.kind() == ErrorKind::NotFound);
}

#[test]
fn remove_client_deletes_by_name() {
    let mut store = fresh_store();
    store.init().unwrap();
    let c = Client {
        id: 0,
        name: "Acme".to_string(),
        trimmer_data: None,
        fixed_data: None,
    };
    store.add_client(c).unwrap();
    store.remove_client("Acme".to_string()).unwrap();
    assert_eq!(store.get_clients().unwrap().len(), 0);
}

#[test]
fn remove_client_unknown_name_is_silent() {
    let mut store = fresh_store();
    store.init().unwrap();
    store.remove_client("Nobody".to_string()).unwrap();
    assert_eq!(store.get_clients().unwrap().len(), 0);
}

#[test]
fn remove_finished_leaves_unfinished() {
    let mut store = fresh_store();
    store.init().unwrap();
    store.add_todo(todo(1, "done early", true)).unwrap();
    store.add_todo(todo(2, "still open", false)).unwrap();
    store.add_todo(todo(3, "done late", true)).unwrap();
    store.remove_finished_todo().unwrap();
    let rest = store.get_todo().unwrap();
    assert_eq!(rest.len(), 1);
    assert_eq!(rest[0].date, 2);
    assert_eq!(rest[0].content, "still open");
    assert!(!rest[0].finished);
}

#[test]
fn update_todo_by_date_replaces_content() {
    let mut store = fresh_store();
    store.init().unwrap();
    store.add_todo(todo(42, "old words", false)).unwrap();
    let mut update = todo(42, "new words", true);
    update.top = true;
    update.top_time = 7;
    store.update_todo(update).unwrap();
    let all = store.get_todo().unwrap();
    let at_date: Vec<&Todo> = all.iter().filter(|t| t.date == 42).collect();
    assert_eq!(at_date.len(), 1);
    assert_eq!(at_date[0].content, "new words");
    assert!(at_date[0].finished);
    assert!(at_date[0].top);
    assert_eq!(at_date[0].top_time, 7);
}

#[test]
fn update_todo_unknown_date_is_not_found() {
    let mut store = fresh_store();
    store.init().unwrap();
    let err = store.update_todo(todo(99, "none", false)).unwrap_err();
    assert!(err.kind() == ErrorKind::NotFound);
}

#[test]
fn remove_todo_deletes_by_date() {
    let mut store = fresh_store();
    store.init().unwrap();
    store.add_todo(todo(5, "a", false)).unwrap();
    store.add_todo(todo(6, "b", false)).unwrap();
    store.remove_todo(5).unwrap();
    let rest = store.get_todo().unwrap();
    assert_eq!(rest.len(), 1);
    assert_eq!(rest[0].date, 6);
}

#[test]
fn remove_todo_unknown_date_is_not_found() {
    let mut store = fresh_store();
    store.init().unwrap();
    let err = store.remove_todo(12345).unwrap_err();
    assert!(err.kind() == ErrorKind::NotFound);
}

#[test]
fn malformed_stored_column_degrades_to_empty_row_kept() {
    let conn = rusqlite::Connection::open_in_memory().unwrap();
    conn.execute(
        "CREATE TABLE client (id INTEGER PRIMARY KEY, name TEXT NOT NULL UNIQUE, trimmer_data TEXT, fixed_data TEXT)",
        (),
    )
    .unwrap();
    conn.execute(
        "INSERT INTO client (name, trimmer_data, fixed_data) VALUES ('Acme', 'not a list', '[]')",
        (),
    )
    .unwrap();
    let store = Store::new(conn).unwrap();
    let list = store.get_clients().unwrap();
    assert_eq!(list.len(), 1);
    assert_eq!(list[0].name, "Acme");
    assert_eq!(list[0].trimmer_data.as_ref().unwrap().len(), 0);
    assert_eq!(list[0].fixed_data.as_ref().unwrap().len(), 0);
}

#[test]
fn unreadable_schema_is_storage_error() {
    let conn = rusqlite::Connection::open_in_memory().unwrap();
    conn.execute("CREATE TABLE config (id INTEGER PRIMARY KEY)", ())
        .unwrap();
    let err = match Store::new(conn) {
        Ok(_) => panic!("a config table without its columns must be refused"),
        Err(e) => e,
    };
    assert!(err.kind() == ErrorKind::Storage);
}
