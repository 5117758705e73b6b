use flexo_assistant::{Client, ClientData, Store, Todo};

const DB_PATH: &str = "/tmp/flexo_assistant_persistence_test.db";

fn wipe() {
    let conn = rusqlite::Connection::open(DB_PATH).unwrap();
    conn.execute("DROP TABLE IF EXISTS config", ()).unwrap();
    conn.execute("DROP TABLE IF EXISTS client", ()).unwrap();
    conn.execute("DROP TABLE IF EXISTS todo", ()).unwrap();
}

#[test]
fn data_survives_reopen() {
    wipe();
    {
        let conn = rusqlite::Connection::open(DB_PATH).unwrap();
        let mut store = Store::new(conn).unwrap();
        store.init().unwrap();
        let c = Client {
            id: 0,
            name: "Acme".to_string(),
            trimmer_data: Some(vec![ClientData {
                machine: Some("M1".to_string()),
                width: Some("800".to_string()),
                gears: None,
                pitch: None,
                girth: None,
                count: None,
                thickness: None,
                distortion_rate: None,
                trimmer: None,
                note: None,
            }]),
            fixed_data: None,
        };
        store.add_client(c).unwrap();
        store
            .add_todo(Todo {
                id: 0,
                date: 7,
                content: "persisted".to_string(),
                finished: false,
                top: true,
                top_time: 3,
                note: false,
            })
            .unwrap();
    }
    {
        let conn = rusqlite::Connection::open(DB_PATH).unwrap();
        let store = Store::new(conn).unwrap();
        let config = store.get_config().unwrap();
        assert_eq!(config.app_tab, "distortionRate");
        let clients = store.get_clients().unwrap();
        assert_eq!(clients.len(), 1);
        assert_eq!(clients[0].name, "Acme");
        let trimmer = clients[0].trimmer_data.as_ref().unwrap();
        assert_eq!(trimmer.len(), 1);
        assert_eq!(trimmer[0].machine.as_deref(), Some("M1"));
        assert_eq!(trimmer[0].width.as_deref(), Some("800"));
        assert!(trimmer[0].gears.is_none());
        let todos = store.get_todo().unwrap();
        assert_eq!(todos.len(), 1);
        assert_eq!(todos[0].date, 7);
        assert_eq!(todos[0].content, "persisted");
        assert!(todos[0].top);
        assert_eq!(todos[0].top_time, 3);
    }
}
