use harvest::event::{EventHandler, Listener};
use harvest::store::{Database, Row};
use std::sync::{Arc, Mutex};

#[test]
fn it_works() {
    let (tx, rx) = std::sync::mpsc::sync_channel(1);

    let tx1 = tx.clone();

    let mut event_handler = EventHandler::<String>::new();

    event_handler.registry("pod_name_update".to_owned(), move |s: String| {
        tx.send(s).unwrap();
    });

    event_handler.registry("pod_name_update2".to_owned(), move |s: String| {
        tx1.send(s).unwrap();
    });

    event_handler.event("pod_name_update".to_owned(), "abc".to_owned());
    assert_eq!(rx.recv().unwrap(), "abc");

    event_handler.event("pod_name_update2".to_owned(), "cde".to_owned());
    assert_eq!(rx.recv().unwrap(), "cde");
}

struct Quiet;

impl Listener<String> for Quiet {
    fn handle(&self, _t: String) {}
}

#[test]
fn a_listener_of_ones_own_is_told() {
    let mut event_handler = EventHandler::<String>::new();
    event_handler.append("x".to_owned(), Quiet);
    assert_eq!(event_handler.event("x".to_owned(), "abc".to_owned()), 1);
    assert_eq!(event_handler.event("y".to_owned(), "abc".to_owned()), 0);
}

#[test]
fn listeners_are_told_in_the_order_of_registration_and_never_merged() {
    let log = Arc::new(Mutex::new(Vec::<String>::new()));
    let mut h = EventHandler::<String>::new();
    for tag in ["first", "second", "third"] {
        let log = log.clone();
        h.subscribe("Add".to_owned(), move |s: String| {
            log.lock().unwrap().push(format!("{}:{}", tag, s));
        });
    }
    let other = log.clone();
    h.subscribe("Delete".to_owned(), move |s: String| {
        other.lock().unwrap().push(format!("delete:{}", s));
    });
    let twice = log.clone();
    let again = move |s: String| {
        twice.lock().unwrap().push(format!("twice:{}", s));
    };
    h.registry("Twice".to_owned(), again.clone());
    h.registry("Twice".to_owned(), again);
    assert_eq!(h.publish("Add".to_owned(), "x".to_owned()), 3);
    assert_eq!(h.publish("Twice".to_owned(), "y".to_owned()), 2);
    assert_eq!(h.publish("Nobody".to_owned(), "z".to_owned()), 0);
    assert_eq!(
        *log.lock().unwrap(),
        vec!["first:x", "second:x", "third:x", "twice:y", "twice:y"]
    );
}

fn row(uuid: &str, offset: usize) -> Row {
    Row {
        uuid: uuid.to_owned(),
        offset,
        inode: 1,
        namespace: "default".to_owned(),
        pod: "web-0".to_owned(),
        container: "nginx".to_owned(),
    }
}

#[test]
fn the_table_tells_of_rows_and_keeps_them() {
    let log = Arc::new(Mutex::new(Vec::<String>::new()));
    let mut h = EventHandler::<Row>::new();
    for name in ["Add", "Delete", "Update"] {
        let log = log.clone();
        h.subscribe(name.to_owned(), move |r: Row| {
            log.lock().unwrap().push(format!("{}:{}:{}", name, r.uuid, r.offset));
        });
    }
    let mut table = Database::new(h);
    assert!(table.add_row("/a".to_owned(), row("/a", 0)).is_ok());
    assert!(table.add_row("/b".to_owned(), row("/b", 0)).is_ok());
    assert!(table.update_row("/a".to_owned(), row("/a", 5)).is_ok());
    assert_eq!(table.get_by_uuid("/a".to_owned()).unwrap().offset, 5);
    assert!(table.get_by_uuid("/c".to_owned()).is_none());
    assert_eq!(table.all().unwrap(), vec![row("/a", 5), row("/b", 0)]);
    assert!(table.delete_row("/a".to_owned()).is_ok());
    assert!(table.delete_row("/a".to_owned()).is_ok());
    assert_eq!(table.all().unwrap(), vec![row("/b", 0)]);
    assert_eq!(
        *log.lock().unwrap(),
        vec!["Add:/a:0", "Add:/b:0", "Update:/a:5", "Delete:/a:5"]
    );
}
