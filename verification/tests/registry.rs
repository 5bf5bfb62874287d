use harvest::database::{tell, Change, Event, MemDatabase, Message, Notice};
use harvest::event::EventHandler;
use std::sync::{Arc, Mutex};
use harvest::db;
use harvest::pod::{GetPod, Pod, State};

fn record(uuid: &str, ns: &str, pod: &str) -> Pod {
    Pod {
        uuid: uuid.to_string(),
        ns: ns.to_string(),
        pod: pod.to_string(),
        ..Default::default()
    }
}

fn three() -> MemDatabase {
    let mut reg = MemDatabase::new();
    reg.handle(&db::apply(&record("/a/0.log", "default", "web-0")));
    reg.handle(&db::apply(&record("/a/1.log", "default", "web-0")));
    reg.handle(&db::apply(&record("/b/0.log", "default", "db-0")));
    reg
}

#[test]
fn database_event_it_works() {
    assert_eq!(Event::Apply.as_ref(), "apply");
    assert_eq!(Event::Delete.as_ref(), "del");
}

#[test]
fn every_command_kind_has_its_name() {
    assert_eq!(Event::IncrOffset.as_ref(), "incr_offset");
    assert_eq!(Event::SetUpload.as_ref(), "set_upload");
    assert_eq!(Event::Close.as_ref(), "close");
    assert_eq!(Change::Add.as_ref(), "Add");
    assert_eq!(Change::Delete.as_ref(), "Delete");
    assert_eq!(Change::Update.as_ref(), "Update");
}

#[test]
fn default_record_is_blank_and_ready() {
    let p = Pod::default();
    assert_eq!(p.uuid, "");
    assert_eq!(p.offset, 0);
    assert_eq!(p.last_offset, 0);
    assert!(!p.is_upload);
    assert_eq!(p.state, State::Ready);
    assert!(p.ips.is_empty());
    assert!(p.is_ready());
    assert!(!p.is_running());
    assert!(!p.is_stop());
}

#[test]
fn record_setters_chain() {
    let mut p = Pod::default();
    p.upload().set_state_run();
    assert!(p.is_upload);
    assert!(p.is_running());
    p.un_upload().set_state_stop();
    assert!(!p.is_upload);
    assert!(p.is_stop());
    p.set_state_ready();
    assert!(p.is_ready());
    p.incr_offset(7).incr_offset(3);
    assert_eq!(p.offset, 10);
    assert_eq!(p.last_offset, 3);
    assert_eq!(GetPod::get(&p), Some(&p));
}

#[test]
fn merge_takes_upload_filter_and_output_only() {
    let mut stored = record("/a/0.log", "default", "web-0");
    stored.offset = 12;
    stored.container = "nginx".to_string();
    let mut other = record("/zzz", "other", "other");
    other.offset = 99;
    other.is_upload = true;
    other.filter = "f".to_string();
    other.output = "o".to_string();
    other.state = State::Stopped;
    stored.merge(&other);
    assert_eq!(stored.uuid, "/a/0.log");
    assert_eq!(stored.ns, "default");
    assert_eq!(stored.offset, 12);
    assert_eq!(stored.state, State::Ready);
    assert!(stored.is_upload);
    assert_eq!(stored.filter, "f");
    assert_eq!(stored.output, "o");
    let mut again = record("/a/0.log", "default", "web-0");
    again.merge_with(&other);
    assert_eq!(again.output, "o");
    assert!(stored.compare_ns_pod(&again));
    assert!(!stored.compare_ns_pod(&other));
}

#[test]
fn apply_inserts_then_merges() {
    let mut reg = MemDatabase::new();
    let r = record("/var/log/pods/default_web-0_u/nginx/0.log", "default", "web-0");
    let first = reg.handle(&db::apply(&r));
    assert!(first.running);
    assert_eq!(first.notices.len(), 1);
    assert_eq!(first.notices[0].change, Change::Add);
    assert_eq!(first.notices[0].pod, r);
    let second = reg.handle(&db::apply(&r));
    assert_eq!(second.notices.len(), 1);
    assert_eq!(second.notices[0].change, Change::Update);
    assert_eq!(reg.len(), 1);
    assert_eq!(db::get(&reg, &r.uuid).unwrap().state, State::Ready);
}

#[test]
fn a_new_record_starts_ready_whatever_it_says() {
    let mut reg = MemDatabase::new();
    let mut r = record("/a/0.log", "default", "web-0");
    r.state = State::Running;
    reg.handle(&db::apply(&r));
    assert_eq!(db::get(&reg, "/a/0.log").unwrap().state, State::Ready);
}

#[test]
fn apply_keeps_the_offset_of_a_known_record() {
    let mut reg = three();
    reg.handle(&db::incr_offset("/a/0.log", 4));
    let mut r = record("/a/0.log", "default", "web-0");
    r.offset = 0;
    r.is_upload = true;
    r.output = "fake_output".to_string();
    let out = reg.handle(&db::apply(&r));
    let got = db::get(&reg, "/a/0.log").unwrap();
    assert_eq!(got.offset, 4);
    assert!(got.is_upload);
    assert_eq!(got.output, "fake_output");
    assert_eq!(got.state, State::Running);
    assert_eq!(out.notices[0].pod, got);
}

#[test]
fn the_same_apply_twice_changes_nothing_more() {
    let mut reg = three();
    let mut r = record("/a/0.log", "default", "web-0");
    r.is_upload = true;
    r.filter = "x".to_string();
    let first = reg.handle(&db::apply(&r));
    let after_first = reg.all();
    let second = reg.handle(&db::apply(&r));
    assert_eq!(reg.all(), after_first);
    assert_eq!(first.notices.len(), 1);
    assert_eq!(second.notices.len(), 1);
    assert_eq!(first.notices[0].change, Change::Update);
    assert_eq!(second.notices[0].change, Change::Update);
    assert_eq!(first.notices[0].pod, second.notices[0].pod);
}

#[test]
fn a_record_without_key_or_with_negative_offset_is_ignored() {
    let mut reg = three();
    let before = reg.all();
    let out = reg.handle(&db::apply(&record("", "default", "web-0")));
    assert!(out.notices.is_empty());
    let mut r = record("/c/0.log", "default", "web-0");
    r.offset = -1;
    let out = reg.handle(&db::apply(&r));
    assert!(out.notices.is_empty());
    assert_eq!(reg.all(), before);
}

#[test]
fn delete_by_key() {
    let mut reg = three();
    let out = reg.handle(&db::delete("/a/1.log"));
    assert_eq!(out.notices.len(), 1);
    assert_eq!(out.notices[0].change, Change::Delete);
    assert_eq!(out.notices[0].pod.uuid, "/a/1.log");
    assert_eq!(reg.len(), 2);
    assert!(db::get(&reg, "/a/1.log").is_none());
    let out = reg.handle(&db::delete("/a/1.log"));
    assert!(out.notices.is_empty());
    assert_eq!(reg.len(), 2);
}

#[test]
fn delete_by_namespace_and_pod_needs_both_to_match() {
    let mut reg = three();
    reg.handle(&db::apply(&record("/c/0.log", "other", "web-0")));
    let out = reg.handle(&db::delete_with_ns_pod("default", "web-0"));
    assert_eq!(out.notices.len(), 2);
    assert_eq!(out.notices[0].pod.uuid, "/a/0.log");
    assert_eq!(out.notices[1].pod.uuid, "/a/1.log");
    assert_eq!(reg.len(), 2);
    assert!(db::get(&reg, "/b/0.log").is_some());
    assert!(db::get(&reg, "/c/0.log").is_some());
}

#[test]
fn offsets_add_up_and_never_fall() {
    let mut reg = three();
    let mut last = 0;
    for delta in [3i64, 0, 5, -2, 7] {
        let out = reg.handle(&db::incr_offset("/a/0.log", delta));
        assert!(out.notices.is_empty());
        let now = db::get(&reg, "/a/0.log").unwrap().offset;
        assert!(now >= last);
        last = now;
    }
    assert_eq!(last, 15);
    assert_eq!(db::get(&reg, "/a/0.log").unwrap().last_offset, 7);
    assert_eq!(db::get(&reg, "/a/1.log").unwrap().offset, 0);
}

#[test]
fn a_step_past_the_largest_offset_is_ignored() {
    let mut reg = three();
    reg.handle(&db::incr_offset("/a/0.log", i64::MAX - 1));
    reg.handle(&db::incr_offset("/a/0.log", 2));
    assert_eq!(db::get(&reg, "/a/0.log").unwrap().offset, i64::MAX - 1);
    reg.handle(&db::incr_offset("/a/0.log", 1));
    assert_eq!(db::get(&reg, "/a/0.log").unwrap().offset, i64::MAX);
}

#[test]
fn a_step_for_an_unknown_key_is_ignored() {
    let mut reg = three();
    let before = reg.all();
    reg.handle(&db::incr_offset("/nowhere", 5));
    assert_eq!(reg.all(), before);
}

#[test]
fn upload_start_and_stop_move_the_state() {
    let mut reg = three();
    let out = reg.handle(&db::pod_upload_start("default", "web-0"));
    assert_eq!(out.notices.len(), 2);
    assert!(out.notices.iter().all(|n| n.change == Change::Update && n.pod.is_upload));
    assert_eq!(db::get(&reg, "/a/0.log").unwrap().state, State::Running);
    assert_eq!(db::get(&reg, "/a/1.log").unwrap().state, State::Running);
    assert_eq!(db::get(&reg, "/b/0.log").unwrap().state, State::Ready);
    let out = reg.handle(&db::pod_upload_stop("default", "web-0"));
    assert_eq!(out.notices.len(), 2);
    assert_eq!(db::get(&reg, "/a/0.log").unwrap().state, State::Stopped);
    assert!(!db::get(&reg, "/a/0.log").unwrap().is_upload);
    let out = reg.handle(&db::pod_upload_stop("default", "db-0"));
    assert_eq!(out.notices.len(), 1);
    assert_eq!(db::get(&reg, "/b/0.log").unwrap().state, State::Ready);
    let mut r = record("/a/0.log", "default", "web-0");
    r.is_upload = true;
    reg.handle(&db::apply(&r));
    assert_eq!(db::get(&reg, "/a/0.log").unwrap().state, State::Running);
}

#[test]
fn close_ends_the_registry_and_changes_nothing() {
    let mut reg = three();
    let before = reg.all();
    let out = reg.handle(&db::close());
    assert!(!out.running);
    assert!(out.notices.is_empty());
    assert_eq!(reg.all(), before);
}

#[test]
fn slice_gives_the_records_of_a_pod_with_their_keys() {
    let reg = three();
    let got = db::get_slice_with_ns_pod(&reg, "default", "web-0");
    assert_eq!(got.len(), 2);
    assert_eq!(got[0].0, "/a/0.log");
    assert_eq!(got[0].1.uuid, "/a/0.log");
    assert_eq!(got[1].0, "/a/1.log");
    assert!(db::get_slice_with_ns_pod(&reg, "default", "nobody").is_empty());
    assert!(db::get_slice_with_ns_pod(&reg, "web-0", "default").is_empty());
}

#[test]
fn commands_carry_their_arguments() {
    let m = db::incr_offset("/a", 9);
    assert_eq!(m.event, Event::IncrOffset);
    assert_eq!(m.pod.uuid, "/a");
    assert_eq!(m.pod.last_offset, 9);
    let m = db::delete("/a");
    assert_eq!(m.event, Event::Delete);
    assert_eq!(m.pod.uuid, "/a");
    assert_eq!(m.pod.ns, "");
    let m = db::delete_with_ns_pod("n", "p");
    assert_eq!(m.event, Event::Delete);
    assert_eq!((m.pod.ns.as_str(), m.pod.pod.as_str()), ("n", "p"));
    let m = db::pod_upload_start("n", "p");
    assert_eq!(m.event, Event::SetUpload);
    assert!(m.pod.is_upload);
    let m = db::pod_upload_stop("n", "p");
    assert_eq!(m.event, Event::SetUpload);
    assert!(!m.pod.is_upload);
    let m: Message = db::close();
    assert_eq!(m.event, Event::Close);
    let r = record("/a", "n", "p");
    assert_eq!(db::apply(&r), Message { event: Event::Apply, pod: r.clone() });
    assert_eq!(m.clone(), m);
}

#[test]
fn changes_are_made_known_in_the_order_in_which_they_are_made() {
    let log = Arc::new(Mutex::new(Vec::<String>::new()));
    let mut events = EventHandler::<Notice>::new();
    for change in [Change::Add, Change::Update, Change::Delete, Change::Update] {
        let log = log.clone();
        events.registry(change.as_ref().to_owned(), move |n: Notice| {
            log.lock().unwrap().push(format!("{}:{}", n.change.as_ref(), n.pod.uuid));
        });
    }
    let mut reg = MemDatabase::new();
    let mut told = 0;
    for m in [
        db::apply(&record("/a/0.log", "default", "web-0")),
        db::apply(&record("/a/1.log", "default", "web-0")),
        db::incr_offset("/a/0.log", 3),
        db::pod_upload_start("default", "web-0"),
        db::delete_with_ns_pod("default", "web-0"),
    ] {
        told += tell(&events, &reg.handle(&m).notices);
    }
    assert_eq!(told, 2 + 4 + 2);
    assert_eq!(
        *log.lock().unwrap(),
        vec![
            "Add:/a/0.log",
            "Add:/a/1.log",
            "Update:/a/0.log",
            "Update:/a/0.log",
            "Update:/a/1.log",
            "Update:/a/1.log",
            "Delete:/a/0.log",
            "Delete:/a/1.log",
        ]
    );
}

#[test]
fn a_record_step_that_cannot_be_taken_changes_nothing() {
    let mut p = Pod { offset: 5, last_offset: 2, ..Default::default() };
    p.incr_offset(-1);
    assert_eq!((p.offset, p.last_offset), (5, 2));
    p.incr_offset(i64::MAX);
    assert_eq!((p.offset, p.last_offset), (5, 2));
    p.incr_offset(i64::MAX - 5);
    assert_eq!((p.offset, p.last_offset), (i64::MAX, i64::MAX - 5));
}
