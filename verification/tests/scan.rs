use harvest::event::Listener;
use harvest::pod::{Pod, State};
use harvest::scan::{
    events_for, AutoScanner, GetDebug, GetPathEventInfo, PathEvent, PathEventInfo, RawOp,
};
use harvest::scan::PathEvent::{NeedClose, NeedOpen, NeedWrite};
use std::sync::{Arc, Mutex};

const NONE: RawOp = RawOp {
    chmod: false,
    close_write: false,
    create: false,
    remove: false,
    rename: false,
    rescan: false,
    write: false,
};

const PATH: &str = "/var/log/pods/default_web-0_uuid1/nginx/0.log";

fn parse(path: &str) -> Option<PathEventInfo> {
    AutoScanner::parse_path_to_pei("default", "/var/log/pods", path)
}

#[test]
fn lib_event_it_works() {
    assert_eq!(PathEvent::NeedClose.as_ref(), "NeedClose");
    assert_eq!(PathEvent::NeedOpen.as_ref(), "NeedOpen");
    assert_eq!(PathEvent::NeedWrite.as_ref(), "NeedWrite");
}

struct ListenerImpl;

impl<T> Listener<T> for ListenerImpl
where
    T: Clone + GetDebug,
{
    fn handle(&self, t: T) {
        let _ = t.get_debug();
    }
}

#[test]
fn scan_it_works() {
    let mut auto_scanner = AutoScanner::new("".into(), ".".into());
    auto_scanner.append_close_event_handle(ListenerImpl);
}

#[test]
fn a_pod_log_path_spells_out_its_identity() {
    let pei = parse(PATH).unwrap();
    assert_eq!(pei.namespace, "default");
    assert_eq!(pei.pod, "web-0");
    assert_eq!(pei.container, "nginx");
    assert_eq!(pei.path, PATH);
    assert_eq!(pei.get().path, PATH);
    assert!(pei.get_debug().contains("web-0"));
    assert_eq!(
        pei.get_debug(),
        "PathEventInfo { namespace: \"default\", pod: \"web-0\", container: \"nginx\", \
         path: \"/var/log/pods/default_web-0_uuid1/nginx/0.log\" }"
    );
    assert_eq!(pei.get_debug(), format!("{:?}", pei));
}

#[test]
fn the_key_of_the_record_is_the_path() {
    let pod = parse(PATH).unwrap().to_pod();
    assert_eq!(
        pod,
        Pod {
            uuid: PATH.to_owned(),
            ns: "default".to_owned(),
            pod: "web-0".to_owned(),
            container: "nginx".to_owned(),
            offset: 0,
            is_upload: false,
            state: State::Ready,
            ..Default::default()
        }
    );
}

#[test]
fn more_underscores_are_taken_as_part_of_the_rest() {
    let pei = parse("/var/log/pods/default_mysql-apollo-slave-0_49d0b6e1_x_y/mysql/4.log").unwrap();
    assert_eq!(pei.pod, "mysql-apollo-slave-0");
    assert_eq!(pei.container, "mysql");
}

#[test]
fn what_is_no_pod_log_path_spells_out_nothing() {
    assert!(parse("/var/log/pods/default_web-0_uuid1/nginx/README.txt").is_none());
    assert!(parse("/var/log/pods/default_web-0_uuid1/nginx/0.log.gz").is_none());
    assert!(parse("/var/log/other/default_web-0_uuid1/nginx/0.log").is_none());
    assert!(parse("/var/log/pods/kube-system_web-0_uuid1/nginx/0.log").is_none());
    assert!(parse("/var/log/pods/default_web-0/nginx/0.log").is_none());
    assert!(parse("/var/log/pods/default/nginx/0.log").is_none());
    assert!(parse("/var/log/pods/default_web-0_uuid1/0.log").is_none());
    assert!(parse("/var/log/pods/default_web-0_uuid1/nginx/old/0.log").is_none());
    assert!(parse("/var/log/pods/0.log").is_none());
    assert!(parse("/var/log/pods").is_none());
    assert!(parse("/var/log/podsdefault_web-0_uuid1/nginx/0.log").is_none());
    assert!(parse("").is_none());
    assert!(AutoScanner::parse_path_to_pei("default", "/var/log/pods/", PATH).is_none());
    assert!(AutoScanner::parse_path_to_pei("defaul", "/var/log/pods", PATH).is_none());
}

#[test]
fn names_need_not_be_ascii() {
    let pei = parse("/var/log/pods/default_wéb-0_uuid1/ngïnx/0.log").unwrap();
    assert_eq!(pei.pod, "wéb-0");
    assert_eq!(pei.container, "ngïnx");
}

#[test]
fn raw_notices_stand_for_path_events() {
    assert_eq!(events_for(&RawOp { create: true, ..NONE }), vec![NeedOpen]);
    assert_eq!(events_for(&RawOp { write: true, ..NONE }), vec![NeedWrite]);
    assert_eq!(events_for(&RawOp { remove: true, ..NONE }), vec![NeedClose]);
    assert_eq!(events_for(&RawOp { create: true, write: true, ..NONE }), vec![NeedOpen, NeedWrite]);
    assert_eq!(events_for(&RawOp { close_write: true, ..NONE }), vec![NeedClose]);
    assert_eq!(
        events_for(&RawOp { create: true, remove: true, write: true, ..NONE }),
        vec![NeedClose]
    );
    assert_eq!(events_for(&RawOp { create: true, remove: true, ..NONE }), vec![NeedClose]);
    assert_eq!(events_for(&RawOp { remove: true, write: true, ..NONE }), vec![NeedClose]);
    assert!(events_for(&NONE).is_empty());
    assert!(events_for(&RawOp { chmod: true, ..NONE }).is_empty());
    assert!(events_for(&RawOp { rename: true, ..NONE }).is_empty());
    assert!(events_for(&RawOp { rescan: true, ..NONE }).is_empty());
    assert!(events_for(&RawOp { create: true, chmod: true, ..NONE }).is_empty());
    assert!(events_for(&RawOp { close_write: true, write: true, ..NONE }).is_empty());
}

fn watcher(log: &Arc<Mutex<Vec<String>>>) -> AutoScanner {
    let mut scanner = AutoScanner::new("default".to_owned(), "/var/log/pods".to_owned());
    let l = log.clone();
    scanner.append_open_event_handle(harvest::event::FnListener::new(move |p: PathEventInfo| {
        l.lock().unwrap().push(format!("open:{}", p.container));
    }));
    let l = log.clone();
    scanner.append_write_event_handle(harvest::event::FnListener::new(move |p: PathEventInfo| {
        l.lock().unwrap().push(format!("write:{}", p.container));
    }));
    let l = log.clone();
    scanner.append_close_event_handle(harvest::event::FnListener::new(move |p: PathEventInfo| {
        l.lock().unwrap().push(format!("close:{}", p.container));
    }));
    scanner
}

#[test]
fn a_combined_notice_fans_out_open_before_write() {
    let log = Arc::new(Mutex::new(Vec::new()));
    let scanner = watcher(&log);
    let got = scanner.watch_event(&RawOp { create: true, write: true, ..NONE }, PATH);
    assert_eq!(got, vec![PathEvent::NeedOpen, PathEvent::NeedWrite]);
    scanner.watch_event(&RawOp { remove: true, ..NONE }, PATH);
    assert_eq!(*log.lock().unwrap(), vec!["open:nginx", "write:nginx", "close:nginx"]);
}

#[test]
fn a_file_that_is_no_log_has_no_effect() {
    let log = Arc::new(Mutex::new(Vec::new()));
    let scanner = watcher(&log);
    for op in [
        RawOp { create: true, ..NONE },
        RawOp { write: true, ..NONE },
        RawOp { remove: true, ..NONE },
        RawOp { create: true, write: true, ..NONE },
    ] {
        let got =
            scanner.watch_event(&op, "/var/log/pods/default_web-0_uuid1/nginx/README.txt");
        assert!(got.is_empty());
    }
    assert!(log.lock().unwrap().is_empty());
}

#[test]
fn the_first_walk_keeps_the_pod_logs() {
    let scanner = AutoScanner::new("default".to_owned(), "/var/log/pods".to_owned());
    let found = scanner.prepare_scan(&vec![
        "/var/log/pods/default_web-0_uuid1/nginx/0.log".to_owned(),
        "/var/log/pods/default_web-0_uuid1/nginx/README.txt".to_owned(),
        "/var/log/pods/kube-system_dns_uuid2/dns/0.log".to_owned(),
        "/var/log/pods/default_db-0_uuid3/mysql/4.log".to_owned(),
    ]);
    assert_eq!(found.len(), 2);
    assert_eq!(found[0].pod, "web-0");
    assert_eq!(found[1].pod, "db-0");
    assert_eq!(found[1].clone(), found[1]);
    assert!(scanner.parse_path("/var/log/pods/default_db-0_uuid3/mysql/4.log").is_some());
}
