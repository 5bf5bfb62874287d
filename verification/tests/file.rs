use harvest::database::{Event, Message};
use harvest::db;
use harvest::file::{
    catch_up, encode_message, frame, joined_text, tail_line, worker_step, FileAction,
    FileReaderWriter, SendFileEvent,
};
use harvest::pod::Pod;

const PATH: &str = "/var/log/pods/default_web-0_uuid1/nginx/0.log";

fn pod(upload: bool) -> Pod {
    Pod {
        uuid: PATH.to_owned(),
        ns: "default".to_owned(),
        pod: "web-0".to_owned(),
        container: "nginx".to_owned(),
        is_upload: upload,
        output: "fake_output".to_owned(),
        ..Default::default()
    }
}

fn step(n: i64) -> FileAction {
    FileAction::Post(db::incr_offset(PATH, n))
}

fn out(line: &str) -> FileAction {
    FileAction::Output { name: "fake_output".to_owned(), line: line.to_owned() }
}

fn wake() -> FileAction {
    FileAction::Send { uuid: PATH.to_owned(), event: SendFileEvent::Other }
}

fn end() -> FileAction {
    FileAction::Send { uuid: PATH.to_owned(), event: SendFileEvent::Close }
}

#[test]
fn file_it_works() {
    let mut input = FileReaderWriter::new(10);
    assert_eq!(input.num_workers(), 10);
    assert!(input.open_event(&Pod::default(), None).is_empty());
    assert!(!input.has_handle(""));
}

#[test]
fn the_document_of_a_line() {
    assert_eq!(
        encode_message(&pod(true), "c\n"),
        r#"{"custom":{"nodeId":"web-0","container":"nginx","serviceName":"web-0","ips":[],"version":"v1.0.0"},"message":"c\n"}"#
    );
}

#[test]
fn the_document_is_json_with_the_fields_of_the_record() {
    let mut p = pod(true);
    p.ips = vec!["10.0.0.1".to_owned(), "10.0.0.2".to_owned()];
    let text = encode_message(&p, "he said \"hi\"\t\\ \u{1}é\n");
    assert_eq!(
        text,
        r#"{"custom":{"nodeId":"web-0","container":"nginx","serviceName":"web-0","ips":["10.0.0.1","10.0.0.2"],"version":"v1.0.0"},"message":"he said \"hi\"\t\\ \u0001é\n"}"#
    );
    let value: serde_json::Value = serde_json::from_str(&text).unwrap();
    assert_eq!(value["message"], "he said \"hi\"\t\\ \u{1}é\n");
    assert_eq!(value["custom"]["nodeId"], "web-0");
    assert_eq!(value["custom"]["serviceName"], "web-0");
    assert_eq!(value["custom"]["container"], "nginx");
    assert_eq!(value["custom"]["version"], "v1.0.0");
    assert_eq!(value["custom"]["ips"][1], "10.0.0.2");
    let one = Pod { ips: vec!["::1".to_owned()], ..pod(true) };
    assert!(encode_message(&one, "x").contains(r#""ips":["::1"],"#));
}

#[test]
fn an_empty_line_has_no_document() {
    assert_eq!(encode_message(&pod(true), ""), "");
    assert!(tail_line(&pod(true), "").is_empty());
    assert!(tail_line(&pod(false), "").is_empty());
}

#[test]
fn a_line_is_sent_out_and_counted_in_bytes() {
    assert_eq!(
        tail_line(&pod(true), "é\n"),
        vec![out(&encode_message(&pod(true), "é\n")), step(3)]
    );
    assert_eq!(tail_line(&pod(false), "é\n"), vec![step(3)]);
}

#[test]
fn catch_up_takes_every_line_once_and_in_order() {
    let got = catch_up(&pod(true), "a\nbb\n\nlast");
    assert_eq!(
        got,
        vec![
            out(&encode_message(&pod(true), "a\n")),
            step(2),
            out(&encode_message(&pod(true), "bb\n")),
            step(3),
            out(&encode_message(&pod(true), "\n")),
            step(1),
            out(&encode_message(&pod(true), "last")),
            step(4),
        ]
    );
    assert!(catch_up(&pod(true), "").is_empty());
    assert_eq!(catch_up(&pod(false), "a\nb\n"), vec![step(2), step(2)]);
}

#[test]
fn the_steps_of_a_catch_up_add_up_to_the_bytes_read() {
    let content = "first line\nsecond ünïcode line\n\n\npartial";
    let mut total = 0;
    let mut sent = 0;
    for a in catch_up(&pod(true), content) {
        match a {
            FileAction::Post(Message { event: Event::IncrOffset, pod }) => total += pod.last_offset,
            FileAction::Output { .. } => sent += 1,
            _ => panic!("unexpected action"),
        }
    }
    assert_eq!(total as usize, content.len());
    assert_eq!(sent, 5);
}

#[test]
fn a_worker_ends_on_close_and_on_a_failed_read() {
    assert_eq!(worker_step(&pod(true), SendFileEvent::Close, Some("x\n")), None);
    assert_eq!(worker_step(&pod(true), SendFileEvent::Close, None), None);
    assert_eq!(worker_step(&pod(true), SendFileEvent::Other, None), None);
    assert_eq!(
        worker_step(&pod(true), SendFileEvent::Other, Some("x\n")),
        Some(vec![out(&encode_message(&pod(true), "x\n")), step(2)])
    );
    assert_eq!(worker_step(&pod(true), SendFileEvent::Other, Some("")), Some(vec![]));
}

#[test]
fn open_catches_up_and_starts_one_worker() {
    let mut frw = FileReaderWriter::new(4);
    let got = frw.open_event(&pod(true), Some("a\nb\n"));
    assert_eq!(
        got,
        vec![
            out(&encode_message(&pod(true), "a\n")),
            step(2),
            out(&encode_message(&pod(true), "b\n")),
            step(2),
            FileAction::Spawn(pod(true)),
        ]
    );
    assert!(frw.has_handle(PATH));
}

#[test]
fn open_twice_is_open_once() {
    let mut frw = FileReaderWriter::new(4);
    frw.open_event(&pod(true), Some("a\n"));
    assert!(frw.open_event(&pod(true), Some("a\n")).is_empty());
    assert!(frw.open_event(&pod(true), None).is_empty());
    assert!(frw.has_handle(PATH));
    assert_eq!(frw.close_all(), vec![end()]);
}

#[test]
fn a_file_that_cannot_be_opened_gets_no_worker() {
    let mut frw = FileReaderWriter::new(4);
    assert!(frw.open_event(&pod(true), None).is_empty());
    assert!(!frw.has_handle(PATH));
}

#[test]
fn an_empty_file_gives_no_output_and_no_step() {
    let mut frw = FileReaderWriter::new(4);
    let p = Pod { offset: 0, ..pod(true) };
    assert_eq!(frw.open_event(&p, Some("")), vec![FileAction::Spawn(p.clone())]);
    assert!(frw.has_handle(PATH));
}

#[test]
fn close_twice_is_close_once() {
    let mut frw = FileReaderWriter::new(4);
    frw.open_event(&pod(true), Some(""));
    assert_eq!(frw.close_event(PATH), vec![end()]);
    assert!(!frw.has_handle(PATH));
    assert!(frw.close_event(PATH).is_empty());
    assert!(!frw.has_handle(PATH));
}

#[test]
fn close_leaves_the_other_workers() {
    let mut frw = FileReaderWriter::new(4);
    let other = Pod { uuid: "/other.log".to_owned(), ..pod(true) };
    frw.open_event(&pod(true), Some(""));
    frw.open_event(&other, Some(""));
    frw.close_event(PATH);
    assert!(frw.has_handle("/other.log"));
    assert_eq!(
        frw.close_all(),
        vec![FileAction::Send { uuid: "/other.log".to_owned(), event: SendFileEvent::Close }]
    );
    assert!(!frw.has_handle("/other.log"));
}

#[test]
fn a_write_wakes_the_worker() {
    let mut frw = FileReaderWriter::new(4);
    frw.open_event(&pod(true), Some(""));
    assert_eq!(frw.write_event(PATH, None, None), vec![wake()]);
    assert_eq!(frw.write_event(PATH, Some(&pod(false)), Some("zzz")), vec![wake()]);
}

#[test]
fn a_write_without_worker_opens_only_what_is_to_be_uploaded() {
    let mut frw = FileReaderWriter::new(4);
    assert!(frw.write_event(PATH, None, Some("a\n")).is_empty());
    assert!(frw.write_event(PATH, Some(&pod(false)), Some("a\n")).is_empty());
    assert!(!frw.has_handle(PATH));
    assert!(frw.write_event(PATH, Some(&pod(true)), None).is_empty());
    assert!(!frw.has_handle(PATH));
    assert_eq!(
        frw.write_event(PATH, Some(&pod(true)), Some("a\n")),
        vec![out(&encode_message(&pod(true), "a\n")), step(2), FileAction::Spawn(pod(true)), wake()]
    );
    assert!(frw.has_handle(PATH));
}

#[test]
fn a_document_is_put_together_from_its_parts() {
    assert_eq!(
        frame("1", "2", "3", "4"),
        r#"{"custom":{"nodeId":1,"container":2,"serviceName":1,"ips":[3],"version":"v1.0.0"},"message":4}"#
    );
    assert_eq!(joined_text(&vec![]), "");
    assert_eq!(joined_text(&vec!["a".to_owned()]), r#""a""#);
    assert_eq!(joined_text(&vec!["a".to_owned(), "b\"c".to_owned()]), r#""a","b\"c""#);
}
