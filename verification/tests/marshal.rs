use harvest::database::MemDatabase;
use harvest::db;
use harvest::json::Parsed;
use harvest::marshal::{all_to_json, frame_pod, frame_task, pod_to_json, task_to_json, tasks_json};
use harvest::output::Item;
use harvest::pod::{Pod, PodListMarshaller, State};
use harvest::task::{run_task, stop_task, Task, TaskListMarshaller, TaskStorage};
use harvest::text::{decimal_text, split_lines};

fn pod() -> Pod {
    Pod {
        uuid: "/var/log/pods/default_web-0_u/nginx/0.log".to_owned(),
        offset: 120,
        ns: "default".to_owned(),
        pod: "web-0".to_owned(),
        container: "nginx".to_owned(),
        is_upload: true,
        state: State::Running,
        filter: "^a\"b".to_owned(),
        output: "fake_output".to_owned(),
        ips: vec!["10.0.0.1".to_owned(), "10.0.0.2".to_owned()],
        last_offset: 7,
    }
}

#[test]
fn numbers_in_decimal() {
    assert_eq!(decimal_text(0), "0");
    assert_eq!(decimal_text(7), "7");
    assert_eq!(decimal_text(10), "10");
    assert_eq!(decimal_text(1203405), "1203405");
    assert_eq!(decimal_text(-1), "-1");
    assert_eq!(decimal_text(-980), "-980");
    assert_eq!(decimal_text(i64::MAX), "9223372036854775807");
    assert_eq!(decimal_text(i64::MIN), "-9223372036854775808");
}

#[test]
fn lines_keep_their_line_feeds() {
    assert_eq!(split_lines("a\nbb\n\nlast"), vec!["a\n", "bb\n", "\n", "last"]);
    assert_eq!(split_lines("a\n"), vec!["a\n"]);
    assert_eq!(split_lines("\n"), vec!["\n"]);
    assert_eq!(split_lines("é"), vec!["é"]);
    assert!(split_lines("").is_empty());
}

#[test]
fn a_record_in_json() {
    assert_eq!(
        pod_to_json(&pod()),
        r#"{"uuid":"/var/log/pods/default_web-0_u/nginx/0.log","offset":120,"ns":"default","pod":"web-0","container":"nginx","is_upload":true,"state":"Running","filter":"^a\"b","output":"fake_output","ips":["10.0.0.1","10.0.0.2"],"last_offset":7}"#
    );
    let value: serde_json::Value = serde_json::from_str(&pod_to_json(&Pod::default())).unwrap();
    assert_eq!(value["state"], "Ready");
    assert_eq!(value["is_upload"], false);
    assert_eq!(value["offset"], 0);
    assert_eq!(value["ips"], serde_json::Value::Array(vec![]));
    assert_eq!(value.as_object().unwrap().len(), 11);
}

#[test]
fn a_list_of_records_in_json() {
    assert_eq!(PodListMarshaller(vec![]).to_json(), "[]");
    let two = PodListMarshaller(vec![pod(), Pod::default()]).to_json();
    assert_eq!(two, format!("[{},{}]", pod_to_json(&pod()), pod_to_json(&Pod::default())));
    let value: serde_json::Value = serde_json::from_str(&two).unwrap();
    assert_eq!(value[0]["state"], "Running");
    assert_eq!(value[1]["uuid"], "");
}

#[test]
fn the_registry_in_json() {
    let mut reg = MemDatabase::new();
    assert_eq!(all_to_json(&reg), "[]");
    reg.handle(&db::apply(&pod()));
    reg.handle(&db::pod_upload_stop("default", "web-0"));
    let value: serde_json::Value = serde_json::from_str(&db::all_to_json(&reg)).unwrap();
    assert_eq!(value.as_array().unwrap().len(), 1);
    assert_eq!(value[0]["uuid"], "/var/log/pods/default_web-0_u/nginx/0.log");
    assert_eq!(value[0]["state"], "Ready");
    assert_eq!(value[0]["is_upload"], false);
    assert_eq!(value[0]["offset"], 120);
}

#[test]
fn rules_in_json() {
    let task = Task {
        ns: "default".to_owned(),
        service_name: "x".to_owned(),
        pod_name: "web-0".to_owned(),
        upload: false,
        rule: "".to_owned(),
        output: "fake_output".to_owned(),
    };
    assert_eq!(
        task_to_json(&task),
        r#"{"ns":"default","service_name":"x","pod_name":"web-0","upload":false,"rule":"","output":"fake_output"}"#
    );
    assert_eq!(TaskListMarshaller(vec![]).to_json(), "[]");
    let mut store = TaskStorage::new();
    store.handle(&run_task(&task));
    store.handle(&stop_task(&Task { pod_name: "db-0".to_owned(), ..task.clone() }));
    assert_eq!(
        tasks_json(&store),
        r#"[["web-0",{"ns":"default","service_name":"x","pod_name":"web-0","upload":true,"rule":"","output":"fake_output"}],["db-0",{"ns":"default","service_name":"x","pod_name":"db-0","upload":false,"rule":"","output":"fake_output"}]]"#
    );
}

#[test]
fn json_objects_are_put_together_from_their_parts() {
    assert_eq!(
        frame_pod("1", "2", "3", "4", "5", "6", "7", &pod()),
        r#"{"uuid":1,"offset":120,"ns":2,"pod":3,"container":4,"is_upload":true,"state":"Running","filter":5,"output":6,"ips":[7],"last_offset":7}"#
    );
    assert_eq!(
        frame_task("1", "2", "3", true, "4", "5"),
        r#"{"ns":1,"service_name":2,"pod_name":3,"upload":true,"rule":4,"output":5}"#
    );
}

#[test]
fn an_item_is_what_was_made_of_its_line() {
    assert_eq!(Item::of("x", Parsed::Invalid), Item::Default("x".to_owned()));
    assert_eq!(Item::of("x", Parsed::Other), Item::JSON("x".to_owned(), None));
    assert_eq!(
        Item::of("x", Parsed::Object(vec![("a".to_owned(), None)])),
        Item::JSON("x".to_owned(), Some(vec![("a".to_owned(), None)]))
    );
}
