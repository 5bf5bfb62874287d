use harvest::admin::{answer_post_pod, not_found, route, status_error, status_ok, Route};
use harvest::api::Request;
use harvest::database::MemDatabase;
use harvest::db;
use harvest::output::{via_output, Counter, FakeOutput, IOutput, Item, Output, Outputs};
use harvest::pod::Pod;
use harvest::server::Harvest;

#[test]
fn requests_find_their_way() {
    assert_eq!(route("POST", "/pod"), Route::PostPod);
    assert_eq!(route("GET", "/pod"), Route::QueryPod);
    assert_eq!(route("GET", "/rules"), Route::QueryTasks);
    assert_eq!(route("GET", "/tasks"), Route::QueryTasks);
    assert_eq!(route("GET", "/"), Route::NotFound);
    assert_eq!(route("POST", "/rules"), Route::NotFound);
    assert_eq!(route("DELETE", "/pod"), Route::NotFound);
    assert_eq!(route("get", "/pod"), Route::NotFound);
    assert_eq!(route("", ""), Route::NotFound);
}

#[test]
fn the_answers_of_the_admin_surface() {
    assert_eq!(status_ok(), r#"{"status":"ok"}"#);
    assert_eq!(not_found(), r#"{"status":"error","reason":"Resource was not found."}"#);
    assert_eq!(status_error("a \"b\""), r#"{"status":"error","reason":"a \"b\""}"#);
}

#[test]
fn an_operator_is_told_what_became_of_the_request() {
    let mut reg = MemDatabase::new();
    reg.handle(&db::apply(&Pod {
        uuid: "/a/0.log".to_owned(),
        ns: "default".to_owned(),
        pod: "web-0".to_owned(),
        ..Default::default()
    }));
    let req = Request {
        namespace: "default".to_owned(),
        pod: "web-0".to_owned(),
        filter: "".to_owned(),
        output: "fake_output".to_owned(),
        upload: true,
    };
    let (messages, reply) = answer_post_pod(&reg, &req);
    assert_eq!(reply, r#"{"status":"ok"}"#);
    assert_eq!(messages.len(), 1);
    assert!(messages[0].pod.is_upload);
    let (messages, reply) = answer_post_pod(&reg, &Request { pod: "".to_owned(), ..req });
    assert!(messages.is_empty());
    assert_eq!(
        reply,
        r#"{"status":"error","reason":"namespace default or pod  maybe is empty"}"#
    );
}

#[test]
fn fake_output_it_works() {
    let output = &mut Output::new(FakeOutput);
    if let Err(e) = via_output(&r#"abc"#, output) {
        panic!("{}", e);
    }
}

#[test]
fn fake_output_it_works_with_outputs() {
    let mut outputs = Outputs::new();
    outputs.registry_output("fake_output".to_owned(), Output::new(FakeOutput));
    outputs.output("fake_output".to_owned(), "123");
}

#[test]
fn the_counter_counts_every_line() {
    let mut counter = Counter(0);
    assert!(counter.due());
    for _ in 0..3 {
        assert!(counter.write(Item::from("x")).is_ok());
    }
    assert_eq!(counter.0, 3);
    assert!(!counter.due());
    let mut counter = Counter(Counter::EVERY - 1);
    counter.write(Item::from("x")).unwrap();
    assert!(counter.due());
    let mut counter = Counter(usize::MAX);
    counter.write(Item::from("x")).unwrap();
    assert_eq!(counter.0, 0);
}

#[test]
fn the_settings_of_an_agent() {
    let harvest = Harvest::new("default", "/var/log/pods", "http://localhost:9999/", "node1");
    assert_eq!(harvest.namespace(), "default");
    assert_eq!(harvest.dir(), "/var/log/pods");
    assert_eq!(harvest.api_server_addr(), "http://localhost:9999/");
    assert_eq!(harvest.node_name(), "node1");
    let scanner = harvest.scanner();
    assert!(scanner.parse_path("/var/log/pods/default_web-0_uuid1/nginx/0.log").is_some());
    assert!(scanner.parse_path("/var/log/pods/other_web-0_uuid1/nginx/0.log").is_none());
    assert_eq!(harvest.pool(7).num_workers(), 7);
}
