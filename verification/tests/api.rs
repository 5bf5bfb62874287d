use harvest::api::{post_pod, ApiServerRequest, Request, RequestPod, RUN, STOP};
use harvest::database::{Event, MemDatabase};
use harvest::db;
use harvest::pod::Pod;
use harvest::task::{
    close, get_pod_task, run_task, stop_task, DBAddEvent, Task, TaskMessage, TaskStorage,
};

fn request(op: &str) -> ApiServerRequest {
    ApiServerRequest {
        op: op.to_owned(),
        ns: "default".to_owned(),
        output: "fake_output".to_owned(),
        rules: "".to_owned(),
        service_name: "x".to_owned(),
        pods: vec![
            RequestPod {
                node: "node1".to_owned(),
                pod: "web-0".to_owned(),
                ips: vec!["10.0.0.1".to_owned()],
                offset: 0,
            },
            RequestPod {
                node: "node2".to_owned(),
                pod: "web-1".to_owned(),
                ips: vec![],
                offset: 0,
            },
        ],
    }
}

#[test]
fn api_it_works() {}

#[test]
fn lib_it_works() {
    assert_eq!(2 + 2, 4);
}

#[test]
fn the_operations_have_their_names() {
    assert_eq!(RUN, "run");
    assert_eq!(STOP, "stop");
}

#[test]
fn a_directive_is_for_a_node_if_one_of_its_pods_runs_there() {
    assert!(request("run").has_node_events("node1"));
    assert!(request("run").has_node_events("node2"));
    assert!(!request("run").has_node_events("node3"));
    assert!(!request("run").has_node_events(""));
}

#[test]
fn a_directive_holds_a_rule_for_each_pod() {
    let tasks = request("run").to_pod_tasks();
    assert_eq!(
        tasks,
        vec![
            Task {
                ns: "default".to_owned(),
                service_name: "x".to_owned(),
                pod_name: "web-0".to_owned(),
                upload: false,
                rule: "".to_owned(),
                output: "fake_output".to_owned(),
            },
            Task {
                ns: "default".to_owned(),
                service_name: "x".to_owned(),
                pod_name: "web-1".to_owned(),
                upload: false,
                rule: "".to_owned(),
                output: "fake_output".to_owned(),
            },
        ]
    );
}

#[test]
fn run_and_stop_set_the_upload_flag_of_every_pod_of_the_directive() {
    assert_eq!(request("run").upload(), Some(true));
    assert_eq!(request("stop").upload(), Some(false));
    assert_eq!(request("pause").upload(), None);
    assert_eq!(
        request("run").messages("node1"),
        vec![db::pod_upload_start("default", "web-0"), db::pod_upload_start("default", "web-1")]
    );
    assert_eq!(
        request("stop").messages("node2"),
        vec![db::pod_upload_stop("default", "web-0"), db::pod_upload_stop("default", "web-1")]
    );
    assert!(request("run").messages("node3").is_empty());
    assert!(request("pause").messages("node1").is_empty());
    assert!(request("").messages("node1").is_empty());
}

#[test]
fn a_directive_becomes_commands_to_the_store_of_rules() {
    let tasks = request("run").to_pod_tasks();
    assert_eq!(
        request("run").task_messages("node1"),
        vec![TaskMessage::Run(tasks[0].clone()), TaskMessage::Run(tasks[1].clone())]
    );
    assert_eq!(
        request("stop").task_messages("node1"),
        vec![TaskMessage::Stop(tasks[0].clone()), TaskMessage::Stop(tasks[1].clone())]
    );
    assert!(request("stop").task_messages("elsewhere").is_empty());
    assert!(request("other").task_messages("node1").is_empty());
}

#[test]
fn the_store_of_rules_keeps_the_first_rule_for_a_pod() {
    let mut store = TaskStorage::new();
    let tasks = request("run").to_pod_tasks();
    assert!(store.handle(&run_task(&tasks[0])));
    assert!(store.handle(&stop_task(&tasks[1])));
    assert!(store.handle(&stop_task(&tasks[0])));
    assert!(get_pod_task(&store, "web-0").unwrap().upload);
    assert!(!get_pod_task(&store, "web-1").unwrap().upload);
    assert!(get_pod_task(&store, "web-2").is_none());
    assert!(!store.handle(&close()));
    let list = store.list();
    assert_eq!(list.len(), 2);
    assert_eq!(list[0].0, "web-0");
    assert_eq!(list[1].1.pod_name, "web-1");
    assert_eq!(Task::default().pod_name, "");
}

#[test]
fn a_new_record_is_applied_again_where_a_rule_asks_for_its_upload() {
    let pod = Pod { uuid: "/a.log".to_owned(), pod: "web-0".to_owned(), ..Default::default() };
    let mut rule = request("run").to_pod_tasks().remove(0);
    assert_eq!(DBAddEvent::handle(&pod, None), None);
    assert_eq!(DBAddEvent::handle(&pod, Some(&rule)), None);
    rule.upload = true;
    let m = DBAddEvent::handle(&pod, Some(&rule)).unwrap();
    assert_eq!(m.event, Event::Apply);
    assert_eq!(m.pod, Pod { is_upload: true, ..pod });
}

fn registry() -> MemDatabase {
    let mut reg = MemDatabase::new();
    for (uuid, pod) in [("/a/0.log", "web-0"), ("/b/0.log", "db-0"), ("/a/1.log", "web-0")] {
        reg.handle(&db::apply(&Pod {
            uuid: uuid.to_owned(),
            ns: "default".to_owned(),
            pod: pod.to_owned(),
            ..Default::default()
        }));
    }
    reg.handle(&db::incr_offset("/a/1.log", 9));
    reg
}

#[test]
fn the_request_of_an_operator_reaches_every_record_of_the_pod() {
    let reg = registry();
    let req = Request {
        namespace: "default".to_owned(),
        pod: "web-0".to_owned(),
        filter: "f".to_owned(),
        output: "fake_output".to_owned(),
        upload: true,
    };
    let ms = post_pod(&reg, &req).unwrap();
    assert_eq!(ms.len(), 2);
    assert_eq!(ms[0].event, Event::Apply);
    assert_eq!(ms[0].pod.uuid, "/a/0.log");
    assert_eq!(ms[1].pod.uuid, "/a/1.log");
    assert_eq!(ms[1].pod.offset, 9);
    assert!(ms.iter().all(|m| m.pod.is_upload && m.pod.filter == "f" && m.pod.output == "fake_output"));
    let nobody = Request { pod: "nobody".to_owned(), ..req };
    assert!(post_pod(&reg, &nobody).unwrap().is_empty());
}

#[test]
fn a_request_that_names_no_pod_is_turned_down() {
    let reg = registry();
    let req = Request {
        namespace: "".to_owned(),
        pod: "web-0".to_owned(),
        filter: "".to_owned(),
        output: "".to_owned(),
        upload: true,
    };
    assert_eq!(post_pod(&reg, &req), Err("namespace  or pod web-0 maybe is empty".to_owned()));
    let req = Request { namespace: "default".to_owned(), pod: "".to_owned(), ..req };
    assert_eq!(post_pod(&reg, &req), Err("namespace default or pod  maybe is empty".to_owned()));
}
