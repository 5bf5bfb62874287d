use crate::database::Event;
use crate::database::MemDatabase;
use crate::database::Message;
use crate::database::MessageView;
use crate::database::keyed;
use crate::database::of_pod;
use crate::database::pair_views;
use crate::db;
use crate::pod::Pod;
use crate::pod::PodView;
use crate::pod::texts;
use crate::task::run_task;
use crate::task::stop_task;
use crate::task::task_views;
use crate::task::Task;
use crate::task::TaskMessage;
use crate::task::TaskMessageView;
use crate::task::TaskView;
use crate::text::same_text;
use vstd::prelude::*;
use vstd::string::StringExecFns;

verus! {

/// The operation that starts collection.
pub const RUN: &'static str = "run";

/// The operation that ends collection.
pub const STOP: &'static str = "stop";

/// One pod of a directive of the control plane.
#[derive(Debug, PartialEq)]
pub struct RequestPod {
    pub node: String,
    pub pod: String,
    pub ips: Vec<String>,
    pub offset: i64,
}

/// One pod of a directive as the contracts see it.
pub struct RequestPodView {
    pub node: Seq<char>,
    pub pod: Seq<char>,
    pub ips: Seq<Seq<char>>,
    pub offset: int,
}

impl View for RequestPod {
    type V = RequestPodView;

    open spec fn view(&self) -> RequestPodView {
        RequestPodView {
            node: self.node@,
            pod: self.pod@,
            ips: texts(self.ips@),
            offset: self.offset as int,
        }
    }
}

/// A directive of the control plane: an operation on pods of a namespace.
#[derive(Debug, PartialEq)]
pub struct ApiServerRequest {
    pub op: String,
    pub ns: String,
    pub output: String,
    pub rules: String,
    pub service_name: String,
    pub pods: Vec<RequestPod>,
}

/// A directive as the contracts see it.
pub struct ApiServerRequestView {
    pub op: Seq<char>,
    pub ns: Seq<char>,
    pub output: Seq<char>,
    pub rules: Seq<char>,
    pub service_name: Seq<char>,
    pub pods: Seq<RequestPodView>,
}

impl View for ApiServerRequest {
    type V = ApiServerRequestView;

    open spec fn view(&self) -> ApiServerRequestView {
        ApiServerRequestView {
            op: self.op@,
            ns: self.ns@,
            output: self.output@,
            rules: self.rules@,
            service_name: self.service_name@,
            pods: self.pods@.map_values(|p: RequestPod| p@),
        }
    }
}

impl ApiServerRequestView {
    /// The rule that the directive holds for one of its pods.
    pub open spec fn task_of(self) -> spec_fn(RequestPodView) -> TaskView {
        |p: RequestPodView|
            TaskView {
                ns: self.ns,
                service_name: self.service_name,
                pod_name: p.pod,
                upload: false,
                rule: self.rules,
                output: self.output,
            }
    }

    /// Whether one of the pods of the directive runs on node `node_name`.
    pub open spec fn on_node(self, node_name: Seq<char>) -> bool {
        exists|i: int| 0 <= i < self.pods.len() && (#[trigger] self.pods[i]).node == node_name
    }

    /// The upload flag that the operation of the directive sets, if it
    /// is one that this agent knows.
    pub open spec fn upload(self) -> Option<bool> {
        if self.op == RUN@ {
            Some(true)
        } else if self.op == STOP@ {
            Some(false)
        } else {
            None
        }
    }

    /// The command to the registry that the directive holds for one of
    /// its pods, where it sets the upload flag to `upload`.
    pub open spec fn message_of(self, upload: bool) -> spec_fn(RequestPodView) -> MessageView {
        |p: RequestPodView|
            MessageView {
                event: Event::SetUpload,
                pod: PodView { ns: self.ns, pod: p.pod, is_upload: upload, ..Pod::blank() },
            }
    }

    /// The commands to the registry that the directive stands for on node
    /// `node_name`: none where no pod of the directive runs on the node or
    /// the operation is not known; else one for each pod of the directive,
    /// in the order of the directive.
    pub open spec fn messages(self, node_name: Seq<char>) -> Seq<MessageView> {
        if self.on_node(node_name) && self.upload() is Some {
            self.pods.map_values(self.message_of(self.upload()->0))
        } else {
            Seq::empty()
        }
    }

    /// The command to the store of rules that the directive holds for one
    /// of its pods, where it sets the upload flag to `upload`.
    pub open spec fn task_message_of(self, upload: bool) -> spec_fn(RequestPodView) -> TaskMessageView {
        |p: RequestPodView|
            if upload {
                TaskMessageView::Run(self.task_of()(p))
            } else {
                TaskMessageView::Stop(self.task_of()(p))
            }
    }

    /// The commands to the store of rules that the directive stands for
    /// on node `node_name`, under the same conditions as those to the
    /// registry.
    pub open spec fn task_messages(self, node_name: Seq<char>) -> Seq<TaskMessageView> {
        if self.on_node(node_name) && self.upload() is Some {
            self.pods.map_values(self.task_message_of(self.upload()->0))
        } else {
            Seq::empty()
        }
    }
}

/// Commands to the registry as the contracts see them.
pub open spec fn message_views(s: Seq<Message>) -> Seq<MessageView> {
    s.map_values(|m: Message| m@)
}

/// Commands to the store of rules as the contracts see them.
pub open spec fn task_message_views(s: Seq<TaskMessage>) -> Seq<TaskMessageView> {
    s.map_values(|m: TaskMessage| m@)
}

impl ApiServerRequest {
    /// The rules that the directive holds, one for each of its pods.
    pub fn to_pod_tasks(&self) -> (r: Vec<Task>)
        ensures
            task_views(r@) == self@.pods.map_values(self@.task_of()),
    {
        let mut r: Vec<Task> = Vec::new();
        let mut i: usize = 0;
        while i < self.pods.len()
            invariant
                i <= self.pods@.len(),
                task_views(r@) =~= self@.pods.take(i as int).map_values(self@.task_of()),
            decreases self.pods@.len() - i,
        {
            let ghost seen = task_views(r@);
            let mut task = Task::default();
            task.pod_name = self.pods[i].pod.clone();
            task.ns = self.ns.clone();
            task.output = self.output.clone();
            task.service_name = self.service_name.clone();
            task.rule = self.rules.clone();
            r.push(task);
            assert(task_views(r@) =~= seen.push(self@.task_of()(self@.pods[i as int])));
            i = i + 1;
        }
        assert(self@.pods.take(i as int) =~= self@.pods);
        r
    }

    /// Whether one of the pods of the directive runs on node `node_name`.
    pub fn has_node_events(&self, node_name: &str) -> (r: bool)
        ensures
            r == self@.on_node(node_name@),
    {
        let node = node_name.to_owned();
        let mut i: usize = 0;
        while i < self.pods.len()
            invariant
                i <= self.pods@.len(),
                node@ == node_name@,
                forall|j: int| 0 <= j < i ==> (#[trigger] self@.pods[j]).node != node_name@,
            decreases self.pods@.len() - i,
        {
            if self.pods[i].node == node {
                assert(self@.pods[i as int].node == node_name@);
                return true;
            }
            i = i + 1;
        }
        false
    }

    /// The upload flag that the operation of the directive sets, if it
    /// is one that this agent knows.
    pub fn upload(&self) -> (r: Option<bool>)
        ensures
            r == self@.upload(),
    {
        if same_text(self.op.as_str(), RUN) {
            Some(true)
        } else if same_text(self.op.as_str(), STOP) {
            Some(false)
        } else {
            None
        }
    }

    /// The commands to the registry that the directive stands for on node
    /// `node_name`.
    pub fn messages(&self, node_name: &str) -> (r: Vec<Message>)
        ensures
            message_views(r@) == self@.messages(node_name@),
    {
        let mut r: Vec<Message> = Vec::new();
        assert(message_views(r@) =~= Seq::<MessageView>::empty());
        if !self.has_node_events(node_name) {
            return r;
        }
        let upload = match self.upload() {
            Some(u) => u,
            None => {
                return r;
            },
        };
        let mut i: usize = 0;
        while i < self.pods.len()
            invariant
                i <= self.pods@.len(),
                message_views(r@) =~= self@.pods.take(i as int).map_values(self@.message_of(upload)),
            decreases self.pods@.len() - i,
        {
            let ghost seen = message_views(r@);
            let m = if upload {
                db::pod_upload_start(self.ns.as_str(), self.pods[i].pod.as_str())
            } else {
                db::pod_upload_stop(self.ns.as_str(), self.pods[i].pod.as_str())
            };
            r.push(m);
            assert(message_views(r@) =~= seen.push(self@.message_of(upload)(self@.pods[i as int])));
            i = i + 1;
        }
        assert(self@.pods.take(i as int) =~= self@.pods);
        r
    }

    /// The commands to the store of rules that the directive stands for
    /// on node `node_name`.
    pub fn task_messages(&self, node_name: &str) -> (r: Vec<TaskMessage>)
        ensures
            task_message_views(r@) == self@.task_messages(node_name@),
    {
        let mut r: Vec<TaskMessage> = Vec::new();
        assert(task_message_views(r@) =~= Seq::<TaskMessageView>::empty());
        if !self.has_node_events(node_name) {
            return r;
        }
        let upload = match self.upload() {
            Some(u) => u,
            None => {
                return r;
            },
        };
        let tasks = self.to_pod_tasks();
        assert(task_views(tasks@).len() == tasks@.len());
        let mut i: usize = 0;
        while i < tasks.len()
            invariant
                i <= tasks@.len(),
                tasks@.len() == self@.pods.len(),
                task_views(tasks@) == self@.pods.map_values(self@.task_of()),
                task_message_views(r@) =~= self@.pods.take(i as int).map_values(
                    self@.task_message_of(upload),
                ),
            decreases tasks@.len() - i,
        {
            let ghost seen = task_message_views(r@);
            assert(tasks@[i as int]@ == task_views(tasks@)[i as int]);
            assert(tasks@[i as int]@ == self@.task_of()(self@.pods[i as int]));
            let m = if upload {
                run_task(&tasks[i])
            } else {
                stop_task(&tasks[i])
            };
            r.push(m);
            assert(task_message_views(r@) =~= seen.push(
                self@.task_message_of(upload)(self@.pods[i as int]),
            ));
            i = i + 1;
        }
        assert(self@.pods.take(i as int) =~= self@.pods);
        r
    }
}

/// What an operator asks for the records of one pod.
#[derive(Debug, PartialEq)]
pub struct Request {
    pub namespace: String,
    pub pod: String,
    pub filter: String,
    pub output: String,
    pub upload: bool,
}

/// A request of an operator as the contracts see it.
pub struct RequestView {
    pub namespace: Seq<char>,
    pub pod: Seq<char>,
    pub filter: Seq<char>,
    pub output: Seq<char>,
    pub upload: bool,
}

impl View for Request {
    type V = RequestView;

    open spec fn view(&self) -> RequestView {
        RequestView {
            namespace: self.namespace@,
            pod: self.pod@,
            filter: self.filter@,
            output: self.output@,
            upload: self.upload,
        }
    }
}

impl RequestView {
    /// Whether the request names a pod.
    pub open spec fn valid(self) -> bool {
        self.namespace.len() > 0 && self.pod.len() > 0
    }

    /// Why a request that names no pod is turned down.
    pub open spec fn reason(self) -> Seq<char> {
        "namespace "@ + self.namespace + " or pod "@ + self.pod + " maybe is empty"@
    }

    /// The command that brings the request to one record.
    pub open spec fn apply_to(self) -> spec_fn(PodView) -> MessageView {
        |p: PodView|
            MessageView {
                event: Event::Apply,
                pod: PodView {
                    is_upload: self.upload,
                    filter: self.filter,
                    output: self.output,
                    ..p
                },
            }
    }

    /// The commands that bring the request to the records of its pod.
    pub open spec fn commands(self, pods: Seq<PodView>) -> Seq<MessageView> {
        pods.filter(of_pod(self.namespace, self.pod)).map_values(self.apply_to())
    }
}

/// Turns the request of an operator into commands to the registry: one for
/// each record of the pod that `db` holds, which applies the upload flag,
/// the filter and the output of the request to the record. A request
/// without a namespace or without a pod is turned down, with the reason.
pub fn post_pod(db: &MemDatabase, req: &Request) -> (r: Result<Vec<Message>, String>)
    ensures
        r is Ok == req@.valid(),
        r matches Ok(ms) ==> message_views(ms@) == req@.commands(db@),
        r matches Err(e) ==> e@ == req@.reason(),
{
    if req.namespace.as_str().is_empty() || req.pod.as_str().is_empty() {
        let mut e = String::from_str("namespace ");
        e.append(req.namespace.as_str());
        e.append(" or pod ");
        e.append(req.pod.as_str());
        e.append(" maybe is empty");
        return Err(e);
    }
    let found = db.slice(req.namespace.as_str(), req.pod.as_str());
    let ghost hits = db@.filter(of_pod(req@.namespace, req@.pod));
    assert(pair_views(found@).len() == found@.len());
    let mut r: Vec<Message> = Vec::new();
    let mut i: usize = 0;
    while i < found.len()
        invariant
            i <= found@.len(),
            found@.len() == hits.len(),
            pair_views(found@) == hits.map_values(keyed()),
            message_views(r@) =~= hits.take(i as int).map_values(req@.apply_to()),
        decreases found@.len() - i,
    {
        let ghost seen = message_views(r@);
        assert(pair_views(found@)[i as int] == (found@[i as int].0@, found@[i as int].1@));
        assert(found@[i as int].1@ == hits[i as int]);
        let mut pod = found[i].1.clone();
        pod.is_upload = req.upload;
        pod.filter = req.filter.clone();
        pod.output = req.output.clone();
        r.push(db::apply(&pod));
        assert(message_views(r@) =~= seen.push(req@.apply_to()(hits[i as int])));
        i = i + 1;
    }
    assert(hits.take(i as int) =~= hits);
    Ok(r)
}

} // verus!
