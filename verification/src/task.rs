pub use crate::marshal::tasks_json;
use crate::db;
use crate::database::Event;
use crate::database::Message;
use crate::database::MessageView;
use crate::pod::Pod;
use crate::pod::PodView;
use vstd::prelude::*;

verus! {

/// A rule of the control plane for one pod: whether its logs are to be
/// collected, and how.
#[derive(Debug, PartialEq)]
pub struct Task {
    pub ns: String,
    pub service_name: String,
    pub pod_name: String,
    pub upload: bool,
    pub rule: String,
    pub output: String,
}

/// A rule as the contracts see it.
pub struct TaskView {
    pub ns: Seq<char>,
    pub service_name: Seq<char>,
    pub pod_name: Seq<char>,
    pub upload: bool,
    pub rule: Seq<char>,
    pub output: Seq<char>,
}

impl View for Task {
    type V = TaskView;

    open spec fn view(&self) -> TaskView {
        TaskView {
            ns: self.ns@,
            service_name: self.service_name@,
            pod_name: self.pod_name@,
            upload: self.upload,
            rule: self.rule@,
            output: self.output@,
        }
    }
}

impl Clone for Task {
    fn clone(&self) -> (r: Self)
        ensures
            r@ == self@,
    {
        Task {
            ns: self.ns.clone(),
            service_name: self.service_name.clone(),
            pod_name: self.pod_name.clone(),
            upload: self.upload,
            rule: self.rule.clone(),
            output: self.output.clone(),
        }
    }
}

impl Task {
    /// The rule that names nothing and asks for nothing.
    pub open spec fn blank() -> TaskView {
        TaskView {
            ns: Seq::empty(),
            service_name: Seq::empty(),
            pod_name: Seq::empty(),
            upload: false,
            rule: Seq::empty(),
            output: Seq::empty(),
        }
    }
}

impl Default for Task {
    fn default() -> (r: Self)
        ensures
            r@ == Task::blank(),
    {
        Task {
            upload: false,
            rule: String::new(),
            service_name: String::new(),
            pod_name: String::new(),
            ns: String::new(),
            output: String::new(),
        }
    }
}

/// A command to the store of rules.
#[derive(Debug, PartialEq)]
pub enum TaskMessage {
    Run(Task),
    Stop(Task),
    Close,
}

/// A command to the store of rules as the contracts see it.
pub enum TaskMessageView {
    Run(TaskView),
    Stop(TaskView),
    Close,
}

impl View for TaskMessage {
    type V = TaskMessageView;

    open spec fn view(&self) -> TaskMessageView {
        match self {
            TaskMessage::Run(t) => TaskMessageView::Run(t@),
            TaskMessage::Stop(t) => TaskMessageView::Stop(t@),
            TaskMessage::Close => TaskMessageView::Close,
        }
    }
}

/// Rules as the contracts see them.
pub open spec fn task_views(s: Seq<Task>) -> Seq<TaskView> {
    s.map_values(|t: Task| t@)
}

/// The least index at or after `from` of a rule for pod `pod_name`; the
/// length of `tasks` where there is none.
pub open spec fn rule_from(tasks: Seq<TaskView>, pod_name: Seq<char>, from: int) -> int
    decreases tasks.len() - from,
{
    if from < 0 || from >= tasks.len() {
        tasks.len() as int
    } else if tasks[from].pod_name == pod_name {
        from
    } else {
        rule_from(tasks, pod_name, from + 1)
    }
}

/// The index of the rule for pod `pod_name`; the length of `tasks` where
/// there is none.
pub open spec fn rule_at(tasks: Seq<TaskView>, pod_name: Seq<char>) -> int {
    rule_from(tasks, pod_name, 0)
}

/// The rules once `t` has been brought in with upload flag `upload`: a
/// pod that has a rule keeps it; else the rule is added.
pub open spec fn brought_in(tasks: Seq<TaskView>, t: TaskView, upload: bool) -> Seq<TaskView> {
    if rule_at(tasks, t.pod_name) < tasks.len() {
        tasks
    } else {
        tasks.push(TaskView { upload, ..t })
    }
}

/// The rules after command `m`.
pub open spec fn tasks_after(tasks: Seq<TaskView>, m: TaskMessageView) -> Seq<TaskView> {
    match m {
        TaskMessageView::Run(t) => brought_in(tasks, t, true),
        TaskMessageView::Stop(t) => brought_in(tasks, t, false),
        TaskMessageView::Close => tasks,
    }
}

/// The store of the rules that the control plane has sent, one for each
/// pod at most, in the order in which they came.
pub struct TaskStorage {
    data: Vec<Task>,
}

impl View for TaskStorage {
    type V = Seq<TaskView>;

    closed spec fn view(&self) -> Seq<TaskView> {
        task_views(self.data@)
    }
}

impl TaskStorage {
    /// A store without rules.
    pub fn new() -> (r: Self)
        ensures
            r@ == Seq::<TaskView>::empty(),
    {
        let r = TaskStorage { data: Vec::new() };
        assert(r@ =~= Seq::<TaskView>::empty());
        r
    }

    /// The index of the rule for `pod_name`, or the number of rules.
    fn find(&self, pod_name: &String) -> (i: usize)
        ensures
            i == rule_at(self@, pod_name@),
            i <= self.data@.len(),
    {
        let mut i: usize = 0;
        while i < self.data.len() && self.data[i].pod_name != *pod_name
            invariant
                i <= self.data@.len(),
                rule_at(self@, pod_name@) == rule_from(self@, pod_name@, i as int),
            decreases self.data@.len() - i,
        {
            i = i + 1;
        }
        i
    }

    /// Brings in a rule with the given upload flag.
    fn bring_in(&mut self, task: &Task, upload: bool)
        ensures
            final(self)@ == brought_in(old(self)@, task@, upload),
    {
        let i = self.find(&task.pod_name);
        if i >= self.data.len() {
            let mut t = task.clone();
            t.upload = upload;
            self.data.push(t);
            assert(self@ =~= old(self)@.push(TaskView { upload, ..task@ }));
        }
    }

    /// Carries out one command, and says whether the store goes on taking
    /// commands.
    pub fn handle(&mut self, msg: &TaskMessage) -> (running: bool)
        ensures
            final(self)@ == tasks_after(old(self)@, msg@),
            running == !(msg@ is Close),
    {
        match msg {
            TaskMessage::Run(task) => {
                self.bring_in(task, true);
                true
            },
            TaskMessage::Stop(task) => {
                self.bring_in(task, false);
                true
            },
            TaskMessage::Close => false,
        }
    }

    /// The rule for pod `pod_name`, if there is one.
    pub fn get(&self, pod_name: &str) -> (r: Option<Task>)
        ensures
            r is Some == (rule_at(self@, pod_name@) < self@.len()),
            r matches Some(t) ==> t@ == self@[rule_at(self@, pod_name@)],
    {
        let key = pod_name.to_owned();
        let i = self.find(&key);
        if i < self.data.len() {
            Some(self.data[i].clone())
        } else {
            None
        }
    }

    /// Every rule with the pod that it is for, in the order of the store.
    pub fn list(&self) -> (r: Vec<(String, Task)>)
        ensures
            entry_views(r@) == self@.map_values(by_pod()),
    {
        let mut r: Vec<(String, Task)> = Vec::new();
        let mut i: usize = 0;
        while i < self.data.len()
            invariant
                i <= self.data@.len(),
                entry_views(r@) =~= self@.take(i as int).map_values(by_pod()),
            decreases self.data@.len() - i,
        {
            let ghost seen = entry_views(r@);
            let t = self.data[i].clone();
            r.push((t.pod_name.clone(), t));
            assert(entry_views(r@) =~= seen.push(by_pod()(self@[i as int])));
            i = i + 1;
        }
        assert(self@.take(i as int) =~= self@);
        r
    }
}

/// Entries of a list of rules as the contracts see them.
pub open spec fn entry_views(s: Seq<(String, Task)>) -> Seq<(Seq<char>, TaskView)> {
    s.map_values(|e: (String, Task)| (e.0@, e.1@))
}

/// Puts the pod that it is for in front of a rule.
pub open spec fn by_pod() -> spec_fn(TaskView) -> (Seq<char>, TaskView) {
    |t: TaskView| (t.pod_name, t)
}

/// The command that brings in `task` as a rule to collect.
pub fn run_task(task: &Task) -> (m: TaskMessage)
    ensures
        m@ == TaskMessageView::Run(task@),
{
    TaskMessage::Run(task.clone())
}

/// The command that brings in `task` as a rule not to collect.
pub fn stop_task(task: &Task) -> (m: TaskMessage)
    ensures
        m@ == TaskMessageView::Stop(task@),
{
    TaskMessage::Stop(task.clone())
}

/// The command that ends the work of the store.
pub fn close() -> (m: TaskMessage)
    ensures
        m@ == TaskMessageView::Close,
{
    TaskMessage::Close
}

/// The rule for pod `pod_name` in `storage`, if there is one.
pub fn get_pod_task(storage: &TaskStorage, pod_name: &str) -> (r: Option<Task>)
    ensures
        r is Some == (rule_at(storage@, pod_name@) < storage@.len()),
        r matches Some(t) ==> t@ == storage@[rule_at(storage@, pod_name@)],
{
    storage.get(pod_name)
}

/// A list of rules on its way to a textual form.
pub struct TaskListMarshaller(pub Vec<(String, Task)>);

/// The reaction to a record that is new to the registry.
pub struct DBAddEvent;

impl DBAddEvent {
    /// What the reaction asks of the registry: where the control plane
    /// has a rule to collect for the pod of the record, the record is
    /// applied again, to be uploaded.
    pub open spec fn message(pod: PodView, rule: Option<TaskView>) -> Option<MessageView> {
        if rule matches Some(t) && t.upload {
            Some(MessageView { event: Event::Apply, pod: PodView { is_upload: true, ..pod } })
        } else {
            None
        }
    }

    /// Reacts to the insertion of `pod`, for which the control plane has
    /// the rule `rule`, if any.
    pub fn handle(pod: &Pod, rule: Option<&Task>) -> (r: Option<Message>)
        ensures
            r is Some == Self::message(pod@, rule_of(rule)) is Some,
            r matches Some(m) ==> Some(m@) == Self::message(pod@, rule_of(rule)),
    {
        match rule {
            Some(t) => {
                if !t.upload {
                    return None;
                }
                let mut pod = pod.clone();
                pod.upload();
                Some(db::apply(&pod))
            },
            None => None,
        }
    }
}

/// The rule behind a reference that may be missing.
pub open spec fn rule_of(t: Option<&Task>) -> Option<TaskView> {
    match t {
        Some(r) => Some(r@),
        None => None,
    }
}

} // verus!
