use crate::database::MemDatabase;
use crate::file::joined;
use crate::file::joined_text;
use crate::json::json_string;
use crate::json::json_string_text;
use crate::pod::Pod;
use crate::pod::PodListMarshaller;
use crate::pod::PodView;
use crate::pod::State;
use crate::pod::texts;
use crate::pod::views;
use crate::task::entry_views;
use crate::task::Task;
use crate::task::TaskListMarshaller;
use crate::task::TaskStorage;
use crate::task::TaskView;
use crate::task::by_pod;
use crate::text::decimal;
use crate::text::decimal_text;
use crate::text::separate;
use crate::text::separated;
use vstd::prelude::*;
use vstd::string::StringExecFns;

verus! {

/// A truth value in JSON.
pub open spec fn bool_json(b: bool) -> Seq<char> {
    if b {
        "true"@
    } else {
        "false"@
    }
}

fn bool_text(b: bool) -> (r: &'static str)
    ensures
        r@ == bool_json(b),
{
    if b {
        "true"
    } else {
        "false"
    }
}

/// The state of a record in JSON: its name, as a string.
pub open spec fn state_json(s: State) -> Seq<char> {
    match s {
        State::Ready => "\"Ready\""@,
        State::Running => "\"Running\""@,
        State::Stopped => "\"Stopped\""@,
    }
}

fn state_text(s: State) -> (r: &'static str)
    ensures
        r@ == state_json(s),
{
    match s {
        State::Ready => "\"Ready\"",
        State::Running => "\"Running\"",
        State::Stopped => "\"Stopped\"",
    }
}

/// A record in JSON, put together from its texts, each of them JSON
/// already, and from its other fields: an object with the fields of the
/// record, in the order in which the record declares them.
pub open spec fn framed_pod(
    uuid: Seq<char>,
    ns: Seq<char>,
    pod: Seq<char>,
    container: Seq<char>,
    filter: Seq<char>,
    output: Seq<char>,
    ips: Seq<char>,
    p: PodView,
) -> Seq<char> {
    "{\"uuid\":"@ + uuid + ",\"offset\":"@ + decimal(p.offset) + ",\"ns\":"@ + ns + ",\"pod\":"@
        + pod + ",\"container\":"@ + container + ",\"is_upload\":"@ + bool_json(p.is_upload)
        + ",\"state\":"@ + state_json(p.state) + ",\"filter\":"@ + filter + ",\"output\":"@
        + output + ",\"ips\":["@ + ips + "],\"last_offset\":"@ + decimal(p.last_offset) + "}"@
}

/// A record in JSON.
pub open spec fn pod_json(p: PodView) -> Seq<char> {
    framed_pod(
        json_string_text(p.uuid),
        json_string_text(p.ns),
        json_string_text(p.pod),
        json_string_text(p.container),
        json_string_text(p.filter),
        json_string_text(p.output),
        joined(p.ips),
        p,
    )
}

/// Puts a record in JSON together from its texts, each of them JSON
/// already, and from the other fields of `p`.
pub fn frame_pod(
    uuid: &str,
    ns: &str,
    pod: &str,
    container: &str,
    filter: &str,
    output: &str,
    ips: &str,
    p: &Pod,
) -> (r: String)
    ensures
        r@ == framed_pod(uuid@, ns@, pod@, container@, filter@, output@, ips@, p@),
{
    let mut r = String::from_str("{\"uuid\":");
    r.append(uuid);
    r.append(",\"offset\":");
    r.append(decimal_text(p.offset).as_str());
    r.append(",\"ns\":");
    r.append(ns);
    r.append(",\"pod\":");
    r.append(pod);
    r.append(",\"container\":");
    r.append(container);
    r.append(",\"is_upload\":");
    r.append(bool_text(p.is_upload));
    r.append(",\"state\":");
    r.append(state_text(p.state));
    r.append(",\"filter\":");
    r.append(filter);
    r.append(",\"output\":");
    r.append(output);
    r.append(",\"ips\":[");
    r.append(ips);
    r.append("],\"last_offset\":");
    r.append(decimal_text(p.last_offset).as_str());
    r.append("}");
    r
}

/// Writes a record in JSON.
pub fn pod_to_json(p: &Pod) -> (r: String)
    ensures
        r@ == pod_json(p@),
{
    frame_pod(
        json_string(p.uuid.as_str()).as_str(),
        json_string(p.ns.as_str()).as_str(),
        json_string(p.pod.as_str()).as_str(),
        json_string(p.container.as_str()).as_str(),
        json_string(p.filter.as_str()).as_str(),
        json_string(p.output.as_str()).as_str(),
        joined_text(&p.ips).as_str(),
        p,
    )
}

/// The JSON form of a record, as a function.
pub open spec fn to_pod_json() -> spec_fn(PodView) -> Seq<char> {
    |p: PodView| pod_json(p)
}

/// A list of records in JSON: an array of the records.
pub open spec fn pods_json(pods: Seq<PodView>) -> Seq<char> {
    "["@ + separated(pods.map_values(to_pod_json())) + "]"@
}

/// Writes a list of records in JSON.
pub fn pods_to_json(pods: &Vec<Pod>) -> (r: String)
    ensures
        r@ == pods_json(views(pods@)),
{
    let mut parts: Vec<String> = Vec::new();
    let mut i: usize = 0;
    while i < pods.len()
        invariant
            i <= pods@.len(),
            texts(parts@) =~= views(pods@).take(i as int).map_values(to_pod_json()),
        decreases pods@.len() - i,
    {
        let ghost seen = texts(parts@);
        parts.push(pod_to_json(&pods[i]));
        assert(texts(parts@) =~= seen.push(pod_json(pods@[i as int]@)));
        i = i + 1;
    }
    assert(views(pods@).take(i as int) =~= views(pods@));
    let mut r = String::from_str("[");
    r.append(separate(&parts).as_str());
    r.append("]");
    r
}

impl PodListMarshaller {
    /// The list in JSON.
    pub fn to_json(&self) -> (r: String)
        ensures
            r@ == pods_json(views(self.0@)),
    {
        pods_to_json(&self.0)
    }
}

/// Every record of `db` in JSON, in the order of the registry.
pub fn all_to_json(db: &MemDatabase) -> (r: String)
    ensures
        r@ == pods_json(db@),
{
    PodListMarshaller(db.all()).to_json()
}

/// A rule in JSON, put together from its texts, each of them JSON
/// already, and from its upload flag: an object with the fields of the
/// rule, in the order in which the rule declares them.
pub open spec fn framed_task(
    ns: Seq<char>,
    service_name: Seq<char>,
    pod_name: Seq<char>,
    upload: bool,
    rule: Seq<char>,
    output: Seq<char>,
) -> Seq<char> {
    "{\"ns\":"@ + ns + ",\"service_name\":"@ + service_name + ",\"pod_name\":"@ + pod_name
        + ",\"upload\":"@ + bool_json(upload) + ",\"rule\":"@ + rule + ",\"output\":"@ + output
        + "}"@
}

/// A rule in JSON.
pub open spec fn task_json(t: TaskView) -> Seq<char> {
    framed_task(
        json_string_text(t.ns),
        json_string_text(t.service_name),
        json_string_text(t.pod_name),
        t.upload,
        json_string_text(t.rule),
        json_string_text(t.output),
    )
}

/// Puts a rule in JSON together from its texts, each of them JSON
/// already, and from its upload flag.
pub fn frame_task(
    ns: &str,
    service_name: &str,
    pod_name: &str,
    upload: bool,
    rule: &str,
    output: &str,
) -> (r: String)
    ensures
        r@ == framed_task(ns@, service_name@, pod_name@, upload, rule@, output@),
{
    let mut r = String::from_str("{\"ns\":");
    r.append(ns);
    r.append(",\"service_name\":");
    r.append(service_name);
    r.append(",\"pod_name\":");
    r.append(pod_name);
    r.append(",\"upload\":");
    r.append(bool_text(upload));
    r.append(",\"rule\":");
    r.append(rule);
    r.append(",\"output\":");
    r.append(output);
    r.append("}");
    r
}

/// Writes a rule in JSON.
pub fn task_to_json(t: &Task) -> (r: String)
    ensures
        r@ == task_json(t@),
{
    frame_task(
        json_string(t.ns.as_str()).as_str(),
        json_string(t.service_name.as_str()).as_str(),
        json_string(t.pod_name.as_str()).as_str(),
        t.upload,
        json_string(t.rule.as_str()).as_str(),
        json_string(t.output.as_str()).as_str(),
    )
}

/// An entry of a list of rules in JSON: the pod and the rule, as an array
/// of two.
pub open spec fn entry_json() -> spec_fn((Seq<char>, TaskView)) -> Seq<char> {
    |e: (Seq<char>, TaskView)| "["@ + json_string_text(e.0) + ","@ + task_json(e.1) + "]"@
}

/// A list of rules in JSON: an array of its entries.
pub open spec fn tasks_json_text(entries: Seq<(Seq<char>, TaskView)>) -> Seq<char> {
    "["@ + separated(entries.map_values(entry_json())) + "]"@
}

impl TaskListMarshaller {
    /// The list in JSON.
    pub fn to_json(&self) -> (r: String)
        ensures
            r@ == tasks_json_text(entry_views(self.0@)),
    {
        let mut parts: Vec<String> = Vec::new();
        let mut i: usize = 0;
        while i < self.0.len()
            invariant
                i <= self.0@.len(),
                texts(parts@) =~= entry_views(self.0@).take(i as int).map_values(entry_json()),
            decreases self.0@.len() - i,
        {
            let ghost seen = texts(parts@);
            let mut part = String::from_str("[");
            part.append(json_string(self.0[i].0.as_str()).as_str());
            part.append(",");
            part.append(task_to_json(&self.0[i].1).as_str());
            part.append("]");
            parts.push(part);
            assert(texts(parts@) =~= seen.push(entry_json()(entry_views(self.0@)[i as int])));
            i = i + 1;
        }
        assert(entry_views(self.0@).take(i as int) =~= entry_views(self.0@));
        let mut r = String::from_str("[");
        r.append(separate(&parts).as_str());
        r.append("]");
        r
    }
}

/// Every rule of `storage` in JSON, each with the pod that it is for, in
/// the order of the store.
pub fn tasks_json(storage: &TaskStorage) -> (r: String)
    ensures
        r@ == tasks_json_text(storage@.map_values(by_pod())),
{
    TaskListMarshaller(storage.list()).to_json()
}

} // verus!
