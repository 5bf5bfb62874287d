pub use crate::marshal::all_to_json;
use crate::database::Event;
use crate::database::MemDatabase;
use crate::database::Message;
use crate::database::MessageView;
use crate::database::known;
use crate::database::keyed;
use crate::database::of_pod;
use crate::database::pair_views;
use crate::database::position;
use crate::pod::Pod;
use crate::pod::PodView;
use vstd::prelude::*;
use vstd::string::StringExecFns;

verus! {

/// The command that advances the offset of the record with key `uuid` by
/// `offset` bytes.
pub fn incr_offset(uuid: &str, offset: i64) -> (m: Message)
    ensures
        m@ == (MessageView {
            event: Event::IncrOffset,
            pod: PodView { uuid: uuid@, last_offset: offset as int, ..Pod::blank() },
        }),
{
    let mut pod = Pod::default();
    pod.uuid = String::from_str(uuid);
    pod.last_offset = offset;
    Message { event: Event::IncrOffset, pod }
}

/// The command that inserts `pod`, or merges it into the record with its key.
pub fn apply(pod: &Pod) -> (m: Message)
    ensures
        m@ == (MessageView { event: Event::Apply, pod: pod@ }),
{
    Message { event: Event::Apply, pod: pod.clone() }
}

/// The command that removes the record with key `uuid`.
pub fn delete(uuid: &str) -> (m: Message)
    ensures
        m@ == (MessageView { event: Event::Delete, pod: PodView { uuid: uuid@, ..Pod::blank() } }),
{
    let mut pod = Pod::default();
    pod.uuid = String::from_str(uuid);
    Message { event: Event::Delete, pod }
}

/// The command that ends the registry's work.
pub fn close() -> (m: Message)
    ensures
        m@ == (MessageView { event: Event::Close, pod: Pod::blank() }),
{
    Message { event: Event::Close, pod: Pod::default() }
}

/// The record with key `uuid`, if `db` holds one.
pub fn get(db: &MemDatabase, uuid: &str) -> (r: Option<Pod>)
    ensures
        r is Some == known(db@, uuid@),
        r matches Some(p) ==> p@ == db@[position(db@, uuid@)],
{
    db.get(uuid)
}

/// The records of pod `pod` of namespace `ns` in `db`, each with its key.
pub fn get_slice_with_ns_pod(db: &MemDatabase, ns: &str, pod: &str) -> (r: Vec<(String, Pod)>)
    ensures
        pair_views(r@) == db@.filter(of_pod(ns@, pod@)).map_values(keyed()),
{
    db.slice(ns, pod)
}

/// The command that removes every record of pod `pod_name` of namespace
/// `pod_ns`. With an empty namespace it names no pod, and stands for the
/// removal of the record with the empty key, which no registry holds.
pub fn delete_with_ns_pod(pod_ns: &str, pod_name: &str) -> (m: Message)
    ensures
        m@ == (MessageView {
            event: Event::Delete,
            pod: PodView { ns: pod_ns@, pod: pod_name@, ..Pod::blank() },
        }),
{
    let mut pod = Pod::default();
    pod.ns = String::from_str(pod_ns);
    pod.pod = String::from_str(pod_name);
    Message { event: Event::Delete, pod }
}

/// The command that ends collection for every record of pod `pod_name` of
/// namespace `ns`.
pub fn pod_upload_stop(ns: &str, pod_name: &str) -> (m: Message)
    ensures
        m@ == (MessageView {
            event: Event::SetUpload,
            pod: PodView { ns: ns@, pod: pod_name@, is_upload: false, ..Pod::blank() },
        }),
{
    let mut pod = Pod::default();
    pod.ns = String::from_str(ns);
    pod.pod = String::from_str(pod_name);
    Message { event: Event::SetUpload, pod }
}

/// The command that starts collection for every record of pod `pod_name`
/// of namespace `ns`.
pub fn pod_upload_start(ns: &str, pod_name: &str) -> (m: Message)
    ensures
        m@ == (MessageView {
            event: Event::SetUpload,
            pod: PodView { ns: ns@, pod: pod_name@, is_upload: true, ..Pod::blank() },
        }),
{
    let mut pod = Pod::default();
    pod.ns = String::from_str(ns);
    pod.pod = String::from_str(pod_name);
    pod.is_upload = true;
    Message { event: Event::SetUpload, pod }
}

} // verus!
