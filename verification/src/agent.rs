use crate::database::after;
use crate::database::coherent;
use crate::database::doomed;
use crate::database::known;
use crate::database::lemma_after_coherent;
use crate::database::lemma_filter_coherent;
use crate::database::lemma_position_from;
use crate::database::lemma_position_of;
use crate::database::noticed;
use crate::database::noticed_toggle;
use crate::database::notices;
use crate::database::of_pod;
use crate::database::position;
use crate::database::record;
use crate::database::sound;
use crate::database::spared;
use crate::database::Change;
use crate::database::Event;
use crate::database::MessageView;
use crate::database::NoticeView;
use crate::file::closed;
use crate::file::lemma_filter_no_duplicates;
use crate::file::opened;
use crate::file::other_than;
use crate::file::written;
use crate::listener::reacted;
use crate::listener::ScannerOpenEvent;
use crate::pod::PodView;
use crate::pod::State;
use crate::scan::PathEventInfoView;
use vstd::prelude::*;

verus! {

/// The agent as a whole: the records of the registry and the keys of the
/// files that have a worker.
pub struct AgentView {
    pub pods: Seq<PodView>,
    pub handles: Seq<Seq<char>>,
}

/// What the parts of the agent agree on at any time: the registry is
/// coherent, no file has two workers, and a file whose record is stopped
/// has no worker.
pub open spec fn agreed(s: AgentView) -> bool {
    &&& coherent(s.pods)
    &&& s.handles.no_duplicates()
    &&& forall|i: int|
        0 <= i < s.pods.len() && (#[trigger] s.pods[i]).state == State::Stopped
            ==> !s.handles.contains(s.pods[i].uuid)
}

/// What the registry holds under `uuid`, if anything.
pub open spec fn lookup(pods: Seq<PodView>, uuid: Seq<char>) -> Option<PodView> {
    if known(pods, uuid) {
        Some(record(pods, uuid))
    } else {
        None
    }
}

/// What the files hold: for a record, what its file holds behind the
/// offset of the record, and `None` where the file cannot be opened.
pub type Tails = spec_fn(PodView) -> Option<Seq<char>>;

/// The keys with a worker after the pool has reacted to `notices`, one
/// after the other.
pub open spec fn reacted_all(handles: Seq<Seq<char>>, notices: Seq<NoticeView>, tails: Tails) -> Seq<
    Seq<char>,
>
    decreases notices.len(),
{
    if notices.len() == 0 {
        handles
    } else {
        reacted(
            reacted_all(handles, notices.drop_last(), tails),
            notices.last(),
            tails(notices.last().pod),
        )
    }
}

/// The agent after the registry has carried out `m` and the pool has
/// reacted to what that made known.
pub open spec fn commanded(s: AgentView, m: MessageView, tails: Tails) -> AgentView {
    AgentView {
        pods: after(s.pods, m),
        handles: reacted_all(s.handles, notices(s.pods, m), tails),
    }
}

/// The agent after the pool has reacted to the appearance of the file of
/// `pei`.
pub open spec fn appeared(s: AgentView, pei: PathEventInfoView, tail: Option<Seq<char>>) -> AgentView {
    AgentView {
        pods: s.pods,
        handles: ScannerOpenEvent::handles(s.handles, pei, lookup(s.pods, pei.path), tail),
    }
}

/// The agent after the pool has reacted to a write to the file with key
/// `path`.
pub open spec fn wrote(s: AgentView, path: Seq<char>, tail: Option<Seq<char>>) -> AgentView {
    AgentView { pods: s.pods, handles: written(s.handles, path, lookup(s.pods, path), tail) }
}

/// The agent after the pool has reacted to the removal of the file with
/// key `path`.
pub open spec fn vanished(s: AgentView, path: Seq<char>) -> AgentView {
    AgentView { pods: s.pods, handles: closed(s.handles, path) }
}

/// Whether the notices are for records with different keys.
pub open spec fn apart(notices: Seq<NoticeView>) -> bool {
    forall|i: int, j: int|
        0 <= i < j < notices.len() ==> (#[trigger] notices[i]).pod.uuid != (#[trigger] notices[j]).pod.uuid
}

/// Whether a notice leaves its file without a worker: a removal, or an
/// update of a record that is not to be uploaded.
pub open spec fn ends(n: NoticeView) -> bool {
    n.change == Change::Delete || (n.change == Change::Update && !n.pod.is_upload)
}

/// Who has a worker once the pool has closed the file with key `uuid`.
proof fn lemma_closed(handles: Seq<Seq<char>>, uuid: Seq<char>)
    requires
        handles.no_duplicates(),
    ensures
        closed(handles, uuid).no_duplicates(),
        forall|h: Seq<char>| #[trigger]
            closed(handles, uuid).contains(h) <==> handles.contains(h) && h != uuid,
{
    lemma_filter_no_duplicates(handles, other_than(uuid));
    assert forall|h: Seq<char>| #[trigger]
        closed(handles, uuid).contains(h) <==> handles.contains(h) && h != uuid by {
        if handles.contains(h) && h != uuid {
            assert(other_than(uuid)(h));
        }
    }
}

/// Who has a worker once the pool has opened the file of `pod`.
proof fn lemma_opened(handles: Seq<Seq<char>>, pod: PodView, tail: Option<Seq<char>>)
    requires
        handles.no_duplicates(),
    ensures
        opened(handles, pod, tail).no_duplicates(),
        forall|h: Seq<char>| #[trigger]
            opened(handles, pod, tail).contains(h) ==> handles.contains(h) || h == pod.uuid,
        forall|h: Seq<char>| handles.contains(h) ==> #[trigger] opened(handles, pod, tail).contains(h),
{
    let next = opened(handles, pod, tail);
    if !handles.contains(pod.uuid) && tail is Some {
        assert forall|h: Seq<char>| #[trigger] next.contains(h) implies handles.contains(h) || h
            == pod.uuid by {
            let k = choose|k: int| 0 <= k < next.len() && next[k] == h;
            if k < handles.len() {
                assert(handles[k] == h);
            }
        }
        assert forall|h: Seq<char>| handles.contains(h) implies #[trigger] next.contains(h) by {
            let k = choose|k: int| 0 <= k < handles.len() && handles[k] == h;
            assert(next[k] == h);
        }
    }
}

/// Who has a worker once the pool has reacted to one notice.
proof fn lemma_reacted(handles: Seq<Seq<char>>, n: NoticeView, tail: Option<Seq<char>>)
    requires
        handles.no_duplicates(),
    ensures
        reacted(handles, n, tail).no_duplicates(),
        forall|h: Seq<char>| #[trigger]
            reacted(handles, n, tail).contains(h) ==> (handles.contains(h) && (h != n.pod.uuid
                || n.change == Change::Add)) || (h == n.pod.uuid && !ends(n)),
        ends(n) ==> !reacted(handles, n, tail).contains(n.pod.uuid),
{
    lemma_closed(handles, n.pod.uuid);
    lemma_opened(closed(handles, n.pod.uuid), n.pod, tail);
}

/// Who has a worker once the pool has reacted to notices for records
/// with different keys: nobody has two, a worker is new only for a record
/// that was updated and is to be uploaded, and a record that was removed
/// or is not to be uploaded has none.
pub proof fn lemma_reacted_all(handles: Seq<Seq<char>>, notices: Seq<NoticeView>, tails: Tails)
    requires
        handles.no_duplicates(),
        apart(notices),
    ensures
        reacted_all(handles, notices, tails).no_duplicates(),
        forall|h: Seq<char>| #[trigger]
            reacted_all(handles, notices, tails).contains(h) ==> handles.contains(h) || exists|
                k: int,
            |
                0 <= k < notices.len() && (#[trigger] notices[k]).pod.uuid == h && !ends(notices[k]),
        forall|k: int|
            0 <= k < notices.len() && ends(#[trigger] notices[k]) ==> !reacted_all(
                handles,
                notices,
                tails,
            ).contains(notices[k].pod.uuid),
    decreases notices.len(),
{
    if notices.len() > 0 {
        let front = notices.drop_last();
        let last = notices.last();
        let mid = reacted_all(handles, front, tails);
        let end = reacted_all(handles, notices, tails);
        assert(apart(front)) by {
            assert forall|i: int, j: int| 0 <= i < j < front.len() implies (#[trigger] front[i]).pod.uuid
                != (#[trigger] front[j]).pod.uuid by {
                assert(front[i] == notices[i] && front[j] == notices[j]);
            }
        }
        lemma_reacted_all(handles, front, tails);
        lemma_reacted(mid, last, tails(last.pod));
        assert forall|h: Seq<char>| #[trigger] end.contains(h) implies handles.contains(h) || exists|
            k: int,
        |
            0 <= k < notices.len() && (#[trigger] notices[k]).pod.uuid == h && !ends(notices[k]) by {
            if mid.contains(h) && (h != last.pod.uuid || last.change == Change::Add) {
                if !handles.contains(h) {
                    let k = choose|k: int|
                        0 <= k < front.len() && (#[trigger] front[k]).pod.uuid == h && !ends(front[k]);
                    assert(notices[k] == front[k]);
                }
            } else {
                assert(notices[notices.len() - 1] == last);
            }
        }
        assert forall|k: int| 0 <= k < notices.len() && ends(#[trigger] notices[k]) implies !end.contains(
            notices[k].pod.uuid,
        ) by {
            if k < front.len() {
                assert(front[k] == notices[k]);
                assert(notices[k].pod.uuid != notices[notices.len() - 1].pod.uuid);
            }
        }
    }
}

/// The notices of one command are for records with different keys, each
/// is for a record of the registry as it was, and every record that the
/// command removed, or changed otherwise than in its offset, has its notice.
proof fn lemma_notices(pods: Seq<PodView>, m: MessageView)
    requires
        coherent(pods),
    ensures
        apart(notices(pods, m)),
        forall|k: int|
            0 <= k < notices(pods, m).len() ==> (#[trigger] notices(pods, m)[k]).change == Change::Add
                || exists|i: int|
                0 <= i < pods.len() && (#[trigger] pods[i]).uuid == notices(pods, m)[k].pod.uuid,
{
    let told = notices(pods, m);
    match m.event {
        Event::Apply => {
            lemma_position_from(pods, m.pod.uuid, 0);
        },
        Event::Delete => {
            let hits = pods.filter(doomed(m.pod));
            lemma_filter_coherent(pods, doomed(m.pod));
            assert forall|i: int, j: int| 0 <= i < j < told.len() implies (#[trigger] told[i]).pod.uuid != (
            #[trigger] told[j]).pod.uuid by {
                assert(hits[i].uuid != hits[j].uuid);
            }
            assert forall|k: int| 0 <= k < told.len() implies (#[trigger] told[k]).change == Change::Add
                || exists|i: int| 0 <= i < pods.len() && (#[trigger] pods[i]).uuid == told[k].pod.uuid by {
                assert(pods.contains(hits[k]));
                let i = choose|i: int| 0 <= i < pods.len() && pods[i] == hits[k];
                assert(pods[i].uuid == told[k].pod.uuid);
            }
        },
        Event::SetUpload => {
            let hits = pods.filter(of_pod(m.pod.ns, m.pod.pod));
            lemma_filter_coherent(pods, of_pod(m.pod.ns, m.pod.pod));
            assert forall|i: int, j: int| 0 <= i < j < told.len() implies (#[trigger] told[i]).pod.uuid != (
            #[trigger] told[j]).pod.uuid by {
                assert(hits[i].uuid != hits[j].uuid);
            }
            assert forall|k: int| 0 <= k < told.len() implies (#[trigger] told[k]).change == Change::Add
                || exists|i: int| 0 <= i < pods.len() && (#[trigger] pods[i]).uuid == told[k].pod.uuid by {
                assert(pods.contains(hits[k]));
                let i = choose|i: int| 0 <= i < pods.len() && pods[i] == hits[k];
                assert(pods[i].uuid == told[k].pod.uuid);
            }
        },
        _ => {},
    }
}

/// Whatever the command, the agent stays in agreement: once the registry
/// has carried out the command and the pool has reacted to what that made
/// known, the registry is coherent, no file has two workers, and no file
/// whose record is stopped has a worker.
pub proof fn lemma_commanded_agreed(s: AgentView, m: MessageView, tails: Tails)
    requires
        agreed(s),
    ensures
        agreed(commanded(s, m, tails)),
{
    let next = commanded(s, m, tails);
    let told = notices(s.pods, m);
    lemma_after_coherent(s.pods, m);
    lemma_notices(s.pods, m);
    lemma_reacted_all(s.handles, told, tails);
    assert forall|j: int|
        0 <= j < next.pods.len() && (#[trigger] next.pods[j]).state == State::Stopped implies !next.handles.contains(
        next.pods[j].uuid,
    ) by {
        let u = next.pods[j].uuid;
        assert(sound(next.pods[j]));
        lemma_stopped_was_or_is_told(s, m, j);
        if next.handles.contains(u) {
            if s.handles.contains(u) {
            } else {
                let k = choose|k: int|
                    0 <= k < told.len() && (#[trigger] told[k]).pod.uuid == u && !ends(told[k]);
                lemma_told_is_now(s.pods, m, k, j);
            }
        }
    }
}

/// A record that is stopped after a command either has a notice that ends
/// its worker, or was there and stopped before, with no notice of the
/// command for its key but its own.
proof fn lemma_stopped_was_or_is_told(s: AgentView, m: MessageView, j: int)
    requires
        agreed(s),
        0 <= j < after(s.pods, m).len(),
        after(s.pods, m)[j].state == State::Stopped,
    ensures
        ({
            let told = notices(s.pods, m);
            let u = after(s.pods, m)[j].uuid;
            ||| exists|k: int| 0 <= k < told.len() && (#[trigger] told[k]).pod.uuid == u && ends(told[k])
            ||| !s.handles.contains(u)
        }),
{
    let pods = s.pods;
    let next = after(pods, m);
    let told = notices(pods, m);
    let u = next[j].uuid;
    lemma_after_coherent(pods, m);
    assert(sound(next[j]));
    match m.event {
        Event::Apply => {
            lemma_position_from(pods, m.pod.uuid, 0);
            let i = position(pods, m.pod.uuid);
            if crate::database::acceptable(m.pod) && i < pods.len() {
                if j == i {
                    assert(told[0].pod.uuid == u && ends(told[0]));
                } else {
                    assert(next[j] == pods[j]);
                }
            } else if crate::database::acceptable(m.pod) {
                if j < pods.len() {
                    assert(next[j] == pods[j]);
                }
            }
        },
        Event::Delete => {
            lemma_filter_coherent(pods, spared(m.pod));
            assert(pods.contains(next[j]));
            let i = choose|i: int| 0 <= i < pods.len() && pods[i] == next[j];
            assert(pods[i].state == State::Stopped);
        },
        Event::IncrOffset => {
            lemma_position_from(pods, m.pod.uuid, 0);
            assert(next[j].state == pods[j].state && next[j].uuid == pods[j].uuid);
        },
        Event::SetUpload => {
            let pred = of_pod(m.pod.ns, m.pod.pod);
            if pred(pods[j]) {
                let hits = pods.filter(pred);
                pods.lemma_filter_contains(pred, j);
                let k = choose|k: int| 0 <= k < hits.len() && hits[k] == pods[j];
                assert(told[k] == noticed_toggle(m.pod.is_upload)(hits[k]));
                assert(told[k].pod == next[j]);
                assert(told[k].pod.uuid == u && ends(told[k]));
            } else {
                assert(next[j] == pods[j]);
            }
        },
        Event::Close => {},
    }
}

/// A notice that does not end the worker of its file is for a record that
/// is not stopped after the command.
proof fn lemma_told_is_now(pods: Seq<PodView>, m: MessageView, k: int, j: int)
    requires
        coherent(pods),
        0 <= k < notices(pods, m).len(),
        !ends(notices(pods, m)[k]),
        0 <= j < after(pods, m).len(),
        after(pods, m)[j].uuid == notices(pods, m)[k].pod.uuid,
    ensures
        after(pods, m)[j].state != State::Stopped,
{
    let next = after(pods, m);
    let told = notices(pods, m);
    lemma_after_coherent(pods, m);
    match m.event {
        Event::Apply => {
            lemma_position_from(pods, m.pod.uuid, 0);
            let i = position(pods, m.pod.uuid);
            if crate::database::acceptable(m.pod) && i < pods.len() {
                assert(told[0].pod == next[i]);
                if j != i {
                    if j < i {
                        assert(next[j].uuid != next[i].uuid);
                    } else {
                        assert(next[i].uuid != next[j].uuid);
                    }
                }
                assert(sound(next[i]));
            } else if crate::database::acceptable(m.pod) {
                let last = next.len() - 1;
                assert(told[0].pod == next[last]);
                if j != last {
                    assert(next[j].uuid != next[last].uuid);
                }
            }
        },
        Event::Delete => {
            assert(told[k] == noticed(Change::Delete)(pods.filter(doomed(m.pod))[k]));
        },
        Event::SetUpload => {
            let pred = of_pod(m.pod.ns, m.pod.pod);
            let hits = pods.filter(pred);
            lemma_filter_coherent(pods, pred);
            assert(told[k] == noticed_toggle(m.pod.is_upload)(hits[k]));
            assert(pods.contains(hits[k]));
            let i = choose|i: int| 0 <= i < pods.len() && pods[i] == hits[k];
            pods.lemma_filter_pred(pred, k);
            assert(next[i] == told[k].pod);
            if j != i {
                if j < i {
                    assert(next[j].uuid != next[i].uuid);
                } else {
                    assert(next[i].uuid != next[j].uuid);
                }
            }
            assert(sound(next[i]));
        },
        _ => {},
    }
}

/// In a coherent registry, what is found under a key is the record with
/// that key.
proof fn lemma_lookup(pods: Seq<PodView>, j: int)
    requires
        coherent(pods),
        0 <= j < pods.len(),
    ensures
        lookup(pods, pods[j].uuid) == Some(pods[j]),
{
    lemma_position_of(pods, j);
}

/// Whatever file appears, the agent stays in agreement.
pub proof fn lemma_appeared_agreed(s: AgentView, pei: PathEventInfoView, tail: Option<Seq<char>>)
    requires
        agreed(s),
    ensures
        agreed(appeared(s, pei, tail)),
{
    let next = appeared(s, pei, tail);
    let found = lookup(s.pods, pei.path);
    lemma_position_from(s.pods, pei.path, 0);
    lemma_opened(s.handles, ScannerOpenEvent::record(pei, found), tail);
    assert forall|j: int|
        0 <= j < next.pods.len() && (#[trigger] next.pods[j]).state == State::Stopped implies !next.handles.contains(
        next.pods[j].uuid,
    ) by {
        lemma_lookup(s.pods, j);
    }
}

/// Whatever file is written to, the agent stays in agreement.
pub proof fn lemma_wrote_agreed(s: AgentView, path: Seq<char>, tail: Option<Seq<char>>)
    requires
        agreed(s),
    ensures
        agreed(wrote(s, path, tail)),
{
    let next = wrote(s, path, tail);
    let found = lookup(s.pods, path);
    lemma_position_from(s.pods, path, 0);
    if found is Some {
        lemma_opened(s.handles, found->0, tail);
        assert(sound(s.pods[position(s.pods, path)]));
    }
    assert forall|j: int|
        0 <= j < next.pods.len() && (#[trigger] next.pods[j]).state == State::Stopped implies !next.handles.contains(
        next.pods[j].uuid,
    ) by {
        lemma_lookup(s.pods, j);
        assert(sound(s.pods[j]));
    }
}

/// Whatever file goes away, the agent stays in agreement.
pub proof fn lemma_vanished_agreed(s: AgentView, path: Seq<char>)
    requires
        agreed(s),
    ensures
        agreed(vanished(s, path)),
{
    lemma_closed(s.handles, path);
}

} // verus!
