use crate::database::Change;
use crate::database::Event;
use crate::database::MessageView;
use crate::database::Notice;
use crate::database::NoticeView;
use crate::db;
use crate::file::action_views;
use crate::file::close_actions;
use crate::file::closed;
use crate::file::open_actions;
use crate::file::opened;
use crate::file::pod_of;
use crate::file::text_of;
use crate::file::write_actions;
use crate::file::written;
use crate::file::FileAction;
use crate::file::FileActionView;
use crate::file::FileReaderWriter;
use crate::pod::Pod;
use crate::pod::PodView;
use crate::scan::record_of;
use crate::scan::PathEventInfo;
use crate::scan::PathEventInfoView;
use vstd::prelude::*;

verus! {

/// Appends the actions of `more` to `out`.
pub fn extend_actions(out: &mut Vec<FileAction>, more: Vec<FileAction>)
    ensures
        action_views(final(out)@) == action_views(old(out)@) + action_views(more@),
{
    let mut more = more;
    let ghost first = action_views(out@);
    let ghost second = action_views(more@);
    out.append(&mut more);
    assert(action_views(out@) =~= first + second);
}

/// The reaction to a file that appeared.
pub struct ScannerOpenEvent;

impl ScannerOpenEvent {
    /// The record with which a file that appeared is opened: what the
    /// registry holds for it, else the record read off its path.
    pub open spec fn record(pei: PathEventInfoView, known: Option<PodView>) -> PodView {
        match known {
            Some(r) => r,
            None => record_of(pei),
        }
    }

    /// The keys with a worker after the reaction.
    pub open spec fn handles(
        handles: Seq<Seq<char>>,
        pei: PathEventInfoView,
        known: Option<PodView>,
        tail: Option<Seq<char>>,
    ) -> Seq<Seq<char>> {
        if handles.contains(pei.path) || Self::stopped(known) {
            handles
        } else {
            opened(handles, Self::record(pei, known), tail)
        }
    }

    /// Whether the registry holds the file as one whose collection has
    /// ended.
    pub open spec fn stopped(known: Option<PodView>) -> bool {
        known matches Some(r) && r.state == crate::pod::State::Stopped
    }

    /// What the reaction asks for. A file that has a worker is left
    /// alone, and so is one whose collection has ended. A file that the
    /// registry does not hold is first applied to it, as the record read
    /// off its path. Then the file is opened.
    pub open spec fn actions(
        handles: Seq<Seq<char>>,
        pei: PathEventInfoView,
        known: Option<PodView>,
        tail: Option<Seq<char>>,
    ) -> Seq<FileActionView> {
        if handles.contains(pei.path) || Self::stopped(known) {
            Seq::empty()
        } else if known is Some {
            open_actions(handles, known->0, tail)
        } else {
            seq![
                FileActionView::Post(MessageView { event: Event::Apply, pod: record_of(pei) }),
            ] + open_actions(handles, record_of(pei), tail)
        }
    }

    /// Reacts to the appearance of the file of `pei`. `known` is what the
    /// registry holds under the path of the file; `tail` is what the file
    /// holds from the offset of that record, or from its start where
    /// there is no record, and `None` where the file could not be opened.
    pub fn handle(
        frw: &mut FileReaderWriter,
        pei: &PathEventInfo,
        known: Option<&Pod>,
        tail: Option<&str>,
    ) -> (r: Vec<FileAction>)
        requires
            old(frw).wf(),
        ensures
            final(frw).wf(),
            final(frw).workers() == old(frw).workers(),
            final(frw)@ == Self::handles(old(frw)@, pei@, pod_of(known), text_of(tail)),
            action_views(r@) == Self::actions(old(frw)@, pei@, pod_of(known), text_of(tail)),
    {
        let mut r: Vec<FileAction> = Vec::new();
        assert(action_views(r@) =~= Seq::<FileActionView>::empty());
        if frw.has_handle(pei.path.as_str()) {
            return r;
        }
        match known {
            Some(record) => {
                if record.is_stop() {
                    r
                } else {
                    frw.open_event(record, tail)
                }
            },
            None => {
                let pod = pei.to_pod();
                r.push(FileAction::Post(db::apply(&pod)));
                assert(action_views(r@) =~= seq![
                    FileActionView::Post(MessageView { event: Event::Apply, pod: record_of(pei@) }),
                ]);
                let more = frw.open_event(&pod, tail);
                extend_actions(&mut r, more);
                r
            },
        }
    }
}

/// The reaction to a file that grew.
pub struct ScannerWriteEvent;

impl ScannerWriteEvent {
    /// Reacts to a write to the file of `pei`: the pool is told of it.
    /// `known` and `tail` are as for the appearance of a file.
    pub fn handle(
        frw: &mut FileReaderWriter,
        pei: &PathEventInfo,
        known: Option<&Pod>,
        tail: Option<&str>,
    ) -> (r: Vec<FileAction>)
        requires
            old(frw).wf(),
        ensures
            final(frw).wf(),
            final(frw).workers() == old(frw).workers(),
            final(frw)@ == written(old(frw)@, pei@.path, pod_of(known), text_of(tail)),
            action_views(r@) == write_actions(old(frw)@, pei@.path, pod_of(known), text_of(tail)),
    {
        frw.write_event(pei.path.as_str(), known, tail)
    }
}

/// The reaction to a file that went away.
pub struct ScannerCloseEvent;

impl ScannerCloseEvent {
    /// What the reaction asks for: the worker of the file, where there is
    /// one, is told to end, and the registry is told to drop the file.
    pub open spec fn actions(handles: Seq<Seq<char>>, path: Seq<char>) -> Seq<FileActionView> {
        close_actions(handles, path).push(
            FileActionView::Post(
                MessageView { event: Event::Delete, pod: PodView { uuid: path, ..Pod::blank() } },
            ),
        )
    }

    /// Reacts to the removal of the file of `pei`.
    pub fn handle(frw: &mut FileReaderWriter, pei: &PathEventInfo) -> (r: Vec<FileAction>)
        requires
            old(frw).wf(),
        ensures
            final(frw).wf(),
            final(frw).workers() == old(frw).workers(),
            final(frw)@ == closed(old(frw)@, pei@.path),
            action_views(r@) == Self::actions(old(frw)@, pei@.path),
    {
        let mut r = frw.close_event(pei.path.as_str());
        let ghost seen = action_views(r@);
        r.push(FileAction::Post(db::delete(pei.path.as_str())));
        assert(action_views(r@) =~= seen.push(
            FileActionView::Post(
                MessageView {
                    event: Event::Delete,
                    pod: PodView { uuid: pei@.path, ..Pod::blank() },
                },
            ),
        ));
        r
    }
}

/// The reaction of the pool to a record that changed.
pub struct DBUpdateEvent;

impl DBUpdateEvent {
    /// The keys with a worker after the reaction.
    pub open spec fn handles(handles: Seq<Seq<char>>, pod: PodView, tail: Option<Seq<char>>) -> Seq<
        Seq<char>,
    > {
        if pod.is_upload {
            opened(closed(handles, pod.uuid), pod, tail)
        } else {
            closed(handles, pod.uuid)
        }
    }

    /// What the reaction asks for. A worker that the file has is told to
    /// end: it works from the record as it was. Where the file is to be
    /// uploaded, it is then opened with the record as it is now.
    pub open spec fn actions(handles: Seq<Seq<char>>, pod: PodView, tail: Option<Seq<char>>) -> Seq<
        FileActionView,
    > {
        if pod.is_upload {
            close_actions(handles, pod.uuid) + open_actions(closed(handles, pod.uuid), pod, tail)
        } else {
            close_actions(handles, pod.uuid)
        }
    }

    /// Reacts to the update of `pod`, the record as it is now. `tail` is
    /// what its file holds from the offset of the record, and `None`
    /// where the file could not be opened.
    pub fn handle(frw: &mut FileReaderWriter, pod: &Pod, tail: Option<&str>) -> (r: Vec<FileAction>)
        requires
            old(frw).wf(),
        ensures
            final(frw).wf(),
            final(frw).workers() == old(frw).workers(),
            final(frw)@ == Self::handles(old(frw)@, pod@, text_of(tail)),
            action_views(r@) == Self::actions(old(frw)@, pod@, text_of(tail)),
    {
        let mut r = frw.close_event(pod.uuid.as_str());
        if pod.is_upload {
            let more = frw.open_event(pod, tail);
            extend_actions(&mut r, more);
        }
        r
    }
}

/// The reaction of the pool to a record that was removed.
pub struct DBDeleteEvent;

impl DBDeleteEvent {
    /// Reacts to the removal of `pod`: the worker of its file, where there
    /// is one, is told to end.
    pub fn handle(frw: &mut FileReaderWriter, pod: &Pod) -> (r: Vec<FileAction>)
        requires
            old(frw).wf(),
        ensures
            final(frw).wf(),
            final(frw).workers() == old(frw).workers(),
            final(frw)@ == closed(old(frw)@, pod@.uuid),
            action_views(r@) == close_actions(old(frw)@, pod@.uuid),
    {
        frw.close_event(pod.uuid.as_str())
    }
}

/// The keys with a worker after the pool has reacted to a change of the
/// registry.
pub open spec fn reacted(handles: Seq<Seq<char>>, notice: NoticeView, tail: Option<Seq<char>>) -> Seq<
    Seq<char>,
> {
    match notice.change {
        Change::Add => handles,
        Change::Update => DBUpdateEvent::handles(handles, notice.pod, tail),
        Change::Delete => closed(handles, notice.pod.uuid),
    }
}

/// What the pool asks for in reaction to a change of the registry.
pub open spec fn reaction(handles: Seq<Seq<char>>, notice: NoticeView, tail: Option<Seq<char>>) -> Seq<
    FileActionView,
> {
    match notice.change {
        Change::Add => Seq::empty(),
        Change::Update => DBUpdateEvent::actions(handles, notice.pod, tail),
        Change::Delete => close_actions(handles, notice.pod.uuid),
    }
}

/// Lets the pool react to one change of the registry. `tail` is what the
/// file of the record holds from the offset of the record; it counts for
/// an update only.
pub fn react(frw: &mut FileReaderWriter, notice: &Notice, tail: Option<&str>) -> (r: Vec<FileAction>)
    requires
        old(frw).wf(),
    ensures
        final(frw).wf(),
        final(frw).workers() == old(frw).workers(),
        final(frw)@ == reacted(old(frw)@, notice@, text_of(tail)),
        action_views(r@) == reaction(old(frw)@, notice@, text_of(tail)),
{
    match notice.change {
        Change::Add => {
            let r: Vec<FileAction> = Vec::new();
            assert(action_views(r@) =~= Seq::<FileActionView>::empty());
            r
        },
        Change::Update => DBUpdateEvent::handle(frw, &notice.pod, tail),
        Change::Delete => DBDeleteEvent::handle(frw, &notice.pod),
    }
}

/// The command that ends collection for the records of pod `pod` of
/// namespace `ns`.
pub open spec fn stop_message(ns: Seq<char>, pod: Seq<char>) -> MessageView {
    MessageView {
        event: Event::SetUpload,
        pod: PodView { ns, pod, is_upload: false, ..Pod::blank() },
    }
}

/// To end collection for a pod ends the worker of each of its files.
/// Where the registry holds a running record of the pod, the command
/// stops the record and makes that known by exactly one update for the
/// key of the record. In reaction to the update the pool tells the
/// worker of the file to end, and the file has no worker from then on. A
/// write to the file that comes after that wakes nobody and opens nothing.
pub proof fn lemma_stop_ends_worker(
    pods: Seq<PodView>,
    handles: Seq<Seq<char>>,
    i: int,
    tail: Option<Seq<char>>,
    later: Option<Seq<char>>,
)
    requires
        crate::database::coherent(pods),
        0 <= i < pods.len(),
        pods[i].state == crate::pod::State::Running,
    ensures
        ({
            let m = stop_message(pods[i].ns, pods[i].pod);
            let stopped = crate::database::toggled(pods[i], false);
            let update = NoticeView { change: Change::Update, pod: stopped };
            let told = crate::database::notices(pods, m);
            let left = reacted(handles, update, tail);
            &&& crate::database::after(pods, m)[i] == stopped
            &&& stopped.state == crate::pod::State::Stopped
            &&& !stopped.is_upload
            &&& exists|k: int|
                0 <= k < told.len() && told[k] == update && forall|j: int|
                    0 <= j < told.len() && j != k ==> (#[trigger] told[j]).pod.uuid != pods[i].uuid
            &&& reaction(handles, update, tail) == close_actions(handles, pods[i].uuid)
            &&& !left.contains(pods[i].uuid)
            &&& written(left, pods[i].uuid, Some(stopped), later) == left
            &&& write_actions(left, pods[i].uuid, Some(stopped), later) == Seq::<
                FileActionView,
            >::empty()
        }),
{
    let m = stop_message(pods[i].ns, pods[i].pod);
    let stopped = crate::database::toggled(pods[i], false);
    let update = NoticeView { change: Change::Update, pod: stopped };
    let told = crate::database::notices(pods, m);
    let pred = crate::database::of_pod(pods[i].ns, pods[i].pod);
    let hits = pods.filter(pred);
    crate::database::lemma_filter_coherent(pods, pred);
    pods.lemma_filter_contains(pred, i);
    let k = choose|k: int| 0 <= k < hits.len() && hits[k] == pods[i];
    assert(told[k] == update);
    assert forall|j: int| 0 <= j < told.len() && j != k implies (#[trigger] told[j]).pod.uuid
        != pods[i].uuid by {
        if j < k {
            assert(hits[j].uuid != hits[k].uuid);
        } else {
            assert(hits[k].uuid != hits[j].uuid);
        }
    }
    crate::file::lemma_close_twice(handles, pods[i].uuid);
}

/// A file that appears and is new to the pool and to the registry is
/// inserted once: the reaction begins with the command that applies the
/// record read off the path, and the registry, which does not hold the
/// key, makes exactly one addition known for it.
pub proof fn lemma_appearance_adds_once(
    pods: Seq<PodView>,
    handles: Seq<Seq<char>>,
    pei: PathEventInfoView,
    tail: Option<Seq<char>>,
)
    requires
        !handles.contains(pei.path),
        !crate::database::known(pods, pei.path),
        pei.path.len() > 0,
    ensures
        ({
            let m = MessageView { event: Event::Apply, pod: record_of(pei) };
            &&& ScannerOpenEvent::actions(handles, pei, None, tail)[0] == FileActionView::Post(m)
            &&& crate::database::notices(pods, m) == seq![
                NoticeView { change: Change::Add, pod: crate::database::admitted(record_of(pei)) },
            ]
        }),
{
    crate::database::lemma_insert_adds_once(pods, record_of(pei));
}

} // verus!
