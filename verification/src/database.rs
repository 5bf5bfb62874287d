use crate::pod::Pod;
use crate::pod::PodView;
use crate::pod::State;
use crate::pod::views;
use crate::seqs::lemma_filter_push;
use vstd::prelude::*;

verus! {

/// The kinds of command that the registry accepts.
#[derive(Debug, Clone, Copy, PartialEq, Eq, Structural)]
pub enum Event {
    Apply,
    Delete,
    IncrOffset,
    SetUpload,
    Close,
}

impl Event {
    /// The name of the command kind, as text.
    pub open spec fn name(self) -> Seq<char> {
        match self {
            Event::Apply => "apply"@,
            Event::Delete => "del"@,
            Event::IncrOffset => "incr_offset"@,
            Event::SetUpload => "set_upload"@,
            Event::Close => "close"@,
        }
    }

    /// The name, as text.
    pub fn as_ref(&self) -> (r: &'static str)
        ensures
            r@ == self.name(),
    {
        match self {
            Event::Apply => "apply",
            Event::Delete => "del",
            Event::IncrOffset => "incr_offset",
            Event::SetUpload => "set_upload",
            Event::Close => "close",
        }
    }
}

/// A command on its way to the registry. The record carries the arguments:
/// which of its fields count depends on the kind.
#[derive(Debug, PartialEq)]
pub struct Message {
    pub event: Event,
    pub pod: Pod,
}

/// A command as the contracts see it.
pub struct MessageView {
    pub event: Event,
    pub pod: PodView,
}

impl View for Message {
    type V = MessageView;

    open spec fn view(&self) -> MessageView {
        MessageView { event: self.event, pod: self.pod@ }
    }
}

impl Clone for Message {
    fn clone(&self) -> (r: Self)
        ensures
            r@ == self@,
    {
        Message { event: self.event, pod: self.pod.clone() }
    }
}

/// What became of a record when a command was carried out.
#[derive(Debug, Clone, Copy, PartialEq, Eq, Structural)]
pub enum Change {
    Add,
    Delete,
    Update,
}

impl Change {
    /// The name under which listeners subscribe to the change.
    pub open spec fn name(self) -> Seq<char> {
        match self {
            Change::Add => "Add"@,
            Change::Delete => "Delete"@,
            Change::Update => "Update"@,
        }
    }

    /// The name, as text.
    pub fn as_ref(&self) -> (r: &'static str)
        ensures
            r@ == self.name(),
    {
        match self {
            Change::Add => "Add",
            Change::Delete => "Delete",
            Change::Update => "Update",
        }
    }
}

/// One change of the registry with the record as it stood after the change
/// (for a removal: as it stood before).
#[derive(Debug, PartialEq)]
pub struct Notice {
    pub change: Change,
    pub pod: Pod,
}

/// A notice as the contracts see it.
pub struct NoticeView {
    pub change: Change,
    pub pod: PodView,
}

impl View for Notice {
    type V = NoticeView;

    open spec fn view(&self) -> NoticeView {
        NoticeView { change: self.change, pod: self.pod@ }
    }
}

impl Clone for Notice {
    fn clone(&self) -> (r: Self)
        ensures
            r@ == self@,
    {
        Notice { change: self.change, pod: self.pod.clone() }
    }
}

/// The state a record is in once its upload flag has been set to `upload`.
pub open spec fn follow(state: State, upload: bool) -> State {
    if upload {
        State::Running
    } else if state == State::Running {
        State::Stopped
    } else {
        state
    }
}

/// Whether a record can be taken into the registry: it has a key and its
/// offset is a byte position.
pub open spec fn acceptable(r: PodView) -> bool {
    r.uuid.len() > 0 && r.offset >= 0
}

/// A record as the registry holds it right after its first insertion.
pub open spec fn admitted(r: PodView) -> PodView {
    PodView { state: State::Ready, ..r }
}

/// A stored record after a record with the same key has been applied to it.
pub open spec fn reapplied(stored: PodView, r: PodView) -> PodView {
    PodView { state: follow(stored.state, r.is_upload), ..Pod::merged(stored, r) }
}

/// A stored record after its upload flag has been set.
pub open spec fn toggled(stored: PodView, upload: bool) -> PodView {
    PodView { is_upload: upload, state: follow(stored.state, upload), ..stored }
}

/// A stored record after `delta` more bytes have been read.
pub open spec fn advanced(stored: PodView, delta: int) -> PodView {
    Pod::advanced(stored, delta)
}

/// Whether `delta` is a step that the offset of `stored` can take.
pub open spec fn can_advance(stored: PodView, delta: int) -> bool {
    Pod::can_advance(stored, delta)
}

/// The least index at or after `from` of a record with key `uuid`; the
/// length of `pods` where there is none.
pub open spec fn position_from(pods: Seq<PodView>, uuid: Seq<char>, from: int) -> int
    decreases pods.len() - from,
{
    if from < 0 || from >= pods.len() {
        pods.len() as int
    } else if pods[from].uuid == uuid {
        from
    } else {
        position_from(pods, uuid, from + 1)
    }
}

/// The index of the first record with key `uuid`; the length of `pods`
/// where there is none.
pub open spec fn position(pods: Seq<PodView>, uuid: Seq<char>) -> int {
    position_from(pods, uuid, 0)
}

/// Whether `pods` holds a record with key `uuid`.
pub open spec fn known(pods: Seq<PodView>, uuid: Seq<char>) -> bool {
    position(pods, uuid) < pods.len()
}

/// The test for "belongs to pod `pod` of namespace `ns`".
pub open spec fn of_pod(ns: Seq<char>, pod: Seq<char>) -> spec_fn(PodView) -> bool {
    |p: PodView| p.ns == ns && p.pod == pod
}

/// The test for "is removed by a delete command with argument `m`": with a
/// namespace in `m`, the records of that pod of that namespace; without one,
/// the record with the key of `m`.
pub open spec fn doomed(m: PodView) -> spec_fn(PodView) -> bool {
    |p: PodView|
        if m.ns.len() > 0 {
            p.ns == m.ns && p.pod == m.pod
        } else {
            p.uuid == m.uuid
        }
}

/// The test for "outlives a delete command with argument `m`".
pub open spec fn spared(m: PodView) -> spec_fn(PodView) -> bool {
    |p: PodView| !doomed(m)(p)
}

/// Sets the upload flag of the records of one pod and leaves the others.
pub open spec fn toggle_of(ns: Seq<char>, pod: Seq<char>, upload: bool) -> spec_fn(PodView) -> PodView {
    |p: PodView| if p.ns == ns && p.pod == pod { toggled(p, upload) } else { p }
}

/// Wraps a record into the notice of a change.
pub open spec fn noticed(change: Change) -> spec_fn(PodView) -> NoticeView {
    |p: PodView| NoticeView { change, pod: p }
}

/// Wraps a record into the update notice that follows setting its upload flag.
pub open spec fn noticed_toggle(upload: bool) -> spec_fn(PodView) -> NoticeView {
    |p: PodView| NoticeView { change: Change::Update, pod: toggled(p, upload) }
}

/// The records after command `m` has been carried out on `pods`.
pub open spec fn after(pods: Seq<PodView>, m: MessageView) -> Seq<PodView> {
    match m.event {
        Event::Apply => {
            let i = position(pods, m.pod.uuid);
            if !acceptable(m.pod) {
                pods
            } else if i < pods.len() {
                pods.update(i, reapplied(pods[i], m.pod))
            } else {
                pods.push(admitted(m.pod))
            }
        },
        Event::Delete => pods.filter(spared(m.pod)),
        Event::IncrOffset => {
            let i = position(pods, m.pod.uuid);
            if i < pods.len() && can_advance(pods[i], m.pod.last_offset) {
                pods.update(i, advanced(pods[i], m.pod.last_offset))
            } else {
                pods
            }
        },
        Event::SetUpload => pods.map_values(toggle_of(m.pod.ns, m.pod.pod, m.pod.is_upload)),
        Event::Close => pods,
    }
}

/// The changes that carrying out `m` on `pods` makes known, in order.
pub open spec fn notices(pods: Seq<PodView>, m: MessageView) -> Seq<NoticeView> {
    match m.event {
        Event::Apply => {
            let i = position(pods, m.pod.uuid);
            if !acceptable(m.pod) {
                Seq::empty()
            } else if i < pods.len() {
                seq![NoticeView { change: Change::Update, pod: reapplied(pods[i], m.pod) }]
            } else {
                seq![NoticeView { change: Change::Add, pod: admitted(m.pod) }]
            }
        },
        Event::Delete => pods.filter(doomed(m.pod)).map_values(noticed(Change::Delete)),
        Event::IncrOffset => Seq::empty(),
        Event::SetUpload => pods.filter(of_pod(m.pod.ns, m.pod.pod)).map_values(
            noticed_toggle(m.pod.is_upload),
        ),
        Event::Close => Seq::empty(),
    }
}

/// What a stored record satisfies: it has a key and an offset that is a
/// byte position, it runs only where it is to be uploaded, and it is
/// stopped only where it is not.
pub open spec fn sound(p: PodView) -> bool {
    &&& acceptable(p)
    &&& p.state == State::Running ==> p.is_upload
    &&& p.state == State::Stopped ==> !p.is_upload
}

/// What the records of a registry satisfy together: each is sound, and no
/// two share a key.
pub open spec fn coherent(pods: Seq<PodView>) -> bool {
    &&& forall|i: int| 0 <= i < pods.len() ==> sound(#[trigger] pods[i])
    &&& forall|i: int, j: int| 0 <= i < j < pods.len() ==> (#[trigger] pods[i]).uuid != (#[trigger] pods[j]).uuid
}


/// The notices of a vector as the contracts see them.
pub open spec fn notice_views(s: Seq<Notice>) -> Seq<NoticeView> {
    s.map_values(|n: Notice| n@)
}

/// Keyed records as the contracts see them.
pub open spec fn pair_views(s: Seq<(String, Pod)>) -> Seq<(Seq<char>, PodView)> {
    s.map_values(|e: (String, Pod)| (e.0@, e.1@))
}

/// Puts its key in front of a record.
pub open spec fn keyed() -> spec_fn(PodView) -> (Seq<char>, PodView) {
    |p: PodView| (p.uuid, p)
}

/// `position_from` is the first record with the key at or after `from`.
pub proof fn lemma_position_from(pods: Seq<PodView>, uuid: Seq<char>, from: int)
    requires
        0 <= from <= pods.len(),
    ensures
        from <= position_from(pods, uuid, from) <= pods.len(),
        position_from(pods, uuid, from) < pods.len() ==> pods[position_from(pods, uuid, from)].uuid
            == uuid,
        forall|j: int| from <= j < position_from(pods, uuid, from) ==> (#[trigger] pods[j]).uuid != uuid,
    decreases pods.len() - from,
{
    if from < pods.len() && pods[from].uuid != uuid {
        lemma_position_from(pods, uuid, from + 1);
    }
}

/// Removing records leaves a coherent registry coherent.
pub proof fn lemma_filter_coherent(pods: Seq<PodView>, pred: spec_fn(PodView) -> bool)
    requires
        coherent(pods),
    ensures
        coherent(pods.filter(pred)),
        forall|i: int| 0 <= i < pods.filter(pred).len() ==> pods.contains(#[trigger] pods.filter(pred)[i]),
    decreases pods.len(),
{
    reveal(Seq::filter);
    if pods.len() > 0 {
        let rest = pods.drop_last();
        let last = pods.last();
        assert(coherent(rest)) by {
            assert forall|i: int| 0 <= i < rest.len() implies sound(#[trigger] rest[i]) by {
                assert(rest[i] == pods[i]);
            }
            assert forall|i: int, j: int| 0 <= i < j < rest.len() implies (#[trigger] rest[i]).uuid != (
            #[trigger] rest[j]).uuid by {
                assert(rest[i] == pods[i] && rest[j] == pods[j]);
            }
        }
        lemma_filter_coherent(rest, pred);
        let f = rest.filter(pred);
        assert forall|i: int| 0 <= i < f.len() implies pods.contains(#[trigger] f[i]) by {
            assert(rest.contains(f[i]));
            let k = choose|k: int| 0 <= k < rest.len() && rest[k] == f[i];
            assert(pods[k] == f[i]);
        }
        if pred(last) {
            let g = f.push(last);
            assert(pods.filter(pred) == g);
            assert(pods[pods.len() - 1] == last);
            assert forall|i: int| 0 <= i < g.len() implies sound(#[trigger] g[i]) && pods.contains(g[i]) by {
                if i < f.len() {
                    assert(g[i] == f[i]);
                }
            }
            assert forall|i: int, j: int| 0 <= i < j < g.len() implies (#[trigger] g[i]).uuid != (
            #[trigger] g[j]).uuid by {
                if j < f.len() {
                    assert(g[i] == f[i] && g[j] == f[j]);
                } else {
                    assert(g[i] == f[i]);
                    assert(rest.contains(f[i]));
                    let k = choose|k: int| 0 <= k < rest.len() && rest[k] == f[i];
                    assert(pods[k] == f[i]);
                    assert(pods[k].uuid != pods[pods.len() - 1].uuid);
                }
            }
        }
    }
}

/// Every command leaves a coherent registry coherent: keys stay unique,
/// offsets stay byte positions, and only a record that is to be uploaded
/// is running.
pub proof fn lemma_after_coherent(pods: Seq<PodView>, m: MessageView)
    requires
        coherent(pods),
    ensures
        coherent(after(pods, m)),
{
    let next = after(pods, m);
    match m.event {
        Event::Apply => {
            lemma_position_from(pods, m.pod.uuid, 0);
            let i = position(pods, m.pod.uuid);
            if acceptable(m.pod) && i < pods.len() {
                assert forall|a: int, b: int| 0 <= a < b < next.len() implies (#[trigger] next[a]).uuid != (
                #[trigger] next[b]).uuid by {
                    assert(next[a].uuid == pods[a].uuid && next[b].uuid == pods[b].uuid);
                }
                assert forall|a: int| 0 <= a < next.len() implies sound(#[trigger] next[a]) by {
                    assert(sound(pods[a]));
                }
            } else if acceptable(m.pod) {
                assert forall|a: int, b: int| 0 <= a < b < next.len() implies (#[trigger] next[a]).uuid != (
                #[trigger] next[b]).uuid by {
                    if b < pods.len() {
                        assert(next[a] == pods[a] && next[b] == pods[b]);
                    } else {
                        assert(next[a] == pods[a]);
                    }
                }
                assert forall|a: int| 0 <= a < next.len() implies sound(#[trigger] next[a]) by {
                    if a < pods.len() {
                        assert(next[a] == pods[a]);
                    }
                }
            }
        },
        Event::Delete => {
            lemma_filter_coherent(pods, spared(m.pod));
        },
        Event::IncrOffset => {
            lemma_position_from(pods, m.pod.uuid, 0);
            let i = position(pods, m.pod.uuid);
            if i < pods.len() && can_advance(pods[i], m.pod.last_offset) {
                assert forall|a: int, b: int| 0 <= a < b < next.len() implies (#[trigger] next[a]).uuid != (
                #[trigger] next[b]).uuid by {
                    assert(next[a].uuid == pods[a].uuid && next[b].uuid == pods[b].uuid);
                }
                assert forall|a: int| 0 <= a < next.len() implies sound(#[trigger] next[a]) by {
                    assert(sound(pods[a]));
                    if a == i {
                        assert(next[a] == advanced(pods[i], m.pod.last_offset));
                    } else {
                        assert(next[a] == pods[a]);
                    }
                }
            }
        },
        Event::SetUpload => {
            assert forall|a: int, b: int| 0 <= a < b < next.len() implies (#[trigger] next[a]).uuid != (
            #[trigger] next[b]).uuid by {
                assert(next[a].uuid == pods[a].uuid && next[b].uuid == pods[b].uuid);
            }
            assert forall|a: int| 0 <= a < next.len() implies sound(#[trigger] next[a]) by {
                assert(sound(pods[a]));
            }
        },
        Event::Close => {},
    }
}


/// What carrying out one command gave: the changes to make known, in
/// order, and whether the registry goes on taking commands.
pub struct Outcome {
    pub notices: Vec<Notice>,
    pub running: bool,
}

/// The registry: every known log file with its offset and its desired
/// upload state, in the order in which the files became known.
pub struct MemDatabase {
    pods: Vec<Pod>,
}

impl View for MemDatabase {
    type V = Seq<PodView>;

    closed spec fn view(&self) -> Seq<PodView> {
        views(self.pods@)
    }
}

impl MemDatabase {
    /// The invariant of the registry.
    pub open spec fn wf(&self) -> bool {
        coherent(self@)
    }

    /// An empty registry.
    pub fn new() -> (r: Self)
        ensures
            r@ == Seq::<PodView>::empty(),
            r.wf(),
    {
        Self::default()
    }

    /// An empty registry.
    pub fn default() -> (r: Self)
        ensures
            r@ == Seq::<PodView>::empty(),
            r.wf(),
    {
        let r = MemDatabase { pods: Vec::new() };
        assert(r@ =~= Seq::<PodView>::empty());
        r
    }

    /// The number of records.
    pub fn len(&self) -> (n: usize)
        ensures
            n == self@.len(),
    {
        self.pods.len()
    }

    /// The index of the record with key `uuid`, or the number of records.
    fn find(&self, uuid: &String) -> (i: usize)
        ensures
            i == position(self@, uuid@),
            i <= self.pods@.len(),
    {
        let mut i: usize = 0;
        while i < self.pods.len() && self.pods[i].uuid != *uuid
            invariant
                i <= self.pods@.len(),
                position(self@, uuid@) == position_from(self@, uuid@, i as int),
            decreases self.pods@.len() - i,
        {
            i = i + 1;
        }
        i
    }

    /// The record with key `uuid`, if the registry holds one.
    pub fn get(&self, uuid: &str) -> (r: Option<Pod>)
        ensures
            r is Some == known(self@, uuid@),
            r matches Some(p) ==> p@ == self@[position(self@, uuid@)],
    {
        let key = uuid.to_owned();
        let i = self.find(&key);
        if i < self.pods.len() {
            Some(self.pods[i].clone())
        } else {
            None
        }
    }

    /// The records of pod `pod` of namespace `ns`, each with its key, in
    /// the order of the registry.
    pub fn slice(&self, ns: &str, pod: &str) -> (r: Vec<(String, Pod)>)
        ensures
            pair_views(r@) == self@.filter(of_pod(ns@, pod@)).map_values(keyed()),
    {
        let ns = ns.to_owned();
        let pod = pod.to_owned();
        let mut out: Vec<(String, Pod)> = Vec::new();
        let ghost all = self@;
        let mut i: usize = 0;
        proof {
            reveal(Seq::filter);
            assert(all.take(0).filter(of_pod(ns@, pod@)) =~= Seq::<PodView>::empty());
        }
        while i < self.pods.len()
            invariant
                i <= self.pods@.len(),
                all == self@,
                all.len() == self.pods@.len(),
                pair_views(out@) =~= all.take(i as int).filter(of_pod(ns@, pod@)).map_values(keyed()),
            decreases self.pods@.len() - i,
        {
            let ghost seen = pair_views(out@);
            proof {
                assert(all.take(i + 1) =~= all.take(i as int).push(all[i as int]));
                lemma_filter_push(all.take(i as int), all[i as int], of_pod(ns@, pod@));
            }
            if self.pods[i].ns == ns && self.pods[i].pod == pod {
                let p = self.pods[i].clone();
                out.push((p.uuid.clone(), p));
                assert(pair_views(out@) =~= seen.push(keyed()(all[i as int])));
            }
            i = i + 1;
        }
        assert(all.take(i as int) =~= all);
        out
    }

    /// A copy of every record, in the order of the registry.
    pub fn all(&self) -> (r: Vec<Pod>)
        ensures
            views(r@) == self@,
    {
        let r = crate::pod::clone_pods(&self.pods);
        r
    }

    /// Carries out an apply command.
    fn apply(&mut self, pod: &Pod) -> (r: Vec<Notice>)
        ensures
            final(self)@ == after(old(self)@, (MessageView { event: Event::Apply, pod: pod@ })),
            notice_views(r@) == notices(old(self)@, (MessageView { event: Event::Apply, pod: pod@ })),
    {
        let mut out: Vec<Notice> = Vec::new();
        if pod.uuid.as_str().unicode_len() == 0 || pod.offset < 0 {
            assert(notice_views(out@) =~= Seq::<NoticeView>::empty());
            return out;
        }
        let i = self.find(&pod.uuid);
        if i < self.pods.len() {
            self.pods[i].merge_with(pod);
            if pod.is_upload {
                self.pods[i].state = State::Running;
            } else if self.pods[i].state == State::Running {
                self.pods[i].state = State::Stopped;
            }
            out.push(Notice { change: Change::Update, pod: self.pods[i].clone() });
            assert(self@ =~= old(self)@.update(i as int, reapplied(old(self)@[i as int], pod@)));
        } else {
            let mut fresh = pod.clone();
            fresh.state = State::Ready;
            out.push(Notice { change: Change::Add, pod: fresh.clone() });
            self.pods.push(fresh);
            assert(self@ =~= old(self)@.push(admitted(pod@)));
        }
        assert(notice_views(out@) =~= notices(
            old(self)@,
            (MessageView { event: Event::Apply, pod: pod@ }),
        ));
        out
    }

    /// Whether a delete command with argument `m` removes `p`.
    fn is_doomed(p: &Pod, m: &Pod) -> (r: bool)
        ensures
            r == doomed(m@)(p@),
    {
        if m.ns.as_str().unicode_len() > 0 {
            p.ns == m.ns && p.pod == m.pod
        } else {
            p.uuid == m.uuid
        }
    }

    /// Carries out a delete command.
    fn remove(&mut self, m: &Pod) -> (r: Vec<Notice>)
        ensures
            final(self)@ == old(self)@.filter(spared(m@)),
            notice_views(r@) == old(self)@.filter(doomed(m@)).map_values(noticed(Change::Delete)),
    {
        let mut kept: Vec<Pod> = Vec::new();
        let mut out: Vec<Notice> = Vec::new();
        let ghost all = self@;
        let mut i: usize = 0;
        proof {
            reveal(Seq::filter);
            assert(all.take(0).filter(spared(m@)) =~= Seq::<PodView>::empty());
            assert(all.take(0).filter(doomed(m@)) =~= Seq::<PodView>::empty());
        }
        while i < self.pods.len()
            invariant
                i <= self.pods@.len(),
                all == self@,
                all.len() == self.pods@.len(),
                views(kept@) =~= all.take(i as int).filter(spared(m@)),
                notice_views(out@) =~= all.take(i as int).filter(doomed(m@)).map_values(
                    noticed(Change::Delete),
                ),
            decreases self.pods@.len() - i,
        {
            let p = self.pods[i].clone();
            proof {
                assert(all.take(i + 1) =~= all.take(i as int).push(p@));
                lemma_filter_push(all.take(i as int), p@, spared(m@));
                lemma_filter_push(all.take(i as int), p@, doomed(m@));
            }
            let ghost seen = notice_views(out@);
            let ghost held = views(kept@);
            if Self::is_doomed(&p, m) {
                out.push(Notice { change: Change::Delete, pod: p });
                assert(notice_views(out@) =~= seen.push(noticed(Change::Delete)(p@)));
            } else {
                kept.push(p);
                assert(views(kept@) =~= held.push(p@));
            }
            i = i + 1;
        }
        assert(all.take(i as int) =~= all);
        self.pods = kept;
        out
    }

    /// Carries out an offset step.
    fn advance(&mut self, m: &Pod)
        ensures
            final(self)@ == after(old(self)@, (MessageView { event: Event::IncrOffset, pod: m@ })),
    {
        let i = self.find(&m.uuid);
        if i < self.pods.len() {
            self.pods[i].incr_offset(m.last_offset);
            proof {
                if can_advance(old(self)@[i as int], m@.last_offset) {
                    assert(self@ =~= old(self)@.update(
                        i as int,
                        advanced(old(self)@[i as int], m@.last_offset),
                    ));
                } else {
                    assert(self@ =~= old(self)@);
                }
            }
        }
    }

    /// Carries out a command that sets the upload flag of a pod's records.
    fn toggle(&mut self, m: &Pod) -> (r: Vec<Notice>)
        ensures
            final(self)@ == old(self)@.map_values(toggle_of(m@.ns, m@.pod, m@.is_upload)),
            notice_views(r@) == old(self)@.filter(of_pod(m@.ns, m@.pod)).map_values(
                noticed_toggle(m@.is_upload),
            ),
    {
        let mut out: Vec<Notice> = Vec::new();
        let ghost all = self@;
        let ghost f = toggle_of(m@.ns, m@.pod, m@.is_upload);
        let mut i: usize = 0;
        proof {
            reveal(Seq::filter);
            assert(all.take(0).filter(of_pod(m@.ns, m@.pod)) =~= Seq::<PodView>::empty());
        }
        while i < self.pods.len()
            invariant
                i <= self.pods@.len(),
                all.len() == self.pods@.len(),
                forall|j: int| 0 <= j < i ==> (#[trigger] self@[j]) == f(all[j]),
                forall|j: int| i <= j < all.len() ==> (#[trigger] self@[j]) == all[j],
                f == toggle_of(m@.ns, m@.pod, m@.is_upload),
                notice_views(out@) =~= all.take(i as int).filter(of_pod(m@.ns, m@.pod)).map_values(
                    noticed_toggle(m@.is_upload),
                ),
            decreases self.pods@.len() - i,
        {
            let ghost before = self@;
            let ghost seen = notice_views(out@);
            proof {
                assert(self@[i as int] == all[i as int]);
                assert(all.take(i + 1) =~= all.take(i as int).push(all[i as int]));
                lemma_filter_push(all.take(i as int), all[i as int], of_pod(m@.ns, m@.pod));
            }
            if self.pods[i].ns == m.ns && self.pods[i].pod == m.pod {
                self.pods[i].is_upload = m.is_upload;
                if m.is_upload {
                    self.pods[i].state = State::Running;
                } else if self.pods[i].state == State::Running {
                    self.pods[i].state = State::Stopped;
                }
                out.push(Notice { change: Change::Update, pod: self.pods[i].clone() });
                assert(notice_views(out@) =~= seen.push(noticed_toggle(m@.is_upload)(all[i as int])));
            }
            proof {
                assert(self@ =~= before.update(i as int, f(all[i as int])));
                assert forall|j: int| 0 <= j < i + 1 implies (#[trigger] self@[j]) == f(all[j]) by {
                    if j < i {
                        assert(before[j] == f(all[j]));
                    }
                }
                assert forall|j: int| i + 1 <= j < all.len() implies (#[trigger] self@[j]) == all[j] by {
                    assert(before[j] == all[j]);
                }
            }
            i = i + 1;
        }
        assert(all.take(i as int) =~= all);
        assert(self@ =~= all.map_values(f));
        out
    }

    /// Carries out one command: changes the records as the command asks and
    /// returns the changes to make known. A command that cannot be carried
    /// out (a record without a key or with a negative offset, a step that is
    /// negative or leads past the largest offset, a key that is not known)
    /// changes nothing.
    pub fn handle(&mut self, msg: &Message) -> (r: Outcome)
        requires
            old(self).wf(),
        ensures
            final(self).wf(),
            final(self)@ == after(old(self)@, msg@),
            notice_views(r.notices@) == notices(old(self)@, msg@),
            r.running == (msg.event != Event::Close),
    {
        proof {
            lemma_after_coherent(self@, msg@);
        }
        match msg.event {
            Event::Apply => {
                let notices = self.apply(&msg.pod);
                Outcome { notices, running: true }
            },
            Event::Delete => {
                let notices = self.remove(&msg.pod);
                Outcome { notices, running: true }
            },
            Event::IncrOffset => {
                self.advance(&msg.pod);
                let notices: Vec<Notice> = Vec::new();
                assert(notice_views(notices@) =~= Seq::<NoticeView>::empty());
                Outcome { notices, running: true }
            },
            Event::SetUpload => {
                let notices = self.toggle(&msg.pod);
                Outcome { notices, running: true }
            },
            Event::Close => {
                let notices: Vec<Notice> = Vec::new();
                assert(notice_views(notices@) =~= Seq::<NoticeView>::empty());
                Outcome { notices, running: false }
            },
        }
    }
}


/// The record with key `uuid`.
pub open spec fn record(pods: Seq<PodView>, uuid: Seq<char>) -> PodView {
    pods[position(pods, uuid)]
}

/// The records after the commands `msgs` have been carried out on `pods`
/// one after the other.
pub open spec fn run(pods: Seq<PodView>, msgs: Seq<MessageView>) -> Seq<PodView>
    decreases msgs.len(),
{
    if msgs.len() == 0 {
        pods
    } else {
        after(run(pods, msgs.drop_last()), msgs.last())
    }
}

/// In a coherent registry a record is found under its key.
pub proof fn lemma_position_of(pods: Seq<PodView>, k: int)
    requires
        coherent(pods),
        0 <= k < pods.len(),
    ensures
        position(pods, pods[k].uuid) == k,
{
    lemma_position_from(pods, pods[k].uuid, 0);
    let p = position(pods, pods[k].uuid);
    if p < k {
        assert(pods[p].uuid != pods[k].uuid);
    }
}

/// Two lists that hold the same keys at the same places find every key at
/// the same place.
pub proof fn lemma_position_same_keys(a: Seq<PodView>, b: Seq<PodView>, uuid: Seq<char>, from: int)
    requires
        a.len() == b.len(),
        forall|j: int| 0 <= j < a.len() ==> (#[trigger] a[j]).uuid == b[j].uuid,
        0 <= from,
    ensures
        position_from(a, uuid, from) == position_from(b, uuid, from),
    decreases a.len() - from,
{
    if from < a.len() {
        assert(a[from].uuid == b[from].uuid);
        if a[from].uuid != uuid {
            lemma_position_same_keys(a, b, uuid, from + 1);
        }
    }
}

/// A key that is found is found at the same place after a record was
/// put behind the others.
pub proof fn lemma_position_push(pods: Seq<PodView>, x: PodView, uuid: Seq<char>, from: int)
    requires
        0 <= from <= pods.len(),
        position_from(pods, uuid, from) < pods.len(),
    ensures
        position_from(pods.push(x), uuid, from) == position_from(pods, uuid, from),
    decreases pods.len() - from,
{
    if from < pods.len() {
        assert(pods.push(x)[from] == pods[from]);
        if pods[from].uuid != uuid {
            lemma_position_push(pods, x, uuid, from + 1);
        }
    }
}

/// Offsets only grow: whatever the command, a record that is there before
/// and after it has an offset that is not smaller than before.
pub proof fn lemma_offset_never_falls(pods: Seq<PodView>, m: MessageView, uuid: Seq<char>)
    requires
        coherent(pods),
        known(pods, uuid),
        known(after(pods, m), uuid),
    ensures
        record(pods, uuid).offset <= record(after(pods, m), uuid).offset,
{
    let next = after(pods, m);
    lemma_position_from(pods, uuid, 0);
    lemma_position_from(next, uuid, 0);
    let i = position(pods, uuid);
    match m.event {
        Event::Apply => {
            lemma_position_from(pods, m.pod.uuid, 0);
            let k = position(pods, m.pod.uuid);
            if acceptable(m.pod) && k < pods.len() {
                assert(next == pods.update(k, reapplied(pods[k], m.pod)));
                lemma_position_same_keys(pods, next, uuid, 0);
                assert(next[i].offset == pods[i].offset);
            } else if acceptable(m.pod) {
                assert(next == pods.push(admitted(m.pod)));
                lemma_position_push(pods, admitted(m.pod), uuid, 0);
                assert(next[i] == pods[i]);
            }
        },
        Event::Delete => {
            lemma_filter_coherent(pods, spared(m.pod));
            let e = next[position(next, uuid)];
            assert(pods.contains(e));
            let k = choose|k: int| 0 <= k < pods.len() && pods[k] == e;
            lemma_position_of(pods, k);
        },
        Event::IncrOffset => {
            lemma_position_from(pods, m.pod.uuid, 0);
            let k = position(pods, m.pod.uuid);
            if k < pods.len() && can_advance(pods[k], m.pod.last_offset) {
                assert(next == pods.update(k, advanced(pods[k], m.pod.last_offset)));
                lemma_position_same_keys(pods, next, uuid, 0);
                assert(next[i].offset >= pods[i].offset);
            }
        },
        Event::SetUpload => {
            assert(next.len() == pods.len());
            lemma_position_same_keys(pods, next, uuid, 0);
            assert(next[i].offset == pods[i].offset);
        },
        Event::Close => {},
    }
}

/// Offsets only grow over time: a record that is there before, during and
/// after a run of commands has in the end an offset that is not smaller
/// than at the start.
pub proof fn lemma_offset_never_falls_in_run(pods: Seq<PodView>, msgs: Seq<MessageView>, uuid: Seq<char>)
    requires
        coherent(pods),
        forall|k: int| 0 <= k <= msgs.len() ==> known(#[trigger] run(pods, msgs.take(k)), uuid),
    ensures
        coherent(run(pods, msgs)),
        record(pods, uuid).offset <= record(run(pods, msgs), uuid).offset,
    decreases msgs.len(),
{
    if msgs.len() == 0 {
        assert(msgs.take(0) =~= msgs);
    } else {
        let front = msgs.drop_last();
        assert forall|k: int| 0 <= k <= front.len() implies known(#[trigger] run(pods, front.take(k)), uuid) by {
            assert(front.take(k) =~= msgs.take(k));
        }
        lemma_offset_never_falls_in_run(pods, front, uuid);
        assert(msgs.take(msgs.len() as int) =~= msgs);
        assert(msgs.take(msgs.len() - 1) =~= front);
        assert(known(run(pods, msgs.take(msgs.len() - 1)), uuid));
        assert(known(run(pods, msgs.take(msgs.len() as int)), uuid));
        lemma_after_coherent(run(pods, front), msgs.last());
        lemma_offset_never_falls(run(pods, front), msgs.last(), uuid);
    }
}

/// A record that is applied to a registry that does not hold its key is
/// inserted, and the insertion is made known once, as an addition.
pub proof fn lemma_insert_adds_once(pods: Seq<PodView>, r: PodView)
    requires
        acceptable(r),
        !known(pods, r.uuid),
    ensures
        after(pods, (MessageView { event: Event::Apply, pod: r })) == pods.push(admitted(r)),
        notices(pods, (MessageView { event: Event::Apply, pod: r })) == seq![
            NoticeView { change: Change::Add, pod: admitted(r) },
        ],
{
    lemma_position_from(pods, r.uuid, 0);
}

/// Applying a record to a registry that holds its key is made known once,
/// as an update, and applying the same record once more changes no
/// record and is made known in the same way.
pub proof fn lemma_apply_twice(pods: Seq<PodView>, r: PodView)
    requires
        coherent(pods),
        acceptable(r),
        known(pods, r.uuid),
    ensures
        ({
            let m = MessageView { event: Event::Apply, pod: r };
            &&& after(after(pods, m), m) == after(pods, m)
            &&& notices(pods, m) == seq![
                NoticeView { change: Change::Update, pod: record(after(pods, m), r.uuid) },
            ]
            &&& notices(after(pods, m), m) == notices(pods, m)
        }),
{
    let m = MessageView { event: Event::Apply, pod: r };
    let next = after(pods, m);
    lemma_position_from(pods, r.uuid, 0);
    let i = position(pods, r.uuid);
    lemma_position_same_keys(pods, next, r.uuid, 0);
    assert(reapplied(reapplied(pods[i], r), r) == reapplied(pods[i], r));
    assert(after(next, m) =~= next);
}

/// How many listeners are told of `notices`, where the listeners are
/// registered under `names`: for each notice those under the name of its
/// change.
pub open spec fn told(names: Seq<Seq<char>>, notices: Seq<NoticeView>) -> nat
    decreases notices.len(),
{
    if notices.len() == 0 {
        0
    } else {
        told(names, notices.drop_last()) + names.filter(
            crate::event::named(notices.last().change.name()),
        ).len()
    }
}

/// Makes the changes of the registry known: each notice is handed, in
/// the order of the list, to the listeners registered under the name of
/// its change. Returns how many listeners were told, or the largest
/// number there is where they were more.
pub fn tell(events: &crate::event::EventHandler<Notice>, notices: &Vec<Notice>) -> (n: usize)
    ensures
        n == told(events.names(), notice_views(notices@)) || (n == usize::MAX && told(
            events.names(),
            notice_views(notices@),
        ) > usize::MAX),
{
    let mut n: usize = 0;
    let mut over = false;
    let mut i: usize = 0;
    while i < notices.len()
        invariant
            i <= notices@.len(),
            !over ==> n == told(events.names(), notice_views(notices@).take(i as int)),
            over ==> n == usize::MAX && told(events.names(), notice_views(notices@).take(i as int))
                > usize::MAX,
        decreases notices@.len() - i,
    {
        proof {
            let now = notice_views(notices@).take(i + 1);
            assert(now.drop_last() =~= notice_views(notices@).take(i as int));
            assert(now.last() == notices@[i as int]@);
        }
        let k = events.event(notices[i].change.as_ref().to_owned(), notices[i].clone());
        if over || k > usize::MAX - n {
            over = true;
            n = usize::MAX;
        } else {
            n = n + k;
        }
        i = i + 1;
    }
    assert(notice_views(notices@).take(i as int) =~= notice_views(notices@));
    n
}

} // verus!
