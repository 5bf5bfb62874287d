use crate::event::EventHandler;
use crate::event::Listener;
use crate::pod::Pod;
use crate::pod::PodView;
use crate::text::chars_of;
use crate::text::ends_with;
use crate::text::find_char;
use crate::text::first_at;
use crate::text::has_prefix;
use crate::text::has_suffix;
use crate::text::same_text;
use crate::text::starts_with;
use vstd::prelude::*;
use vstd::string::StrSliceExecFns;

verus! {

/// What a change in the watched directory asks of the tailer.
#[derive(Debug, Clone, Copy, PartialEq, Eq, Structural)]
pub enum PathEvent {
    NeedOpen,
    NeedClose,
    NeedWrite,
}

impl PathEvent {
    /// The name under which listeners subscribe to the event.
    pub open spec fn name(self) -> Seq<char> {
        match self {
            PathEvent::NeedOpen => "NeedOpen"@,
            PathEvent::NeedClose => "NeedClose"@,
            PathEvent::NeedWrite => "NeedWrite"@,
        }
    }

    /// The name, as text.
    pub fn as_ref(&self) -> (r: &'static str)
        ensures
            r@ == self.name(),
    {
        match self {
            PathEvent::NeedOpen => "NeedOpen",
            PathEvent::NeedClose => "NeedClose",
            PathEvent::NeedWrite => "NeedWrite",
        }
    }
}

/// Gives access to the path event that a payload carries.
pub trait GetPathEventInfo {
    fn get(&self) -> &PathEventInfo;
}

/// Gives a payload in a form fit for a log line.
pub trait GetDebug {
    fn get_debug(&self) -> String;
}

/// The identity of a container log file, read off its path.
#[derive(Debug, PartialEq)]
pub struct PathEventInfo {
    pub namespace: String,
    pub pod: String,
    pub container: String,
    pub path: String,
}

/// The identity of a log file as the contracts see it.
pub struct PathEventInfoView {
    pub namespace: Seq<char>,
    pub pod: Seq<char>,
    pub container: Seq<char>,
    pub path: Seq<char>,
}

impl View for PathEventInfo {
    type V = PathEventInfoView;

    open spec fn view(&self) -> PathEventInfoView {
        PathEventInfoView {
            namespace: self.namespace@,
            pod: self.pod@,
            container: self.container@,
            path: self.path@,
        }
    }
}

impl Clone for PathEventInfo {
    fn clone(&self) -> (r: Self)
        ensures
            r@ == self@,
    {
        PathEventInfo {
            namespace: self.namespace.clone(),
            pod: self.pod.clone(),
            container: self.container.clone(),
            path: self.path.clone(),
        }
    }
}

impl GetPathEventInfo for PathEventInfo {
    fn get(&self) -> (r: &PathEventInfo)
        ensures
            r == self,
    {
        self
    }
}

/// The text that the formatter which std derives for `Debug` writes for
/// the identity with these four fields.
pub uninterp spec fn debug_form(
    namespace: Seq<char>,
    pod: Seq<char>,
    container: Seq<char>,
    path: Seq<char>,
) -> Seq<char>;

/// Writes `p` out with the formatter that std derives for `Debug`. The
/// contract only names the text: the same four fields always give the
/// same text.
#[verifier::external_body]
fn debug_text(p: &PathEventInfo) -> (r: String)
    ensures
        r@ == debug_form(p.namespace@, p.pod@, p.container@, p.path@),
{
    format!("{:?}", p)
}

impl GetDebug for PathEventInfo {
    /// The identity as the derived `Debug` writes it.
    fn get_debug(&self) -> (r: String)
        ensures
            r@ == debug_form(self.namespace@, self.pod@, self.container@, self.path@),
    {
        debug_text(self)
    }
}

/// The record that stands for a file when it is first seen: keyed by the
/// path, at offset zero, not to be uploaded.
pub open spec fn record_of(p: PathEventInfoView) -> PodView {
    PodView { uuid: p.path, ns: p.namespace, pod: p.pod, container: p.container, ..Pod::blank() }
}

impl PathEventInfo {
    /// The record that stands for the file when it is first seen.
    pub fn to_pod(&self) -> (r: Pod)
        ensures
            r@ == record_of(self@),
    {
        let mut r = Pod::default();
        r.uuid = self.path.clone();
        r.ns = self.namespace.clone();
        r.pod = self.pod.clone();
        r.container = self.container.clone();
        r
    }
}

/// The ending that a container log file has.
pub open spec fn log_ending() -> Seq<char> {
    seq!['.', 'l', 'o', 'g']
}

/// The identity that the path of a container log file spells out, for the
/// watcher of directory `dir` and namespace `namespace`.
///
/// A path is taken only in the form `dir/A/B/C`, where `A`, `B` and `C`
/// hold no `/`, `C` ends in `.log` and `A` holds at least two `_`. What
/// stands before the first `_` of `A` is the namespace and must be
/// `namespace`; what stands between the first and the second is the pod;
/// `B` is the container.
pub open spec fn parse(namespace: Seq<char>, dir: Seq<char>, path: Seq<char>) -> Option<
    PathEventInfoView,
> {
    let tail = path.skip(dir.len() as int);
    let a = first_at(tail, '/', 1);
    let b = first_at(tail, '/', a + 1);
    let head = tail.subrange(1, a);
    let u = first_at(head, '_', 0);
    let v = first_at(head, '_', u + 1);
    if !has_prefix(path, dir) || !has_suffix(path, log_ending()) {
        None
    } else if tail.len() == 0 || tail[0] != '/' || a >= tail.len() || b >= tail.len() || first_at(
        tail,
        '/',
        b + 1,
    ) < tail.len() {
        None
    } else if u >= head.len() || v >= head.len() || head.take(u) != namespace {
        None
    } else {
        Some(
            PathEventInfoView {
                namespace: head.take(u),
                pod: head.subrange(u + 1, v),
                container: tail.subrange(a + 1, b),
                path,
            },
        )
    }
}

/// A raw change notice of the file system, as a set of flags.
#[derive(Debug, Clone, Copy, PartialEq, Eq, Structural)]
pub struct RawOp {
    pub chmod: bool,
    pub close_write: bool,
    pub create: bool,
    pub remove: bool,
    pub rename: bool,
    pub rescan: bool,
    pub write: bool,
}

impl RawOp {
    /// Whether the flags set are exactly those among create, write, remove
    /// and close-write that are given as set.
    pub open spec fn only(self, create: bool, write: bool, remove: bool, close_write: bool) -> bool {
        &&& self.create == create
        &&& self.write == write
        &&& self.remove == remove
        &&& self.close_write == close_write
        &&& !self.chmod
        &&& !self.rename
        &&& !self.rescan
    }

    fn is_only(&self, create: bool, write: bool, remove: bool, close_write: bool) -> (r: bool)
        ensures
            r == self.only(create, write, remove, close_write),
    {
        self.create == create && self.write == write && self.remove == remove && self.close_write
            == close_write && !self.chmod && !self.rename && !self.rescan
    }
}

/// The events that a raw change notice stands for, in the order in which
/// they are dispatched.
pub open spec fn path_events(op: RawOp) -> Seq<PathEvent> {
    if op.only(true, false, false, false) {
        seq![PathEvent::NeedOpen]
    } else if op.only(false, true, false, false) {
        seq![PathEvent::NeedWrite]
    } else if op.only(false, false, true, false) {
        seq![PathEvent::NeedClose]
    } else if op.only(true, true, false, false) {
        seq![PathEvent::NeedOpen, PathEvent::NeedWrite]
    } else if op.only(false, false, false, true) || op.only(true, true, true, false) || op.only(
        true,
        false,
        true,
        false,
    ) || op.only(false, true, true, false) {
        seq![PathEvent::NeedClose]
    } else {
        Seq::empty()
    }
}

/// The events that a raw change notice stands for.
pub fn events_for(op: &RawOp) -> (r: Vec<PathEvent>)
    ensures
        r@ == path_events(*op),
{
    let mut r: Vec<PathEvent> = Vec::new();
    if op.is_only(true, false, false, false) {
        r.push(PathEvent::NeedOpen);
    } else if op.is_only(false, true, false, false) {
        r.push(PathEvent::NeedWrite);
    } else if op.is_only(false, false, true, false) {
        r.push(PathEvent::NeedClose);
    } else if op.is_only(true, true, false, false) {
        r.push(PathEvent::NeedOpen);
        r.push(PathEvent::NeedWrite);
    } else if op.is_only(false, false, false, true) || op.is_only(true, true, true, false)
        || op.is_only(true, false, true, false) || op.is_only(false, true, true, false) {
        r.push(PathEvent::NeedClose);
    }
    assert(r@ =~= path_events(*op));
    r
}

/// Path events as the contracts see them.
pub open spec fn info_views(s: Seq<PathEventInfo>) -> Seq<PathEventInfoView> {
    s.map_values(|p: PathEventInfo| p@)
}

/// The parser of the watcher of directory `dir` and namespace `namespace`.
pub open spec fn parser(namespace: Seq<char>, dir: Seq<char>) -> spec_fn(Seq<char>) -> Option<
    PathEventInfoView,
> {
    |path: Seq<char>| parse(namespace, dir, path)
}

/// The watcher of one directory: it knows the namespace whose pods it
/// admits, and the listeners to tell of what happens to their log files.
pub struct AutoScanner {
    namespace: String,
    dir: String,
    event_dispatch: EventHandler<PathEventInfo>,
}

impl AutoScanner {
    /// The namespace whose pods the watcher admits.
    pub closed spec fn namespace(&self) -> Seq<char> {
        self.namespace@
    }

    /// The directory that is watched.
    pub closed spec fn dir(&self) -> Seq<char> {
        self.dir@
    }

    /// The event names of the listeners, in the order of registration.
    pub closed spec fn listeners(&self) -> Seq<Seq<char>> {
        self.event_dispatch.names()
    }

    /// A watcher without listeners.
    pub fn new(namespace: String, dir: String) -> (r: Self)
        ensures
            r.namespace() == namespace@,
            r.dir() == dir@,
            r.listeners() == Seq::<Seq<char>>::empty(),
    {
        Self { namespace, dir, event_dispatch: EventHandler::<PathEventInfo>::new() }
    }

    /// Registers a listener for files that went away.
    pub fn append_close_event_handle<L>(&mut self, l: L) where L: Listener<PathEventInfo> + 'static
        ensures
            final(self).namespace() == old(self).namespace(),
            final(self).dir() == old(self).dir(),
            final(self).listeners() == old(self).listeners().push(PathEvent::NeedClose.name()),
    {
        self.event_dispatch.append(PathEvent::NeedClose.as_ref().to_owned(), l)
    }

    /// Registers a listener for files that grew.
    pub fn append_write_event_handle<L>(&mut self, l: L) where L: Listener<PathEventInfo> + 'static
        ensures
            final(self).namespace() == old(self).namespace(),
            final(self).dir() == old(self).dir(),
            final(self).listeners() == old(self).listeners().push(PathEvent::NeedWrite.name()),
    {
        self.event_dispatch.append(PathEvent::NeedWrite.as_ref().to_owned(), l)
    }

    /// Registers a listener for files that appeared.
    pub fn append_open_event_handle<L>(&mut self, l: L) where L: Listener<PathEventInfo> + 'static
        ensures
            final(self).namespace() == old(self).namespace(),
            final(self).dir() == old(self).dir(),
            final(self).listeners() == old(self).listeners().push(PathEvent::NeedOpen.name()),
    {
        self.event_dispatch.append(PathEvent::NeedOpen.as_ref().to_owned(), l)
    }

    /// Reads the identity of a container log file off its path.
    pub fn parse_path_to_pei(namespace: &str, dir: &str, path: &str) -> (r: Option<PathEventInfo>)
        ensures
            r is Some == parse(namespace@, dir@, path@) is Some,
            r matches Some(p) ==> Some(p@) == parse(namespace@, dir@, path@),
    {
        let p = chars_of(path);
        let d = chars_of(dir);
        let mut ending: Vec<char> = Vec::new();
        ending.push('.');
        ending.push('l');
        ending.push('o');
        ending.push('g');
        assert(ending@ =~= log_ending());
        if !starts_with(&p, &d) || !ends_with(&p, &ending) {
            return None;
        }
        let tail_text = path.substring_char(d.len(), p.len());
        assert(tail_text@ =~= path@.skip(dir@.len() as int));
        let tail = chars_of(tail_text);
        if tail.len() == 0 || tail[0] != '/' {
            return None;
        }
        let a = find_char(&tail, '/', 1);
        if a >= tail.len() {
            return None;
        }
        let b = find_char(&tail, '/', a + 1);
        if b >= tail.len() {
            return None;
        }
        let c = find_char(&tail, '/', b + 1);
        if c < tail.len() {
            return None;
        }
        let head_text = tail_text.substring_char(1, a);
        let head = chars_of(head_text);
        let u = find_char(&head, '_', 0);
        if u >= head.len() {
            return None;
        }
        let v = find_char(&head, '_', u + 1);
        if v >= head.len() {
            return None;
        }
        let first = head_text.substring_char(0, u);
        assert(first@ =~= head@.take(u as int));
        if !same_text(first, namespace) {
            return None;
        }
        Some(
            PathEventInfo {
                namespace: first.to_owned(),
                pod: head_text.substring_char(u + 1, v).to_owned(),
                container: tail_text.substring_char(a + 1, b).to_owned(),
                path: path.to_owned(),
            },
        )
    }

    /// Tells the listeners of appearing files of `pei`.
    fn dispatch_open_event(&self, pei: &PathEventInfo) -> (n: usize)
        ensures
            n == self.event_dispatch.count(PathEvent::NeedOpen.name()),
    {
        self.event_dispatch.event(PathEvent::NeedOpen.as_ref().to_owned(), pei.clone())
    }

    /// Tells the listeners of growing files of `pei`.
    fn dispatch_write_event(&self, pei: &PathEventInfo) -> (n: usize)
        ensures
            n == self.event_dispatch.count(PathEvent::NeedWrite.name()),
    {
        self.event_dispatch.event(PathEvent::NeedWrite.as_ref().to_owned(), pei.clone())
    }

    /// Tells the listeners of vanishing files of `pei`.
    fn dispatch_close_event(&self, pei: &PathEventInfo) -> (n: usize)
        ensures
            n == self.event_dispatch.count(PathEvent::NeedClose.name()),
    {
        self.event_dispatch.event(PathEvent::NeedClose.as_ref().to_owned(), pei.clone())
    }

    /// Reads the identity of a container log file off its path, for this
    /// watcher's directory and namespace.
    pub fn parse_path(&self, path: &str) -> (r: Option<PathEventInfo>)
        ensures
            r is Some == parse(self.namespace(), self.dir(), path@) is Some,
            r matches Some(p) ==> Some(p@) == parse(self.namespace(), self.dir(), path@),
    {
        Self::parse_path_to_pei(self.namespace.as_str(), self.dir.as_str(), path)
    }

    /// The container log files among `paths`, the files found under the
    /// watched directory, in the order in which they were found.
    pub fn prepare_scan(&self, paths: &Vec<String>) -> (r: Vec<PathEventInfo>)
        ensures
            info_views(r@) == crate::pod::texts(paths@).filter_map(parser(self.namespace(), self.dir())),
    {
        let mut r: Vec<PathEventInfo> = Vec::new();
        let ghost all = crate::pod::texts(paths@);
        let ghost f = parser(self.namespace(), self.dir());
        let mut i: usize = 0;
        assert(all.take(0).filter_map(f) =~= Seq::<PathEventInfoView>::empty());
        while i < paths.len()
            invariant
                i <= paths@.len(),
                all == crate::pod::texts(paths@),
                f == parser(self.namespace(), self.dir()),
                info_views(r@) =~= all.take(i as int).filter_map(f),
            decreases paths@.len() - i,
        {
            let ghost seen = info_views(r@);
            proof {
                assert(all.take(i + 1).drop_last() =~= all.take(i as int));
                assert(all.take(i + 1).last() == paths@[i as int]@);
            }
            match self.parse_path(paths[i].as_str()) {
                Some(pei) => {
                    r.push(pei);
                    assert(info_views(r@) =~= seen.push(pei@));
                },
                None => {},
            }
            i = i + 1;
        }
        assert(all.take(i as int) =~= all);
        r
    }

    /// Handles one raw change notice for `path`: where the path is that
    /// of a container log file of the watcher's namespace, the listeners of
    /// each event that the notice stands for are told, event by event.
    /// Returns the events that were dispatched. For any other path nothing
    /// is dispatched.
    pub fn watch_event(&self, op: &RawOp, path: &str) -> (r: Vec<PathEvent>)
        ensures
            r@ == if parse(self.namespace(), self.dir(), path@) is Some {
                path_events(*op)
            } else {
                Seq::empty()
            },
    {
        match self.parse_path(path) {
            None => Vec::new(),
            Some(pei) => {
                let events = events_for(op);
                let mut i: usize = 0;
                while i < events.len()
                    invariant
                        i <= events@.len(),
                    decreases events@.len() - i,
                {
                    match events[i] {
                        PathEvent::NeedOpen => {
                            self.dispatch_open_event(&pei);
                        },
                        PathEvent::NeedWrite => {
                            self.dispatch_write_event(&pei);
                        },
                        PathEvent::NeedClose => {
                            self.dispatch_close_event(&pei);
                        },
                    }
                    i = i + 1;
                }
                events
            },
        }
    }
}

/// The key of the record of a file is its path: a path that spells out an
/// identity is kept as it is, and is the key of the record that stands
/// for the file. The namespace of the identity is that of the watcher.
pub proof fn lemma_parse_keeps_path(namespace: Seq<char>, dir: Seq<char>, path: Seq<char>)
    ensures
        parse(namespace, dir, path) matches Some(p) ==> p.path == path && record_of(p).uuid == path
            && p.namespace == namespace && record_of(p).offset == 0 && !record_of(p).is_upload,
{
}

/// Only the path of a log file spells out an identity: a path that does
/// not end in `.log`, or that does not begin with the watched directory,
/// spells out none, so that nothing is dispatched for it.
pub proof fn lemma_only_logs(namespace: Seq<char>, dir: Seq<char>, path: Seq<char>)
    requires
        !has_suffix(path, log_ending()) || !has_prefix(path, dir),
    ensures
        parse(namespace, dir, path) is None,
{
}

} // verus!
