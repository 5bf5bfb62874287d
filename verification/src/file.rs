use crate::database::Event;
use crate::database::Message;
use crate::database::MessageView;
use crate::db::incr_offset;
use crate::json::json_string;
use crate::json::json_string_text;
use crate::pod::Pod;
use crate::pod::PodView;
use crate::pod::texts;
use crate::text::byte_len;
use crate::text::lines_of;
use crate::text::separate;
use crate::text::separated;
use crate::text::split_lines;
use vstd::prelude::*;
use vstd::string::StringExecFns;

verus! {

/// What a worker can be told while it waits: to end, or that its file grew.
#[derive(Debug, Clone, Copy, PartialEq, Eq, Structural)]
pub enum SendFileEvent {
    Close,
    Other,
}

/// One thing for the caller to carry out, on behalf of the pool or of a
/// worker. The actions of a list are carried out in the order of the list.
#[derive(Debug, PartialEq)]
pub enum FileAction {
    /// Hand `line` to the sink registered under `name`.
    Output { name: String, line: String },
    /// Send the command to the registry.
    Post(Message),
    /// Start a worker for the file of the record, at the end of what has
    /// been read, with a channel of its own that holds one message.
    Spawn(Pod),
    /// Send `event` to the worker of the file with key `uuid`.
    Send { uuid: String, event: SendFileEvent },
}

/// An action as the contracts see it.
pub enum FileActionView {
    Output { name: Seq<char>, line: Seq<char> },
    Post(MessageView),
    Spawn(PodView),
    Send { uuid: Seq<char>, event: SendFileEvent },
}

impl View for FileAction {
    type V = FileActionView;

    open spec fn view(&self) -> FileActionView {
        match self {
            FileAction::Output { name, line } => FileActionView::Output { name: name@, line: line@ },
            FileAction::Post(m) => FileActionView::Post(m@),
            FileAction::Spawn(p) => FileActionView::Spawn(p@),
            FileAction::Send { uuid, event } => FileActionView::Send { uuid: uuid@, event: *event },
        }
    }
}

/// Actions as the contracts see them.
pub open spec fn action_views(s: Seq<FileAction>) -> Seq<FileActionView> {
    s.map_values(|a: FileAction| a@)
}

/// The JSON string literal of a text, as a function.
pub open spec fn quoted() -> spec_fn(Seq<char>) -> Seq<char> {
    |s: Seq<char>| json_string_text(s)
}

/// The JSON string literals of `items`, with commas between them.
pub open spec fn joined(items: Seq<Seq<char>>) -> Seq<char> {
    separated(items.map_values(quoted()))
}

/// Writes the JSON string literals of `items`, with commas between them.
pub fn joined_text(items: &Vec<String>) -> (r: String)
    ensures
        r@ == joined(texts(items@)),
{
    let mut parts: Vec<String> = Vec::new();
    let mut i: usize = 0;
    while i < items.len()
        invariant
            i <= items@.len(),
            texts(parts@) =~= texts(items@).take(i as int).map_values(quoted()),
        decreases items@.len() - i,
    {
        let ghost seen = texts(parts@);
        parts.push(json_string(items[i].as_str()));
        assert(texts(parts@) =~= seen.push(json_string_text(items@[i as int]@)));
        i = i + 1;
    }
    assert(texts(items@).take(i as int) =~= texts(items@));
    separate(&parts)
}

/// A document put together from its parts, each of them JSON already:
/// the name of the pod, which stands for the node and for the service, the
/// name of the container, the addresses with commas between them, and the
/// line.
pub open spec fn framed(
    pod: Seq<char>,
    container: Seq<char>,
    ips: Seq<char>,
    message: Seq<char>,
) -> Seq<char> {
    "{\"custom\":{\"nodeId\":"@ + pod + ",\"container\":"@ + container + ",\"serviceName\":"@ + pod
        + ",\"ips\":["@ + ips + "],\"version\":\"v1.0.0\"},\"message\":"@ + message + "}"@
}

/// Puts a document together from its parts, each of them JSON already.
pub fn frame(pod: &str, container: &str, ips: &str, message: &str) -> (r: String)
    ensures
        r@ == framed(pod@, container@, ips@, message@),
{
    let mut r = String::from_str("{\"custom\":{\"nodeId\":");
    r.append(pod);
    r.append(",\"container\":");
    r.append(container);
    r.append(",\"serviceName\":");
    r.append(pod);
    r.append(",\"ips\":[");
    r.append(ips);
    r.append("],\"version\":\"v1.0.0\"},\"message\":");
    r.append(message);
    r.append("}");
    r
}

/// The document that goes out for one line of the file of `pod`: the line
/// under `message`, and under `custom` the pod as node and as service, the
/// container, the addresses of the pod and the version of the format. An
/// empty line has no document.
pub open spec fn document(pod: PodView, message: Seq<char>) -> Seq<char> {
    if message.len() == 0 {
        Seq::empty()
    } else {
        framed(
            json_string_text(pod.pod),
            json_string_text(pod.container),
            joined(pod.ips),
            json_string_text(message),
        )
    }
}

/// Writes the document that goes out for one line of the file of `pod`.
pub fn encode_message(pod: &Pod, message: &str) -> (r: String)
    ensures
        r@ == document(pod@, message@),
{
    if message.is_empty() {
        return String::new();
    }
    let ips = joined_text(&pod.ips);
    let name = json_string(pod.pod.as_str());
    let container = json_string(pod.container.as_str());
    let text = json_string(message);
    frame(name.as_str(), container.as_str(), ips.as_str(), text.as_str())
}

/// The step that the offset takes for a line: its length in bytes, and
/// the largest offset for a line that is longer than that.
pub open spec fn step_of(line: Seq<char>) -> int {
    if byte_len(line) <= i64::MAX {
        byte_len(line) as int
    } else {
        i64::MAX as int
    }
}

/// The command that makes the registry count a line of the file with key
/// `uuid`.
pub open spec fn step_message(uuid: Seq<char>, line: Seq<char>) -> MessageView {
    MessageView {
        event: Event::IncrOffset,
        pod: PodView { uuid, last_offset: step_of(line), ..Pod::blank() },
    }
}

/// What follows from one line read from the file of `pod`: where the file
/// is to be uploaded, its document goes to the sink of the record; in any
/// case the registry is told to count the line. The end of the file, read
/// as an empty line, has no effect.
pub open spec fn line_actions(pod: PodView, line: Seq<char>) -> Seq<FileActionView> {
    if line.len() == 0 {
        Seq::empty()
    } else if pod.is_upload {
        seq![
            FileActionView::Output { name: pod.output, line: document(pod, line) },
            FileActionView::Post(step_message(pod.uuid, line)),
        ]
    } else {
        seq![FileActionView::Post(step_message(pod.uuid, line))]
    }
}

/// What follows from `lines`, read one after the other from the file of
/// `pod`.
pub open spec fn lines_actions(pod: PodView, lines: Seq<Seq<char>>) -> Seq<FileActionView>
    decreases lines.len(),
{
    if lines.len() == 0 {
        Seq::empty()
    } else {
        lines_actions(pod, lines.drop_last()) + line_actions(pod, lines.last())
    }
}

/// Appends to `out` what follows from one line read from the file of `pod`.
fn push_line(out: &mut Vec<FileAction>, pod: &Pod, line: &str)
    ensures
        action_views(final(out)@) == action_views(old(out)@) + line_actions(pod@, line@),
{
    let ghost seen = action_views(out@);
    if line.is_empty() {
        assert(action_views(out@) =~= seen + line_actions(pod@, line@));
        return ;
    }
    if pod.is_upload {
        out.push(FileAction::Output { name: pod.output.clone(), line: encode_message(pod, line) });
    }
    let n: u64 = line.as_bytes().len() as u64;
    let delta: i64 = if n <= 0x7fff_ffff_ffff_ffff {
        n as i64
    } else {
        0x7fff_ffff_ffff_ffff
    };
    out.push(FileAction::Post(incr_offset(pod.uuid.as_str(), delta)));
    assert(action_views(out@) =~= seen + line_actions(pod@, line@));
}

/// What follows from one line read from the file of `pod`.
pub fn tail_line(pod: &Pod, line: &str) -> (r: Vec<FileAction>)
    ensures
        action_views(r@) == line_actions(pod@, line@),
{
    let mut r: Vec<FileAction> = Vec::new();
    assert(action_views(r@) =~= Seq::<FileActionView>::empty());
    push_line(&mut r, pod, line);
    assert(Seq::<FileActionView>::empty() + line_actions(pod@, line@) =~= line_actions(pod@, line@));
    r
}

/// What follows from reading `content`, all that the file of `pod` holds
/// behind the offset of the record, line by line.
pub fn catch_up(pod: &Pod, content: &str) -> (r: Vec<FileAction>)
    ensures
        action_views(r@) == lines_actions(pod@, lines_of(content@)),
{
    let lines = split_lines(content);
    let mut r: Vec<FileAction> = Vec::new();
    let mut i: usize = 0;
    assert(action_views(r@) =~= Seq::<FileActionView>::empty());
    while i < lines.len()
        invariant
            i <= lines@.len(),
            texts(lines@) == lines_of(content@),
            action_views(r@) == lines_actions(pod@, texts(lines@).take(i as int)),
        decreases lines@.len() - i,
    {
        proof {
            let now = texts(lines@).take(i + 1);
            assert(now.drop_last() =~= texts(lines@).take(i as int));
            assert(now.last() == lines@[i as int]@);
        }
        push_line(&mut r, pod, lines[i].as_str());
        i = i + 1;
    }
    assert(texts(lines@).take(i as int) =~= texts(lines@));
    r
}

/// What a waiting worker does next. On `Close` it ends. On `Other` it
/// reads a line: `line` is what the read gave, `None` where it failed, and
/// the worker then ends too. Otherwise it carries out what follows from
/// the line and waits again.
pub open spec fn worker_next(pod: PodView, event: SendFileEvent, line: Option<Seq<char>>) -> Option<
    Seq<FileActionView>,
> {
    match (event, line) {
        (SendFileEvent::Close, _) => None,
        (SendFileEvent::Other, None) => None,
        (SendFileEvent::Other, Some(l)) => Some(line_actions(pod, l)),
    }
}

/// Decides what a waiting worker of the file of `pod` does next: `None`
/// where it ends, else the actions to carry out before it waits again.
pub fn worker_step(pod: &Pod, event: SendFileEvent, line: Option<&str>) -> (r: Option<Vec<FileAction>>)
    ensures
        match r {
            Some(actions) => Some(action_views(actions@)) == worker_next(pod@, event, text_of(line)),
            None => worker_next(pod@, event, text_of(line)) is None,
        },
{
    match event {
        SendFileEvent::Close => None,
        SendFileEvent::Other => match line {
            None => None,
            Some(l) => Some(tail_line(pod, l)),
        },
    }
}

/// The text of a string slice that may be missing.
pub open spec fn text_of(s: Option<&str>) -> Option<Seq<char>> {
    match s {
        Some(t) => Some(t@),
        None => None,
    }
}

/// The test for "is another key than `uuid`".
pub open spec fn other_than(uuid: Seq<char>) -> spec_fn(Seq<char>) -> bool {
    |h: Seq<char>| h != uuid
}

/// Wraps a key into the order to end its worker.
pub open spec fn closing() -> spec_fn(Seq<char>) -> FileActionView {
    |h: Seq<char>| FileActionView::Send { uuid: h, event: SendFileEvent::Close }
}

/// The keys with a worker after `open` of `pod`, where `tail` is what the
/// file holds behind the offset of the record, and `None` where the file
/// could not be opened there.
pub open spec fn opened(handles: Seq<Seq<char>>, pod: PodView, tail: Option<Seq<char>>) -> Seq<
    Seq<char>,
> {
    if handles.contains(pod.uuid) || tail is None {
        handles
    } else {
        handles.push(pod.uuid)
    }
}

/// What `open` of `pod` asks for: nothing where the file has a worker or
/// cannot be opened; else what follows from the lines that the file
/// holds, and then the start of its worker.
pub open spec fn open_actions(handles: Seq<Seq<char>>, pod: PodView, tail: Option<Seq<char>>) -> Seq<
    FileActionView,
> {
    if handles.contains(pod.uuid) || tail is None {
        Seq::empty()
    } else {
        lines_actions(pod, lines_of(tail->0)).push(FileActionView::Spawn(pod))
    }
}

/// The keys with a worker after `close` of `uuid`.
pub open spec fn closed(handles: Seq<Seq<char>>, uuid: Seq<char>) -> Seq<Seq<char>> {
    handles.filter(other_than(uuid))
}

/// What `close` of `uuid` asks for: the worker, where there is one, is
/// told to end.
pub open spec fn close_actions(handles: Seq<Seq<char>>, uuid: Seq<char>) -> Seq<FileActionView> {
    if handles.contains(uuid) {
        seq![FileActionView::Send { uuid, event: SendFileEvent::Close }]
    } else {
        Seq::empty()
    }
}

/// The order to wake the worker of `uuid`.
pub open spec fn wake(uuid: Seq<char>) -> FileActionView {
    FileActionView::Send { uuid, event: SendFileEvent::Other }
}

/// Whether a write to the file with key `path`, which has no worker, opens
/// one: the registry must hold the file, as `record`, and ask for its upload.
pub open spec fn opens_on_write(record: Option<PodView>) -> bool {
    record matches Some(r) && r.is_upload
}

/// The keys with a worker after the file with key `path` was written to.
pub open spec fn written(
    handles: Seq<Seq<char>>,
    path: Seq<char>,
    record: Option<PodView>,
    tail: Option<Seq<char>>,
) -> Seq<Seq<char>> {
    if !handles.contains(path) && opens_on_write(record) {
        opened(handles, record->0, tail)
    } else {
        handles
    }
}

/// What a write to the file with key `path` asks for. A file with a worker
/// has its worker woken. A file without one is looked up in the registry:
/// where it is to be uploaded it is opened, and then its worker is woken;
/// else nothing happens.
pub open spec fn write_actions(
    handles: Seq<Seq<char>>,
    path: Seq<char>,
    record: Option<PodView>,
    tail: Option<Seq<char>>,
) -> Seq<FileActionView> {
    if handles.contains(path) {
        seq![wake(path)]
    } else if opens_on_write(record) {
        if opened(handles, record->0, tail).contains(path) {
            open_actions(handles, record->0, tail).push(wake(path))
        } else {
            open_actions(handles, record->0, tail)
        }
    } else {
        Seq::empty()
    }
}

/// Leaving keys out of a list without doubles leaves no doubles, and
/// leaves exactly the keys that pass the test.
pub proof fn lemma_filter_no_duplicates(s: Seq<Seq<char>>, pred: spec_fn(Seq<char>) -> bool)
    requires
        s.no_duplicates(),
    ensures
        s.filter(pred).no_duplicates(),
        forall|h: Seq<char>| #[trigger] s.filter(pred).contains(h) ==> s.contains(h) && pred(h),
        forall|h: Seq<char>| #[trigger] s.contains(h) && pred(h) ==> s.filter(pred).contains(h),
    decreases s.len(),
{
    reveal(Seq::filter);
    let sf = s.filter(pred);
    if s.len() > 0 {
        let rest = s.drop_last();
        let last = s.last();
        lemma_filter_no_duplicates(rest, pred);
        let f = rest.filter(pred);
        assert(sf == if pred(last) {
            f.push(last)
        } else {
            f
        });
        assert forall|h: Seq<char>| #[trigger] sf.contains(h) implies s.contains(h) && pred(h) by {
            let k = choose|k: int| 0 <= k < sf.len() && sf[k] == h;
            if k < f.len() {
                assert(f[k] == h);
                assert(f.contains(h));
                assert(rest.contains(h));
                let j = choose|j: int| 0 <= j < rest.len() && rest[j] == h;
                assert(s[j] == h);
            } else {
                assert(s[s.len() - 1] == h);
            }
        }
        assert forall|h: Seq<char>| #[trigger] s.contains(h) && pred(h) implies sf.contains(h) by {
            let j = choose|j: int| 0 <= j < s.len() && s[j] == h;
            if j < rest.len() {
                assert(rest[j] == h);
                assert(rest.contains(h));
                assert(f.contains(h));
                let k = choose|k: int| 0 <= k < f.len() && f[k] == h;
                assert(sf[k] == h);
            } else {
                assert(sf[f.len() as int] == h);
            }
        }
        if pred(last) {
            assert forall|i: int, j: int| 0 <= i < sf.len() && 0 <= j < sf.len() && i != j implies sf[i]
                != sf[j] by {
                if i < f.len() && j < f.len() {
                    assert(sf[i] == f[i] && sf[j] == f[j]);
                } else {
                    let m = if i < f.len() {
                        i
                    } else {
                        j
                    };
                    assert(sf[m] == f[m]);
                    assert(f.contains(f[m]));
                    assert(rest.contains(f[m]));
                    let k = choose|k: int| 0 <= k < rest.len() && rest[k] == f[m];
                    assert(s[k] == f[m]);
                    assert(s[s.len() - 1] == last);
                }
            }
        }
    } else {
        assert(sf =~= Seq::<Seq<char>>::empty());
    }
}

/// The pool of workers: the keys of the files that have a worker, in the
/// order in which the workers were started.
pub struct FileReaderWriter {
    handles: Vec<String>,
    num_workers: usize,
}

impl View for FileReaderWriter {
    type V = Seq<Seq<char>>;

    closed spec fn view(&self) -> Seq<Seq<char>> {
        texts(self.handles@)
    }
}

impl FileReaderWriter {
    /// The invariant of the pool: no file has two workers.
    pub open spec fn wf(&self) -> bool {
        self@.no_duplicates()
    }

    /// How many workers may run at a time.
    pub closed spec fn workers(&self) -> usize {
        self.num_workers
    }

    /// A pool without workers, for at most `num_workers` running at a time.
    pub fn new(num_workers: usize) -> (r: Self)
        ensures
            r@ == Seq::<Seq<char>>::empty(),
            r.wf(),
            r.workers() == num_workers,
    {
        let r = Self { handles: Vec::new(), num_workers };
        assert(r@ =~= Seq::<Seq<char>>::empty());
        r
    }

    /// How many workers may run at a time.
    pub fn num_workers(&self) -> (n: usize)
        ensures
            n == self.workers(),
    {
        self.num_workers
    }

    /// Whether the file with key `uuid` has a worker.
    pub fn has_handle(&self, uuid: &str) -> (r: bool)
        ensures
            r == self@.contains(uuid@),
    {
        let key = uuid.to_owned();
        let mut i: usize = 0;
        while i < self.handles.len()
            invariant
                i <= self.handles@.len(),
                key@ == uuid@,
                forall|j: int| 0 <= j < i ==> self@[j] != uuid@,
            decreases self.handles@.len() - i,
        {
            if self.handles[i] == key {
                assert(self@[i as int] == uuid@);
                return true;
            }
            i = i + 1;
        }
        false
    }

    /// Opens the file of `pod`. `tail` is what the file holds from the
    /// offset of the record to its end, and `None` where the file could
    /// not be opened or positioned there. A file that has a worker is left
    /// alone. So is one that could not be opened. Else every line of `tail`
    /// is accounted for, a worker is to be started, and the file has a
    /// worker from then on.
    pub fn open_event(&mut self, pod: &Pod, tail: Option<&str>) -> (r: Vec<FileAction>)
        requires
            old(self).wf(),
        ensures
            final(self).wf(),
            final(self).workers() == old(self).workers(),
            final(self)@ == opened(old(self)@, pod@, text_of(tail)),
            action_views(r@) == open_actions(old(self)@, pod@, text_of(tail)),
    {
        if self.has_handle(pod.uuid.as_str()) {
            let r: Vec<FileAction> = Vec::new();
            assert(action_views(r@) =~= Seq::<FileActionView>::empty());
            return r;
        }
        match tail {
            None => {
                let r: Vec<FileAction> = Vec::new();
                assert(action_views(r@) =~= Seq::<FileActionView>::empty());
                r
            },
            Some(content) => {
                let mut r = catch_up(pod, content);
                let ghost seen = action_views(r@);
                r.push(FileAction::Spawn(pod.clone()));
                assert(action_views(r@) =~= seen.push(FileActionView::Spawn(pod@)));
                self.handles.push(pod.uuid.clone());
                assert(self@ =~= old(self)@.push(pod@.uuid));
                r
            },
        }
    }

    /// Tells the pool that the file with key `path` was written to.
    /// `record` is what the registry holds under that key, and `tail` is as
    /// for `open_event`, for that record.
    pub fn write_event(&mut self, path: &str, record: Option<&Pod>, tail: Option<&str>) -> (r: Vec<
        FileAction,
    >)
        requires
            old(self).wf(),
        ensures
            final(self).wf(),
            final(self).workers() == old(self).workers(),
            final(self)@ == written(old(self)@, path@, pod_of(record), text_of(tail)),
            action_views(r@) == write_actions(old(self)@, path@, pod_of(record), text_of(tail)),
    {
        let mut r: Vec<FileAction> = Vec::new();
        assert(action_views(r@) =~= Seq::<FileActionView>::empty());
        if !self.has_handle(path) {
            match record {
                Some(it) => {
                    if !it.is_upload {
                        return r;
                    }
                    r = self.open_event(it, tail);
                    if !self.has_handle(path) {
                        return r;
                    }
                },
                None => {
                    return r;
                },
            }
        }
        let ghost seen = action_views(r@);
        r.push(FileAction::Send { uuid: path.to_owned(), event: SendFileEvent::Other });
        assert(action_views(r@) =~= seen.push(wake(path@)));
        r
    }

    /// Ends the worker of the file with key `path`, where there is one:
    /// the worker is told to end, and the file has no worker from then on.
    pub fn close_event(&mut self, path: &str) -> (r: Vec<FileAction>)
        requires
            old(self).wf(),
        ensures
            final(self).wf(),
            final(self).workers() == old(self).workers(),
            final(self)@ == closed(old(self)@, path@),
            !final(self)@.contains(path@),
            action_views(r@) == close_actions(old(self)@, path@),
    {
        let key = path.to_owned();
        let mut r: Vec<FileAction> = Vec::new();
        let mut kept: Vec<String> = Vec::new();
        let ghost all = self@;
        let mut found = false;
        let mut i: usize = 0;
        proof {
            reveal(Seq::filter);
            lemma_filter_no_duplicates(all, other_than(path@));
            assert(all.take(0).filter(other_than(path@)) =~= Seq::<Seq<char>>::empty());
        }
        while i < self.handles.len()
            invariant
                i <= self.handles@.len(),
                all == self@,
                key@ == path@,
                texts(kept@) =~= all.take(i as int).filter(other_than(path@)),
                found == all.take(i as int).contains(path@),
            decreases self.handles@.len() - i,
        {
            let ghost held = texts(kept@);
            proof {
                assert(all.take(i + 1) =~= all.take(i as int).push(all[i as int]));
                crate::seqs::lemma_filter_push(all.take(i as int), all[i as int], other_than(path@));
                let before = all.take(i as int);
                let now = all.take(i + 1);
                if before.contains(path@) {
                    let k = choose|k: int| 0 <= k < before.len() && before[k] == path@;
                    assert(now[k] == path@);
                }
                if now.contains(path@) && all[i as int] != path@ {
                    let k = choose|k: int| 0 <= k < now.len() && now[k] == path@;
                    assert(before[k] == path@);
                }
                if all[i as int] == path@ {
                    assert(now[i as int] == path@);
                }
            }
            if self.handles[i] == key {
                found = true;
            } else {
                kept.push(self.handles[i].clone());
                assert(texts(kept@) =~= held.push(all[i as int]));
            }
            i = i + 1;
        }
        assert(all.take(i as int) =~= all);
        if found {
            r.push(FileAction::Send { uuid: key, event: SendFileEvent::Close });
        }
        assert(action_views(r@) =~= close_actions(all, path@));
        self.handles = kept;
        r
    }

    /// Ends every worker: each is told to end, in the order in which they
    /// were started, and no file has a worker from then on.
    pub fn close_all(&mut self) -> (r: Vec<FileAction>)
        ensures
            final(self).wf(),
            final(self).workers() == old(self).workers(),
            final(self)@ == Seq::<Seq<char>>::empty(),
            action_views(r@) == old(self)@.map_values(closing()),
    {
        let mut r: Vec<FileAction> = Vec::new();
        let mut i: usize = 0;
        while i < self.handles.len()
            invariant
                i <= self.handles@.len(),
                action_views(r@) =~= self@.take(i as int).map_values(closing()),
            decreases self.handles@.len() - i,
        {
            let ghost seen = action_views(r@);
            r.push(FileAction::Send { uuid: self.handles[i].clone(), event: SendFileEvent::Close });
            assert(action_views(r@) =~= seen.push(closing()(self@[i as int])));
            i = i + 1;
        }
        assert(self@.take(i as int) =~= self@);
        self.handles = Vec::new();
        assert(self@ =~= Seq::<Seq<char>>::empty());
        r
    }
}

/// The record behind a reference that may be missing.
pub open spec fn pod_of(p: Option<&Pod>) -> Option<PodView> {
    match p {
        Some(r) => Some(r@),
        None => None,
    }
}

/// The test for "is the key `uuid`".
pub open spec fn is_key(uuid: Seq<char>) -> spec_fn(Seq<char>) -> bool {
    |h: Seq<char>| h == uuid
}

/// How many workers the file with key `uuid` has.
pub open spec fn workers_of(handles: Seq<Seq<char>>, uuid: Seq<char>) -> nat {
    handles.filter(is_key(uuid)).len()
}

/// In a pool that keeps its invariant no file has more than one worker, and
/// a file has one where the pool holds its key.
pub proof fn lemma_one_worker(handles: Seq<Seq<char>>, uuid: Seq<char>)
    requires
        handles.no_duplicates(),
    ensures
        workers_of(handles, uuid) <= 1,
        workers_of(handles, uuid) == 1 <==> handles.contains(uuid),
    decreases handles.len(),
{
    reveal(Seq::filter);
    if handles.len() > 0 {
        let rest = handles.drop_last();
        lemma_one_worker(rest, uuid);
        if handles.last() == uuid {
            if rest.contains(uuid) {
                let k = choose|k: int| 0 <= k < rest.len() && rest[k] == uuid;
                assert(handles[k] == handles[handles.len() - 1]);
            }
            assert(handles[handles.len() - 1] == uuid);
        } else {
            if handles.contains(uuid) {
                let k = choose|k: int| 0 <= k < handles.len() && handles[k] == uuid;
                assert(rest[k] == uuid);
            }
            if rest.contains(uuid) {
                let k = choose|k: int| 0 <= k < rest.len() && rest[k] == uuid;
                assert(handles[k] == uuid);
            }
        }
    }
}

/// A list that is all of keys that pass a test is left as it is by the test.
pub proof fn lemma_filter_all(s: Seq<Seq<char>>, pred: spec_fn(Seq<char>) -> bool)
    requires
        forall|i: int| 0 <= i < s.len() ==> pred(#[trigger] s[i]),
    ensures
        s.filter(pred) == s,
    decreases s.len(),
{
    reveal(Seq::filter);
    if s.len() > 0 {
        let rest = s.drop_last();
        assert forall|i: int| 0 <= i < rest.len() implies pred(#[trigger] rest[i]) by {
            assert(rest[i] == s[i]);
        }
        lemma_filter_all(rest, pred);
        assert(pred(s[s.len() - 1]));
        assert(rest.push(s.last()) =~= s);
    } else {
        assert(s.filter(pred) =~= s);
    }
}

/// To open a file a second time changes nothing and asks for nothing,
/// where the first time left a worker or neither time the file could be
/// opened: the second time is as if it had not been.
pub proof fn lemma_open_twice(
    handles: Seq<Seq<char>>,
    pod: PodView,
    tail: Option<Seq<char>>,
    again: Option<Seq<char>>,
)
    requires
        tail is Some || again is None || handles.contains(pod.uuid),
    ensures
        opened(opened(handles, pod, tail), pod, again) == opened(handles, pod, tail),
        open_actions(opened(handles, pod, tail), pod, again) == Seq::<FileActionView>::empty(),
{
    let first = opened(handles, pod, tail);
    if !handles.contains(pod.uuid) && tail is Some {
        assert(first[first.len() - 1] == pod.uuid);
    }
}

/// To close a file a second time changes nothing and asks for nothing. And
/// after the first time the file has no worker.
pub proof fn lemma_close_twice(handles: Seq<Seq<char>>, uuid: Seq<char>)
    ensures
        !closed(handles, uuid).contains(uuid),
        closed(closed(handles, uuid), uuid) == closed(handles, uuid),
        close_actions(closed(handles, uuid), uuid) == Seq::<FileActionView>::empty(),
{
    let first = closed(handles, uuid);
    assert forall|i: int| 0 <= i < first.len() implies other_than(uuid)(#[trigger] first[i]) by {
        handles.lemma_filter_pred(other_than(uuid), i);
    }
    lemma_filter_all(first, other_than(uuid));
    if first.contains(uuid) {
        let k = choose|k: int| 0 <= k < first.len() && first[k] == uuid;
        assert(other_than(uuid)(first[k]));
    }
}

/// A file without content that is opened has nothing sent out and nothing
/// counted: all that is asked for is the start of its worker.
pub proof fn lemma_open_empty(handles: Seq<Seq<char>>, pod: PodView)
    requires
        !handles.contains(pod.uuid),
    ensures
        open_actions(handles, pod, Some(Seq::<char>::empty())) == seq![FileActionView::Spawn(pod)],
{
    assert(lines_of(Seq::<char>::empty()) =~= Seq::<Seq<char>>::empty());
    assert(lines_actions(pod, Seq::<Seq<char>>::empty()) =~= Seq::<FileActionView>::empty());
    assert(open_actions(handles, pod, Some(Seq::<char>::empty())) =~= seq![FileActionView::Spawn(pod)]);
}

/// A file that could be opened has exactly one worker afterwards, and
/// where it had none before, the start of that worker is the last thing
/// asked for: all that the file held has been accounted for by then.
pub proof fn lemma_open_one_worker(handles: Seq<Seq<char>>, pod: PodView, tail: Seq<char>)
    requires
        handles.no_duplicates(),
    ensures
        opened(handles, pod, Some(tail)).no_duplicates(),
        workers_of(opened(handles, pod, Some(tail)), pod.uuid) == 1,
        !handles.contains(pod.uuid) ==> open_actions(handles, pod, Some(tail)).last()
            == FileActionView::Spawn(pod),
{
    let next = opened(handles, pod, Some(tail));
    if !handles.contains(pod.uuid) {
        assert(next[next.len() - 1] == pod.uuid);
    }
    lemma_one_worker(next, pod.uuid);
}

/// The commands to the registry among `actions`, in order.
pub open spec fn posts(actions: Seq<FileActionView>) -> Seq<MessageView>
    decreases actions.len(),
{
    if actions.len() == 0 {
        Seq::empty()
    } else {
        match actions.last() {
            FileActionView::Post(m) => posts(actions.drop_last()).push(m),
            _ => posts(actions.drop_last()),
        }
    }
}

/// The documents among `actions` that go to a sink, in order.
pub open spec fn outputs(actions: Seq<FileActionView>) -> Seq<Seq<char>>
    decreases actions.len(),
{
    if actions.len() == 0 {
        Seq::empty()
    } else {
        match actions.last() {
            FileActionView::Output { name, line } => outputs(actions.drop_last()).push(line),
            _ => outputs(actions.drop_last()),
        }
    }
}

/// The commands and the documents of two lists of actions, one after the
/// other, are those of the first and then those of the second.
pub proof fn lemma_actions_concat(a: Seq<FileActionView>, b: Seq<FileActionView>)
    ensures
        posts(a + b) == posts(a) + posts(b),
        outputs(a + b) == outputs(a) + outputs(b),
    decreases b.len(),
{
    if b.len() == 0 {
        assert(a + b =~= a);
        assert(posts(a) + posts(b) =~= posts(a));
        assert(outputs(a) + outputs(b) =~= outputs(a));
    } else {
        assert((a + b).drop_last() =~= a + b.drop_last());
        assert((a + b).last() == b.last());
        lemma_actions_concat(a, b.drop_last());
        assert(posts(a + b) =~= posts(a) + posts(b));
        assert(outputs(a + b) =~= outputs(a) + outputs(b));
    }
}

/// The commands and the documents of a list of actions that grew by one.
pub proof fn lemma_actions_push(a: Seq<FileActionView>, x: FileActionView)
    ensures
        posts(a.push(x)) == match x {
            FileActionView::Post(m) => posts(a).push(m),
            _ => posts(a),
        },
        outputs(a.push(x)) == match x {
            FileActionView::Output { name, line } => outputs(a).push(line),
            _ => outputs(a),
        },
{
    assert(a.push(x).drop_last() =~= a);
}

/// The lines among `lines` for which a document goes out, where they are
/// read from the file of `pod`: none where the file is not to be uploaded,
/// else those that are not empty.
pub open spec fn uploaded(pod: PodView, lines: Seq<Seq<char>>) -> Seq<Seq<char>>
    decreases lines.len(),
{
    if lines.len() == 0 {
        Seq::empty()
    } else if pod.is_upload && lines.last().len() > 0 {
        uploaded(pod, lines.drop_last()).push(lines.last())
    } else {
        uploaded(pod, lines.drop_last())
    }
}

/// The documents of `lines`, read from the file of `pod`.
pub open spec fn documents(pod: PodView, lines: Seq<Seq<char>>) -> Seq<Seq<char>> {
    lines.map_values(|l: Seq<char>| document(pod, l))
}

/// The commands that make the registry count `lines`, read from the file
/// with key `uuid`: one for each line that is not empty.
pub open spec fn steps(uuid: Seq<char>, lines: Seq<Seq<char>>) -> Seq<MessageView>
    decreases lines.len(),
{
    if lines.len() == 0 {
        Seq::empty()
    } else if lines.last().len() > 0 {
        steps(uuid, lines.drop_last()).push(step_message(uuid, lines.last()))
    } else {
        steps(uuid, lines.drop_last())
    }
}

/// What reading lines from a file asks for: the documents of the lines
/// that are sent out, each once and in the order of the lines, and the
/// commands that count the lines. The lines sent out take no more bytes
/// than the lines read.
pub proof fn lemma_lines_accounted(pod: PodView, lines: Seq<Seq<char>>)
    ensures
        outputs(lines_actions(pod, lines)) == documents(pod, uploaded(pod, lines)),
        posts(lines_actions(pod, lines)) == steps(pod.uuid, lines),
        crate::text::total_bytes(uploaded(pod, lines)) <= crate::text::total_bytes(lines),
    decreases lines.len(),
{
    if lines.len() == 0 {
        assert(documents(pod, uploaded(pod, lines)) =~= Seq::<Seq<char>>::empty());
    } else {
        let front = lines.drop_last();
        let last = lines.last();
        lemma_lines_accounted(pod, front);
        lemma_actions_concat(lines_actions(pod, front), line_actions(pod, last));
        let one = line_actions(pod, last);
        let none = Seq::<FileActionView>::empty();
        let out = FileActionView::Output { name: pod.output, line: document(pod, last) };
        let post = FileActionView::Post(step_message(pod.uuid, last));
        assert(posts(none) =~= Seq::<MessageView>::empty());
        assert(outputs(none) =~= Seq::<Seq<char>>::empty());
        if last.len() == 0 {
            assert(one =~= none);
        } else if pod.is_upload {
            lemma_actions_push(none, out);
            lemma_actions_push(none.push(out), post);
            assert(one =~= none.push(out).push(post));
            assert(posts(one) =~= seq![step_message(pod.uuid, last)]);
            assert(outputs(one) =~= seq![document(pod, last)]);
            assert(uploaded(pod, lines) == uploaded(pod, front).push(last));
            assert(uploaded(pod, lines).drop_last() =~= uploaded(pod, front));
            assert(uploaded(pod, lines).last() == last);
        } else {
            lemma_actions_push(none, post);
            assert(one =~= none.push(post));
            assert(posts(one) =~= seq![step_message(pod.uuid, last)]);
            assert(outputs(one) =~= Seq::<Seq<char>>::empty());
        }
        assert(posts(lines_actions(pod, lines)) =~= steps(pod.uuid, lines));
        assert(outputs(lines_actions(pod, lines)) =~= documents(pod, uploaded(pod, lines)));
    }
}

/// The offset covers what was sent out. Once the registry has carried out
/// the commands that reading `lines` from the file of `pod` asks for, the
/// offset of the file has grown by the bytes of the lines, and so is not
/// smaller than the bytes of the lines that were sent out. This holds as
/// long as the offset stays within the range of offsets.
pub proof fn lemma_offset_covers_output(pods: Seq<PodView>, pod: PodView, lines: Seq<Seq<char>>)
    requires
        crate::database::coherent(pods),
        crate::database::known(pods, pod.uuid),
        crate::database::record(pods, pod.uuid).offset + crate::text::total_bytes(lines) <= i64::MAX,
    ensures
        ({
            let end = crate::database::run(pods, posts(lines_actions(pod, lines)));
            &&& crate::database::coherent(end)
            &&& crate::database::known(end, pod.uuid)
            &&& crate::database::record(end, pod.uuid).offset == crate::database::record(
                pods,
                pod.uuid,
            ).offset + crate::text::total_bytes(lines)
            &&& crate::text::total_bytes(uploaded(pod, lines)) <= crate::database::record(
                end,
                pod.uuid,
            ).offset
        }),
    decreases lines.len(),
{
    lemma_lines_accounted(pod, lines);
    crate::database::lemma_position_from(pods, pod.uuid, 0);
    assert(crate::database::sound(pods[crate::database::position(pods, pod.uuid)]));
    if lines.len() == 0 {
        assert(steps(pod.uuid, lines) =~= Seq::<MessageView>::empty());
    } else {
        let front = lines.drop_last();
        let last = lines.last();
        lemma_lines_accounted(pod, front);
        lemma_offset_covers_output(pods, pod, front);
        let mid = crate::database::run(pods, steps(pod.uuid, front));
        if last.len() == 0 {
            assert(last =~= Seq::<char>::empty());
            assert(byte_len(last) == 0);
        } else {
            let m = step_message(pod.uuid, last);
            assert(steps(pod.uuid, lines).drop_last() =~= steps(pod.uuid, front));
            assert(steps(pod.uuid, lines).last() == m);
            let end = crate::database::after(mid, m);
            assert(crate::database::run(pods, steps(pod.uuid, lines)) == end);
            crate::database::lemma_after_coherent(mid, m);
            crate::database::lemma_position_from(mid, pod.uuid, 0);
            let i = crate::database::position(mid, pod.uuid);
            assert(step_of(last) == byte_len(last));
            assert(crate::database::can_advance(mid[i], step_of(last)));
            assert(end == mid.update(i, crate::database::advanced(mid[i], step_of(last))));
            crate::database::lemma_position_same_keys(mid, end, pod.uuid, 0);
            assert(crate::database::position(end, pod.uuid) == i);
            assert(end[i].offset == mid[i].offset + byte_len(last));
        }
    }
}

} // verus!
