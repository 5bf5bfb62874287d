use vstd::prelude::*;

verus! {

/// Where a record stands: known but never collected, collected by a
/// worker, or no longer collected.
#[derive(Debug, Clone, Copy, PartialEq, Eq, Structural)]
pub enum State {
    Ready,
    Running,
    Stopped,
}

/// What the registry keeps of one log file. The key `uuid` is the path of
/// the file; `offset` is the number of bytes of the file that have been
/// read and accounted for, and `last_offset` the last step that it took.
#[derive(Debug, PartialEq)]
pub struct Pod {
    pub uuid: String,
    pub offset: i64,
    pub ns: String,
    pub pod: String,
    pub container: String,
    pub is_upload: bool,
    pub state: State,
    pub filter: String,
    pub output: String,
    pub ips: Vec<String>,
    pub last_offset: i64,
}

/// A record as the contracts see it.
pub struct PodView {
    pub uuid: Seq<char>,
    pub offset: int,
    pub ns: Seq<char>,
    pub pod: Seq<char>,
    pub container: Seq<char>,
    pub is_upload: bool,
    pub state: State,
    pub filter: Seq<char>,
    pub output: Seq<char>,
    pub ips: Seq<Seq<char>>,
    pub last_offset: int,
}

/// Strings as the contracts see them.
pub open spec fn texts(v: Seq<String>) -> Seq<Seq<char>> {
    v.map_values(|s: String| s@)
}

impl View for Pod {
    type V = PodView;

    open spec fn view(&self) -> PodView {
        PodView {
            uuid: self.uuid@,
            offset: self.offset as int,
            ns: self.ns@,
            pod: self.pod@,
            container: self.container@,
            is_upload: self.is_upload,
            state: self.state,
            filter: self.filter@,
            output: self.output@,
            ips: texts(self.ips@),
            last_offset: self.last_offset as int,
        }
    }
}

/// A copy of a vector of strings.
pub fn clone_texts(v: &Vec<String>) -> (r: Vec<String>)
    ensures
        texts(r@) == texts(v@),
{
    let mut r: Vec<String> = Vec::new();
    let mut i: usize = 0;
    while i < v.len()
        invariant
            i <= v.len(),
            r@.len() == i,
            forall|j: int| 0 <= j < i ==> r@[j]@ == v@[j]@,
        decreases v.len() - i,
    {
        r.push(v[i].clone());
        i = i + 1;
    }
    assert(texts(r@) =~= texts(v@));
    r
}

/// The records of a vector as the contracts see them.
pub open spec fn views(s: Seq<Pod>) -> Seq<PodView> {
    s.map_values(|p: Pod| p@)
}

impl Clone for Pod {
    fn clone(&self) -> (r: Self)
        ensures
            r@ == self@,
    {
        Pod {
            uuid: self.uuid.clone(),
            offset: self.offset,
            ns: self.ns.clone(),
            pod: self.pod.clone(),
            container: self.container.clone(),
            is_upload: self.is_upload,
            state: self.state,
            filter: self.filter.clone(),
            output: self.output.clone(),
            ips: clone_texts(&self.ips),
            last_offset: self.last_offset,
        }
    }
}

impl Default for Pod {
    fn default() -> (r: Self)
        ensures
            r@ == Pod::blank(),
    {
        let r = Pod {
            uuid: String::new(),
            offset: 0,
            ns: String::new(),
            pod: String::new(),
            container: String::new(),
            is_upload: false,
            state: State::Ready,
            filter: String::new(),
            output: String::new(),
            ips: Vec::new(),
            last_offset: 0,
        };
        assert(texts(r.ips@) =~= Seq::<Seq<char>>::empty());
        r
    }
}

impl Pod {
    /// The record that names nothing: empty texts, offset zero, not to be
    /// uploaded, ready.
    pub open spec fn blank() -> PodView {
        PodView {
            uuid: Seq::empty(),
            offset: 0,
            ns: Seq::empty(),
            pod: Seq::empty(),
            container: Seq::empty(),
            is_upload: false,
            state: State::Ready,
            filter: Seq::empty(),
            output: Seq::empty(),
            ips: Seq::empty(),
            last_offset: 0,
        }
    }

    /// Marks the record as having a live worker.
    pub fn set_state_run(&mut self) -> (r: &mut Self)
        ensures
            r@ == (PodView { state: State::Running, ..old(self)@ }),
            *final(self) == *final(r),
    {
        self.state = State::Running;
        self
    }

    /// Puts the record back into its initial state.
    pub fn set_state_ready(&mut self) -> (r: &mut Self)
        ensures
            r@ == (PodView { state: State::Ready, ..old(self)@ }),
            *final(self) == *final(r),
    {
        self.state = State::Ready;
        self
    }

    /// Marks the record as stopped: no worker serves it.
    pub fn set_state_stop(&mut self) -> (r: &mut Self)
        ensures
            r@ == (PodView { state: State::Stopped, ..old(self)@ }),
            *final(self) == *final(r),
    {
        self.state = State::Stopped;
        self
    }

    /// Asks for the file to be collected.
    pub fn upload(&mut self) -> (r: &mut Self)
        ensures
            r@ == (PodView { is_upload: true, ..old(self)@ }),
            *final(self) == *final(r),
    {
        self.is_upload = true;
        self
    }

    /// Asks for collection of the file to end.
    pub fn un_upload(&mut self) -> (r: &mut Self)
        ensures
            r@ == (PodView { is_upload: false, ..old(self)@ }),
            *final(self) == *final(r),
    {
        self.is_upload = false;
        self
    }

    /// What a record looks like after the fields an operator may change have
    /// been taken over from `other`. Identity, offset and state stay.
    pub open spec fn merged(this: PodView, other: PodView) -> PodView {
        PodView { is_upload: other.is_upload, filter: other.filter, output: other.output, ..this }
    }

    /// Takes over the upload flag, the filter and the output binding of `other`.
    pub fn merge(&mut self, other: &Pod) -> (r: &mut Self)
        ensures
            r@ == Pod::merged(old(self)@, other@),
            *final(self) == *final(r),
    {
        self.is_upload = other.is_upload;
        self.filter = other.filter.clone();
        self.output = other.output.clone();
        self
    }

    /// Whether a worker collects the file.
    pub fn is_running(&self) -> (r: bool)
        ensures
            r == (self@.state == State::Running),
    {
        self.state == State::Running
    }

    /// Whether the file has never been collected.
    pub fn is_ready(&self) -> (r: bool)
        ensures
            r == (self@.state == State::Ready),
    {
        self.state == State::Ready
    }

    /// Whether collection of the file has ended.
    pub fn is_stop(&self) -> (r: bool)
        ensures
            r == (self@.state == State::Stopped),
    {
        self.state == State::Stopped
    }

    /// As `merge`, for callers that do not chain.
    pub fn merge_with(&mut self, other: &Pod)
        ensures
            final(self)@ == Pod::merged(old(self)@, other@),
    {
        self.merge(other);
    }

    /// Whether both records belong to the same pod of the same namespace.
    pub fn compare_ns_pod(&self, other: &Pod) -> (r: bool)
        ensures
            r == (self@.ns == other@.ns && self@.pod == other@.pod),
    {
        self.ns == other.ns && self.pod == other.pod
    }

    /// Whether `delta` is a step that the offset of `this` can take: it
    /// does not lead back, and not past the largest offset.
    pub open spec fn can_advance(this: PodView, delta: int) -> bool {
        0 <= delta && this.offset + delta <= i64::MAX
    }

    /// A record after `delta` more bytes have been read.
    pub open spec fn advanced(this: PodView, delta: int) -> PodView {
        PodView { offset: this.offset + delta, last_offset: delta, ..this }
    }

    /// Advances the offset by `offset` bytes and remembers the step. A
    /// step that the offset cannot take changes nothing.
    pub fn incr_offset(&mut self, offset: i64) -> (r: &mut Self)
        ensures
            r@ == if Pod::can_advance(old(self)@, offset as int) {
                Pod::advanced(old(self)@, offset as int)
            } else {
                old(self)@
            },
            *final(self) == *final(r),
    {
        if offset >= 0 && self.offset <= i64::MAX - offset {
            self.offset = self.offset + offset;
            self.last_offset = offset;
        }
        self
    }
}

/// A copy of a vector of records.
pub fn clone_pods(v: &Vec<Pod>) -> (r: Vec<Pod>)
    ensures
        views(r@) == views(v@),
{
    let mut r: Vec<Pod> = Vec::new();
    let mut i: usize = 0;
    while i < v.len()
        invariant
            i <= v.len(),
            r@.len() == i,
            forall|j: int| 0 <= j < i ==> r@[j]@ == v@[j]@,
        decreases v.len() - i,
    {
        r.push(v[i].clone());
        i = i + 1;
    }
    assert(views(r@) =~= views(v@));
    r
}

/// Gives access to the record that a payload carries.
pub trait GetPod {
    fn get(&self) -> Option<&Pod>;
}

impl GetPod for Pod {
    fn get(&self) -> (r: Option<&Pod>)
        ensures
            r == Some(self),
    {
        Some(self)
    }
}

/// A list of records.
pub type PodList = Vec<Pod>;

/// A list of records on its way to a textual form.
pub struct PodListMarshaller(pub PodList);

} // verus!
