use crate::file::FileReaderWriter;
use crate::scan::AutoScanner;
use vstd::prelude::*;

verus! {

/// The settings of one agent: the namespace whose pods it serves, the
/// directory it watches, where its control plane is, and the node it
/// runs on.
pub struct Harvest<'a> {
    node_name: &'a str,
    namespace: &'a str,
    dir: &'a str,
    api_server_addr: &'a str,
}

impl<'a> Harvest<'a> {
    /// The node that the agent runs on.
    pub closed spec fn spec_node_name(&self) -> Seq<char> {
        self.node_name@
    }

    /// The namespace whose pods the agent serves.
    pub closed spec fn spec_namespace(&self) -> Seq<char> {
        self.namespace@
    }

    /// The directory that the agent watches.
    pub closed spec fn spec_dir(&self) -> Seq<char> {
        self.dir@
    }

    /// Where the control plane of the agent is.
    pub closed spec fn spec_api_server_addr(&self) -> Seq<char> {
        self.api_server_addr@
    }

    /// The settings of an agent.
    pub fn new(namespace: &'a str, dir: &'a str, api_server_addr: &'a str, node_name: &'a str) -> (r:
        Self)
        ensures
            r.spec_namespace() == namespace@,
            r.spec_dir() == dir@,
            r.spec_api_server_addr() == api_server_addr@,
            r.spec_node_name() == node_name@,
    {
        Self { namespace, dir, node_name, api_server_addr }
    }

    /// The node that the agent runs on.
    pub fn node_name(&self) -> (r: &'a str)
        ensures
            r@ == self.spec_node_name(),
    {
        self.node_name
    }

    /// The namespace whose pods the agent serves.
    pub fn namespace(&self) -> (r: &'a str)
        ensures
            r@ == self.spec_namespace(),
    {
        self.namespace
    }

    /// The directory that the agent watches.
    pub fn dir(&self) -> (r: &'a str)
        ensures
            r@ == self.spec_dir(),
    {
        self.dir
    }

    /// Where the control plane of the agent is.
    pub fn api_server_addr(&self) -> (r: &'a str)
        ensures
            r@ == self.spec_api_server_addr(),
    {
        self.api_server_addr
    }

    /// The watcher of the agent, yet without listeners.
    pub fn scanner(&self) -> (r: AutoScanner)
        ensures
            r.namespace() == self.spec_namespace(),
            r.dir() == self.spec_dir(),
            r.listeners() == Seq::<Seq<char>>::empty(),
    {
        AutoScanner::new(self.namespace.to_owned(), self.dir.to_owned())
    }

    /// The pool of the agent, yet without workers.
    pub fn pool(&self, num_workers: usize) -> (r: FileReaderWriter)
        ensures
            r@ == Seq::<Seq<char>>::empty(),
            r.wf(),
            r.workers() == num_workers,
    {
        FileReaderWriter::new(num_workers)
    }
}

} // verus!
