//! The core of a log-collection agent for one node: it finds the log files
//! of containers under a directory, follows each from the offset that its
//! registry keeps, wraps every line with the pod and the container that
//! wrote it, and hands the lines to named sinks. A control plane switches
//! collection on and off pod by pod.
//!
//! The library decides and the caller acts. Whatever touches a file, a
//! socket, a thread or a channel is left to the caller: the library takes
//! what was read and gives back what is to be done.
//!
//! - `pod`, `database`, `db`: the records, the registry that keeps them,
//!   and the commands that change it.
//! - `event`: listeners under event names, told in the order of their
//!   registration.
//! - `scan`: from paths and raw change notices to the events of log files.
//! - `file`: the pool of workers, the lines of a file and their documents.
//! - `listener`, `task`, `api`, `admin`: what follows from a change of the
//!   registry, a directive of the control plane, a request of an operator.
//! - `agent`: what registry and pool agree on at any time.
//! - `output`, `filter`: sinks by name, and rules that select lines.
//! - `store`: a table of rows that tells listeners of its changes.
//! - `marshal`, `json`, `text`, `seqs`: JSON out of records, the calls
//!   into `serde_json`, and facts about texts and sequences.

pub mod admin;
pub mod agent;
pub mod api;
pub mod database;
pub mod db;
pub mod event;
pub mod file;
pub mod filter;
pub mod json;
pub mod listener;
pub mod marshal;
pub mod output;
pub mod pod;
pub mod scan;
pub mod seqs;
pub mod server;
pub mod store;
pub mod task;
pub mod text;
