use vstd::prelude::*;

verus! {

/// The command line of the service.
#[derive(Clone, Debug)]
pub struct App {
    /// The log level.
    pub level: String,
    /// The path of the route configuration file.
    pub parse_path: String,
    /// The number of worker threads.
    pub worker_thread: usize,
    /// The port to listen on.
    pub port: usize,
}

} // verus!
