//! Tools that context servers offer.

use std::sync::Arc;
use vstd::prelude::*;

verus! {

/// A tool of a context server, and the manager through which it is run.
pub struct ContextServerTool<M, T> {
    pub server_manager: M,
    pub server_id: Arc<str>,
    pub tool: T,
}

impl<M, T> ContextServerTool<M, T> {
    /// A tool of a server.
    pub fn new(server_manager: M, server_id: Arc<str>, tool: T) -> (server_tool: Self)
        ensures
            server_tool == (ContextServerTool { server_manager, server_id, tool }),
    {
        ContextServerTool { server_manager, server_id, tool }
    }
}

} // verus!
