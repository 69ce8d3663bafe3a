//! The rules by which a broker names its threads and lets go of its clients.

use vstd::prelude::*;
use vstd::string::StringExecFns;

verus! {

/// How the link to a client came to its end.
#[derive(Debug, Clone, Copy, PartialEq, Eq, Structural)]
pub enum LinkEnd {
    /// The link ran out by itself.
    Stopped,
    /// The network failed; a clean close shows as an aborted connection.
    Io { aborted: bool },
    /// The client asked to be disconnected.
    Disconnect,
    /// Anything else.
    Other,
}

/// What is put on record about the end of a link.
#[derive(Debug, Clone, Copy, PartialEq, Eq, Structural)]
pub enum Notice {
    Stopped,
    Closed,
    Disconnected,
    Failed,
}

/// What follows from the end of a link.
#[derive(Debug, Clone, Copy, PartialEq, Eq, Structural)]
pub struct Closing {
    /// Whether the router publishes the client's last will.
    pub execute_will: bool,
    pub notice: Notice,
}

/// Decides what follows from the end of a link. The last will is for clients
/// that are lost: only one that asked to be disconnected goes without it.
pub fn closing(end: LinkEnd) -> (r: Closing)
    ensures
        r.execute_will <==> end != LinkEnd::Disconnect,
        r.notice == (match end {
            LinkEnd::Stopped => Notice::Stopped,
            LinkEnd::Io { aborted } => if aborted {
                Notice::Closed
            } else {
                Notice::Failed
            },
            LinkEnd::Disconnect => Notice::Disconnected,
            LinkEnd::Other => Notice::Failed,
        }),
{
    match end {
        // this shouldn't usually happen
        LinkEnd::Stopped => Closing { execute_will: true, notice: Notice::Stopped },
        LinkEnd::Io { aborted: true } => Closing { execute_will: true, notice: Notice::Closed },
        LinkEnd::Disconnect => Closing { execute_will: false, notice: Notice::Disconnected },
        LinkEnd::Io { aborted: false } | LinkEnd::Other => Closing { execute_will: true, notice: Notice::Failed },
    }
}

/// The name of the thread that serves the listener `id`.
pub fn server_thread_name(id: &str) -> (r: String)
    ensures
        r@ == "rumqttd-server-"@ + id@,
{
    let mut name = "rumqttd-server-".to_owned();
    name.append(id);
    name
}

} // verus!
