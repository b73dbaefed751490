use vstd::prelude::*;

verus! {

/// The lifecycle state a freshly accepted client moves through. `Initial`
/// precedes the first handshake byte; the remaining states mirror the
/// protocol phases.
#[derive(Debug, Clone, Copy, PartialEq, Eq, Structural)]
pub enum ClientState {
    Initial,
    Handshaking,
    Status,
    Play,
    Login,
}

} // verus!
