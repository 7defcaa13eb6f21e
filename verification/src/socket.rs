//! Commands the overlay receives as plain messages on its Socket.IO connection.

use vstd::prelude::*;

verus! {

/// A plain message from the server, classified.
#[derive(Clone, Copy, Debug, PartialEq, Eq, Structural)]
pub enum SocketCommand {
    /// `"flush"`: drop every queued media item.
    Flush,
    /// `"skip"`: skip the media item on screen.
    Skip,
    /// Anything else: reported and ignored.
    Unknown,
}

/// The command a message stands for.
pub open spec fn command_of(text: Seq<char>) -> SocketCommand {
    if text == "flush"@ {
        SocketCommand::Flush
    } else if text == "skip"@ {
        SocketCommand::Skip
    } else {
        SocketCommand::Unknown
    }
}

/// Only the exact texts `"flush"` and `"skip"` are commands; every other text,
/// including longer ones that start with them, is unknown.
pub proof fn lemma_command_of_exact(text: Seq<char>)
    ensures
        (command_of(text) == SocketCommand::Flush) <==> text == "flush"@,
        (command_of(text) == SocketCommand::Skip) <==> text == "skip"@,
        (command_of(text) == SocketCommand::Unknown) <==> (text != "flush"@ && text != "skip"@),
{
    reveal_strlit("flush");
    reveal_strlit("skip");
    assert("flush"@ != "skip"@) by {
        assert("flush"@.len() != "skip"@.len());
    }
}

/// Classifies one message.
pub fn socket_command(text: &str) -> (cmd: SocketCommand)
    ensures
        cmd == command_of(text@),
{
    let t = String::from_str(text);
    if t == String::from_str("flush") {
        SocketCommand::Flush
    } else if t == String::from_str("skip") {
        SocketCommand::Skip
    } else {
        SocketCommand::Unknown
    }
}

/// Classifies each message of a batch, in order.
pub fn socket_commands(texts: &Vec<String>) -> (cmds: Vec<SocketCommand>)
    ensures
        cmds@.len() == texts@.len(),
        forall|i: int| 0 <= i < texts@.len() ==> cmds@[i] == command_of(#[trigger] texts@[i]@),
{
    let mut cmds: Vec<SocketCommand> = Vec::new();
    let mut i: usize = 0;
    while i < texts.len()
        invariant
            i <= texts@.len(),
            cmds@.len() == i,
            forall|j: int| 0 <= j < i ==> cmds@[j] == command_of(#[trigger] texts@[j]@),
        decreases texts@.len() - i,
    {
        cmds.push(socket_command(texts[i].as_str()));
        i = i + 1;
    }
    cmds
}

/// The event the client emits on connecting, with the room as its payload.
pub fn join_event() -> (name: String)
    ensures
        name@ == "join"@,
{
    String::from_str("join")
}

/// The event that carries media items.
pub fn media_event() -> (name: String)
    ensures
        name@ == "mediachat"@,
{
    String::from_str("mediachat")
}

} // verus!
