//! The decision logic of the workspace-command dispatch.
//!
//! Language servers advertise workspace commands; running one is the
//! surrounding editor's work. What the interpreter decides is which: with
//! no argument a picker over all advertised commands opens; with an
//! argument the command runs only when exactly one server advertises it,
//! and an ambiguous or unknown name is reported instead.

use vstd::prelude::*;
use crate::bytes;

verus! {

/// One workspace command advertised by one language server.
pub struct WorkspaceCommand {
    /// The advertising server.
    pub server: u64,
    /// The command name.
    pub name: Vec<u8>,
}

/// What to do about a workspace-command invocation.
pub enum WorkspaceChoice {
    /// No argument: open a picker over all advertised commands.
    ShowPicker,
    /// Exactly one server advertises the name: run it there.
    Execute { server: u64 },
    /// No server advertises the name.
    NotSupported,
    /// Several servers advertise the name; the request is ambiguous.
    Ambiguous,
}

/// The advertisements matching a requested name.
pub open spec fn spec_matching_commands(cmds: Seq<WorkspaceCommand>, name: Seq<u8>) -> Seq<
    WorkspaceCommand,
> {
    cmds.filter(|c: WorkspaceCommand| c.name@ == name)
}

/// Decides a workspace-command invocation: a picker without an argument;
/// with one, the command runs if and only if exactly one server
/// advertises that name.
pub fn workspace_command_choice(
    advertised: &Vec<WorkspaceCommand>,
    requested: Option<&Vec<u8>>,
) -> (r: WorkspaceChoice)
    ensures
        ({
            match requested {
                None => r is ShowPicker,
                Some(name) => {
                    let hits = spec_matching_commands(advertised@, name@);
                    if hits.len() == 0 {
                        r is NotSupported
                    } else if hits.len() == 1 {
                        r matches WorkspaceChoice::Execute { server } && server == hits[0].server
                    } else {
                        r is Ambiguous
                    }
                },
            }
        }),
{
    let name: &Vec<u8> = match requested {
        None => {
            return WorkspaceChoice::ShowPicker;
        },
        Some(n) => n,
    };
    let mut count: usize = 0;
    let mut first_server: u64 = 0;
    let mut i: usize = 0;
    proof {
        reveal(Seq::filter);
        assert(advertised@.take(0int) =~= Seq::<WorkspaceCommand>::empty());
    }
    while i < advertised.len()
        invariant
            0 <= i <= advertised@.len(),
            count == spec_matching_commands(advertised@.take(i as int), name@).len(),
            count > 0 ==> first_server == spec_matching_commands(
                advertised@.take(i as int),
                name@,
            )[0].server,
            count <= i,
        decreases advertised@.len() - i,
    {
        proof {
            reveal(Seq::filter);
            assert(advertised@.take(i + 1).drop_last() =~= advertised@.take(i as int));
            assert(advertised@.take(i + 1).last() == advertised@[i as int]);
        }
        if bytes::bytes_eq(advertised[i].name.as_slice(), name.as_slice()) {
            if count == 0 {
                first_server = advertised[i].server;
            }
            count += 1;
        }
        i += 1;
    }
    proof {
        assert(advertised@.take(advertised@.len() as int) =~= advertised@);
    }
    if count == 0 {
        WorkspaceChoice::NotSupported
    } else if count == 1 {
        WorkspaceChoice::Execute { server: first_server }
    } else {
        WorkspaceChoice::Ambiguous
    }
}

} // verus!
