//! The order in which the members of `devcontainer.json` are written.
use vstd::prelude::*;

verus! {

/// The fixed order of the well-known members of `devcontainer.json`.
pub struct FieldOrder;

/// The well-known member names, in the order they are written.
pub open spec fn field_order_spec() -> Seq<Seq<char>> {
    seq![
        "name"@,
        "dockerComposeFile"@,
        "service"@,
        "workspaceFolder"@,
        "containerEnv"@,
        "forwardPorts"@,
        "postCreateCommand"@,
        "postStartCommand"@,
        "postAttachCommand"@,
        "remoteUser"@,
        "customizations"@,
    ]
}

impl FieldOrder {
    /// The well-known member names of `devcontainer.json`, in writing order.
    pub fn get_order() -> (r: &'static [&'static str])
        ensures
            r@.len() == field_order_spec().len(),
            forall|i: int| 0 <= i < r@.len() ==> #[trigger] r@[i]@ == field_order_spec()[i],
    {
        &[
            "name",
            "dockerComposeFile",
            "service",
            "workspaceFolder",
            "containerEnv",
            "forwardPorts",
            "postCreateCommand",
            "postStartCommand",
            "postAttachCommand",
            "remoteUser",
            "customizations",
        ]
    }
}

/// No well-known name is listed twice.
pub proof fn lemma_field_order_distinct()
    ensures
        forall|i: int, j: int|
            0 <= i < j < field_order_spec().len() ==> field_order_spec()[i] != field_order_spec()[j],
{
    reveal_strlit("name");
    reveal_strlit("dockerComposeFile");
    reveal_strlit("service");
    reveal_strlit("workspaceFolder");
    reveal_strlit("containerEnv");
    reveal_strlit("forwardPorts");
    reveal_strlit("postCreateCommand");
    reveal_strlit("postStartCommand");
    reveal_strlit("postAttachCommand");
    reveal_strlit("remoteUser");
    reveal_strlit("customizations");
    let f = field_order_spec();
    assert forall|i: int, j: int| 0 <= i < j < f.len() implies f[i] != f[j] by {
        if i == 1 && j == 6 {
            assert(f[1][0] != f[6][0]);
        } else if i == 1 && j == 8 {
            assert(f[1][0] != f[8][0]);
        } else if i == 6 && j == 8 {
            assert(f[6][4] != f[8][4]);
        } else if i == 4 && j == 5 {
            assert(f[4][0] != f[5][0]);
        } else {
            assert(f[i].len() != f[j].len());
        }
    }
}

} // verus!
