//! The workspace registry: the static configuration that names each
//! workspace and the directory its session should start in.

use vstd::prelude::*;

verus! {

/// A workspace directory as it is handed to the multiplexer: the path's
/// textual form, when the path has one. A path that cannot be represented
/// as text carries `None` and is rejected when a session must be created
/// from it.
#[derive(Debug, Clone, PartialEq)]
pub struct DirPath {
    pub text: Option<String>,
}

/// A workspace pairs a display name with the directory its session is
/// rooted in. Equivalent to one session of the multiplexer.
#[derive(Debug, Clone, PartialEq)]
pub struct Workspace {
    /// Name of the workspace when displayed.
    pub name: String,
    /// Path to the workspace directory.
    pub directory: DirPath,
}

/// Selects the multiplexer socket namespace, so that several independent
/// instances of the tool can coexist.
#[derive(Debug, Clone, PartialEq)]
pub struct Tmux {
    pub socket_name: Option<String>,
}

/// The settings comprise the static configuration for the available
/// workspaces, in declaration order, together with the optional
/// multiplexer namespace.
#[derive(Debug, Clone, PartialEq)]
pub struct Settings {
    pub workspaces: Vec<Workspace>,
    pub tmux: Option<Tmux>,
}

/// The socket namespace the settings select, if any.
pub open spec fn spec_namespace(s: Settings) -> Option<Seq<char>> {
    match s.tmux {
        Some(t) => match t.socket_name {
            Some(n) => Some(n@),
            None => None,
        },
        None => None,
    }
}

/// First workspace of the registry whose name is `name`, by declaration
/// order; `None` when no entry matches.
pub open spec fn spec_find_workspace(ws: Seq<Workspace>, name: Seq<char>) -> Option<Workspace>
    decreases ws.len(),
{
    if ws.len() == 0 {
        None
    } else if ws[0].name@ == name {
        Some(ws[0])
    } else {
        spec_find_workspace(ws.drop_first(), name)
    }
}

/// The registry's workspace names, in declaration order.
pub open spec fn spec_workspace_names(ws: Seq<Workspace>) -> Seq<Seq<char>> {
    ws.map_values(|w: Workspace| w.name@)
}

} // verus!
