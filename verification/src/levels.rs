use vstd::prelude::*;

verus! {

/// What loading a level amounts to.
#[derive(Clone, Copy, Debug, PartialEq, Eq, Structural)]
pub enum LoadPlan {
    /// Level 0: empty the world.
    Clear,
    /// Build the given level into the world (the server does this).
    Build { level: u32 },
    /// Ask the server to join its game (a client does this).
    Login,
    /// Nothing to do: an unknown level on the server, or a client without a connection.
    Nothing,
}

/// The levels that can be built: only the first one.
pub open spec fn known_level(id: u32) -> bool {
    id == 1
}

/// Loading level `id`: 0 empties the world; the server builds a known
/// level; a client with a connection logs in to the server instead.
pub open spec fn spec_load(id: u32, client: bool, connected: bool) -> LoadPlan {
    if id == 0 {
        LoadPlan::Clear
    } else if !client {
        if known_level(id) {
            LoadPlan::Build { level: id }
        } else {
            LoadPlan::Nothing
        }
    } else if connected {
        LoadPlan::Login
    } else {
        LoadPlan::Nothing
    }
}

/// Decides what loading a level does.
pub struct LevelLoader;

impl LevelLoader {
    /// What loading level `id` amounts to, for a client or the server, with
    /// or without a connection.
    pub fn load(id: u32, client: bool, connected: bool) -> (plan: LoadPlan)
        ensures
            plan == spec_load(id, client, connected),
            id == 0 ==> plan == LoadPlan::Clear,
            !client && id == 1 ==> plan == (LoadPlan::Build { level: 1 }),
            !client && id != 0 && id != 1 ==> plan == LoadPlan::Nothing,
            client && id != 0 ==> plan == (if connected { LoadPlan::Login } else { LoadPlan::Nothing }),
    {
        proof {
            lemma_load_cases(id, client, connected);
        }
        if id == 0 {
            return LoadPlan::Clear;
        }
        if !client {
            match id {
                1 => LoadPlan::Build { level: 1 },
                _ => LoadPlan::Nothing,
            }
        } else {
            if connected {
                LoadPlan::Login
            } else {
                LoadPlan::Nothing
            }
        }
    }
}

/// Level 0 always empties the world, and only the server builds levels.
pub proof fn lemma_load_roles(id: u32, client: bool, connected: bool)
    ensures
        id == 0 ==> spec_load(id, client, connected) == LoadPlan::Clear,
        client ==> !(spec_load(id, client, connected) is Build),
        spec_load(id, client, connected) is Login ==> client && connected && id != 0,
{
}

/// Level 0 always empties the world. The server builds level 1 and does
/// nothing for any other level, whatever its connection; a client never
/// builds and logs in exactly when it is connected.
pub proof fn lemma_load_cases(id: u32, client: bool, connected: bool)
    ensures
        id == 0 ==> spec_load(id, client, connected) == LoadPlan::Clear,
        !client && id == 1 ==> spec_load(id, client, connected) == (LoadPlan::Build { level: 1 }),
        !client && id != 0 && id != 1 ==> spec_load(id, client, connected) == LoadPlan::Nothing,
        !client ==> spec_load(id, client, true) == spec_load(id, client, false),
        client && id != 0 ==> spec_load(id, client, connected) == (if connected { LoadPlan::Login } else { LoadPlan::Nothing }),
{
}

} // verus!
