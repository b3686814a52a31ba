use vstd::prelude::*;

verus! {

/// Where the game is: the title screen, a level being played, the end of a
/// round with its banner, or a request to (re)load a level.
#[derive(Clone, Debug)]
pub enum Scene {
    Start,
    Gameplay,
    End { winner: String },
    Restart { level: u32 },
}

/// The first level, which both the title screen and the end screen start.
pub const FIRST_LEVEL: u32 = 1;

/// The scene and the round timer after the title or end screen has read the
/// restart keys: on the end screen the restart key, on the title screen the
/// enter key, requests the first level and resets the timer; otherwise
/// nothing changes.
pub open spec fn spec_ui(scene: Scene, t: i32, restart_key: bool, enter_key: bool) -> (Scene, i32) {
    match scene {
        Scene::End { .. } => if restart_key {
            (Scene::Restart { level: FIRST_LEVEL }, 0i32)
        } else {
            (scene, t)
        },
        Scene::Start => if enter_key {
            (Scene::Restart { level: FIRST_LEVEL }, 0i32)
        } else {
            (scene, t)
        },
        _ => (scene, t),
    }
}

/// The banner shown when `username` reaches the goal.
pub open spec fn winner_text(username: Seq<char>) -> Seq<char> {
    "Winner: "@ + username
}

/// The scene after a pending level request is taken up, and the level requested.
pub open spec fn spec_begin_restart(scene: Scene) -> (Scene, Option<u32>) {
    match scene {
        Scene::Restart { level } => (Scene::Gameplay, Some(level)),
        _ => (scene, None),
    }
}

/// Taking up a restart request changes only a pending request, which
/// becomes gameplay and yields its level; every other scene (the title
/// screen, play, the end screen with its banner) stays exactly as it is and
/// yields no level.
pub proof fn lemma_restart_takes_only_requests(scene: Scene)
    ensures
        !(scene is Restart) ==> spec_begin_restart(scene) == (scene, None::<u32>),
        scene matches Scene::Restart { level } ==> spec_begin_restart(scene) == (Scene::Gameplay, Some(level)),
        spec_begin_restart(scene).1 is Some <==> scene is Restart,
{
}

/// The overlay screens: title and end of round.
pub struct UI;

impl UI {
    /// Reads the keys of the title and end screens: `restart_key` is whether
    /// the restart key went down this frame, `enter_key` whether enter did.
    pub fn ui(scene: &mut Scene, t: &mut i32, restart_key: bool, enter_key: bool)
        ensures
            (*final(scene), *final(t)) == spec_ui(*old(scene), *old(t), restart_key, enter_key),
    {
        let go = match &*scene {
            Scene::End { .. } => restart_key,
            Scene::Start => enter_key,
            _ => false,
        };
        if go {
            *t = 0;
            *scene = Scene::Restart { level: FIRST_LEVEL };
        }
    }
}

impl Scene {
    /// The end scene announcing that `username` won.
    pub fn won_by(username: &String) -> (s: Scene)
        ensures
            s matches Scene::End { winner } && winner@ == winner_text(username@),
    {
        let banner = "Winner: ".to_string();
        let winner = banner.concat(username.as_str());
        Scene::End { winner }
    }

    /// A pending level request is taken up: the scene becomes gameplay and
    /// the requested level is returned; any other scene is left as it is.
    pub fn begin_restart(&mut self) -> (level: Option<u32>)
        ensures
            (*final(self), level) == spec_begin_restart(*old(self)),
            !(*old(self) is Restart) ==> *final(self) == *old(self) && level.is_none(),
            *old(self) matches Scene::Restart { level: l } ==> *final(self) == Scene::Gameplay && level == Some(l),
    {
        proof {
            lemma_restart_takes_only_requests(*old(self));
        }
        match *self {
            Scene::Restart { level } => {
                *self = Scene::Gameplay;
                Some(level)
            },
            _ => None,
        }
    }

    /// The server refused to let this client join: back to the title screen.
    pub fn deny(&mut self)
        ensures
            *final(self) == Scene::Start,
    {
        *self = Scene::Start;
    }

    /// Whether this is the end-of-round scene.
    pub fn is_end(&self) -> (b: bool)
        ensures
            b == (*self is End),
    {
        match self {
            Scene::End { .. } => true,
            _ => false,
        }
    }
}

/// From the title screen with enter, or from the end screen with the
/// restart key, the game goes to the first level with the round timer at
/// zero; during play the screens change nothing.
pub proof fn lemma_restart_flow(scene: Scene, t: i32, restart_key: bool, enter_key: bool)
    ensures
        (scene is Start && enter_key) || (scene is End && restart_key) ==> {
            let (s1, t1) = spec_ui(scene, t, restart_key, enter_key);
            &&& t1 == 0
            &&& spec_begin_restart(s1) == (Scene::Gameplay, Some(FIRST_LEVEL))
        },
        scene is Gameplay ==> spec_ui(scene, t, restart_key, enter_key) == (scene, t)
            && spec_begin_restart(scene) == (scene, None::<u32>),
{
}

/// The screens react only to their own key: on the end screen the restart
/// key, on the title screen the enter key, requests level 1 and sets the
/// timer to 0; without that key, and in every other scene, the scene and
/// the timer stay as they are.
pub proof fn lemma_screen_keys(scene: Scene, t: i32, restart_key: bool, enter_key: bool)
    ensures
        scene is End && restart_key ==> spec_ui(scene, t, restart_key, enter_key) == (Scene::Restart { level: 1 }, 0i32),
        scene is Start && enter_key ==> spec_ui(scene, t, restart_key, enter_key) == (Scene::Restart { level: 1 }, 0i32),
        !(scene is End && restart_key) && !(scene is Start && enter_key) ==> spec_ui(scene, t, restart_key, enter_key) == (scene, t),
{
}

/// The winner banner is "Winner: " followed by the player's name.
pub proof fn lemma_winner_banner(username: Seq<char>)
    ensures
        winner_text(username).len() == username.len() + 8,
        winner_text(username).subrange(8, winner_text(username).len() as int) == username,
        winner_text(username).subrange(0, 8) == seq!['W', 'i', 'n', 'n', 'e', 'r', ':', ' '],
{
    reveal_strlit("Winner: ");
    assert(winner_text(username).subrange(8, winner_text(username).len() as int) =~= username);
    assert(winner_text(username).subrange(0, 8) =~= seq!['W', 'i', 'n', 'n', 'e', 'r', ':', ' ']);
}

} // verus!
