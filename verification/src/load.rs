//! The assets that the loading state asks for, and when it hands over to the
//! game.

use vstd::prelude::*;

verus! {

/// The path of the prefab file named `name`.
pub open spec fn prefab_path(name: Seq<char>) -> Seq<char> {
    "prefab/"@ + name + ".ron"@
}

/// The path of the texture of the sprite sheet named `name`.
pub open spec fn texture_path(name: Seq<char>) -> Seq<char> {
    name + ".png"@
}

/// The path of the description of the sprite sheet named `name`.
pub open spec fn sheet_path(name: Seq<char>) -> Seq<char> {
    name + ".ron"@
}

/// The prefab path is the directory `prefab/`, the whole name unchanged, and
/// the extension `.ron`.
pub proof fn lemma_prefab_path_keeps_name(name: Seq<char>)
    ensures
        prefab_path(name).len() == name.len() + 11,
        prefab_path(name).subrange(0, 7) == "prefab/"@,
        forall|i: int| 0 <= i < name.len() ==> #[trigger] prefab_path(name)[7 + i] == name[i],
        prefab_path(name).subrange(name.len() + 7int, name.len() + 11int) == ".ron"@,
{
    reveal_strlit("prefab/");
    reveal_strlit(".ron");
    let p = prefab_path(name);
    assert(p.subrange(0, 7) =~= "prefab/"@);
    assert(p.subrange(name.len() + 7int, name.len() + 11int) =~= ".ron"@);
}

/// The two files of a sprite sheet are the whole name followed by `.png` and
/// by `.ron`.
pub proof fn lemma_sprite_sheet_paths_keep_name(name: Seq<char>)
    ensures
        texture_path(name).len() == name.len() + 4,
        sheet_path(name).len() == name.len() + 4,
        texture_path(name).subrange(0, name.len() as int) == name,
        sheet_path(name).subrange(0, name.len() as int) == name,
        texture_path(name).subrange(name.len() as int, name.len() + 4int) == ".png"@,
        sheet_path(name).subrange(name.len() as int, name.len() + 4int) == ".ron"@,
{
    reveal_strlit(".png");
    reveal_strlit(".ron");
    assert(texture_path(name).subrange(0, name.len() as int) =~= name);
    assert(sheet_path(name).subrange(0, name.len() as int) =~= name);
    assert(texture_path(name).subrange(name.len() as int, name.len() + 4int) =~= ".png"@);
    assert(sheet_path(name).subrange(name.len() as int, name.len() + 4int) =~= ".ron"@);
}

/// The file a prefab named `name` is loaded from, in RON format.
pub fn prefab_asset_path(name: &str) -> (path: String)
    ensures
        path@ == prefab_path(name@),
{
    String::from_str("prefab/").concat(name).concat(".ron")
}

/// The files a sprite sheet named `name` is loaded from: its texture, a PNG
/// image, then its description, in RON format.
pub fn sprite_sheet_asset_paths(name: &str) -> (paths: (String, String))
    ensures
        paths.0@ == texture_path(name@),
        paths.1@ == sheet_path(name@),
{
    let texture = String::from_str(name).concat(".png");
    let sheet = String::from_str(name).concat(".ron");
    (texture, sheet)
}

/// What the loading state does on a frame.
#[derive(Clone, Copy, Debug, PartialEq, Eq, Structural)]
pub enum LoadTransition {
    /// Some asset is still loading: stay.
    Wait,
    /// Every asset has loaded: switch to the game.
    StartGame,
}

/// The loading state hands over to the game once every asset has loaded.
pub fn load_transition(progress_complete: bool) -> (t: LoadTransition)
    ensures
        t == (if progress_complete {
            LoadTransition::StartGame
        } else {
            LoadTransition::Wait
        }),
{
    if !progress_complete {
        return LoadTransition::Wait;
    }
    LoadTransition::StartGame
}

} // verus!
