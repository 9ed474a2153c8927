//! A world folder: its level data and the players whose files lie in it.

use vstd::prelude::*;
use vstd::string::StrSliceExecFns;
use crate::error::NBTError;
use crate::extract::{LevelDat, PlayerDat, PlayerValue};
use crate::file::{gunzipped, level_in, player_in};

verus! {

/// The ending of the name of a player's file.
pub open spec fn dat_suffix() -> Seq<char> {
    seq!['.', 'd', 'a', 't']
}

/// The identifier of the player whose file bears the name `file_name`: the
/// name without its ending `.dat`. `None` for a name that does not end so.
pub open spec fn player_id(file_name: Seq<char>) -> Option<Seq<char>> {
    let n = file_name.len() as int;
    if n >= 4 && file_name.subrange(n - 4, n) == dat_suffix() {
        Some(file_name.subrange(0, n - 4))
    } else {
        None
    }
}

/// The identifier that the name of a player's file gives.
pub fn player_id_of(file_name: &str) -> (r: Option<String>)
    ensures
        r matches Some(id) ==> player_id(file_name@) == Some(id@),
        r is None ==> player_id(file_name@) is None,
{
    let n: usize = file_name.unicode_len();
    if n < 4 {
        return None;
    }
    if file_name.get_char(n - 4) == '.' && file_name.get_char(n - 3) == 'd' && file_name.get_char(
        n - 2,
    ) == 'a' && file_name.get_char(n - 1) == 't' {
        assert(file_name@.subrange(n - 4, n as int) =~= dat_suffix());
        Some(file_name.substring_char(0, n - 4).to_owned())
    } else {
        assert(file_name@.subrange(n - 4, n as int)[0] == file_name@[n - 4]);
        assert(file_name@.subrange(n - 4, n as int)[1] == file_name@[n - 3]);
        assert(file_name@.subrange(n - 4, n as int)[2] == file_name@[n - 2]);
        assert(file_name@.subrange(n - 4, n as int)[3] == file_name@[n - 1]);
        None
    }
}

/// The names and contents of files, as character and byte sequences.
pub open spec fn file_views(files: Seq<(String, Vec<u8>)>) -> Seq<(Seq<char>, Seq<u8>)> {
    Seq::new(files.len(), |i: int| (files[i].0@, files[i].1@))
}

/// The values of a sequence of players.
pub open spec fn player_views(players: Seq<PlayerDat>) -> Seq<PlayerValue> {
    Seq::new(players.len(), |i: int| players[i]@)
}

/// The player that a file of name `name` and content `raw` yields: none where
/// the name does not end in `.dat`, or where the content yields no player.
pub open spec fn player_of_file(name: Seq<char>, raw: Seq<u8>) -> Option<PlayerValue> {
    match player_id(name) {
        None => None,
        Some(id) => match player_in(gunzipped(raw), id) {
            Ok(player) => Some(player),
            Err(_) => None,
        },
    }
}

/// The players that the first `upto` files yield, in the order of the files.
pub open spec fn players_among(files: Seq<(Seq<char>, Seq<u8>)>, upto: int) -> Seq<PlayerValue>
    decreases upto,
{
    if upto <= 0 {
        Seq::empty()
    } else {
        match player_of_file(files[upto - 1].0, files[upto - 1].1) {
            Some(player) => players_among(files, upto - 1).push(player),
            None => players_among(files, upto - 1),
        }
    }
}

impl PlayerDat {
    /// The players in the files of a folder, each file given by its name and
    /// its content. A file whose name does not end in `.dat`, or whose content
    /// yields no player, is passed over.
    pub fn for_each_dat_file_in(files: &Vec<(String, Vec<u8>)>) -> (r: Vec<PlayerDat>)
        ensures
            player_views(r@) == players_among(file_views(files@), files@.len() as int),
    {
        let mut result: Vec<PlayerDat> = Vec::new();
        let mut i: usize = 0;
        assert(player_views(result@) =~= Seq::empty());
        while i < files.len()
            invariant
                i <= files@.len(),
                player_views(result@) == players_among(file_views(files@), i as int),
            decreases files@.len() - i,
        {
            let ghost before = player_views(result@);
            match player_id_of(files[i].0.as_str()) {
                Some(uuid) => {
                    match PlayerDat::new(files[i].1.as_slice(), uuid) {
                        Ok(player) => {
                            result.push(player);
                            assert(player_views(result@) =~= before.push(player@));
                        },
                        Err(_) => {},
                    }
                },
                None => {},
            }
            i += 1;
        }
        result
    }
}

/// A world: a folder with a valid `level.dat` file.
#[derive(Debug, PartialEq, Eq)]
pub struct MinecraftWorld {
    /// The folder of the world.
    pub path: String,
    /// What the `level.dat` file of the folder says.
    pub level_dat: LevelDat,
    /// The players whose files lie in the folder `playerdata`.
    pub player_dat: Vec<PlayerDat>,
}

impl MinecraftWorld {
    /// The world in the folder `path`, from the content of its `level.dat` file
    /// and the names and contents of the files in its folder `playerdata`.
    /// Fails as the level data fails; a player's file that fails is passed over.
    pub fn new(path: String, level_dat: &[u8], player_files: &Vec<(String, Vec<u8>)>) -> (r: Result<
        MinecraftWorld,
        NBTError,
    >)
        ensures
            r matches Ok(world) ==> world.path@ == path@ && level_in(gunzipped(level_dat@)) == Ok::<
                LevelDat,
                NBTError,
            >(world.level_dat) && player_views(world.player_dat@) == players_among(
                file_views(player_files@),
                player_files@.len() as int,
            ),
            r matches Err(e) ==> level_in(gunzipped(level_dat@)) == Err::<LevelDat, NBTError>(e),
    {
        match LevelDat::new(level_dat) {
            Ok(level) => Ok(
                MinecraftWorld {
                    path,
                    level_dat: level,
                    player_dat: PlayerDat::for_each_dat_file_in(player_files),
                },
            ),
            Err(e) => Err(e),
        }
    }
}

} // verus!
