//! Locating a Steam game installation and the telemetry plugin
//! inside it. This module holds the decisions and the parsing; the
//! host application supplies the filesystem facts (which directories
//! exist, the lines of Steam's library index) and performs the
//! copies and deletions.

use vstd::prelude::*;
use vstd::string::StringExecFns;
use crate::text::str_to_chars;
use crate::text::chars_to_string;
use crate::text::subvec;
use crate::pairing::spec_find_char;
use crate::pairing::lemma_find_char_at;

verus! {

/// A keyboard-command record exchanged with the GUI layer.
pub struct CommandData {
    pub id: String,
    pub language: String,
    pub game: String,
    pub action: Option<String>,
    pub amount: Option<i32>,
}

/// Where one game stands: its install path, if found, and whether
/// the telemetry plugin is present there.
pub struct GameInstallStatus {
    pub path: Option<String>,
    pub plugin_installed: bool,
}

/// The install status of both supported games.
pub struct PluginStatus {
    pub ets2: GameInstallStatus,
    pub ats: GameInstallStatus,
}

/// The plugin's location inside a game installation.
pub fn get_plugin_path(game_path: &str) -> (r: String)
    ensures
        r@ == game_path@ + "\\bin\\win_x64\\plugins\\local-radio.dll"@,
{
    let mut s = String::from_str(game_path);
    s.append("\\bin\\win_x64\\plugins\\local-radio.dll");
    s
}

/// A game's directory under one Steam library root.
pub fn steam_common_path(root: &str, game_folder: &str) -> (r: String)
    ensures
        r@ == root@ + "\\steamapps\\common\\"@ + game_folder@,
{
    let mut s = String::from_str(root);
    s.append("\\steamapps\\common\\");
    s.append(game_folder);
    s
}

/// Whether `needle` occurs as a contiguous run inside `hay`.
pub open spec fn spec_contains(hay: Seq<char>, needle: Seq<char>) -> bool {
    exists|i: int|
        0 <= i && i + needle.len() <= hay.len() && #[trigger] hay.subrange(i, i + needle.len())
            == needle
}

fn match_at(hay: &Vec<char>, needle: &Vec<char>, at: usize) -> (r: bool)
    requires
        at + needle@.len() <= hay@.len(),
    ensures
        r <==> hay@.subrange(at as int, at as int + needle@.len() as int) == needle@,
{
    let hl = hay.len();
    let mut i: usize = 0;
    while i < needle.len()
        invariant
            i <= needle@.len(),
            at + needle@.len() <= hl,
            hl == hay@.len(),
            forall|j: int| 0 <= j < i ==> hay@[at + j] == needle@[j],
        decreases needle@.len() - i,
    {
        if hay[at + i] != needle[i] {
            assert(hay@.subrange(at as int, at as int + needle@.len() as int)[i as int]
                != needle@[i as int]);
            return false;
        }
        i += 1;
    }
    assert(hay@.subrange(at as int, at as int + needle@.len() as int) =~= needle@);
    true
}

fn contains_chars(hay: &Vec<char>, needle: &Vec<char>) -> (r: bool)
    ensures
        r == spec_contains(hay@, needle@),
{
    if needle.len() > hay.len() {
        assert(!spec_contains(hay@, needle@));
        return false;
    }
    if needle.len() == 0 {
        assert(hay@.subrange(0, 0 + needle@.len() as int) =~= needle@);
        assert(spec_contains(hay@, needle@));
        return true;
    }
    let mut i: usize = 0;
    let last = hay.len() - needle.len();
    while i <= last
        invariant
            i <= last + 1,
            last as int == hay@.len() - needle@.len(),
            needle@.len() >= 1,
            hay@.len() <= usize::MAX,
            forall|k: int|
                0 <= k < i ==> #[trigger] hay@.subrange(k, k + needle@.len() as int)
                    != needle@,
        decreases last + 1 - i,
    {
        if match_at(hay, needle, i) {
            assert(spec_contains(hay@, needle@));
            return true;
        }
        i += 1;
    }
    assert(!spec_contains(hay@, needle@));
    false
}

/// The library path named by one line of Steam's `libraryfolders.vdf`
/// index: on a line mentioning the `"path"` key, the text between
/// the third and fourth quote; `None` when the line carries no such
/// key or fewer than four quotes.
pub open spec fn spec_vdf_library_path(s: Seq<char>) -> Option<Seq<char>> {
    if !spec_contains(s, "\"path\""@) {
        None
    } else {
        let q1 = spec_find_char(s, '"');
        if q1 >= s.len() {
            None
        } else {
            let r1 = s.subrange(q1 + 1, s.len() as int);
            let q2 = spec_find_char(r1, '"');
            if q2 >= r1.len() {
                None
            } else {
                let r2 = r1.subrange(q2 + 1, r1.len() as int);
                let q3 = spec_find_char(r2, '"');
                if q3 >= r2.len() {
                    None
                } else {
                    let r3 = r2.subrange(q3 + 1, r2.len() as int);
                    let q4 = spec_find_char(r3, '"');
                    if q4 >= r3.len() {
                        None
                    } else {
                        Some(r3.subrange(0, q4))
                    }
                }
            }
        }
    }
}

fn find_char_vec(v: &Vec<char>, c: char) -> (r: usize)
    ensures
        r as int == spec_find_char(v@, c),
        r <= v@.len(),
{
    let mut i: usize = 0;
    while i < v.len() && v[i] != c
        invariant
            i <= v@.len(),
            forall|j: int| 0 <= j < i ==> v@[j] != c,
        decreases v@.len() - i,
    {
        i += 1;
    }
    proof {
        lemma_find_char_at(v@, c, i as int);
    }
    i
}

/// Reads the library path out of one line of Steam's library index.
pub fn parse_vdf_library_line(line: &str) -> (r: Option<String>)
    ensures
        match r {
            Some(p) => spec_vdf_library_path(line@) == Some(p@),
            None => spec_vdf_library_path(line@) is None,
        },
{
    let cs = str_to_chars(line);
    let key = str_to_chars("\"path\"");
    if !contains_chars(&cs, &key) {
        return None;
    }
    let q1 = find_char_vec(&cs, '"');
    if q1 >= cs.len() {
        return None;
    }
    let r1 = subvec(&cs, q1 + 1, cs.len());
    let q2 = find_char_vec(&r1, '"');
    if q2 >= r1.len() {
        return None;
    }
    let r2 = subvec(&r1, q2 + 1, r1.len());
    let q3 = find_char_vec(&r2, '"');
    if q3 >= r2.len() {
        return None;
    }
    let r3 = subvec(&r2, q3 + 1, r2.len());
    let q4 = find_char_vec(&r3, '"');
    if q4 >= r3.len() {
        return None;
    }
    Some(chars_to_string(&r3, 0, q4))
}

/// Picks the game installation out of candidate directories: the
/// first candidate the filesystem reports present. The host builds
/// the candidates (the default Steam paths and every library path
/// from the index, each extended with the game's folder) and checks
/// which exist; this function makes the choice.
pub fn find_steam_game_path(candidates: &Vec<String>, present: &Vec<bool>) -> (r: Option<
    String,
>)
    requires
        candidates@.len() == present@.len(),
    ensures
        match r {
            Some(p) => exists|i: int|
                0 <= i < present@.len() && present@[i] && p@ == candidates@[i]@ && (forall|
                    j: int,
                |
                    0 <= j < i ==> !present@[j]),
            None => forall|i: int| 0 <= i < present@.len() ==> !present@[i],
        },
{
    let mut i: usize = 0;
    while i < candidates.len()
        invariant
            i <= candidates@.len(),
            candidates@.len() == present@.len(),
            forall|j: int| 0 <= j < i ==> !present@[j],
        decreases candidates@.len() - i,
    {
        if present[i] {
            let p = candidates[i].clone();
            proof {
                assert(present@[i as int] && p@ == candidates@[i as int]@ && (forall|j: int|
                    0 <= j < i as int ==> !present@[j]));
            }
            return Some(p);
        }
        i += 1;
    }
    None
}

} // verus!
