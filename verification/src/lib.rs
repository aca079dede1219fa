//! Server discovery, filtering and region caching for the H2M favorites list.

use crate::text::{distinct_texts, push_decimal, same_text, unique};
use crate::utils::json_data::Version;
use vstd::prelude::*;
use vstd::string::*;

pub mod cli;
pub mod commands;
pub mod session;
pub mod text;
pub mod utils;

verus! {

/// Where the latest release is announced.
pub const VERSION_URL: &'static str =
    "https://gist.githubusercontent.com/WardLordRuby/324d7c1fb454aed5f5155a790bd028f0/raw/";

/// Most players a server of the game can hold.
pub const H2M_MAX_CLIENT_NUM: i64 = 18;

/// Most players a team of the game can hold.
pub const H2M_MAX_TEAM_SIZE: i64 = 9;

/// What the game's directory holds: the game, the mod, and the directory
/// of the favorites file.
pub const REQUIRED_FILES: [&'static str; 3] = ["h1_mp64_ship.exe", "h2m-mod", "players2"];

/// The variable that names the directory for local data.
pub const LOCAL_DATA: &'static str = "LOCALAPPDATA";

/// The name of the cache file.
pub const CACHED_DATA: &'static str = "region_cache.json";

/// The name of this program, and of its directory for local data.
pub const APP_NAME: &'static str = "h2m_favorites";

/// The name of the log file.
pub const LOG_NAME: &'static str = "h2m_favorties.log";

/// What is asked of a directory and a list of names.
#[derive(Debug, Clone, Copy, PartialEq, Eq, Structural)]
pub enum Operation {
    /// Whether the directory holds every name of the list.
    All,
    /// Whether the directory holds a name of the list.
    Any,
    /// Which names of the list the directory holds.
    Count,
}

/// The answer to an [`Operation`].
#[derive(Debug, PartialEq, Eq)]
pub enum OperationResult<'a> {
    /// The answer to `All` and to `Any`.
    Bool(bool),
    /// The answer to `Count`: how many names of the list the directory
    /// holds, and which, each once and in the order of the list.
    Count((usize, Vec<&'a str>)),
}

/// The names of `list` that are among `names`, in their order.
pub open spec fn present(names: Seq<Seq<char>>, list: Seq<Seq<char>>) -> Seq<Seq<char>> {
    list.filter(|name: Seq<char>| names.contains(name))
}

/// Whether `name` is among `names`.
fn holds(names: &[String], name: &str) -> (found: bool)
    ensures
        found == names.deep_view().contains(name@),
{
    let mut i: usize = 0;
    while i < names.len()
        invariant
            i <= names.len(),
            forall|k: int| 0 <= k < i ==> names.deep_view()[k] != name@,
        decreases names.len() - i,
    {
        assert(names.deep_view()[i as int] == names[i as int]@);
        if same_text(names[i].as_str(), name) {
            return true;
        }
        i += 1;
    }
    false
}

/// Answers `operation` for a directory that holds the entries `file_names`
/// and for the names in `list`.
pub fn does_dir_contain<'a>(file_names: &[String], operation: Operation, list: &'a [&'a str]) -> (result:
    OperationResult<'a>)
    ensures
        match operation {
            Operation::All => result == OperationResult::Bool(
                forall|i: int|
                    0 <= i < list.len() ==> file_names.deep_view().contains(
                        #[trigger] list.deep_view()[i],
                    ),
            ),
            Operation::Any => result == OperationResult::Bool(
                exists|i: int|
                    0 <= i < list.len() && file_names.deep_view().contains(
                        #[trigger] list.deep_view()[i],
                    ),
            ),
            Operation::Count => result matches OperationResult::Count((num_found, collection))
                && collection.deep_view() == unique(
                present(file_names.deep_view(), list.deep_view()),
            ) && num_found == collection.len(),
        },
{
    let ghost names = file_names.deep_view();
    let ghost wanted = list.deep_view();
    match operation {
        Operation::All => {
            let mut i: usize = 0;
            while i < list.len()
                invariant
                    i <= list.len(),
                    names == file_names.deep_view(),
                    wanted == list.deep_view(),
                    operation is All,
                    forall|k: int| 0 <= k < i ==> names.contains(#[trigger] wanted[k]),
                decreases list.len() - i,
            {
                assert(wanted[i as int] == list[i as int]@);
                if !holds(file_names, list[i]) {
                    assert(!names.contains(wanted[i as int]));
                    return OperationResult::Bool(false);
                }
                i += 1;
            }
            OperationResult::Bool(true)
        },
        Operation::Any => {
            let mut i: usize = 0;
            while i < list.len()
                invariant
                    i <= list.len(),
                    names == file_names.deep_view(),
                    wanted == list.deep_view(),
                    operation is Any,
                    forall|k: int| 0 <= k < i ==> !names.contains(#[trigger] wanted[k]),
                decreases list.len() - i,
            {
                assert(wanted[i as int] == list[i as int]@);
                if holds(file_names, list[i]) {
                    assert(names.contains(wanted[i as int]));
                    return OperationResult::Bool(true);
                }
                i += 1;
            }
            OperationResult::Bool(false)
        },
        Operation::Count => {
            let ghost among = |name: Seq<char>| names.contains(name);
            let mut found: Vec<&'a str> = Vec::new();
            let mut i: usize = 0;
            assert(wanted.take(0) == Seq::<Seq<char>>::empty());
            while i < list.len()
                invariant
                    i <= list.len(),
                    names == file_names.deep_view(),
                    wanted == list.deep_view(),
                    among == |name: Seq<char>| names.contains(name),
                    found.deep_view() == wanted.take(i as int).filter(among),
                decreases list.len() - i,
            {
                let name: &'a str = list[i];
                proof {
                    assert(wanted[i as int] == name@);
                    assert(wanted.take(i + 1) == wanted.take(i as int).push(name@));
                    wanted.take(i as int).lemma_filter_push(name@, among);
                }
                if holds(file_names, name) {
                    let ghost before = found.deep_view();
                    found.push(name);
                    assert(found.deep_view() == before.push(name@));
                }
                i += 1;
            }
            assert(wanted.take(list.len() as int) == wanted);
            let collection = distinct_texts(&found);
            let num_found = collection.len();
            OperationResult::Count((num_found, collection))
        },
    }
}

/// Whether the directory for local data, which holds the entries
/// `file_names`, has this program's own directory in it already. Where it
/// has not, the directory is to be made.
pub fn check_app_dir_exists(file_names: &[String]) -> (exists: bool)
    ensures
        exists == file_names.deep_view().contains(APP_NAME@),
{
    holds(file_names, APP_NAME)
}

/// What stands in the way of a start in the directory that the program was
/// started in.
#[derive(Debug, Clone, Copy, PartialEq, Eq, Structural)]
pub enum GameDir {
    /// Everything that the game needs is there.
    Ready,
    /// The game itself is not there: the program stands in the wrong
    /// directory.
    GameMissing,
    /// The game is there, the mod is not.
    ModMissing,
    /// Only the directory of the favorites file is missing: it is to be
    /// made.
    FavoritesDirMissing,
}

impl GameDir {
    /// What the user is told.
    pub open spec fn message_of(self) -> Option<Seq<char>> {
        match self {
            GameDir::Ready => None,
            GameDir::GameMissing => Some(
                "Move h2m_favorites.exe into your 'Call of Duty Modern Warfare Remastered' directory"@,
            ),
            GameDir::ModMissing => Some(
                "H2M mod files not found, h2m_favorites.exe must be placed in 'Call of Duty Modern Warfare Remastered' directory"@,
            ),
            GameDir::FavoritesDirMissing => Some(
                "players2 folder is missing, a new one was created"@,
            ),
        }
    }

    /// What the user is told.
    pub fn message(&self) -> (message: Option<&'static str>)
        ensures
            match self.message_of() {
                Some(text) => message matches Some(said) && said@ == text,
                None => message is None,
            },
    {
        match self {
            GameDir::Ready => None,
            GameDir::GameMissing => Some(
                "Move h2m_favorites.exe into your 'Call of Duty Modern Warfare Remastered' directory",
            ),
            GameDir::ModMissing => Some(
                "H2M mod files not found, h2m_favorites.exe must be placed in 'Call of Duty Modern Warfare Remastered' directory",
            ),
            GameDir::FavoritesDirMissing => Some(
                "players2 folder is missing, a new one was created",
            ),
        }
    }

    /// Whether the program cannot start here.
    pub fn is_fatal(&self) -> (fatal: bool)
        ensures
            fatal == (*self is GameMissing || *self is ModMissing),
    {
        match self {
            GameDir::GameMissing | GameDir::ModMissing => true,
            _ => false,
        }
    }
}

/// What stands in the way of a start in a directory that holds `names`:
/// the first of the game, the mod and the directory of the favorites file
/// that is missing.
pub open spec fn game_dir_of(names: Seq<Seq<char>>) -> GameDir {
    if !names.contains("h1_mp64_ship.exe"@) {
        GameDir::GameMissing
    } else if !names.contains("h2m-mod"@) {
        GameDir::ModMissing
    } else if !names.contains("players2"@) {
        GameDir::FavoritesDirMissing
    } else {
        GameDir::Ready
    }
}

/// Looks whether the directory that the program was started in, which
/// holds the entries `file_names`, is the game's directory.
pub fn check_game_dir(file_names: &[String]) -> (check: GameDir)
    ensures
        check == game_dir_of(file_names.deep_view()),
{
    if !holds(file_names, "h1_mp64_ship.exe") {
        GameDir::GameMissing
    } else if !holds(file_names, "h2m-mod") {
        GameDir::ModMissing
    } else if !holds(file_names, "players2") {
        GameDir::FavoritesDirMissing
    } else {
        GameDir::Ready
    }
}

/// Where a panic happened: file, line and column.
#[derive(Debug, Clone, Copy, PartialEq, Eq)]
pub struct PanicLocation<'a> {
    pub file: &'a str,
    pub line: u32,
    pub column: u32,
}

/// The record of a panic: where it happened, as far as that is known, and
/// its message, or the words that it had none.
pub open spec fn panic_text(
    location: Option<(Seq<char>, nat, nat)>,
    message: Option<Seq<char>>,
) -> Seq<char> {
    let head = match location {
        Some((file, line, column)) => "PANIC "@ + file + seq![':'] + text::decimal(line) + seq![
            ':',
        ] + text::decimal(column) + seq![':'],
        None => "PANIC:"@,
    };
    match message {
        Some(said) => head + seq![' '] + said,
        None => head + " no attached message"@,
    }
}

/// The record of a panic for the log.
pub fn format_panic_info(location: Option<PanicLocation<'_>>, message: Option<&str>) -> (record:
    String)
    ensures
        record@ == panic_text(
            match location {
                Some(place) => Some((place.file@, place.line as nat, place.column as nat)),
                None => None,
            },
            match message {
                Some(said) => Some(said@),
                None => None,
            },
        ),
{
    let mut record = match location {
        Some(place) => {
            let mut head = String::from_str("PANIC ");
            head.append(place.file);
            head.push(':');
            push_decimal(&mut head, place.line as u64);
            head.push(':');
            push_decimal(&mut head, place.column as u64);
            head.push(':');
            head
        },
        None => String::from_str("PANIC:"),
    };
    match message {
        Some(said) => {
            record.push(' ');
            record.append(said);
        },
        None => {
            record.append(" no attached message");
        },
    }
    record
}

/// What the user is told of a newer release.
pub open spec fn release_notice(latest: Seq<char>) -> Seq<char> {
    "New version available for download at: \nhttps://github.com/WardLordRuby/H2M_favorites/releases/download/v"@
        + latest + "/h2m_favorites.exe"@
}

/// Compares the running version with the latest release: where they
/// differ, the user is told where the latest one is to be had.
pub fn get_latest_version(current_version: &str, version: &Version) -> (notice: Option<String>)
    ensures
        notice is Some <==> current_version@ != version.latest@,
        notice matches Some(text) ==> text@ == release_notice(version.latest@),
{
    if same_text(current_version, version.latest.as_str()) {
        None
    } else {
        let mut text = String::from_str(
            "New version available for download at: \nhttps://github.com/WardLordRuby/H2M_favorites/releases/download/v",
        );
        text.append(version.latest.as_str());
        text.append("/h2m_favorites.exe");
        Some(text)
    }
}

/// Trims and lower-cases every search word.
pub fn lowercase_vec(vec: &[String]) -> (out: Vec<String>)
    ensures
        out.len() == vec.len(),
        forall|i: int|
            0 <= i < vec.len() ==> (#[trigger] out[i])@ == text::lowercased(
                text::trimmed(vec[i]@),
            ),
{
    let mut out: Vec<String> = Vec::new();
    let mut i: usize = 0;
    while i < vec.len()
        invariant
            i <= vec.len(),
            out.len() == i,
            forall|k: int|
                0 <= k < i ==> (#[trigger] out[k])@ == text::lowercased(text::trimmed(vec[k]@)),
        decreases vec.len() - i,
    {
        out.push(vec[i].as_str().trim().to_lowercase());
        i += 1;
    }
    out
}

/// The normal form of a server name: color escapes stripped, ASCII letters
/// lower-cased.
pub fn parse_hostname(name: &str) -> (host_name: String)
    ensures
        host_name@ == text::strip_colors(name@),
{
    let chars = text::normalized_chars(name);
    let host_name = text::string_of(&chars, 0, chars.len());
    assert(chars@.subrange(0, chars.len() as int) == chars@);
    host_name
}

} // verus!
