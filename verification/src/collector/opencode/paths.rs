//! Where OpenCode keeps its database and its configuration.
use crate::collector::location::{
    is_separator, join, joined, last_name, last_path_segment, lemma_last_name_is,
    lemma_last_name_keeps,
};
use crate::model::Platform;
use crate::text::case::{ascii_lower, to_ascii_lower};
use crate::text::{same, text_or_empty, to_chars};
use vstd::prelude::*;
use vstd::string::*;

verus! {

/// The data directory: `$XDG_DATA_HOME`, or `.local/share` in the home directory.
pub open spec fn data_dir_of(
    xdg_data_home: Option<&str>,
    home: Option<&str>,
    platform: Platform,
) -> Seq<char> {
    match xdg_data_home {
        Some(dir) => dir@,
        None => joined(text_or_empty(home), ".local/share"@, platform),
    }
}

/// The data directory: `$XDG_DATA_HOME`, or `.local/share` in the home directory.
pub fn data_dir(xdg_data_home: Option<&str>, home: Option<&str>, platform: Platform) -> (r: String)
    ensures
        r@ == data_dir_of(xdg_data_home, home, platform),
{
    match xdg_data_home {
        Some(dir) => dir.to_owned(),
        None => {
            let base = match home {
                Some(h) => h.to_owned(),
                None => String::new(),
            };
            join(base.as_str(), ".local/share", platform)
        },
    }
}

/// Where the database lies unless another one is found.
pub open spec fn default_db_path(data_dir: Seq<char>, platform: Platform) -> Seq<char> {
    joined(joined(data_dir, "opencode"@, platform), "opencode.db"@, platform)
}

/// An entry of a directory listing.
#[derive(Debug)]
pub struct DirEntry {
    pub path: String,
    pub is_file: bool,
}

/// Whether a text ends in `.db`, behind at least one character.
pub open spec fn ends_in_db(name: Seq<char>) -> bool {
    name.len() > 3 && name.skip(name.len() - 3) == ".db"@
}

/// Whether the last name of a path has the extension `db`.
pub open spec fn has_db_extension(path: Seq<char>, platform: Platform) -> bool {
    ends_in_db(last_name(path, platform))
}

fn db_extension(path: &str, platform: Platform) -> (r: bool)
    ensures
        r == has_db_extension(path@, platform),
{
    match last_path_segment(path, platform) {
        Some(last) => {
            let name = to_chars(last.as_str());
            let n: usize = name.len();
            proof {
                reveal_strlit(".db");
                if name@.len() > 3 {
                    let tail = name@.skip(n - 3);
                    assert(tail =~= ".db"@ <==> tail[0] == '.' && tail[1] == 'd' && tail[2] == 'b');
                }
            }
            n > 3 && name[n - 3] == '.' && name[n - 2] == 'd' && name[n - 1] == 'b'
        },
        None => false,
    }
}

/// The first regular file of a listing with the extension `db`.
pub open spec fn first_db(entries: Seq<DirEntry>, platform: Platform) -> Option<Seq<char>>
    decreases entries.len(),
{
    if entries.len() == 0 {
        None
    } else if entries[0].is_file && has_db_extension(entries[0].path@, platform) {
        Some(entries[0].path@)
    } else {
        first_db(entries.drop_first(), platform)
    }
}

/// The database to read: the default one where it exists, else the first file
/// with the extension `db` in its directory, else the default one all the same.
pub open spec fn db_path_of(
    data_dir: Seq<char>,
    default_exists: bool,
    entries: Seq<DirEntry>,
    platform: Platform,
) -> Seq<char> {
    if default_exists {
        default_db_path(data_dir, platform)
    } else {
        match first_db(entries, platform) {
            Some(path) => path,
            None => default_db_path(data_dir, platform),
        }
    }
}

/// Where the database lies unless another one is found.
pub fn default_path(data_dir: &str, platform: Platform) -> (r: String)
    ensures
        r@ == default_db_path(data_dir@, platform),
{
    let base = join(data_dir, "opencode", platform);
    join(base.as_str(), "opencode.db", platform)
}

/// The database to read. `entries` lists the directory of the default database,
/// and is empty where that directory cannot be read.
pub fn resolve_db_path(
    data_dir: &str,
    default_exists: bool,
    entries: &Vec<DirEntry>,
    platform: Platform,
) -> (r: String)
    ensures
        r@ == db_path_of(data_dir@, default_exists, entries@, platform),
{
    if default_exists {
        return default_path(data_dir, platform);
    }
    let mut i: usize = 0;
    assert(entries@.skip(0) =~= entries@);
    while i < entries.len()
        invariant
            i <= entries@.len(),
            !default_exists,
            first_db(entries@.skip(i as int), platform) == first_db(entries@, platform),
        decreases entries@.len() - i,
    {
        assert(entries@.skip(i as int)[0] == entries@[i as int]);
        assert(entries@.skip(i as int).drop_first() =~= entries@.skip(i + 1));
        if entries[i].is_file && db_extension(entries[i].path.as_str(), platform) {
            return entries[i].path.clone();
        }
        i += 1;
    }
    default_path(data_dir, platform)
}

/// An application-data directory of Windows, and whether the OpenCode file that is
/// looked for lies below it.
#[derive(Debug)]
pub struct AppDataDir {
    /// What the environment gives, if anything.
    pub dir: Option<String>,
    pub holds_file: bool,
}

/// The OpenCode file `name` below an application-data directory; a directory that
/// is empty or not given has none.
pub open spec fn file_below(base: AppDataDir, name: Seq<char>) -> Option<Seq<char>> {
    match base.dir {
        Some(dir) => if dir@.len() == 0 {
            None
        } else {
            Some(joined(joined(dir@, "opencode"@, Platform::Windows), name, Platform::Windows))
        },
        None => None,
    }
}

/// The first OpenCode file `name` that lies below one of the directories.
pub open spec fn first_below(dirs: Seq<AppDataDir>, name: Seq<char>) -> Option<Seq<char>>
    decreases dirs.len(),
{
    if dirs.len() == 0 {
        None
    } else if dirs[0].holds_file && file_below(dirs[0], name) is Some {
        file_below(dirs[0], name)
    } else {
        first_below(dirs.drop_first(), name)
    }
}

/// Where the OpenCode file `name` would lie below an application-data directory.
pub fn windows_candidate(base: &AppDataDir, name: &str) -> (r: Option<String>)
    ensures
        match r {
            Some(path) => file_below(*base, name@) == Some(path@),
            None => file_below(*base, name@) is None,
        },
{
    match &base.dir {
        Some(dir) => if dir.as_str().is_empty() {
            None
        } else {
            let d = join(dir.as_str(), "opencode", Platform::Windows);
            Some(join(d.as_str(), name, Platform::Windows))
        },
        None => None,
    }
}

/// `default` where it exists, else the first OpenCode file `name` below one of the
/// directories, else `default` all the same.
pub open spec fn windows_choice(
    default: Seq<char>,
    default_exists: bool,
    dirs: Seq<AppDataDir>,
    name: Seq<char>,
) -> Seq<char> {
    if default_exists {
        default
    } else {
        match first_below(dirs, name) {
            Some(path) => path,
            None => default,
        }
    }
}

fn choose_windows(default: &str, default_exists: bool, dirs: &Vec<AppDataDir>, name: &str) -> (r: String)
    ensures
        r@ == windows_choice(default@, default_exists, dirs@, name@),
{
    if default_exists {
        return default.to_owned();
    }
    let mut i: usize = 0;
    assert(dirs@.skip(0) =~= dirs@);
    while i < dirs.len()
        invariant
            i <= dirs@.len(),
            !default_exists,
            first_below(dirs@.skip(i as int), name@) == first_below(dirs@, name@),
        decreases dirs@.len() - i,
    {
        assert(dirs@.skip(i as int)[0] == dirs@[i as int]);
        assert(dirs@.skip(i as int).drop_first() =~= dirs@.skip(i + 1));
        if dirs[i].holds_file {
            match windows_candidate(&dirs[i], name) {
                Some(path) => {
                    return path;
                },
                None => {},
            }
        }
        i += 1;
    }
    default.to_owned()
}

/// The database on Windows. `dirs` are the local and the roaming application data.
pub fn windows_db_path(default: &str, default_exists: bool, dirs: &Vec<AppDataDir>) -> (r: String)
    ensures
        r@ == windows_choice(default@, default_exists, dirs@, "opencode.db"@),
{
    choose_windows(default, default_exists, dirs, "opencode.db")
}

/// The configuration file on Windows. `dirs` are the local and the roaming
/// application data.
pub fn windows_config_path(default: &str, default_exists: bool, dirs: &Vec<AppDataDir>) -> (r: String)
    ensures
        r@ == windows_choice(default@, default_exists, dirs@, "opencode.jsonc"@),
{
    choose_windows(default, default_exists, dirs, "opencode.jsonc")
}

/// What is seen of the places where the database may lie.
#[derive(Debug)]
pub struct Places {
    pub data_dir: String,
    /// Whether the default database exists.
    pub default_exists: bool,
    /// The listing of its directory.
    pub entries: Vec<DirEntry>,
    /// The application-data directories of Windows.
    pub app_data: Vec<AppDataDir>,
}

/// The database that is found in the given places.
pub open spec fn located(places: Places, platform: Platform) -> Seq<char> {
    let found = db_path_of(places.data_dir@, places.default_exists, places.entries@, platform);
    if platform == Platform::Windows {
        windows_choice(
            found,
            places.default_exists || first_db(places.entries@, platform) is Some,
            places.app_data@,
            "opencode.db"@,
        )
    } else {
        found
    }
}

fn has_db(entries: &Vec<DirEntry>, platform: Platform) -> (r: bool)
    ensures
        r == (first_db(entries@, platform) is Some),
{
    let mut i: usize = 0;
    assert(entries@.skip(0) =~= entries@);
    while i < entries.len()
        invariant
            i <= entries@.len(),
            first_db(entries@.skip(i as int), platform) == first_db(entries@, platform),
        decreases entries@.len() - i,
    {
        assert(entries@.skip(i as int)[0] == entries@[i as int]);
        assert(entries@.skip(i as int).drop_first() =~= entries@.skip(i + 1));
        if entries[i].is_file && db_extension(entries[i].path.as_str(), platform) {
            return true;
        }
        i += 1;
    }
    false
}

/// The database that is found in the given places.
pub fn locate(places: &Places, platform: Platform) -> (r: String)
    ensures
        r@ == located(*places, platform),
{
    let found = resolve_db_path(
        places.data_dir.as_str(),
        places.default_exists,
        &places.entries,
        platform,
    );
    if platform == Platform::Windows {
        let present = places.default_exists || has_db(&places.entries, platform);
        windows_db_path(found.as_str(), present, &places.app_data)
    } else {
        found
    }
}

proof fn lemma_joined_db(base: Seq<char>, platform: Platform)
    ensures
        has_db_extension(joined(base, "opencode.db"@, platform), platform),
{
    reveal_strlit("opencode.db");
    reveal_strlit(".db");
    let path = joined(base, "opencode.db"@, platform);
    let n = path.len() as int;
    assert(path.skip(n - 11) =~= "opencode.db"@);
    assert forall|i: int| n - 11 <= i < n implies !is_separator(#[trigger] path[i], platform) by {
        assert(path[i] == path.skip(n - 11)[i - (n - 11)]);
    }
    lemma_last_name_keeps(path, n - 11, platform);
    let name = last_name(path, platform);
    assert(name.skip(name.len() - 3) =~= path.skip(n - 3));
    assert(path.skip(n - 3) =~= ".db"@) by {
        assert(path.skip(n - 3)[0] == path.skip(n - 11)[8]);
        assert(path.skip(n - 3)[1] == path.skip(n - 11)[9]);
        assert(path.skip(n - 3)[2] == path.skip(n - 11)[10]);
    }
}

proof fn lemma_first_db(entries: Seq<DirEntry>, platform: Platform)
    ensures
        first_db(entries, platform) is Some ==> has_db_extension(
            first_db(entries, platform)->Some_0,
            platform,
        ),
    decreases entries.len(),
{
    if entries.len() > 0 {
        lemma_first_db(entries.drop_first(), platform);
    }
}

proof fn lemma_first_below(dirs: Seq<AppDataDir>)
    ensures
        first_below(dirs, "opencode.db"@) is Some ==> has_db_extension(
            first_below(dirs, "opencode.db"@)->Some_0,
            Platform::Windows,
        ),
    decreases dirs.len(),
{
    if dirs.len() > 0 {
        lemma_first_below(dirs.drop_first());
        if dirs[0].holds_file && file_below(dirs[0], "opencode.db"@) is Some {
            lemma_joined_db(joined(dirs[0].dir->Some_0@, "opencode"@, Platform::Windows), Platform::Windows);
        }
    }
}

/// Wherever the database is found, its name has the extension `db`.
pub proof fn law_located_is_a_database(places: Places, platform: Platform)
    ensures
        has_db_extension(located(places, platform), platform),
{
    lemma_joined_db(joined(places.data_dir@, "opencode"@, platform), platform);
    lemma_first_db(places.entries@, platform);
    lemma_first_below(places.app_data@);
}

/// The configuration file: below `$XDG_CONFIG_HOME`, or `.config` in the home
/// directory.
pub open spec fn config_path_of(
    xdg_config_home: Option<&str>,
    home: Option<&str>,
    platform: Platform,
) -> Seq<char> {
    let dir = match xdg_config_home {
        Some(d) => d@,
        None => match home {
            Some(h) => joined(h@, ".config"@, platform),
            None => Seq::empty(),
        },
    };
    joined(joined(dir, "opencode"@, platform), "opencode.jsonc"@, platform)
}

/// The configuration file.
pub fn config_path(xdg_config_home: Option<&str>, home: Option<&str>, platform: Platform) -> (r: String)
    ensures
        r@ == config_path_of(xdg_config_home, home, platform),
{
    let dir = match xdg_config_home {
        Some(d) => d.to_owned(),
        None => match home {
            Some(h) => join(h, ".config", platform),
            None => String::new(),
        },
    };
    let d = join(dir.as_str(), "opencode", platform);
    join(d.as_str(), "opencode.jsonc", platform)
}

/// A Windows path in the form in which two spellings of one path agree: with
/// backslashes, without any at the end, and in lower case.
pub open spec fn windows_normal(path: Seq<char>) -> Seq<char> {
    without_trailing_backslashes(path.map_values(|c: char| if c == '/' { '\\' } else { c })).map_values(
        |c: char| ascii_lower(c),
    )
}

/// A path without the backslashes at its end.
pub open spec fn without_trailing_backslashes(path: Seq<char>) -> Seq<char>
    decreases path.len(),
{
    if path.len() > 0 && path.last() == '\\' {
        without_trailing_backslashes(path.drop_last())
    } else {
        path
    }
}

/// Whether two spellings name the same path. On Windows paths are compared
/// without regard to case and may mix slashes and backslashes; elsewhere they are
/// compared exactly.
pub open spec fn same_path(a: Seq<char>, b: Seq<char>, platform: Platform) -> bool {
    if platform == Platform::Windows {
        windows_normal(a) == windows_normal(b)
    } else {
        a == b
    }
}

fn normalize(path: &str) -> (r: String)
    ensures
        r@ == windows_normal(path@),
{
    let chars = to_chars(path);
    let ghost slashed = path@.map_values(|c: char| if c == '/' { '\\' } else { c });
    let mut n: usize = chars.len();
    assert(slashed.take(n as int) =~= slashed);
    while n > 0 && (chars[n - 1] == '/' || chars[n - 1] == '\\')
        invariant
            chars@ == path@,
            n <= chars@.len(),
            slashed == path@.map_values(|c: char| if c == '/' { '\\' } else { c }),
            without_trailing_backslashes(slashed.take(n as int)) == without_trailing_backslashes(slashed),
        decreases n,
    {
        assert(slashed.take(n as int).drop_last() =~= slashed.take(n - 1));
        n -= 1;
    }
    assert(without_trailing_backslashes(slashed) == slashed.take(n as int));
    let mut out = String::new();
    let mut i: usize = 0;
    while i < n
        invariant
            chars@ == path@,
            i <= n <= chars@.len(),
            slashed == path@.map_values(|c: char| if c == '/' { '\\' } else { c }),
            out@ == slashed.take(i as int).map_values(|c: char| ascii_lower(c)),
        decreases n - i,
    {
        let c = if chars[i] == '/' {
            '\\'
        } else {
            chars[i]
        };
        out.push(to_ascii_lower(c));
        assert(out@ =~= slashed.take(i + 1).map_values(|c: char| ascii_lower(c)));
        i += 1;
    }
    out
}

/// Whether two spellings name the same path.
pub fn paths_equal(a: &str, b: &str, platform: Platform) -> (r: bool)
    ensures
        r == same_path(a@, b@, platform),
{
    if platform == Platform::Windows {
        same(normalize(a).as_str(), normalize(b).as_str())
    } else {
        same(a, b)
    }
}

/// To name the same path is an equivalence between spellings.
pub proof fn law_same_path_is_an_equivalence(
    a: Seq<char>,
    b: Seq<char>,
    c: Seq<char>,
    platform: Platform,
)
    ensures
        same_path(a, a, platform),
        same_path(a, b, platform) ==> same_path(b, a, platform),
        same_path(a, b, platform) && same_path(b, c, platform) ==> same_path(a, c, platform),
{
}

/// The data directory is the one that the environment gives, or `.local/share` in the home
/// directory; the configuration stands below its own directory or `.config`.
pub proof fn law_directories_come_from_the_environment(dir: &str, home: &str)
    ensures
        data_dir_of(Some(dir), Some(home), Platform::Other) == dir@,
        data_dir_of(Some(dir), None, Platform::Other) == dir@,
        home@.len() > 0 && home@.last() != '/' ==> data_dir_of(None, Some(home), Platform::Other)
            == home@ + seq!['/'] + ".local/share"@,
        dir@.len() > 0 && dir@.last() != '/' ==> config_path_of(Some(dir), Some(home), Platform::Other)
            == dir@ + seq!['/'] + "opencode"@ + seq!['/'] + "opencode.jsonc"@,
        home@.len() > 0 && home@.last() != '/' ==> config_path_of(None, Some(home), Platform::Other)
            == home@ + seq!['/'] + ".config"@ + seq!['/'] + "opencode"@ + seq!['/'] + "opencode.jsonc"@,
{
    reveal_strlit("opencode");
    reveal_strlit(".config");
    assert(dir@ + seq!['/'] =~= dir@.push('/'));
    assert(home@ + seq!['/'] =~= home@.push('/'));
    let a = dir@.push('/') + "opencode"@;
    assert(a.last() == 'e');
    assert(a + seq!['/'] =~= a.push('/'));
    let b = home@.push('/') + ".config"@;
    assert(b.last() == 'g');
    assert(b + seq!['/'] =~= b.push('/'));
    let c = b.push('/') + "opencode"@;
    assert(c.last() == 'e');
    assert(c + seq!['/'] =~= c.push('/'));
}

/// Where the database lies unless another one is found.
pub proof fn law_default_database(data_dir: Seq<char>)
    requires
        data_dir.len() > 0,
        data_dir.last() != '/',
    ensures
        default_db_path(data_dir, Platform::Other) == data_dir + seq!['/'] + "opencode"@ + seq!['/']
            + "opencode.db"@,
{
    reveal_strlit("opencode");
    assert(data_dir + seq!['/'] =~= data_dir.push('/'));
    let a = data_dir.push('/') + "opencode"@;
    assert(a.last() == 'e');
    assert(a + seq!['/'] =~= a.push('/'));
}

/// A name has the extension `db` where `.db` stands behind something else.
pub proof fn law_database_extension(dir: Seq<char>, stem: Seq<char>, platform: Platform)
    requires
        forall|i: int| 0 <= i < stem.len() ==> #[trigger] stem[i] != '/' && stem[i] != '\\',
    ensures
        stem.len() > 0 ==> has_db_extension(dir.push('/') + (stem + ".db"@), platform),
        stem.len() == 0 ==> !has_db_extension(dir.push('/') + (stem + ".db"@), platform),
        stem.len() < 3 || stem.skip(stem.len() - 3) != ".db"@ ==> !has_db_extension(
            dir.push('/') + stem,
            platform,
        ),
{
    reveal_strlit(".db");
    let name = stem + ".db"@;
    assert forall|i: int| 0 <= i < name.len() implies !is_separator(#[trigger] name[i], platform) by {
        if i < stem.len() {
            assert(name[i] == stem[i]);
        }
    }
    assert forall|i: int| 0 <= i < stem.len() implies !is_separator(#[trigger] stem[i], platform) by {
        assert(stem[i] != '/');
    }
    lemma_last_name_is(dir.push('/'), name, platform);
    lemma_last_name_is(dir.push('/'), stem, platform);
    assert(name.skip(name.len() - 3) =~= ".db"@);
}

/// The database is the default one where it exists; else the first file with the extension
/// `db` in its directory; else the default one all the same.
pub proof fn law_first_database_is_taken(
    data_dir: Seq<char>,
    default_exists: bool,
    entries: Seq<DirEntry>,
    platform: Platform,
    k: int,
)
    requires
        0 <= k <= entries.len(),
        forall|i: int|
            0 <= i < k ==> !((#[trigger] entries[i]).is_file && has_db_extension(
                entries[i].path@,
                platform,
            )),
        k < entries.len() ==> entries[k].is_file && has_db_extension(entries[k].path@, platform),
    ensures
        default_exists ==> db_path_of(data_dir, default_exists, entries, platform)
            == default_db_path(data_dir, platform),
        !default_exists && k < entries.len() ==> db_path_of(
            data_dir,
            default_exists,
            entries,
            platform,
        ) == entries[k].path@,
        !default_exists && k == entries.len() ==> db_path_of(
            data_dir,
            default_exists,
            entries,
            platform,
        ) == default_db_path(data_dir, platform),
{
    lemma_first_db_is(entries, platform, k);
}

proof fn lemma_first_db_is(entries: Seq<DirEntry>, platform: Platform, k: int)
    requires
        0 <= k <= entries.len(),
        forall|i: int|
            0 <= i < k ==> !((#[trigger] entries[i]).is_file && has_db_extension(
                entries[i].path@,
                platform,
            )),
        k < entries.len() ==> entries[k].is_file && has_db_extension(entries[k].path@, platform),
    ensures
        first_db(entries, platform) == if k < entries.len() {
            Some(entries[k].path@)
        } else {
            None
        },
    decreases entries.len(),
{
    if k > 0 {
        assert(!(entries[0].is_file && has_db_extension(entries[0].path@, platform)));
        let rest = entries.drop_first();
        assert forall|i: int| 0 <= i < k - 1 implies !((#[trigger] rest[i]).is_file
            && has_db_extension(rest[i].path@, platform)) by {
            assert(rest[i] == entries[i + 1]);
        }
        lemma_first_db_is(rest, platform, k - 1);
    }
}

/// Everywhere but on Windows the database is the one that its directory shows. On Windows
/// the application data are looked at last: the first directory that is given and holds the
/// file.
pub proof fn law_application_data_come_last(places: Places, k: int, dir: String)
    requires
        0 <= k < places.app_data@.len(),
        places.app_data@[k].dir == Some(dir),
        dir@.len() > 0,
        places.app_data@[k].holds_file,
        forall|i: int|
            0 <= i < k ==> !(#[trigger] places.app_data@[i]).holds_file
                || places.app_data@[i].dir is None || (places.app_data@[i].dir matches Some(d)
                && d@.len() == 0),
    ensures
        located(places, Platform::Other) == db_path_of(
            places.data_dir@,
            places.default_exists,
            places.entries@,
            Platform::Other,
        ),
        located(places, Platform::MacOs) == db_path_of(
            places.data_dir@,
            places.default_exists,
            places.entries@,
            Platform::MacOs,
        ),
        places.default_exists ==> located(places, Platform::Windows) == default_db_path(
            places.data_dir@,
            Platform::Windows,
        ),
        !places.default_exists && (forall|i: int|
            0 <= i < places.entries@.len() ==> !(#[trigger] places.entries@[i]).is_file) ==> located(
            places,
            Platform::Windows,
        ) == joined(joined(dir@, "opencode"@, Platform::Windows), "opencode.db"@, Platform::Windows),
{
    lemma_first_below_is(places.app_data@, "opencode.db"@, k);
    if forall|i: int| 0 <= i < places.entries@.len() ==> !(#[trigger] places.entries@[i]).is_file {
        lemma_first_db_is(places.entries@, Platform::Windows, places.entries@.len() as int);
    }
}

proof fn lemma_first_below_is(dirs: Seq<AppDataDir>, name: Seq<char>, k: int)
    requires
        0 <= k < dirs.len(),
        dirs[k].holds_file && file_below(dirs[k], name) is Some,
        forall|i: int|
            0 <= i < k ==> !(#[trigger] dirs[i]).holds_file || dirs[i].dir is None || (
            dirs[i].dir matches Some(d) && d@.len() == 0),
    ensures
        first_below(dirs, name) == file_below(dirs[k], name),
    decreases dirs.len(),
{
    if k > 0 {
        assert(!dirs[0].holds_file || dirs[0].dir is None || (dirs[0].dir matches Some(d) && d@.len()
            == 0));
        let rest = dirs.drop_first();
        assert forall|i: int| 0 <= i < k - 1 implies !(#[trigger] rest[i]).holds_file
            || rest[i].dir is None || (rest[i].dir matches Some(d) && d@.len() == 0) by {
            assert(rest[i] == dirs[i + 1]);
        }
        lemma_first_below_is(rest, name, k - 1);
    }
}

/// A path is the same only as itself, but on Windows: there slashes and backslashes, capital
/// and small letters are the same, and separators at the end do not count.
pub proof fn law_spellings_of_a_path(a: Seq<char>, b: Seq<char>)
    ensures
        same_path(a, b, Platform::Other) <==> a == b,
        same_path(a, b, Platform::MacOs) <==> a == b,
        same_path(a.push('/'), a, Platform::Windows),
        same_path(a.push('\\'), a, Platform::Windows),
        a.len() == b.len() && (forall|i: int|
            0 <= i < a.len() ==> #[trigger] plain_char(a[i]) == plain_char(b[i])) ==> same_path(
            a,
            b,
            Platform::Windows,
        ),
        a.len() == b.len() && a.len() > 0 && plain_char(a[0]) != plain_char(b[0]) && plain_char(a[0])
            != '\\' && plain_char(b[0]) != '\\' ==> !same_path(a, b, Platform::Windows),
{
    let slash = |c: char| if c == '/' { '\\' } else { c };
    let x = a.map_values(slash);
    let y = b.map_values(slash);
    assert(a.push('/').map_values(slash).drop_last() =~= x);
    assert(a.push('\\').map_values(slash).drop_last() =~= x);
    assert(a.push('/').map_values(slash).last() == '\\');
    assert(a.push('\\').map_values(slash).last() == '\\');
    if a.len() == b.len() && forall|i: int|
        0 <= i < a.len() ==> #[trigger] plain_char(a[i]) == plain_char(b[i]) {
        assert forall|i: int| 0 <= i < x.len() implies #[trigger] ascii_lower(x[i]) == ascii_lower(
            y[i],
        ) by {
            assert(plain_char(a[i]) == plain_char(b[i]));
            assert(ascii_lower(x[i]) == plain_char(a[i]));
            assert(ascii_lower(y[i]) == plain_char(b[i]));
        }
        lemma_same_spelling(x, y);
    }
    if a.len() == b.len() && a.len() > 0 && plain_char(a[0]) != plain_char(b[0]) && plain_char(a[0])
        != '\\' && plain_char(b[0]) != '\\' {
        lemma_keeps_first(x);
        lemma_keeps_first(y);
        let p = without_trailing_backslashes(x);
        let q = without_trailing_backslashes(y);
        let pl = p.map_values(|c: char| ascii_lower(c));
        let ql = q.map_values(|c: char| ascii_lower(c));
        assert(pl[0] == plain_char(a[0]));
        assert(ql[0] == plain_char(b[0]));
    }
}

/// A character as Windows compares it in paths.
pub open spec fn plain_char(c: char) -> char {
    if c == '/' {
        '\\'
    } else {
        ascii_lower(c)
    }
}

proof fn lemma_keeps_first(x: Seq<char>)
    requires
        x.len() > 0,
        x[0] != '\\',
    ensures
        without_trailing_backslashes(x).len() > 0,
        without_trailing_backslashes(x)[0] == x[0],
    decreases x.len(),
{
    if x.last() == '\\' {
        lemma_keeps_first(x.drop_last());
    }
}

proof fn lemma_same_spelling(x: Seq<char>, y: Seq<char>)
    requires
        x.len() == y.len(),
        forall|i: int| 0 <= i < x.len() ==> #[trigger] ascii_lower(x[i]) == ascii_lower(y[i]),
    ensures
        without_trailing_backslashes(x).map_values(|c: char| ascii_lower(c))
            == without_trailing_backslashes(y).map_values(|c: char| ascii_lower(c)),
    decreases x.len(),
{
    if x.len() > 0 {
        assert(ascii_lower(x[x.len() - 1]) == ascii_lower(y[y.len() - 1]));
        assert(x.last() == '\\' <==> y.last() == '\\');
        if x.last() == '\\' {
            let u = x.drop_last();
            let v = y.drop_last();
            assert forall|i: int| 0 <= i < u.len() implies #[trigger] ascii_lower(u[i])
                == ascii_lower(v[i]) by {
                assert(ascii_lower(x[i]) == ascii_lower(y[i]));
            }
            lemma_same_spelling(u, v);
        } else {
            let u = x.map_values(|c: char| ascii_lower(c));
            let v = y.map_values(|c: char| ascii_lower(c));
            assert forall|i: int| 0 <= i < u.len() implies #[trigger] u[i] == v[i] by {
                assert(ascii_lower(x[i]) == ascii_lower(y[i]));
            }
            assert(u =~= v);
        }
    } else {
        assert(x =~= y);
    }
}

} // verus!
