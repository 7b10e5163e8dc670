use vstd::prelude::*;

use crate::text::{lower_of, lowercase, texts};

verus! {

/// Everything the tool keeps lives under this directory.
pub const MAIN_DIR: &'static str = "subchunker";

/// Server installs, one directory per game version.
pub const SERVER_DIR: &'static str = "subchunker/server";

/// Runtime distributions, one directory per distribution.
pub const JAVA_DIR: &'static str = "subchunker/java";

/// Saved data.
pub const DATA_DIR: &'static str = "subchunker/data";

/// Name of the server artifact inside a version directory.
pub const SERVER_JAR: &'static str = "fabric-server.jar";

/// `base` and `name` joined by a path separator.
pub open spec fn joined(base: Seq<char>, name: Seq<char>) -> Seq<char> {
    base + "/"@ + name
}

/// Joins a path and one more name.
pub fn join_path(base: &str, name: &str) -> (r: String)
    ensures
        r@ == joined(base@, name@),
{
    let mut r = String::from_str(base);
    r.append("/");
    r.append(name);
    r
}

/// The tool's own directory under the working directory.
pub fn main_dir(working_dir: &str) -> (r: String)
    ensures
        r@ == joined(working_dir@, MAIN_DIR@),
{
    join_path(working_dir, MAIN_DIR)
}

/// The directory that holds one directory per server version.
pub fn server_dir(working_dir: &str) -> (r: String)
    ensures
        r@ == joined(working_dir@, SERVER_DIR@),
{
    join_path(working_dir, SERVER_DIR)
}

/// The directory of saved data.
pub fn data_dir(working_dir: &str) -> (r: String)
    ensures
        r@ == joined(working_dir@, DATA_DIR@),
{
    join_path(working_dir, DATA_DIR)
}

/// The directory that holds one directory per runtime distribution.
pub fn java_dir(working_dir: &str) -> (r: String)
    ensures
        r@ == joined(working_dir@, JAVA_DIR@),
{
    join_path(working_dir, JAVA_DIR)
}

/// The directory of one server version.
pub fn version_dir(working_dir: &str, version: &str) -> (r: String)
    ensures
        r@ == joined(joined(working_dir@, SERVER_DIR@), version@),
{
    let s = server_dir(working_dir);
    join_path(s.as_str(), version)
}

/// A file or directory inside the directory of one server version.
pub fn version_entry(working_dir: &str, version: &str, name: &str) -> (r: String)
    ensures
        r@ == joined(joined(joined(working_dir@, SERVER_DIR@), version@), name@),
{
    let v = version_dir(working_dir, version);
    join_path(v.as_str(), name)
}

/// The directory of one runtime distribution: its name in lower case.
pub fn runtime_dir(working_dir: &str, distribution: &str) -> (r: String)
    ensures
        r@ == joined(joined(working_dir@, JAVA_DIR@), lower_of(distribution@)),
{
    let j = java_dir(working_dir);
    let lower = lowercase(distribution);
    join_path(j.as_str(), lower.as_str())
}

/// The runtime's launcher inside a distribution: `bin/javaw.exe` on
/// Windows, `bin/java` elsewhere.
pub fn java_executable(working_dir: &str, distribution: &str, windows: bool) -> (r: String)
    ensures
        r@ == joined(
            joined(joined(joined(working_dir@, JAVA_DIR@), lower_of(distribution@)), "bin"@),
            if windows {
                "javaw.exe"@
            } else {
                "java"@
            },
        ),
{
    let d = runtime_dir(working_dir, distribution);
    let b = join_path(d.as_str(), "bin");
    if windows {
        join_path(b.as_str(), "javaw.exe")
    } else {
        join_path(b.as_str(), "java")
    }
}

/// The names of the version directories that could be read; an entry that
/// could not be read is `None` and is left out.
pub fn installed_minecraft_versions(entries: Vec<Option<String>>) -> (r: Vec<String>)
    ensures
        texts(r@) == entries@.filter(|e: Option<String>| e is Some).map_values(
            |e: Option<String>| e->0@,
        ),
{
    let mut r: Vec<String> = Vec::new();
    let mut i: usize = 0;
    while i < entries.len()
        invariant
            i <= entries@.len(),
            texts(r@) == entries@.subrange(0, i as int).filter(
                |e: Option<String>| e is Some,
            ).map_values(|e: Option<String>| e->0@),
        decreases entries.len() - i,
    {
        let ghost before = r@;
        let ghost pre = entries@.subrange(0, i as int);
        let ghost next = entries@.subrange(0, i + 1);
        assert(next.drop_last() =~= pre);
        reveal(Seq::filter);
        match &entries[i] {
            Some(name) => {
                r.push(name.clone());
                assert(next.filter(|e: Option<String>| e is Some) =~= pre.filter(
                    |e: Option<String>| e is Some,
                ).push(entries@[i as int]));
                assert(texts(r@) =~= texts(before).push(name@));
            },
            None => {
                assert(next.filter(|e: Option<String>| e is Some) =~= pre.filter(
                    |e: Option<String>| e is Some,
                ));
            },
        }
        i = i + 1;
    }
    assert(entries@.subrange(0, entries@.len() as int) =~= entries@);
    r
}

/// Whether `version` is among the installed version directories.
pub fn mc_ver_installed(installed: &Vec<String>, version: &str) -> (r: bool)
    ensures
        r == texts(installed@).contains(version@),
{
    let v = String::from_str(version);
    let mut i: usize = 0;
    while i < installed.len()
        invariant
            i <= installed@.len(),
            v@ == version@,
            forall|k: int| 0 <= k < i ==> installed@[k]@ != version@,
        decreases installed.len() - i,
    {
        if installed[i] == v {
            assert(texts(installed@)[i as int] == version@);
            return true;
        }
        i = i + 1;
    }
    assert forall|k: int| 0 <= k < installed@.len() implies #[trigger] texts(installed@)[k]
        != version@ by {
        assert(texts(installed@)[k] == installed@[k]@);
    }
    false
}

} // verus!
