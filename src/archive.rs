use vstd::prelude::*;

use crate::error::InstallError;
use crate::json::{json_string_field, plugin_id};
use crate::text::texts;

verus! {

#[verifier::external_type_specification]
#[verifier::external_body]
#[verifier::reject_recursive_types(R)]
pub struct ExZipArchive<R>(zip::ZipArchive<R>);

#[verifier::external_type_specification]
#[verifier::external_body]
#[verifier::reject_recursive_types(T)]
pub struct ExCursor<T>(std::io::Cursor<T>);

#[verifier::external_type_specification]
#[verifier::external_body]
pub struct ExZipError(zip::result::ZipError);

/// A zip archive read from memory.
pub type MemArchive = zip::ZipArchive<std::io::Cursor<Vec<u8>>>;

/// The entries of an archive, in the order of its central directory: for
/// each, the normal components of its sanitised path (as
/// `ZipFile::mangled_name` gives them), whether it is a directory, and its
/// Unix mode bits if it records them, and whether `ZipArchive::by_index`
/// can open it.
pub uninterp spec fn archive_entries(a: zip::ZipArchive<std::io::Cursor<Vec<u8>>>) -> Seq<
    (Seq<Seq<char>>, bool, Option<u32>, bool),
>;

/// The text held by the entry of an archive with the given name, when it
/// has one whose contents read as UTF-8.
pub uninterp spec fn archive_text(
    a: zip::ZipArchive<std::io::Cursor<Vec<u8>>>,
    name: Seq<char>,
) -> Option<Seq<char>>;

/// What one entry of an archive says of itself.
pub struct RawEntry {
    pub components: Vec<String>,
    pub is_dir: bool,
    pub mode: Option<u32>,
}

/// Whether `zip::ZipArchive::new` reads these bytes as an archive.
pub uninterp spec fn zip_opens(bytes: Seq<u8>) -> bool;

/// The text that the entry with the given name holds in the archive these
/// bytes make up, read as `archive_text` reads it.
pub uninterp spec fn zip_entry_text(bytes: Seq<u8>, name: Seq<char>) -> Option<Seq<char>>;

/// Relies on `zip::ZipArchive::new`: reads the central directory of an
/// archive held in memory, or fails on a malformed one; which of the two,
/// and what the entries of the archive hold, depend on the bytes alone.
#[verifier::external_body]
fn open_archive(bytes: Vec<u8>) -> (r: Result<MemArchive, zip::result::ZipError>)
    ensures
        r is Ok <==> zip_opens(bytes@),
        r matches Ok(a) ==> forall|n: Seq<char>| #[trigger] archive_text(a, n) == zip_entry_text(
            bytes@,
            n,
        ),
{
    zip::ZipArchive::new(std::io::Cursor::new(bytes))
}

/// Relies on `zip::ZipArchive::len`: the number of entries in the central
/// directory.
#[verifier::external_body]
fn entry_count(a: &MemArchive) -> (r: usize)
    ensures
        r == archive_entries(*a).len(),
{
    a.len()
}

/// Relies on `zip::ZipArchive::by_index` and, on the entry it returns,
/// `mangled_name`, `is_dir` and `unix_mode`: entry `i` of the central
/// directory, described; reading it leaves the list of entries as it was.
#[verifier::external_body]
fn entry_at(a: &mut MemArchive, i: usize) -> (r: Result<RawEntry, zip::result::ZipError>)
    requires
        i < archive_entries(*old(a)).len(),
    ensures
        archive_entries(*final(a)) == archive_entries(*old(a)),
        r is Ok <==> archive_entries(*old(a))[i as int].3,
        r matches Ok(e) ==> (texts(e.components@), e.is_dir, e.mode) == (
            archive_entries(*old(a))[i as int].0,
            archive_entries(*old(a))[i as int].1,
            archive_entries(*old(a))[i as int].2,
        ),
{
    match a.by_index(i) {
        Ok(f) => Ok(
            RawEntry {
                components: f.mangled_name().components().map(
                    |c| c.as_os_str().to_string_lossy().into_owned(),
                ).collect(),
                is_dir: f.is_dir(),
                mode: f.unix_mode(),
            },
        ),
        Err(e) => Err(e),
    }
}

/// Relies on `zip::ZipArchive::by_name` and `Read::read_to_string` on the
/// entry it returns: the text of the entry named `name`, or nothing when
/// there is none or it cannot be read as text; the list of entries stays
/// as it was.
#[verifier::external_body]
fn entry_text(a: &mut MemArchive, name: &str) -> (r: Option<String>)
    ensures
        archive_entries(*final(a)) == archive_entries(*old(a)),
        r is None <==> archive_text(*old(a), name@) is None,
        r matches Some(t) ==> archive_text(*old(a), name@) == Some(t@),
{
    let mut entry = a.by_name(name).ok()?;
    let mut text = String::new();
    std::io::Read::read_to_string(&mut entry, &mut text).ok()?;
    Some(text)
}

/// Name of the manifest inside a plugin archive.
pub const PLUGIN_MANIFEST: &'static str = "fabric.mod.json";

/// The manifest of a plugin archive, as text. An archive without one is an
/// archive error: a plugin directory that holds such an archive is not
/// read at all.
pub fn plugin_manifest(a: &mut MemArchive) -> (r: Result<String, InstallError>)
    ensures
        archive_entries(*final(a)) == archive_entries(*old(a)),
        r is Ok <==> archive_text(*old(a), PLUGIN_MANIFEST@) is Some,
        r matches Ok(t) ==> archive_text(*old(a), PLUGIN_MANIFEST@) == Some(t@),
        r matches Err(e) ==> e == InstallError::Archive,
{
    match entry_text(a, PLUGIN_MANIFEST) {
        Some(t) => Ok(t),
        None => Err(InstallError::Archive),
    }
}

/// The identifier that the plugin archive these bytes make up declares in
/// its manifest, if it opens, has a manifest, and the manifest names one.
pub open spec fn manifest_id(bytes: Seq<u8>) -> Option<Seq<char>> {
    if !zip_opens(bytes) {
        None
    } else {
        match zip_entry_text(bytes, PLUGIN_MANIFEST@) {
            Some(t) => json_string_field(t, "id"@),
            None => None,
        }
    }
}

/// The identifier a plugin archive declares. An archive that does not
/// open or has no manifest is an archive error; a manifest without a
/// string `id` is a parse error.
pub fn mod_id_of(bytes: Vec<u8>) -> (r: Result<String, InstallError>)
    ensures
        r is Ok <==> manifest_id(bytes@) is Some,
        r matches Ok(id) ==> manifest_id(bytes@) == Some(id@),
        r matches Err(e) ==> e == (if !zip_opens(bytes@) || zip_entry_text(
            bytes@,
            PLUGIN_MANIFEST@,
        ) is None {
            InstallError::Archive
        } else {
            InstallError::Parse
        }),
{
    let ghost b = bytes@;
    let mut a = read_archive(bytes)?;
    assert(archive_text(a, PLUGIN_MANIFEST@) == zip_entry_text(b, PLUGIN_MANIFEST@));
    let manifest = plugin_manifest(&mut a)?;
    plugin_id(manifest.as_str())
}

/// Reads an archive held in memory; a malformed one is an archive error.
pub fn read_archive(bytes: Vec<u8>) -> (r: Result<MemArchive, InstallError>)
    ensures
        r is Ok <==> zip_opens(bytes@),
        r matches Ok(a) ==> forall|n: Seq<char>| #[trigger] archive_text(a, n) == zip_entry_text(
            bytes@,
            n,
        ),
        r matches Err(e) ==> e == InstallError::Archive,
{
    match open_archive(bytes) {
        Ok(a) => Ok(a),
        Err(_) => Err(InstallError::Archive),
    }
}

/// A path without its first component; an empty path stays empty.
pub open spec fn stripped(c: Seq<Seq<char>>) -> Seq<Seq<char>> {
    if c.len() == 0 {
        c
    } else {
        c.drop_first()
    }
}

/// Drops the first component of a path.
pub fn strip_leading(components: &Vec<String>) -> (r: Vec<String>)
    ensures
        texts(r@) == stripped(texts(components@)),
{
    let mut r: Vec<String> = Vec::new();
    if components.len() == 0 {
        assert(texts(r@) =~= texts(components@));
        return r;
    }
    let mut i: usize = 1;
    while i < components.len()
        invariant
            1 <= i <= components@.len(),
            texts(r@) == texts(components@).subrange(1, i as int),
        decreases components.len() - i,
    {
        let ghost before = r@;
        r.push(components[i].clone());
        assert(texts(r@) =~= texts(before).push(components@[i as int]@));
        assert(texts(components@).subrange(1, i + 1) =~= texts(components@).subrange(
            1,
            i as int,
        ).push(components@[i as int]@));
        i = i + 1;
    }
    assert(texts(components@).subrange(1, components@.len() as int) =~= texts(
        components@,
    ).drop_first());
    r
}

/// Where one entry of an archive goes once unpacked.
pub struct PlannedEntry {
    /// Position of the entry in the archive.
    pub index: usize,
    /// Path under the target directory, the archive's top-level folder
    /// taken off; empty for that folder itself.
    pub path: Vec<String>,
    pub is_dir: bool,
    /// Permission bits to set on a file, when the archive records them.
    pub mode: Option<u32>,
}

/// An archive with no entry that names a path.
pub open spec fn no_paths(e: Seq<(Seq<Seq<char>>, bool, Option<u32>, bool)>) -> bool {
    forall|k: int| 0 <= k < e.len() ==> (#[trigger] e[k]).0.len() == 0
}

/// An archive whose every entry `by_index` can open.
pub open spec fn all_readable(e: Seq<(Seq<Seq<char>>, bool, Option<u32>, bool)>) -> bool {
    forall|k: int| 0 <= k < e.len() ==> (#[trigger] e[k]).3
}

/// Plans the unpacking of an archive whose entries sit in one top-level
/// folder: each entry keeps its place in the archive and its kind, and
/// loses exactly the first component of its path, so that the folder's
/// contents land directly in the target directory. An archive with no
/// path in it, or an entry that cannot be read, is an archive error.
pub fn plan_extraction(a: &mut MemArchive) -> (r: Result<Vec<PlannedEntry>, InstallError>)
    ensures
        archive_entries(*final(a)) == archive_entries(*old(a)),
        r matches Err(e) ==> e == InstallError::Archive,
        r is Ok <==> (!no_paths(archive_entries(*old(a))) && all_readable(
            archive_entries(*old(a)),
        )),
        r matches Ok(plan) ==> {
            let e = archive_entries(*old(a));
            &&& plan@.len() == e.len()
            &&& forall|k: int|
                0 <= k < e.len() ==> {
                    &&& (#[trigger] plan@[k]).index == k
                    &&& texts(plan@[k].path@) == stripped(e[k].0)
                    &&& plan@[k].is_dir == e[k].1
                    &&& plan@[k].mode == e[k].2
                }
        },
{
    let ghost e = archive_entries(*a);
    let n = entry_count(a);
    let mut plan: Vec<PlannedEntry> = Vec::new();
    let mut found = false;
    let mut i: usize = 0;
    while i < n
        invariant
            n == e.len(),
            e == archive_entries(*old(a)),
            archive_entries(*a) == e,
            i <= n,
            plan@.len() == i,
            found <==> exists|k: int| 0 <= k < i && (#[trigger] e[k]).0.len() > 0,
            forall|k: int| 0 <= k < i ==> (#[trigger] e[k]).3,
            forall|k: int|
                0 <= k < i ==> {
                    &&& (#[trigger] plan@[k]).index == k
                    &&& texts(plan@[k].path@) == stripped(e[k].0)
                    &&& plan@[k].is_dir == e[k].1
                    &&& plan@[k].mode == e[k].2
                },
        decreases n - i,
    {
        let raw = match entry_at(a, i) {
            Ok(raw) => raw,
            Err(_) => {
                return Err(InstallError::Archive);
            },
        };
        if raw.components.len() > 0 {
            found = true;
        }
        let path = strip_leading(&raw.components);
        plan.push(PlannedEntry { index: i, path, is_dir: raw.is_dir, mode: raw.mode });
        i = i + 1;
    }
    if !found {
        return Err(InstallError::Archive);
    }
    Ok(plan)
}

} // verus!
