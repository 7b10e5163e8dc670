use vstd::prelude::*;

use crate::text::texts;

verus! {

/// One entry of a version list from the metadata service.
#[derive(Clone, Debug, PartialEq, Eq)]
pub struct VersionEntry {
    pub version: String,
    pub stable: bool,
}

/// The versions of the entries marked stable, in the order listed.
pub open spec fn stable_of(entries: Seq<VersionEntry>) -> Seq<Seq<char>>
    decreases entries.len(),
{
    if entries.len() == 0 {
        Seq::empty()
    } else {
        let prev = stable_of(entries.drop_last());
        if entries.last().stable {
            prev.push(entries.last().version@)
        } else {
            prev
        }
    }
}

fn stable_versions(entries: &Vec<VersionEntry>) -> (r: Vec<String>)
    ensures
        texts(r@) == stable_of(entries@),
{
    let mut r: Vec<String> = Vec::new();
    let mut i: usize = 0;
    while i < entries.len()
        invariant
            i <= entries@.len(),
            texts(r@) == stable_of(entries@.subrange(0, i as int)),
        decreases entries.len() - i,
    {
        let ghost before = r@;
        assert(entries@.subrange(0, i + 1).drop_last() =~= entries@.subrange(0, i as int));
        if entries[i].stable {
            r.push(entries[i].version.clone());
            assert(texts(r@) =~= texts(before).push(entries@[i as int].version@));
        }
        i = i + 1;
    }
    assert(entries@.subrange(0, entries@.len() as int) =~= entries@);
    r
}

/// The stable game versions, in the order the service lists them.
pub fn get_minecraft_versions(entries: &Vec<VersionEntry>) -> (r: Vec<String>)
    ensures
        texts(r@) == stable_of(entries@),
{
    stable_versions(entries)
}

/// The stable loader versions, in the order the service lists them.
pub fn get_fabric_loader_versions(entries: &Vec<VersionEntry>) -> (r: Vec<String>)
    ensures
        texts(r@) == stable_of(entries@),
{
    stable_versions(entries)
}

} // verus!
