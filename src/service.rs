//! The rules for the service's collections and for what a search returns.
use vstd::prelude::*;

use crate::errors::StoreError;

verus! {

/// Whether `name` is `default` in any mix of ASCII upper and lower case.
pub open spec fn is_default_alias_spec(name: Seq<char>) -> bool {
    name.len() == 7 && forall|i: int| 0 <= i < 7 ==> (#[trigger] name[i] == "default"@[i] || name[i] == "DEFAULT"@[i])
}

/// Where an item is created for a collection name: `default`, in any ASCII
/// case, names the service's default collection, which always exists.
pub fn is_default_alias(name: &str) -> (r: bool)
    ensures
        r == is_default_alias_spec(name@),
{
    let lower = "default";
    let upper = "DEFAULT";
    proof {
        reveal_strlit("default");
        reveal_strlit("DEFAULT");
    }
    if name.unicode_len() != 7 {
        return false;
    }
    let mut i: usize = 0;
    while i < 7
        invariant
            i <= 7,
            name@.len() == 7,
            lower@ == "default"@,
            upper@ == "DEFAULT"@,
            lower@.len() == 7,
            upper@.len() == 7,
            forall|j: int| 0 <= j < i ==> (#[trigger] name@[j] == "default"@[j] || name@[j] == "DEFAULT"@[j]),
        decreases 7 - i,
    {
        let c = name.get_char(i);
        if c != lower.get_char(i) && c != upper.get_char(i) {
            return false;
        }
        i = i + 1;
    }
    true
}

/// Whether a collection label, where it could be read, is `name`.
pub open spec fn label_is(label: Option<String>, name: Seq<char>) -> bool {
    match label {
        Some(l) => l@ == name,
        None => false,
    }
}

/// How a collection name is found among the existing collections.
#[derive(Debug, Clone, Copy, PartialEq, Eq, Structural)]
pub enum CollectionChoice {
    /// The service's default collection.
    Default,
    /// The existing collection at this index.
    Labelled(usize),
    /// No collection has that name.
    Missing,
}

/// Find the collection called `name`, given the labels of all collections
/// (`None` where a label could not be read). `default` names the default
/// collection whatever its label; any other name is matched exactly against
/// the labels, and the first match wins.
pub fn find_collection(name: &str, labels: &Vec<Option<String>>) -> (r: CollectionChoice)
    ensures
        name@ == "default"@ ==> r == CollectionChoice::Default,
        name@ != "default"@ ==> match r {
            CollectionChoice::Default => false,
            CollectionChoice::Labelled(i) => i < labels@.len() && label_is(labels@[i as int], name@)
                && forall|j: int| 0 <= j < i ==> !label_is(#[trigger] labels@[j], name@),
            CollectionChoice::Missing => forall|j: int| 0 <= j < labels@.len() ==> !label_is(#[trigger] labels@[j], name@),
        },
{
    let wanted = name.to_owned();
    let default_name = "default".to_owned();
    if wanted == default_name {
        return CollectionChoice::Default;
    }
    let mut i: usize = 0;
    while i < labels.len()
        invariant
            i <= labels@.len(),
            wanted@ == name@,
            name@ != "default"@,
            forall|j: int| 0 <= j < i ==> !label_is(#[trigger] labels@[j], name@),
        decreases labels@.len() - i,
    {
        match &labels[i] {
            Some(l) => {
                if *l == wanted {
                    return CollectionChoice::Labelled(i);
                }
            },
            None => {},
        }
        i = i + 1;
    }
    CollectionChoice::Missing
}

/// After a failed lookup of the collection an item is to be created in:
/// where no collection has that name it is to be created, and any other
/// failure stands.
pub fn create_when_missing(lookup: StoreError) -> (r: Result<(), StoreError>)
    ensures
        r is Ok <==> lookup is NoEntry,
        r matches Err(e) ==> e == lookup,
{
    match lookup {
        StoreError::NoEntry => Ok(()),
        other => Err(other),
    }
}

/// Refuse to delete the default collection.
pub fn deletable_collection(name: &str) -> (r: Result<(), StoreError>)
    ensures
        r is Ok <==> name@ != "default"@,
        r matches Err(e) ==> (e matches StoreError::NotSupportedByStore(m)
            && m@ == "You cannot delete the default collection"@),
{
    let wanted = name.to_owned();
    let default_name = "default".to_owned();
    if wanted == default_name {
        Err(StoreError::NotSupportedByStore("You cannot delete the default collection".to_owned()))
    } else {
        Ok(())
    }
}

/// Refuse a search whose locked items are not all unlocked after the
/// unlock was asked for: `still_locked` holds, for each, whether it still is.
pub fn check_unlocked(still_locked: &Vec<bool>) -> (r: Result<(), StoreError>)
    ensures
        r is Ok <==> forall|i: int| 0 <= i < still_locked@.len() ==> !#[trigger] still_locked@[i],
        r matches Err(e) ==> e is NoStorageAccess,
{
    let mut i: usize = 0;
    while i < still_locked.len()
        invariant
            i <= still_locked@.len(),
            forall|j: int| 0 <= j < i ==> !#[trigger] still_locked@[j],
        decreases still_locked@.len() - i,
    {
        if still_locked[i] {
            return Err(StoreError::NoStorageAccess("items remain locked after unlocking".to_owned()));
        }
        i = i + 1;
    }
    Ok(())
}

/// The items that a search reports: the unlocked ones, then the locked ones
/// once they have been unlocked.
pub fn matching_paths(unlocked: Vec<String>, locked: Vec<String>) -> (r: Vec<String>)
    ensures
        r@ == unlocked@ + locked@,
{
    let mut r = unlocked;
    let mut rest = locked;
    r.append(&mut rest);
    r
}

} // verus!
