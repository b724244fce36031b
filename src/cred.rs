//! Credentials: a `Specifier` names an item by its logical identity and is
//! resolved afresh on every operation; a `Wrapper` holds one located item.
use vstd::prelude::*;

use crate::attrs::{found_by, has_key, has_pair, keys_distinct, pairs_view, value_of, get_value};
use crate::errors::StoreError;
use crate::service::deletable_collection;

verus! {

/// A located item: the service's opaque object path, held as text. Every
/// operation on it goes to that path, without a new search.
#[derive(Debug, Clone)]
pub struct Wrapper {
    pub path: String,
}

impl Wrapper {
    /// A handle on the item at `path`.
    pub fn new(path: String) -> (r: Wrapper)
        ensures
            r.path@ == path@,
    {
        Wrapper { path }
    }
}

/// The paths held by a sequence of handles, in order.
pub open spec fn paths_of(ws: Seq<Wrapper>) -> Seq<Seq<char>> {
    ws.map_values(|w: Wrapper| w.path@)
}

/// The text of an optional string.
pub open spec fn opt_view(o: Option<String>) -> Option<Seq<char>> {
    match o {
        Some(s) => Some(s@),
        None => None,
    }
}

/// The label given to an item created for `user` at `service` when none was
/// asked for: `keyring:{user}@{service}`.
pub open spec fn default_label(service: Seq<char>, user: Seq<char>) -> Seq<char> {
    "keyring:"@ + user + "@"@ + service
}

/// The specifier of an item in the secret service.
///
/// The label and target come from the modifiers the specifier was built
/// with, so that they are at hand when a matching item has to be created.
#[derive(Debug, Clone)]
pub struct Specifier {
    pub label: String,
    pub target: Option<String>,
    pub service: String,
    pub user: String,
}

/// The attributes by which the items of `s` are searched for, and which an
/// item created for it carries.
pub open spec fn search_pairs(s: Specifier) -> Seq<(Seq<char>, Seq<char>)> {
    let base = seq![("service"@, s.service@), ("username"@, s.user@)];
    match s.target {
        Some(t) => base.push(("target"@, t@)),
        None => base,
    }
}

/// The collection that an item created for `s` goes into.
pub open spec fn home_collection(s: Specifier) -> Seq<char> {
    match s.target {
        Some(t) => t@,
        None => "default"@,
    }
}

/// A search for a specifier without a target finds the items created for
/// any specifier with the same service and user, with a target or without.
pub proof fn lemma_targetless_search_finds(s: Specifier, t: Specifier)
    requires
        s.target is None,
        s.service@ == t.service@,
        s.user@ == t.user@,
    ensures
        found_by(search_pairs(s), search_pairs(t)),
{
    assert forall|i: int| 0 <= i < search_pairs(s).len() implies has_pair(search_pairs(t), #[trigger] search_pairs(s)[i].0, search_pairs(s)[i].1) by {
        assert(search_pairs(t)[i] == search_pairs(s)[i]);
    }
}

/// The item created for a specifier is found by that specifier's own
/// search, so a write followed by a read reaches the same item, also when
/// it is written again after a delete.
pub proof fn lemma_created_item_found(s: Specifier)
    ensures
        found_by(search_pairs(s), search_pairs(s)),
{
    assert forall|i: int| 0 <= i < search_pairs(s).len() implies has_pair(search_pairs(s), #[trigger] search_pairs(s)[i].0, search_pairs(s)[i].1) by {
        assert(search_pairs(s)[i] == (search_pairs(s)[i].0, search_pairs(s)[i].1));
    }
}

/// The stored items, each its attributes and its secret, that a search for
/// the attributes `q` finds, in order.
pub open spec fn matching(
    items: Seq<(Seq<(Seq<char>, Seq<char>)>, Seq<u8>)>,
    q: Seq<(Seq<char>, Seq<char>)>,
) -> Seq<(Seq<(Seq<char>, Seq<char>)>, Seq<u8>)> {
    items.filter(|it: (Seq<(Seq<char>, Seq<char>)>, Seq<u8>)| found_by(q, it.0))
}

/// Where no stored item matches a specifier, the item that writing a secret
/// creates (with the specifier's own search attributes) is then the one and
/// only match, holding exactly that secret, so a read resolves to it. Once it
/// is deleted nothing matches again: a read reports no entry, and the next
/// write creates afresh.
pub proof fn lemma_write_read_delete(
    s: Specifier,
    items: Seq<(Seq<(Seq<char>, Seq<char>)>, Seq<u8>)>,
    secret: Seq<u8>,
)
    requires
        matching(items, search_pairs(s)).len() == 0,
    ensures
        matching(items.push((search_pairs(s), secret)), search_pairs(s)) == seq![(search_pairs(s), secret)],
        matching(items.push((search_pairs(s), secret)).drop_last(), search_pairs(s)).len() == 0,
{
    let q = search_pairs(s);
    let pred = |it: (Seq<(Seq<char>, Seq<char>)>, Seq<u8>)| found_by(q, it.0);
    lemma_created_item_found(s);
    items.lemma_filter_push((q, secret), pred);
    assert(items.filter(pred).len() == 0);
    assert(items.filter(pred) =~= Seq::<(Seq<(Seq<char>, Seq<char>)>, Seq<u8>)>::empty());
    assert(matching(items.push((q, secret)), q) =~= seq![(q, secret)]);
    assert(items.push((q, secret)).drop_last() =~= items);
}

/// An item created for a specifier with a target and one created for the
/// plain specifier with the same service and user both match the plain
/// specifier's search, so a read through it finds two items.
pub proof fn lemma_plain_and_targeted_both_match(s: Specifier, t: Specifier, x: Seq<u8>, y: Seq<u8>)
    requires
        s.target is None,
        s.service@ == t.service@,
        s.user@ == t.user@,
    ensures
        matching(seq![(search_pairs(t), x), (search_pairs(s), y)], search_pairs(s)).len() == 2,
{
    let q = search_pairs(s);
    let pred = |it: (Seq<(Seq<char>, Seq<char>)>, Seq<u8>)| found_by(q, it.0);
    lemma_targetless_search_finds(s, t);
    lemma_created_item_found(s);
    let e = Seq::<(Seq<(Seq<char>, Seq<char>)>, Seq<u8>)>::empty();
    assert(e.filter(pred) =~= e);
    e.lemma_filter_push((search_pairs(t), x), pred);
    e.push((search_pairs(t), x)).lemma_filter_push((q, y), pred);
    assert(seq![(search_pairs(t), x), (q, y)] =~= e.push((search_pairs(t), x)).push((q, y)));
}

/// When a search finds two or more items, resolving it reports them all:
/// one handle per item, each holding that item's own path.
pub proof fn lemma_ambiguity_reports_each(found: Seq<String>, r: Result<String, StoreError>)
    requires
        found.len() >= 2,
        resolves_to(found, r),
    ensures
        r matches Err(e) && (e matches StoreError::Ambiguous(ws) && ws@.len() == found.len()
            && forall|i: int| 0 <= i < found.len() ==> (#[trigger] ws@[i]).path@ == found[i]@),
{
    if let Err(StoreError::Ambiguous(ws)) = r {
        let fv = found.map_values(|p: String| p@);
        assert(paths_of(ws@).len() == ws@.len());
        assert(fv.len() == found.len());
        assert forall|i: int| 0 <= i < found.len() implies (#[trigger] ws@[i]).path@ == found[i]@ by {
            assert(paths_of(ws@)[i] == ws@[i].path@);
            assert(fv[i] == found[i]@);
        }
    }
}

/// What resolving a search gives: the one path found, `NoEntry` for none,
/// and `Ambiguous` with one handle per path for more.
pub open spec fn resolves_to(found: Seq<String>, r: Result<String, StoreError>) -> bool {
    if found.len() == 0 {
        r matches Err(e) && e is NoEntry
    } else if found.len() == 1 {
        r matches Ok(p) && p@ == found[0]@
    } else {
        r matches Err(e) && (e matches StoreError::Ambiguous(ws)
            && paths_of(ws@) == found.map_values(|p: String| p@))
    }
}

/// One handle for each path a search found, in order; no ambiguity applies
/// where the caller asked for the whole set.
pub fn wrappers_for(found: &Vec<String>) -> (r: Vec<Wrapper>)
    ensures
        paths_of(r@) == found@.map_values(|p: String| p@),
{
    let mut entries: Vec<Wrapper> = Vec::with_capacity(found.len());
    let mut i: usize = 0;
    while i < found.len()
        invariant
            i <= found@.len(),
            entries@.len() == i,
            forall|j: int| 0 <= j < i ==> (#[trigger] entries@[j]).path@ == found@[j]@,
        decreases found@.len() - i,
    {
        entries.push(Wrapper::new(found[i].clone()));
        i = i + 1;
    }
    assert(paths_of(entries@) =~= found@.map_values(|p: String| p@));
    entries
}

/// Resolve the paths that a search found to a unique item.
pub fn get_unique_item(found: Vec<String>) -> (r: Result<String, StoreError>)
    ensures
        resolves_to(found@, r),
{
    let n = found.len();
    if n == 0 {
        return Err(StoreError::NoEntry);
    }
    if n == 1 {
        let mut found = found;
        let p = found.swap_remove(0);
        return Ok(p);
    }
    let entries = wrappers_for(&found);
    Err(StoreError::Ambiguous(entries))
}

/// What a write of a secret does.
#[derive(Debug, Clone)]
pub enum SecretPlan {
    /// Set the secret of the existing item at this path.
    Update(String),
    /// Create a new item.
    Create(NewItem),
}

/// An item to be created.
#[derive(Debug, Clone)]
pub struct NewItem {
    pub collection: String,
    pub label: String,
    pub attributes: Vec<(String, String)>,
}

impl Specifier {
    /// A specifier for `user` at `service`, with an optional label and
    /// target; without a label, the label is `keyring:{user}@{service}`.
    pub fn new(label: Option<&str>, target: Option<&str>, service: &str, user: &str) -> (r: Specifier)
        ensures
            r.label@ == match label {
                Some(l) => l@,
                None => default_label(service@, user@),
            },
            opt_view(r.target) == match target {
                Some(t) => Some(t@),
                None => None::<Seq<char>>,
            },
            r.service@ == service@,
            r.user@ == user@,
    {
        let label = match label {
            None => {
                let mut text = "keyring:".to_owned();
                text.append(user);
                text.append("@");
                text.append(service);
                text
            },
            Some(l) => l.to_owned(),
        };
        let target = match target {
            Some(t) => Some(t.to_owned()),
            None => None,
        };
        Specifier { label, target, service: service.to_owned(), user: user.to_owned() }
    }

    /// The attributes to search for: `service` and `username`, and `target`
    /// where the specifier has one.
    pub fn search_attributes(&self) -> (r: Vec<(String, String)>)
        ensures
            pairs_view(r@) == search_pairs(*self),
            keys_distinct(pairs_view(r@)),
    {
        let mut r: Vec<(String, String)> = Vec::new();
        r.push(("service".to_owned(), self.service.clone()));
        r.push(("username".to_owned(), self.user.clone()));
        match &self.target {
            Some(t) => r.push(("target".to_owned(), t.clone())),
            None => {},
        }
        proof {
            reveal_strlit("service");
            reveal_strlit("username");
            reveal_strlit("target");
            assert(pairs_view(r@) =~= search_pairs(*self));
            assert("service"@[0] != "username"@[0]);
            assert("service"@[0] != "target"@[0]);
            assert("username"@[0] != "target"@[0]);
        }
        r
    }

    /// Decide how to write a secret, given the paths that a search for
    /// this specifier found: update the one item found, create an item
    /// in the specifier's collection when there is none, and report the
    /// ambiguity when there are several.
    pub fn set_secret(&self, found: Vec<String>) -> (r: Result<SecretPlan, StoreError>)
        ensures
            found@.len() == 0 ==> (r matches Ok(SecretPlan::Create(item))
                && item.collection@ == home_collection(*self)
                && item.label@ == self.label@
                && pairs_view(item.attributes@) == search_pairs(*self)),
            found@.len() == 1 ==> (r matches Ok(SecretPlan::Update(p)) && p@ == found@[0]@),
            found@.len() > 1 ==> (r matches Err(e) && resolves_to(found@, Err(e))),
    {
        match get_unique_item(found) {
            Ok(p) => Ok(SecretPlan::Update(p)),
            Err(StoreError::NoEntry) => {
                let collection = match &self.target {
                    Some(t) => t.clone(),
                    None => "default".to_owned(),
                };
                let item = NewItem {
                    collection,
                    label: self.label.clone(),
                    attributes: self.search_attributes(),
                };
                Ok(SecretPlan::Create(item))
            },
            Err(e) => Err(e),
        }
    }

    /// The name of the collection that deleting the specifier's target
    /// removes; refused where there is no target, or where it is the
    /// default collection.
    pub fn delete_target(&self) -> (r: Result<String, StoreError>)
        ensures
            self.target is None ==> (r matches Err(e) && (e matches StoreError::Invalid(p, m)
                && p@ == "target"@ && m@ == "not set"@)),
            self.target matches Some(t) ==> if t@ == "default"@ {
                r matches Err(e) && e is NotSupportedByStore
            } else {
                r matches Ok(n) && n@ == t@
            },
    {
        match &self.target {
            None => Err(StoreError::Invalid("target".to_owned(), "not set".to_owned())),
            Some(t) => match deletable_collection(t.as_str()) {
                Ok(()) => Ok(t.clone()),
                Err(e) => Err(e),
            },
        }
    }

    /// The service and user of the specifier itself; no search is made.
    pub fn get_specifiers(&self) -> (r: Option<(String, String)>)
        ensures
            r matches Some(p) && p.0@ == self.service@ && p.1@ == self.user@,
    {
        Some((self.service.clone(), self.user.clone()))
    }
}

/// The service and user recorded in an item's attributes, where both are.
pub fn specifiers_in(attributes: &Vec<(String, String)>) -> (r: Option<(String, String)>)
    requires
        keys_distinct(pairs_view(attributes@)),
    ensures
        r is Some <==> (has_key(pairs_view(attributes@), "service"@) && has_key(pairs_view(attributes@), "username"@)),
        r matches Some(p) ==> (value_of(pairs_view(attributes@), "service"@) == Some(p.0@)
            && value_of(pairs_view(attributes@), "username"@) == Some(p.1@)),
{
    match get_value(attributes, "service") {
        Some(service) => match get_value(attributes, "username") {
            Some(user) => Some((service, user)),
            None => None,
        },
        None => None,
    }
}

} // verus!
