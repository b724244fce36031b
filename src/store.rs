//! The store: it builds specifiers from an identity and its modifiers.
use vstd::prelude::*;

use crate::attrs::{has_key, has_pair, keys_distinct, pairs_view, value_of, get_value, lemma_same_pairs_same_value};
use crate::cred::{Specifier, default_label, opt_view};
use crate::errors::StoreError;

verus! {

/// Whether `k` is a modifier that the store recognises.
pub open spec fn is_modifier(k: Seq<char>) -> bool {
    k == "target"@ || k == "label"@
}

/// Whether `allowed` holds `k`.
pub open spec fn allows(allowed: Seq<String>, k: Seq<char>) -> bool {
    exists|i: int| 0 <= i < allowed.len() && #[trigger] allowed[i]@ == k
}

/// Relies on keyring_core::attributes::parse_attributes: where no allowed key
/// starts with `*` or `+`, it accepts the map exactly when each of its keys is
/// allowed and then returns the same pairs, and otherwise names a key that is
/// not, with the message `unknown key`.
#[verifier::external_body]
fn parse_modifiers(allowed: &Vec<String>, mods: &Vec<(String, String)>) -> (r: Result<Vec<(String, String)>, StoreError>)
    requires
        forall|i: int| 0 <= i < allowed@.len() ==> (#[trigger] allowed@[i])@.len() > 0
            && allowed@[i]@[0] != '*' && allowed@[i]@[0] != '+',
        keys_distinct(pairs_view(mods@)),
    ensures
        r is Ok <==> forall|i: int| 0 <= i < mods@.len() ==> allows(allowed@, #[trigger] mods@[i].0@),
        r matches Ok(v) ==> keys_distinct(pairs_view(v@)),
        r matches Ok(v) ==> forall|k: Seq<char>, x: Seq<char>| #[trigger] has_pair(pairs_view(v@), k, x)
            <==> has_pair(pairs_view(mods@), k, x),
        r matches Err(e) ==> (e matches StoreError::Invalid(k, m) && has_key(pairs_view(mods@), k@)
            && !allows(allowed@, k@) && m@ == "unknown key"@),
{
    let keys: Vec<&str> = allowed.iter().map(|k| k.as_str()).collect();
    let map: std::collections::HashMap<&str, &str> = mods.iter().map(|p| (p.0.as_str(), p.1.as_str())).collect();
    match keyring_core::attributes::parse_attributes(&keys, Some(&map)) {
        Ok(m) => Ok(m.into_iter().collect()),
        Err(keyring_core::Error::Invalid(k, m)) => Err(StoreError::Invalid(k, m)),
        Err(e) => Err(StoreError::PlatformFailure(e.to_string())),
    }
}

/// The modifiers as text; none given is the same as an empty map.
pub open spec fn mods_view(modifiers: Option<&Vec<(String, String)>>) -> Seq<(Seq<char>, Seq<char>)> {
    match modifiers {
        Some(m) => pairs_view(m@),
        None => Seq::empty(),
    }
}

/// Whether `v` is the empty text, where there is a value.
pub open spec fn is_empty_value(v: Option<Seq<char>>) -> bool {
    v matches Some(x) && x.len() == 0
}

/// The secret service credential store.
#[derive(Debug, Clone)]
pub struct Store {
    pub id: String,
}

impl Store {
    /// A store known by `id`.
    pub fn new(id: String) -> (r: Store)
        ensures
            r.id@ == id@,
    {
        Store { id }
    }

    /// A store with the given configuration: the store takes none, so any
    /// configuration at all is refused.
    pub fn new_with_configuration(config: &Vec<(String, String)>, id: String) -> (r: Result<Store, StoreError>)
        ensures
            config@.len() == 0 <==> r is Ok,
            r matches Ok(s) ==> s.id@ == id@,
            r matches Err(e) ==> e is NotSupportedByStore,
    {
        if config.len() != 0 {
            return Err(StoreError::NotSupportedByStore(
                "Secret Service configuration is not supported".to_owned(),
            ));
        }
        Ok(Store::new(id))
    }

    /// What kind of store this is.
    pub fn vendor(&self) -> (r: String)
        ensures
            r@ == "Secret Service store, https://crates.io/crates/zbus-secret-service-keyring-store"@,
    {
        "Secret Service store, https://crates.io/crates/zbus-secret-service-keyring-store".to_owned()
    }

    /// The store's instance id.
    pub fn id(&self) -> (r: String)
        ensures
            r@ == self.id@,
    {
        self.id.clone()
    }

    /// Build the specifier for `user` at `service`. The modifiers `target`
    /// and `label` are recognised; any other key is refused, and so is an
    /// empty label or target.
    pub fn build(&self, service: &str, user: &str, modifiers: Option<&Vec<(String, String)>>) -> (r: Result<Specifier, StoreError>)
        requires
            keys_distinct(mods_view(modifiers)),
        ensures
            ({
                let m = mods_view(modifiers);
                if exists|i: int| 0 <= i < m.len() && !is_modifier(#[trigger] m[i].0) {
                    r matches Err(e) && (e matches StoreError::Invalid(k, msg) && has_key(m, k@)
                        && !is_modifier(k@) && msg@ == "unknown key"@)
                } else if is_empty_value(value_of(m, "label"@)) {
                    r matches Err(e) && (e matches StoreError::Invalid(k, msg) && k@ == "label"@
                        && msg@ == "cannot be empty"@)
                } else if is_empty_value(value_of(m, "target"@)) {
                    r matches Err(e) && (e matches StoreError::Invalid(k, msg) && k@ == "target"@
                        && msg@ == "cannot be empty"@)
                } else {
                    r matches Ok(s) && s.service@ == service@ && s.user@ == user@
                        && opt_view(s.target) == value_of(m, "target"@)
                        && s.label@ == match value_of(m, "label"@) {
                            Some(l) => l,
                            None => default_label(service@, user@),
                        }
                }
            }),
    {
        let ghost m = mods_view(modifiers);
        let parsed = match modifiers {
            Some(mods) => {
                let mut allowed: Vec<String> = Vec::new();
                allowed.push("target".to_owned());
                allowed.push("label".to_owned());
                proof {
                    reveal_strlit("target");
                    reveal_strlit("label");
                    assert forall|k: Seq<char>| allows(allowed@, k) <==> is_modifier(k) by {
                        if k == "target"@ {
                            assert(allowed@[0]@ == k);
                        }
                        if k == "label"@ {
                            assert(allowed@[1]@ == k);
                        }
                    }
                }
                match parse_modifiers(&allowed, mods) {
                    Ok(v) => v,
                    Err(e) => {
                        proof {
                            let i = choose|i: int| 0 <= i < mods@.len() && !allows(allowed@, #[trigger] mods@[i].0@);
                            assert(!is_modifier(m[i].0));
                        }
                        return Err(e);
                    },
                }
            },
            None => Vec::new(),
        };
        proof {
            assert forall|i: int| 0 <= i < m.len() implies is_modifier(#[trigger] m[i].0) by {
                if let Some(mods) = modifiers {
                    assert(m[i].0 == mods@[i].0@);
                }
            }
            assert forall|k: Seq<char>, x: Seq<char>| #[trigger] has_pair(pairs_view(parsed@), k, x)
                <==> has_pair(m, k, x) by {
                if modifiers is None {
                    assert(pairs_view(parsed@).len() == 0);
                }
            }
            lemma_same_pairs_same_value(pairs_view(parsed@), m, "label"@);
            lemma_same_pairs_same_value(pairs_view(parsed@), m, "target"@);
        }
        let label = get_value(&parsed, "label");
        let target = get_value(&parsed, "target");
        match &label {
            Some(l) => {
                if l.as_str().is_empty() {
                    return Err(StoreError::Invalid("label".to_owned(), "cannot be empty".to_owned()));
                }
            },
            None => {},
        }
        match &target {
            Some(t) => {
                if t.as_str().is_empty() {
                    return Err(crate::errors::empty_target());
                }
            },
            None => {},
        }
        let label_ref: Option<&str> = match &label {
            Some(l) => Some(l.as_str()),
            None => None,
        };
        let target_ref: Option<&str> = match &target {
            Some(t) => Some(t.as_str()),
            None => None,
        };
        Ok(Specifier::new(label_ref, target_ref, service, user))
    }
}

} // verus!
