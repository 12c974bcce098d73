//! The secret mapping that templates are filled from.

use crate::json::{json_string_map, lists_entries, parse_string_map};
use vstd::hash_map::StringHashMap;
use vstd::prelude::*;

verus! {

/// A set of named secrets: each name occurs at most once and carries one
/// value. Its view is the mapping from names to values.
pub struct SecretMap {
    entries: StringHashMap<String>,
}

impl View for SecretMap {
    type V = Map<Seq<char>, Seq<char>>;

    closed spec fn view(&self) -> Map<Seq<char>, Seq<char>> {
        Map::new(
            |name: Seq<char>| self.entries@.contains_key(name),
            |name: Seq<char>| self.entries@[name]@,
        )
    }
}

impl SecretMap {
    /// A mapping without any secret.
    pub fn new() -> (secrets: SecretMap)
        ensures
            secrets@ == Map::<Seq<char>, Seq<char>>::empty(),
    {
        let secrets = SecretMap { entries: StringHashMap::new() };
        assert(secrets@ =~= Map::<Seq<char>, Seq<char>>::empty());
        secrets
    }

    /// Sets the value of `name`, replacing the value it had, if any.
    pub fn insert(&mut self, name: String, value: String)
        ensures
            final(self)@ == old(self)@.insert(name@, value@),
    {
        let ghost before = self@;
        let ghost key = name@;
        let ghost val = value@;
        self.entries.insert(name, value);
        assert(self@ =~= before.insert(key, val));
    }

    /// The value of `name`, if the mapping has one.
    pub fn get(&self, name: &str) -> (value: Option<&String>)
        ensures
            match value {
                Some(v) => self@.contains_key(name@) && v@ == self@[name@],
                None => !self@.contains_key(name@),
            },
    {
        self.entries.get(name)
    }

    /// Whether the mapping has a value for `name`.
    pub fn contains_key(&self, name: &str) -> (found: bool)
        ensures
            found == self@.contains_key(name@),
    {
        self.entries.contains_key(name)
    }

    /// Forgets `name`; a mapping without it stays as it is.
    pub fn remove(&mut self, name: &str)
        ensures
            final(self)@ == old(self)@.remove(name@),
    {
        let ghost before = self@;
        self.entries.remove(name);
        assert(self@ =~= before.remove(name@));
    }
}

/// Reads the content of the secret store: a JSON object whose members are
/// the secrets, each a string. Any other content is refused with the
/// reason.
pub fn decode_secrets(content: &str) -> (result: Result<SecretMap, String>)
    ensures
        match result {
            Ok(secrets) => json_string_map(content@) matches Ok(map) && map == secrets@,
            Err(reason) => json_string_map(content@) matches Err(message) && message == reason@,
        },
{
    let pairs = match parse_string_map(content) {
        Ok(pairs) => pairs,
        Err(reason) => {
            return Err(reason);
        },
    };
    let ghost map = json_string_map(content@)->Ok_0;
    let mut secrets = SecretMap::new();
    let mut i: usize = 0;
    while i < pairs.len()
        invariant
            i <= pairs.len(),
            lists_entries(pairs@, map),
            forall|name: Seq<char>| #[trigger]
                secrets@.contains_key(name) ==> map.contains_key(name) && secrets@[name]
                    == map[name],
            forall|j: int| 0 <= j < i ==> secrets@.contains_key((#[trigger] pairs@[j]).0@),
        decreases pairs.len() - i,
    {
        let name = pairs[i].0.clone();
        let value = pairs[i].1.clone();
        secrets.insert(name, value);
        i += 1;
    }
    assert(secrets@ =~= map) by {
        assert forall|name: Seq<char>| map.contains_key(name) implies secrets@.contains_key(
            name,
        ) by {
            let j = choose|j: int| 0 <= j < pairs@.len() && (#[trigger] pairs@[j]).0@ == name;
            assert(secrets@.contains_key(pairs@[j].0@));
        }
    }
    Ok(secrets)
}

} // verus!
