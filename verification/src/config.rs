//! The user configuration: an ordered map of settings with a guaranteed
//! display theme, parsed from YAML text. Reading and writing the file is
//! the caller's I/O; parsing and the defaulting rules are here.

use vstd::prelude::*;

use crate::dict::Dict;
use crate::dict::lemma_lookup_some_position;
use crate::dict::lookup;
use crate::error::ApixError;

verus! {

/// The string map a YAML text spells, in document order; nothing where the
/// text is not such a map. A function of the text alone.
pub uninterp spec fn yaml_string_pairs(s: Seq<char>) -> Option<Seq<(Seq<char>, Seq<char>)>>;

/// Relies on serde_yaml::from_str, deserializing into an ordered map of
/// strings; the outcome depends on the text alone.
#[verifier::external_body]
fn parse_yaml_string_map(s: &str) -> (r: Option<Vec<(String, String)>>)
    ensures
        r is Some <==> yaml_string_pairs(s@) is Some,
        r matches Some(v) ==> yaml_string_pairs(s@) == Some(
            v@.map_values(|e: (String, String)| (e.0@, e.1@)),
        ),
{
    match serde_yaml::from_str::<indexmap::IndexMap<String, String>>(s) {
        Ok(m) => Some(m.into_iter().collect()),
        Err(_) => None,
    }
}

/// The user configuration entries.
#[derive(Debug)]
pub struct ApixConfig {
    index: Dict,
}

impl ApixConfig {
    /// The entries, for display and for writing the file back out.
    pub fn entries(&self) -> (r: &Dict)
        ensures
            r@ == self.view_pairs(),
    {
        &self.index
    }

    /// The configuration's entry sequence.
    pub closed spec fn view_pairs(&self) -> Seq<(Seq<char>, Seq<char>)> {
        self.index@
    }

    /// The configured value under `key`.
    pub fn get(&self, key: &str) -> (r: Option<&String>)
        ensures
            r is Some <==> lookup(self.view_pairs(), key@) is Some,
            r matches Some(v) ==> lookup(self.view_pairs(), key@) == Some(v@),
    {
        self.index.get(key)
    }

    /// Sets `key` to `value`, returning the replaced value.
    pub fn set(&mut self, key: String, value: String) -> (r: Option<String>)
        ensures
            lookup(final(self).view_pairs(), key@) == Some(value@),
            forall|k2: Seq<char>|
                k2 != key@ ==> lookup(final(self).view_pairs(), k2) == lookup(
                    old(self).view_pairs(),
                    k2,
                ),
            r is Some <==> lookup(old(self).view_pairs(), key@) is Some,
            r matches Some(v) ==> lookup(old(self).view_pairs(), key@) == Some(v@),
    {
        self.index.insert(key, value)
    }

    /// Removes `key`, taking out the first entry holding it and keeping
    /// the order of the rest; returns the removed value.
    pub fn delete(&mut self, key: &str) -> (r: Option<String>)
        ensures
            r is Some <==> lookup(old(self).view_pairs(), key@) is Some,
            r matches Some(v) ==> lookup(old(self).view_pairs(), key@) == Some(v@),
            r is None ==> final(self).view_pairs() == old(self).view_pairs(),
            r is Some ==> exists|i: int|
                {
                    &&& 0 <= i < old(self).view_pairs().len()
                    &&& (#[trigger] old(self).view_pairs()[i]).0 == key@
                    &&& (forall|j: int| 0 <= j < i ==> old(self).view_pairs()[j].0 != key@)
                    &&& final(self).view_pairs() == old(self).view_pairs().remove(i)
                },
    {
        self.index.remove(key)
    }

    /// Fills in the entries that must always exist: the default display
    /// theme.
    fn set_defaults(&mut self)
        ensures
            lookup(old(self).view_pairs(), "theme"@) is Some ==> final(self).view_pairs() == old(
                self,
            ).view_pairs(),
            lookup(old(self).view_pairs(), "theme"@) is None ==> final(self).view_pairs() == old(
                self,
            ).view_pairs().push(("theme"@, "Coldark-Dark"@)),
    {
        if self.index.get("theme").is_none() {
            proof {
                lemma_lookup_some_position(self.index@, "theme"@);
                assert forall|i: int|
                    0 <= i < crate::dict::key_seq(self.index@).len() implies crate::dict::key_seq(
                    self.index@,
                )[i] != "theme"@ by {
                    assert(crate::dict::key_seq(self.index@)[i] == self.index@[i].0);
                }
            }
            self.index.insert(String::from_str("theme"), String::from_str("Coldark-Dark"));
        }
    }

    /// Reads a configuration from YAML text: empty text is the default
    /// configuration; a YAML string map is taken as the entries, with the
    /// default theme filled in when missing; anything else is rejected.
    pub fn load_from_string(content: &str) -> (r: Result<ApixConfig, ApixError>)
        ensures
            content@.len() == 0 ==> (r matches Ok(c) && c.view_pairs() == Seq::<
                (Seq<char>, Seq<char>),
            >::empty().push(("theme"@, "Coldark-Dark"@))),
            content@.len() > 0 ==> ((r is Ok) <==> yaml_string_pairs(content@) is Some),
            r matches Ok(c) ==> (content@.len() > 0 ==> (yaml_string_pairs(content@) matches Some(
                ps,
            ) && (if lookup(ps, "theme"@) is Some {
                c.view_pairs() == ps
            } else {
                c.view_pairs() == ps.push(("theme"@, "Coldark-Dark"@))
            }))),
            r matches Err(e) ==> e is Serialization,
    {
        if content.unicode_len() == 0 {
            return Ok(ApixConfig::default());
        }
        match parse_yaml_string_map(content) {
            Some(pairs) => {
                let mut index = Dict::new();
                let n = pairs.len();
                let mut i: usize = 0;
                proof {
                    assert(index@ =~= pairs@.map_values(|e: (String, String)| (e.0@, e.1@))
                        .subrange(0, 0));
                }
                while i < n
                    invariant
                        n == pairs@.len(),
                        0 <= i <= n,
                        index@ == pairs@.map_values(|e: (String, String)| (e.0@, e.1@)).subrange(
                            0,
                            i as int,
                        ),
                    decreases n - i,
                {
                    let pair = &pairs[i];
                    index.append_entry(pair.0.clone(), pair.1.clone());
                    proof {
                        assert(index@ =~= pairs@.map_values(|e: (String, String)| (e.0@, e.1@))
                            .subrange(0, i + 1));
                    }
                    i = i + 1;
                }
                proof {
                    let ps = pairs@.map_values(|e: (String, String)| (e.0@, e.1@));
                    assert(ps.subrange(0, n as int) =~= ps);
                }
                let mut config = ApixConfig { index };
                config.set_defaults();
                Ok(config)
            },
            None => Err(
                ApixError::Serialization(String::from_str("Could not parse config from string")),
            ),
        }
    }
}

impl Default for ApixConfig {
    /// An empty configuration with the default theme.
    fn default() -> (r: Self)
        ensures
            r.view_pairs() == Seq::<(Seq<char>, Seq<char>)>::empty().push(
                ("theme"@, "Coldark-Dark"@),
            ),
    {
        let mut c = ApixConfig { index: Dict::new() };
        c.set_defaults();
        c
    }
}

} // verus!
