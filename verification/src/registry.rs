//! Templates and the registry they are resolved against.
//!
//! A registry maps template names to template records. It is built once —
//! by the build-time amalgamation step — and only read afterwards;
//! resolution never writes to it.

use vstd::prelude::*;

use crate::errors::{Error, ErrorV};
use crate::text::str_eq;

verus! {

/// `toml::Value` carries a template's free-form metadata. The engine
/// preserves metadata but never reads into it, so the type stays opaque.
#[verifier::external_type_specification]
#[verifier::external_body]
pub struct ExTomlValue(toml::Value);

/// A template record: a pattern, an optional engine identifier, and
/// free-form metadata fields, preserved but unused by the engine.
#[derive(Debug, PartialEq)]
pub struct Template {
    pub pattern: String,
    pub engine: Option<String>,
    pub metadata: Vec<(String, toml::Value)>,
}

/// The model of a template record.
pub struct TemplateV {
    pub pattern: Seq<char>,
    pub engine: Option<Seq<char>>,
    pub metadata: Seq<(Seq<char>, toml::Value)>,
}

impl View for Template {
    type V = TemplateV;

    open spec fn view(&self) -> TemplateV {
        TemplateV {
            pattern: self.pattern@,
            engine: match self.engine {
                Some(e) => Some(e@),
                None => None,
            },
            metadata: Seq::new(self.metadata@.len(), |i: int| (self.metadata@[i].0@, self.metadata@[i].1)),
        }
    }
}

/// The map described by a sequence of named templates, later entries
/// winning.
pub open spec fn registry_map(s: Seq<(String, Template)>) -> Map<Seq<char>, TemplateV>
    decreases s,
{
    if s.len() == 0 {
        Map::empty()
    } else {
        registry_map(s.drop_last()).insert(s.last().0@, s.last().1@)
    }
}

proof fn lemma_registry_map_last_match(s: Seq<(String, Template)>, i: int, k: Seq<char>)
    requires
        0 <= i < s.len(),
        s[i].0@ == k,
        forall|j: int| i < j < s.len() ==> s[j].0@ != k,
    ensures
        registry_map(s).contains_key(k),
        registry_map(s)[k] == s[i].1@,
    decreases s,
{
    if i == s.len() - 1 {
    } else {
        lemma_registry_map_last_match(s.drop_last(), i, k);
    }
}

proof fn lemma_registry_map_no_match(s: Seq<(String, Template)>, k: Seq<char>)
    requires
        forall|j: int| 0 <= j < s.len() ==> s[j].0@ != k,
    ensures
        !registry_map(s).contains_key(k),
    decreases s,
{
    if s.len() > 0 {
        lemma_registry_map_no_match(s.drop_last(), k);
    }
}

/// A read-only mapping from template names to template records.
#[derive(Debug)]
pub struct Registry {
    entries: Vec<(String, Template)>,
}

impl View for Registry {
    type V = Map<Seq<char>, TemplateV>;

    closed spec fn view(&self) -> Map<Seq<char>, TemplateV> {
        registry_map(self.entries@)
    }
}

impl Registry {
    /// An empty registry.
    pub fn new() -> (r: Registry)
        ensures
            r@ == Map::<Seq<char>, TemplateV>::empty(),
    {
        Registry { entries: Vec::new() }
    }

    /// The template registered under `name`, if any.
    pub fn get(&self, name: &str) -> (r: Option<&Template>)
        ensures
            match r {
                Some(t) => self@.contains_key(name@) && t@ == self@[name@],
                None => !self@.contains_key(name@),
            },
    {
        let n = self.entries.len();
        let mut i: usize = n;
        while i > 0
            invariant
                i <= n,
                n == self.entries@.len(),
                forall|j: int| i <= j < n ==> self.entries@[j].0@ != name@,
            decreases i,
        {
            i = i - 1;
            if str_eq(self.entries[i].0.as_str(), name) {
                proof {
                    lemma_registry_map_last_match(self.entries@, i as int, name@);
                }
                return Some(&self.entries[i].1);
            }
        }
        proof {
            lemma_registry_map_no_match(self.entries@, name@);
        }
        None
    }

    /// Whether a template is registered under `name`.
    pub fn contains(&self, name: &str) -> (r: bool)
        ensures
            r == self@.contains_key(name@),
    {
        self.get(name).is_some()
    }

    /// Registers a template under a name not registered before; a second
    /// definition of one name is a duplicate-template error and leaves the
    /// registry unchanged.
    pub fn insert(&mut self, name: String, template: Template) -> (r: Result<(), Error>)
        ensures
            match r {
                Ok(()) => !old(self)@.contains_key(name@) && final(self)@ == old(self)@.insert(
                    name@,
                    template@,
                ),
                Err(e) => old(self)@.contains_key(name@) && final(self)@ == old(self)@ && e@
                    == ErrorV::DuplicateTemplate(name@),
            },
    {
        if self.contains(name.as_str()) {
            Err(Error::DuplicateTemplate(name))
        } else {
            self.entries.push((name, template));
            proof {
                assert(self.entries@.drop_last() =~= old(self).entries@);
            }
            Ok(())
        }
    }

    /// The registered templates, in registration order.
    pub fn entries(&self) -> (r: &Vec<(String, Template)>)
        ensures
            registry_map(r@) == self@,
    {
        &self.entries
    }
}

} // verus!
