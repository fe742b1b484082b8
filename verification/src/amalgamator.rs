//! Merging discovered template files into one registry.
//!
//! Each discovered file contributes a list of named templates. The merge
//! applies the configured default engine to templates that name none and
//! rejects the second definition of any name with a duplicate-template
//! error. The caller reads the files beforehand and serializes the
//! resulting registry afterwards; no file handling happens here.

use vstd::prelude::*;

use crate::engines::{spec_engine_name, Engine};
use crate::errors::{Error, ErrorV};
use crate::registry::{Registry, Template, TemplateV};

verus! {

/// A template with the default engine applied where it names none.
pub open spec fn apply_default(t: TemplateV, d: Option<Engine>) -> TemplateV {
    match t.engine {
        Some(_) => t,
        None => match d {
            Some(e) => TemplateV { engine: Some(spec_engine_name(e)), ..t },
            None => t,
        },
    }
}

/// The models of one file's named templates.
pub open spec fn file_view(s: Seq<(String, Template)>) -> Seq<(Seq<char>, TemplateV)> {
    Seq::new(s.len(), |i: int| (s[i].0@, s[i].1@))
}

/// The models of a list of files.
pub open spec fn files_view(s: Seq<Vec<(String, Template)>>) -> Seq<Seq<(Seq<char>, TemplateV)>> {
    Seq::new(s.len(), |i: int| file_view(s[i]@))
}

/// What merging one file's entries into the accumulated registry yields:
/// the first name already present is a duplicate-template error.
pub open spec fn spec_merge_entries(
    es: Seq<(Seq<char>, TemplateV)>,
    d: Option<Engine>,
    acc: Map<Seq<char>, TemplateV>,
) -> Result<Map<Seq<char>, TemplateV>, ErrorV>
    decreases es,
{
    if es.len() == 0 {
        Ok(acc)
    } else if acc.contains_key(es[0].0) {
        Err(ErrorV::DuplicateTemplate(es[0].0))
    } else {
        spec_merge_entries(es.drop_first(), d, acc.insert(es[0].0, apply_default(es[0].1, d)))
    }
}

/// What merging all files yields, in order.
pub open spec fn spec_amalgamate_from(
    fs: Seq<Seq<(Seq<char>, TemplateV)>>,
    d: Option<Engine>,
    acc: Map<Seq<char>, TemplateV>,
) -> Result<Map<Seq<char>, TemplateV>, ErrorV>
    decreases fs,
{
    if fs.len() == 0 {
        Ok(acc)
    } else {
        match spec_merge_entries(fs[0], d, acc) {
            Err(e) => Err(e),
            Ok(acc2) => spec_amalgamate_from(fs.drop_first(), d, acc2),
        }
    }
}

/// What amalgamating a list of files into one registry yields.
pub open spec fn spec_amalgamate(
    fs: Seq<Seq<(Seq<char>, TemplateV)>>,
    d: Option<Engine>,
) -> Result<Map<Seq<char>, TemplateV>, ErrorV> {
    spec_amalgamate_from(fs, d, Map::empty())
}

/// Merges the named templates of the given files into one registry,
/// applying the default engine to templates that name none, and failing
/// with a duplicate-template error on the second definition of a name.
/// Every template record, its metadata included, is preserved as given.
#[verifier::loop_isolation(false)]
pub fn amalgamate_templates(files: Vec<Vec<(String, Template)>>, default_engine: Option<Engine>) -> (r: Result<
    Registry,
    Error,
>)
    ensures
        match r {
            Ok(reg) => spec_amalgamate(files_view(files@), default_engine) == Ok::<
                Map<Seq<char>, TemplateV>,
                ErrorV,
            >(reg@),
            Err(e) => spec_amalgamate(files_view(files@), default_engine) is Err && e@
                == spec_amalgamate(files_view(files@), default_engine)->Err_0,
        },
{
    let ghost fs0 = files_view(files@);
    let ghost d = default_engine;
    let mut files = files;
    let mut registry = Registry::new();
    while files.len() > 0
        invariant
            d == default_engine,
            spec_amalgamate(fs0, d) == spec_amalgamate_from(files_view(files@), d, registry@),
        decreases files@.len(),
    {
        let ghost fsb = files_view(files@);
        let mut file = files.remove(0);
        proof {
            assert(files_view(files@) =~= fsb.drop_first());
            assert(fsb[0] == file_view(file@));
        }
        while file.len() > 0
            invariant
                d == default_engine,
                match spec_merge_entries(file_view(file@), d, registry@) {
                    Err(e) => spec_amalgamate(fs0, d) == Err::<Map<Seq<char>, TemplateV>, ErrorV>(
                        e,
                    ),
                    Ok(m) => spec_amalgamate(fs0, d) == spec_amalgamate_from(
                        files_view(files@),
                        d,
                        m,
                    ),
                },
            decreases file@.len(),
        {
            let ghost evb = file_view(file@);
            let (name, t) = file.remove(0);
            proof {
                assert(file_view(file@) =~= evb.drop_first());
                assert(evb[0] == (name@, t@));
            }
            let applied: Template = match &t.engine {
                Some(_) => t,
                None => match &default_engine {
                    Some(e) => Template {
                        pattern: t.pattern,
                        engine: Some(e.as_str().to_owned()),
                        metadata: t.metadata,
                    },
                    None => t,
                },
            };
            proof {
                assert(applied@ == apply_default(evb[0].1, d));
            }
            match registry.insert(name, applied) {
                Ok(()) => {},
                Err(e) => {
                    proof {
                        assert(registry@.contains_key(evb[0].0));
                        assert(spec_merge_entries(evb, d, registry@) == Err::<
                            Map<Seq<char>, TemplateV>,
                            ErrorV,
                        >(ErrorV::DuplicateTemplate(evb[0].0)));
                    }
                    return Err(e);
                },
            }
        }
        proof {
            assert(file_view(file@) =~= Seq::<(Seq<char>, TemplateV)>::empty());
        }
    }
    proof {
        assert(files_view(files@) =~= Seq::<Seq<(Seq<char>, TemplateV)>>::empty());
    }
    Ok(registry)
}

} // verus!
