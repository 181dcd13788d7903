//! The definition registry: an ordered list of resolvers mapping free
//! names to their definition terms, consulted by the delta-expander.

use vstd::prelude::*;

use crate::evaluation::church_booleans::{church_boolean_for_var, spec_boolean_for_var};
use crate::evaluation::church_numerals::{church_numeral_for_var, spec_numeral_for_var};
use crate::evaluation::model::{SpecTerm, SpecVar};
use crate::evaluation::{Term, Variable};

verus! {

/// One resolver of the registry.
#[derive(Debug)]
pub enum Definition {
    /// User-written names that are decimal numbers resolve to Church
    /// numerals.
    ChurchNumerals,
    /// The user-written names `True` and `False` resolve to Church
    /// booleans.
    ChurchBooleans,
    /// A user-supplied definition: the given name resolves to the given
    /// term.
    Named { name: String, term: Term },
}

/// The mathematical value of a resolver.
pub enum SpecDef {
    Numerals,
    Booleans,
    Named(Seq<char>, SpecTerm),
}

impl View for Definition {
    type V = SpecDef;

    open spec fn view(&self) -> SpecDef {
        match self {
            Definition::ChurchNumerals => SpecDef::Numerals,
            Definition::ChurchBooleans => SpecDef::Booleans,
            Definition::Named { name, term } => SpecDef::Named(name@, term@),
        }
    }
}

/// What a single resolver gives for a free variable.
pub open spec fn spec_resolve_one(d: SpecDef, v: SpecVar) -> Option<SpecTerm> {
    match d {
        SpecDef::Numerals => spec_numeral_for_var(v),
        SpecDef::Booleans => spec_boolean_for_var(v),
        SpecDef::Named(name, term) => if v.dis == 0 && v.name == name {
            Some(term)
        } else {
            None
        },
    }
}

/// What an ordered registry gives for a free variable: the first resolver
/// that returns a term wins.
pub open spec fn spec_resolve(defs: Seq<SpecDef>, v: SpecVar) -> Option<SpecTerm>
    decreases defs.len(),
{
    if defs.len() == 0 {
        None
    } else {
        match spec_resolve_one(defs[0], v) {
            Some(t) => Some(t),
            None => spec_resolve(defs.drop_first(), v),
        }
    }
}

/// The evaluation options: the ordered definition registry.
#[derive(Debug)]
pub struct Options {
    pub definitions: Vec<Definition>,
}

impl View for Options {
    type V = Seq<SpecDef>;

    open spec fn view(&self) -> Seq<SpecDef> {
        self.definitions@.map_values(|d: Definition| d@)
    }
}

impl Default for Options {
    fn default() -> (o: Options)
        ensures
            o@ == Seq::<SpecDef>::empty(),
    {
        let o = Options { definitions: Vec::new() };
        proof {
            assert(o@ =~= Seq::<SpecDef>::empty());
        }
        o
    }
}

impl Options {
    /// Appends the built-in Church resolvers: numerals, then booleans.
    pub fn add_church_encoding(self) -> (o: Options)
        ensures
            o@ == self@.push(SpecDef::Numerals).push(SpecDef::Booleans),
    {
        let mut definitions = self.definitions;
        let ghost before = definitions@;
        definitions.push(Definition::ChurchNumerals);
        definitions.push(Definition::ChurchBooleans);
        let o = Options { definitions };
        proof {
            assert(o@ =~= before.map_values(|d: Definition| d@).push(SpecDef::Numerals).push(
                SpecDef::Booleans,
            ));
        }
        o
    }

    /// Appends a user-supplied definition mapping a name to a term.
    pub fn add_definitions(self, name: String, term: Term) -> (o: Options)
        ensures
            o@ == self@.push(SpecDef::Named(name@, term@)),
    {
        let mut definitions = self.definitions;
        let ghost before = definitions@;
        let ghost named = SpecDef::Named(name@, term@);
        definitions.push(Definition::Named { name, term });
        let o = Options { definitions };
        proof {
            assert(o@ =~= before.map_values(|d: Definition| d@).push(named));
        }
        o
    }

    /// Resolves a free variable against the registry, first match winning.
    pub fn resolve(&self, var: &Variable) -> (r: Option<Term>)
        ensures
            match r {
                Some(t) => spec_resolve(self@, var@) == Some(t@),
                None => spec_resolve(self@, var@) is None,
            },
    {
        let mut i: usize = 0;
        proof {
            assert(self@.skip(0) =~= self@);
        }
        while i < self.definitions.len()
            invariant
                i <= self.definitions@.len(),
                spec_resolve(self@, var@) == spec_resolve(self@.skip(i as int), var@),
            decreases self.definitions@.len() - i,
        {
            proof {
                assert(self@[i as int] == self.definitions@[i as int]@);
            }
            let found: Option<Term> = match &self.definitions[i] {
                Definition::ChurchNumerals => church_numeral_for_var(var),
                Definition::ChurchBooleans => church_boolean_for_var(var),
                Definition::Named { name, term } => {
                    if var.disambiguator == 0 && var.name == *name {
                        Some(term.clone())
                    } else {
                        None
                    }
                },
            };
            proof {
                assert(self@.skip(i as int)[0] == self@[i as int]);
                assert(self@.skip(i as int).drop_first() =~= self@.skip(i + 1));
            }
            match found {
                Some(t) => {
                    return Some(t);
                },
                None => {
                    i += 1;
                },
            }
        }
        proof {
            assert(self@.skip(i as int).len() == 0);
        }
        None
    }
}

} // verus!
