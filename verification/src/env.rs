//! The environment snapshot: an immutable set of named text variables that
//! resolution reads through a small number of named lookups. Callers build
//! the snapshot; the library never touches the process environment itself.

use crate::text::str_eq;
use vstd::prelude::*;

verus! {

/// A snapshot of named text variables, looked up by exact name. The first
/// binding of a name is the one that counts.
pub struct Env {
    vars: Vec<(String, String)>,
}

/// The value bound to `name`, if any.
pub open spec fn lookup_in(vars: Seq<(Seq<char>, Seq<char>)>, name: Seq<char>) -> Option<
    Seq<char>,
>
    decreases vars.len(),
{
    if vars.len() == 0 {
        None
    } else if vars[0].0 == name {
        Some(vars[0].1)
    } else {
        lookup_in(vars.skip(1), name)
    }
}

/// Lowercase-first lookup of a variable pair: the lowercase name wins; the
/// uppercase name is only a fallback.
pub open spec fn pair_in(
    vars: Seq<(Seq<char>, Seq<char>)>,
    lc: Seq<char>,
    uc: Seq<char>,
) -> Option<Seq<char>> {
    match lookup_in(vars, lc) {
        Some(v) => Some(v),
        None => lookup_in(vars, uc),
    }
}

impl View for Env {
    type V = Seq<(Seq<char>, Seq<char>)>;

    closed spec fn view(&self) -> Seq<(Seq<char>, Seq<char>)> {
        self.vars.deep_view()
    }
}

impl Env {
    /// A snapshot with no variables at all.
    pub fn empty() -> (e: Env)
        ensures
            e@ === Seq::<(Seq<char>, Seq<char>)>::empty(),
    {
        let e = Env { vars: Vec::new() };
        proof {
            assert(e@ =~= Seq::<(Seq<char>, Seq<char>)>::empty());
        }
        e
    }

    /// A snapshot holding the given name-to-value bindings.
    pub fn from_pairs(vars: Vec<(String, String)>) -> (e: Env)
        ensures
            e@ == vars.deep_view(),
    {
        Env { vars }
    }

    /// Look one variable up by its exact name.
    pub fn lookup(&self, name: &str) -> (r: Option<String>)
        ensures
            r.deep_view() == lookup_in(self@, name@),
    {
        let n = self.vars.len();
        proof {
            assert(self@.skip(0) =~= self@);
        }
        let mut i: usize = 0;
        while i < n
            invariant
                i <= n,
                n == self.vars@.len(),
                self@.len() == n,
                lookup_in(self@, name@) == lookup_in(self@.skip(i as int), name@),
            decreases n - i,
        {
            proof {
                assert(self@.skip(i as int)[0] == self@[i as int]);
                assert(self@[i as int] == (self.vars@[i as int].0@, self.vars@[i as int].1@));
            }
            if str_eq(self.vars[i].0.as_str(), name) {
                return Some(self.vars[i].1.clone());
            }
            proof {
                assert(self@.skip(i as int).skip(1) =~= self@.skip(i + 1));
            }
            i = i + 1;
        }
        proof {
            assert(self@.skip(n as int) =~= Seq::<(Seq<char>, Seq<char>)>::empty());
        }
        None
    }

    /// Look a lowercase/uppercase variable pair up; the lowercase name wins.
    pub fn lookup_pair(&self, lc: &str, uc: &str) -> (r: Option<String>)
        ensures
            r.deep_view() == pair_in(self@, lc@, uc@),
    {
        match self.lookup(lc) {
            Some(v) => Some(v),
            None => self.lookup(uc),
        }
    }
}

/// Law: in a variable pair the lowercase name takes precedence — while it is
/// bound, the pair resolves to its value and the uppercase binding is never
/// consulted; only when the lowercase name is unbound does the uppercase one
/// decide.
pub proof fn lemma_lowercase_precedence(
    vars: Seq<(Seq<char>, Seq<char>)>,
    lc: Seq<char>,
    uc: Seq<char>,
)
    ensures
        lookup_in(vars, lc) is Some ==> pair_in(vars, lc, uc) == lookup_in(vars, lc),
        lookup_in(vars, lc) is None ==> pair_in(vars, lc, uc) == lookup_in(vars, uc),
{
}

} // verus!
