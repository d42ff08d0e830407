//! The registry: the single-writer, many-reader table that maps an alias
//! name to its definition. A name is registered at most once; every later
//! application site resolves it here.
use vstd::prelude::*;

use crate::model::{AliasDef, DefModel, Error, ErrModel};

verus! {

/// The table of registered alias definitions, keyed by name.
pub struct Registry {
    defs: Vec<AliasDef>,
}

impl Registry {
    /// Whether some definition is registered under the name `n`.
    pub closed spec fn contains_name(self, n: Seq<char>) -> bool {
        exists|i: int| 0 <= i < self.defs@.len() && self.defs@[i].name@ == n
    }

    /// The definition registered under the name `n` (meaningful only when
    /// `contains_name(n)` holds).
    pub closed spec fn def_at(self, n: Seq<char>) -> DefModel {
        self.defs@[choose|i: int| 0 <= i < self.defs@.len() && self.defs@[i].name@ == n]@
    }

    /// Every registered definition is well formed, and no two are
    /// registered under the same name.
    pub closed spec fn wf(self) -> bool {
        &&& forall|i: int, j: int|
            0 <= i < j < self.defs@.len() ==> (#[trigger] self.defs@[i].name@) != (
            #[trigger] self.defs@[j].name@)
        &&& forall|i: int| 0 <= i < self.defs@.len() ==> (#[trigger] self.defs@[i])@.wf()
    }

    /// An empty registry: well formed, with nothing registered.
    pub fn new() -> (r: Registry)
        ensures
            r.wf(),
            forall|n: Seq<char>| !r.contains_name(n),
    {
        Registry { defs: Vec::new() }
    }

    /// The index at which `name` is registered, if it is.
    fn lookup(&self, name: &String) -> (r: Option<usize>)
        requires
            self.wf(),
        ensures
            match r {
                Some(i) => i < self.defs@.len() && self.defs@[i as int].name@ == name@
                    && self.contains_name(name@),
                None => !self.contains_name(name@),
            },
    {
        let n = self.defs.len();
        let mut i: usize = 0;
        while i < n
            invariant
                i <= n,
                n == self.defs@.len(),
                forall|j: int| 0 <= j < i ==> (#[trigger] self.defs@[j].name@) != name@,
            decreases n - i,
        {
            if self.defs[i].name == *name {
                return Some(i);
            }
            i += 1;
        }
        None
    }

    /// Registers `def` under its name. Fails, and leaves the registry as it
    /// was, exactly when the name is already taken.
    pub fn define(&mut self, def: AliasDef) -> (r: Result<(), Error>)
        requires
            old(self).wf(),
            def@.wf(),
        ensures
            final(self).wf(),
            match r {
                Ok(()) => {
                    &&& !old(self).contains_name(def@.name)
                    &&& final(self).contains_name(def@.name)
                    &&& final(self).def_at(def@.name) == def@
                    &&& forall|n: Seq<char>|
                        n != def@.name ==> (#[trigger] final(self).contains_name(n)) == old(
                            self).contains_name(n)
                    &&& forall|n: Seq<char>|
                        n != def@.name && old(self).contains_name(n) ==> (#[trigger] final(
                            self).def_at(n)) == old(self).def_at(n)
                },
                Err(e) => {
                    &&& old(self).contains_name(def@.name)
                    &&& *final(self) == *old(self)
                    &&& e@ == ErrModel::DuplicateAlias(def@.name)
                },
            },
    {
        match self.lookup(&def.name) {
            Some(_) => Err(Error::DuplicateAlias { name: def.name }),
            None => {
                let ghost olds = self.defs@;
                let ghost name = def.name@;
                self.defs.push(def);
                proof {
                    let news = self.defs@;
                    assert(news == olds.push(def));
                    assert(news[olds.len() as int] == def);
                    assert forall|i: int, j: int| 0 <= i < j < news.len() implies (
                    #[trigger] news[i].name@) != (#[trigger] news[j].name@) by {
                        if j < olds.len() {
                            assert(olds[i].name@ != olds[j].name@);
                        } else {
                            assert(news[j] == def);
                            assert(news[i] == olds[i]);
                            assert(olds[i].name@ != name) by {
                                if olds[i].name@ == name {
                                    assert(old(self).contains_name(name));
                                }
                            }
                        }
                    }
                    assert(self.contains_name(name)) by {
                        assert(news[olds.len() as int].name@ == name);
                    }
                    assert(self.def_at(name) == def@) by {
                        let k = choose|i: int| 0 <= i < news.len() && news[i].name@ == name;
                        if k < olds.len() {
                            assert(olds[k].name@ == name);
                            assert(old(self).contains_name(name));
                        }
                    }
                    assert forall|n: Seq<char>|
                        n != name implies (#[trigger] self.contains_name(n)) == old(
                        self).contains_name(n) by {
                        if self.contains_name(n) {
                            let k = choose|i: int| 0 <= i < news.len() && news[i].name@ == n;
                            assert(k < olds.len());
                            assert(olds[k].name@ == n);
                        }
                        if old(self).contains_name(n) {
                            let k = choose|i: int| 0 <= i < olds.len() && olds[i].name@ == n;
                            assert(news[k].name@ == n);
                        }
                    }
                    assert forall|n: Seq<char>|
                        n != name && old(self).contains_name(n) implies (#[trigger] self.def_at(n))
                        == old(self).def_at(n) by {
                        let k1 = choose|i: int| 0 <= i < olds.len() && olds[i].name@ == n;
                        let k2 = choose|i: int| 0 <= i < news.len() && news[i].name@ == n;
                        assert(news[k1].name@ == n);
                        assert(k2 < olds.len());
                        assert(olds[k2].name@ == n);
                        if k1 < k2 {
                            assert(olds[k1].name@ != olds[k2].name@);
                        }
                        if k2 < k1 {
                            assert(olds[k2].name@ != olds[k1].name@);
                        }
                    }
                }
                Ok(())
            },
        }
    }

    /// Resolves `name` to a copy of its registered definition. Fails exactly
    /// when no definition is registered under that name, with an error that
    /// carries the unresolved name.
    pub fn resolve(&self, name: &String) -> (r: Result<AliasDef, Error>)
        requires
            self.wf(),
        ensures
            match r {
                Ok(d) => {
                    &&& self.contains_name(name@)
                    &&& d@ == self.def_at(name@)
                    &&& d@.wf()
                },
                Err(e) => {
                    &&& !self.contains_name(name@)
                    &&& e@ == ErrModel::UnknownAlias(name@)
                },
            },
    {
        match self.lookup(name) {
            Some(i) => {
                let d = self.defs[i].clone();
                proof {
                    let k = choose|k: int|
                        0 <= k < self.defs@.len() && self.defs@[k].name@ == name@;
                    if k < i as int {
                        assert(self.defs@[k].name@ != self.defs@[i as int].name@);
                    }
                    if (i as int) < k {
                        assert(self.defs@[i as int].name@ != self.defs@[k].name@);
                    }
                }
                Ok(d)
            },
            None => Err(Error::UnknownAlias { name: name.clone() }),
        }
    }
}

} // verus!
