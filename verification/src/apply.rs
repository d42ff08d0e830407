//! Applying aliases: building definitions and targets from their parts, and
//! splicing one or more resolved definitions into a target declaration.
use vstd::prelude::*;

use crate::model::{
    check_ident, is_ident, kind_supported, merge, AliasDef, DefModel, Error, ErrModel,
    GenericParam, ItemKind, ItemModel, TargetItem,
};
use crate::parse::{comma_split, lemma_comma_split_nonempty, parse_alias_list};
use crate::registry::Registry;

verus! {

/// The predicates a where-clause carries: none when the clause is absent.
pub open spec fn clause_predicates(w: Option<Vec<String>>) -> Seq<String> {
    match w {
        Some(p) => p@,
        None => Seq::empty(),
    }
}

impl AliasDef {
    /// Builds an alias definition from a name, a parameter list and an
    /// optional where-clause. Fails exactly when the name is not an
    /// identifier: a malformed definition is never registered in part.
    pub fn new(name: String, params: Vec<GenericParam>, where_clause: Option<Vec<String>>) -> (r:
        Result<AliasDef, Error>)
        ensures
            match r {
                Ok(d) => {
                    &&& is_ident(name@)
                    &&& d@ == (DefModel {
                        name: name@,
                        params: params@,
                        has_where: where_clause is Some,
                        predicates: clause_predicates(where_clause),
                    })
                    &&& d@.wf()
                },
                Err(e) => {
                    &&& !is_ident(name@)
                    &&& e@ == ErrModel::InvalidAliasName(name@)
                },
            },
    {
        if !check_ident(name.as_str()) {
            return Err(Error::InvalidAliasName { text: name });
        }
        let d = match where_clause {
            Some(p) => AliasDef { name, params, has_where: true, predicates: p },
            None => AliasDef { name, params, has_where: false, predicates: Vec::new() },
        };
        Ok(d)
    }
}

impl TargetItem {
    /// Builds a target declaration from its kind, its own parameter list and
    /// its own (possibly absent) where-clause.
    pub fn new(kind: ItemKind, params: Vec<GenericParam>, where_clause: Option<Vec<String>>) -> (t:
        TargetItem)
        ensures
            t@ == (ItemModel {
                kind: kind,
                params: params@,
                has_where: where_clause is Some,
                predicates: clause_predicates(where_clause),
            }),
            t@.wf(),
    {
        match where_clause {
            Some(p) => TargetItem { kind, params, has_where: true, predicates: p },
            None => TargetItem { kind, params, has_where: false, predicates: Vec::new() },
        }
    }
}

/// Applies the alias registered under `name` to `item`: resolves the name
/// and merges the definition's parameters and predicates after the item's
/// own. Fails with the unresolved name when the name is not registered, and
/// with the item's kind when that kind is outside the supported set; an
/// unresolved name is reported before an unsupported kind.
pub fn apply_alias(reg: &Registry, name: &String, item: TargetItem) -> (r: Result<
    TargetItem,
    Error,
>)
    requires
        reg.wf(),
        item@.wf(),
    ensures
        match r {
            Ok(out) => {
                &&& reg.contains_name(name@)
                &&& kind_supported(item.kind)
                &&& out@ == merge(item@, reg.def_at(name@))
                &&& out@.wf()
            },
            Err(e) => if !reg.contains_name(name@) {
                e@ == ErrModel::UnknownAlias(name@)
            } else {
                &&& !kind_supported(item.kind)
                &&& e@ == ErrModel::UnsupportedItem(item.kind)
            },
        },
{
    let ghost t0 = item@;
    let def = match reg.resolve(name) {
        Ok(d) => d,
        Err(e) => { return Err(e) },
    };
    if !item.kind.is_supported() {
        return Err(Error::UnsupportedItem { kind: item.kind });
    }
    let mut out = item;
    let n = def.params.len();
    proof {
        assert(t0.params + def.params@.take(0 as int) =~= t0.params);
    }
    let mut i: usize = 0;
    while i < n
        invariant
            i <= n,
            n == def.params@.len(),
            out.kind == t0.kind,
            out.has_where == t0.has_where,
            out.predicates@ == t0.predicates,
            out.params@ == t0.params + def.params@.take(i as int),
        decreases n - i,
    {
        out.params.push(def.params[i].clone());
        proof {
            assert(def.params@.take(i + 1 as int) =~= def.params@.take(i as int).push(
                def.params@[i as int],
            ));
            assert(out.params@ =~= t0.params + def.params@.take(i + 1 as int));
        }
        i += 1;
    }
    if def.has_where {
        out.has_where = true;
    }
    let m = def.predicates.len();
    proof {
        assert(def.params@.take(n as int) =~= def.params@);
        assert(t0.predicates + def.predicates@.take(0 as int) =~= t0.predicates);
    }
    let mut j: usize = 0;
    while j < m
        invariant
            j <= m,
            m == def.predicates@.len(),
            out.kind == t0.kind,
            out.has_where == (t0.has_where || def.has_where),
            out.params@ == t0.params + def.params@,
            out.predicates@ == t0.predicates + def.predicates@.take(j as int),
        decreases m - j,
    {
        out.predicates.push(def.predicates[j].clone());
        proof {
            assert(def.predicates@.take(j + 1 as int) =~= def.predicates@.take(j as int).push(
                def.predicates@[j as int],
            ));
            assert(out.predicates@ =~= t0.predicates + def.predicates@.take(j + 1 as int));
        }
        j += 1;
    }
    proof {
        assert(def.predicates@.take(m as int) =~= def.predicates@);
        assert(out@ =~= merge(t0, def@));
    }
    Ok(out)
}

/// What applying a list of alias names to a target yields, name by name in
/// list order. The first unresolved name is reported; an unsupported kind is
/// reported once the names before it have resolved; otherwise each resolved
/// definition is merged in turn, so the first-listed alias's parameters end
/// up nearest the target's own and later aliases' parameters follow.
pub open spec fn run_aliases(reg: Registry, names: Seq<Seq<char>>, t: ItemModel) -> Result<
    ItemModel,
    ErrModel,
>
    decreases names.len(),
{
    if names.len() == 0 {
        Result::Ok(t)
    } else if !reg.contains_name(names[0]) {
        Result::Err(ErrModel::UnknownAlias(names[0]))
    } else if !kind_supported(t.kind) {
        Result::Err(ErrModel::UnsupportedItem(t.kind))
    } else {
        run_aliases(reg, names.skip(1), merge(t, reg.def_at(names[0])))
    }
}

/// The texts of a list of names, in order.
pub open spec fn names_text(ns: Seq<String>) -> Seq<Seq<char>> {
    ns.map(|i: int, n: String| n@)
}

/// Applies the aliases named in `names`, in list order, to `item`. An empty
/// list is refused outright; otherwise the outcome is exactly
/// `run_aliases`: either every name resolved, the item's kind was supported
/// and each definition was merged in turn, or the first failure is
/// reported.
pub fn apply_aliases(reg: &Registry, names: &Vec<String>, item: TargetItem) -> (r: Result<
    TargetItem,
    Error,
>)
    requires
        reg.wf(),
        item@.wf(),
    ensures
        match r {
            Ok(out) => {
                &&& names@.len() > 0
                &&& run_aliases(*reg, names_text(names@), item@) == Result::<ItemModel, ErrModel>::Ok(out@)
                &&& out@.wf()
            },
            Err(e) => if names@.len() == 0 {
                e@ == ErrModel::EmptyAliasList
            } else {
                run_aliases(*reg, names_text(names@), item@) == Result::<ItemModel, ErrModel>::Err(e@)
            },
        },
{
    if names.len() == 0 {
        return Err(Error::EmptyAliasList);
    }
    let mut cur = item;
    let n = names.len();
    proof {
        assert(names_text(names@).skip(0) =~= names_text(names@));
    }
    let mut i: usize = 0;
    while i < n
        invariant
            i <= n,
            n == names@.len(),
            reg.wf(),
            cur@.wf(),
            run_aliases(*reg, names_text(names@), item@) == run_aliases(
                *reg,
                names_text(names@).skip(i as int),
                cur@,
            ),
        decreases n - i,
    {
        let ghost prev = cur@;
        match apply_alias(reg, &names[i], cur) {
            Ok(next) => {
                proof {
                    assert(names_text(names@).skip(i as int)[0] == names@[i as int]@);
                    assert(names_text(names@).skip(i as int).skip(1) =~= names_text(names@).skip(
                        i + 1,
                    ));
                }
                cur = next;
                i += 1;
            },
            Err(e) => {
                proof {
                    let s = names_text(names@).skip(i as int);
                    assert(s.len() > 0);
                    assert(s[0] == names@[i as int]@);
                    if !reg.contains_name(names@[i as int]@) {
                        assert(run_aliases(*reg, s, prev) == Result::<ItemModel, ErrModel>::Err(
                            ErrModel::UnknownAlias(names@[i as int]@),
                        ));
                    } else {
                        assert(run_aliases(*reg, s, prev) == Result::<ItemModel, ErrModel>::Err(
                            ErrModel::UnsupportedItem(prev.kind),
                        ));
                    }
                }
                return Err(e);
            },
        }
    }
    proof {
        assert(names_text(names@).skip(n as int).len() == 0);
    }
    Ok(cur)
}

/// The whole application stage on one target: parses the annotation's
/// comma-separated alias list and applies each named alias in listed order.
/// The grammar is checked first — an empty list, then the first piece that
/// is not an identifier — and the application's own failures follow, as in
/// `run_aliases` over the list's pieces.
pub fn apply_alias_list(reg: &Registry, list: &str, item: TargetItem) -> (r: Result<
    TargetItem,
    Error,
>)
    requires
        reg.wf(),
        item@.wf(),
    ensures
        match r {
            Ok(out) => {
                &&& forall|k: int|
                    0 <= k < comma_split(list@).len() ==> is_ident(#[trigger] comma_split(list@)[k])
                &&& run_aliases(*reg, comma_split(list@), item@) == Result::<
                    ItemModel,
                    ErrModel,
                >::Ok(out@)
                &&& out@.wf()
            },
            Err(e) => if list@.len() == 0 {
                e@ == ErrModel::EmptyAliasList
            } else if exists|k: int|
                0 <= k < comma_split(list@).len() && !is_ident(#[trigger] comma_split(list@)[k]) {
                exists|k: int|
                    {
                        &&& 0 <= k < comma_split(list@).len()
                        &&& !is_ident(#[trigger] comma_split(list@)[k])
                        &&& forall|j: int| 0 <= j < k ==> is_ident(#[trigger] comma_split(list@)[j])
                        &&& e@ == ErrModel::InvalidAliasName(comma_split(list@)[k])
                    }
            } else {
                run_aliases(*reg, comma_split(list@), item@) == Result::<ItemModel, ErrModel>::Err(
                    e@,
                )
            },
        },
{
    let names = match parse_alias_list(list) {
        Ok(ns) => ns,
        Err(e) => { return Err(e) },
    };
    proof {
        lemma_comma_split_nonempty(list@);
        assert(names_text(names@) =~= comma_split(list@));
        if list@.len() == 0 {
            assert(comma_split(list@) == seq![list@]);
            assert(is_ident(comma_split(list@)[0]));
            assert(false);
        }
        assert(names@.len() >= 1);
    }
    apply_aliases(reg, &names, item)
}

} // verus!
