//! The general laws of the expansion, stated and proved once over the
//! model: what one merge does, that an empty bundle is an identity, and
//! that a list of aliases is the same as applying them one after another.
use vstd::prelude::*;

use crate::apply::run_aliases;
use crate::model::{kind_supported, merge, DefModel, ItemModel};
use crate::registry::Registry;

verus! {

/// One merge only appends. The result's parameter list is the target's own
/// followed by the definition's, each side in its original order, and
/// likewise for the predicate list; the kind is untouched; a where-clause
/// exists afterwards exactly where the target or the definition carried
/// one.
pub proof fn lemma_merge_appends(t: ItemModel, d: DefModel)
    ensures
        merge(t, d).params.len() == t.params.len() + d.params.len(),
        forall|i: int| 0 <= i < t.params.len() ==> merge(t, d).params[i] == t.params[i],
        forall|i: int|
            0 <= i < d.params.len() ==> merge(t, d).params[t.params.len() + i] == d.params[i],
        merge(t, d).predicates.len() == t.predicates.len() + d.predicates.len(),
        forall|i: int|
            0 <= i < t.predicates.len() ==> merge(t, d).predicates[i] == t.predicates[i],
        forall|i: int|
            0 <= i < d.predicates.len() ==> merge(t, d).predicates[t.predicates.len() + i]
                == d.predicates[i],
        merge(t, d).kind == t.kind,
        merge(t, d).has_where == (t.has_where || d.has_where),
{
}

/// Identity: a definition with no parameters and no predicates changes
/// neither the target's parameter list nor its predicate list, and one with
/// no where-clause at all changes nothing.
pub proof fn lemma_merge_identity(t: ItemModel, d: DefModel)
    requires
        d.params.len() == 0,
        d.predicates.len() == 0,
    ensures
        merge(t, d).params == t.params,
        merge(t, d).predicates == t.predicates,
        merge(t, d).kind == t.kind,
        merge(t, d).has_where == (t.has_where || d.has_where),
        !d.has_where ==> merge(t, d) == t,
{
    assert(t.params + d.params =~= t.params);
    assert(t.predicates + d.predicates =~= t.predicates);
    if !d.has_where {
        assert(merge(t, d) =~= t);
    }
}

/// Sequential application: applying the names of one list and then, to the
/// result, the names of a second list is the same as applying the two
/// lists' concatenation, failures included.
pub proof fn lemma_run_aliases_concat(
    reg: Registry,
    names1: Seq<Seq<char>>,
    names2: Seq<Seq<char>>,
    t: ItemModel,
)
    ensures
        run_aliases(reg, names1 + names2, t) == (match run_aliases(reg, names1, t) {
            Result::Ok(t1) => run_aliases(reg, names2, t1),
            Result::Err(e) => Result::<ItemModel, crate::model::ErrModel>::Err(e),
        }),
    decreases names1.len(),
{
    if names1.len() == 0 {
        assert(names1 + names2 =~= names2);
    } else {
        assert((names1 + names2)[0] == names1[0]);
        if reg.contains_name(names1[0]) && kind_supported(t.kind) {
            lemma_run_aliases_concat(
                reg,
                names1.skip(1),
                names2,
                merge(t, reg.def_at(names1[0])),
            );
            assert((names1 + names2).skip(1) =~= names1.skip(1) + names2);
        }
    }
}

/// The definitions a list of names resolves to, in listed order
/// (meaningful when every name resolves).
pub open spec fn defs_of(reg: Registry, names: Seq<Seq<char>>) -> Seq<DefModel> {
    names.map(|i: int, n: Seq<char>| reg.def_at(n))
}

/// One definition after another merged into a target, in order.
pub open spec fn merge_all(t: ItemModel, ds: Seq<DefModel>) -> ItemModel
    decreases ds.len(),
{
    if ds.len() == 0 {
        t
    } else {
        merge_all(merge(t, ds[0]), ds.skip(1))
    }
}

/// A run that meets no failure — every name resolves and the target's kind
/// is supported — succeeds and merges every named definition into the
/// target, in listed order.
pub proof fn lemma_run_aliases_success(reg: Registry, names: Seq<Seq<char>>, t: ItemModel)
    requires
        forall|i: int| 0 <= i < names.len() ==> reg.contains_name(#[trigger] names[i]),
        kind_supported(t.kind),
    ensures
        run_aliases(reg, names, t) == Result::<ItemModel, crate::model::ErrModel>::Ok(
            merge_all(t, defs_of(reg, names)),
        ),
    decreases names.len(),
{
    if names.len() == 0 {
        assert(defs_of(reg, names).len() == 0);
    } else {
        let t1 = merge(t, reg.def_at(names[0]));
        assert(t1.kind == t.kind);
        assert(reg.contains_name(names[0]));
        assert forall|i: int| 0 <= i < names.skip(1).len() implies reg.contains_name(
            #[trigger] names.skip(1)[i],
        ) by {
            assert(names.skip(1)[i] == names[i + 1]);
        }
        lemma_run_aliases_success(reg, names.skip(1), t1);
        assert(defs_of(reg, names.skip(1)) =~= defs_of(reg, names).skip(1));
        assert(defs_of(reg, names)[0] == reg.def_at(names[0]));
        assert(merge_all(t, defs_of(reg, names)) == merge_all(t1, defs_of(reg, names).skip(1)));
    }
}

/// Two aliases in listed order: when both names resolve and the target's
/// kind is supported, the run succeeds and yields the first-listed
/// definition merged first — its parameters end up nearest the target's
/// own — and the second-listed definition merged after it.
pub proof fn lemma_two_aliases(reg: Registry, n1: Seq<char>, n2: Seq<char>, t: ItemModel)
    requires
        reg.contains_name(n1),
        reg.contains_name(n2),
        kind_supported(t.kind),
    ensures
        run_aliases(reg, seq![n1, n2], t) == Result::<ItemModel, crate::model::ErrModel>::Ok(
            merge(merge(t, reg.def_at(n1)), reg.def_at(n2)),
        ),
{
    let t1 = merge(t, reg.def_at(n1));
    let t2 = merge(t1, reg.def_at(n2));
    assert(seq![n1, n2][0] == n1);
    assert(seq![n2][0] == n2);
    assert(seq![n1, n2].skip(1) =~= seq![n2]);
    assert(seq![n2].skip(1) =~= Seq::<Seq<char>>::empty());
    assert(t1.kind == t.kind);
    assert(run_aliases(reg, Seq::<Seq<char>>::empty(), t2)
        == Result::<ItemModel, crate::model::ErrModel>::Ok(t2));
    assert(run_aliases(reg, seq![n2], t1) == Result::<ItemModel, crate::model::ErrModel>::Ok(t2));
    assert(run_aliases(reg, seq![n1, n2], t) == run_aliases(reg, seq![n2], t1));
}

/// A name that resolves to no definition never yields an item: however far
/// into the list it stands, the run ends in an error — at that name's
/// resolution, unless an earlier failure is reported first.
pub proof fn lemma_unknown_name_never_yields(
    reg: Registry,
    names: Seq<Seq<char>>,
    t: ItemModel,
    i: int,
)
    requires
        0 <= i < names.len(),
        !reg.contains_name(names[i]),
    ensures
        run_aliases(reg, names, t) is Err,
    decreases names.len(),
{
    if i > 0 && reg.contains_name(names[0]) && kind_supported(t.kind) {
        assert(names.skip(1)[i - 1] == names[i]);
        lemma_unknown_name_never_yields(reg, names.skip(1), merge(t, reg.def_at(names[0])), i - 1);
    }
}

/// A target whose kind is outside the supported set never yields an item:
/// any non-empty run on it ends in an error — the applicability error
/// carrying the kind, once the first name has resolved.
pub proof fn lemma_unsupported_kind_fails(reg: Registry, names: Seq<Seq<char>>, t: ItemModel)
    requires
        !kind_supported(t.kind),
        names.len() > 0,
    ensures
        run_aliases(reg, names, t) is Err,
        reg.contains_name(names[0]) ==> run_aliases(reg, names, t) == Result::<
            ItemModel,
            crate::model::ErrModel,
        >::Err(crate::model::ErrModel::UnsupportedItem(t.kind)),
{
}

} // verus!
