//! The syntax model: generic parameters, item kinds, alias definitions,
//! target declarations, and the merge of one definition into one target.
use vstd::prelude::*;

verus! {

/// One generic parameter, as it appears between the angle brackets of a
/// declaration. The name is the bare identifier (for a lifetime parameter,
/// without the leading tick); the bound list and the const parameter's type
/// are carried as uninterpreted source text.
#[derive(Debug, PartialEq, Eq)]
pub enum GenericParam {
    /// A lifetime parameter with its (possibly empty) outlives-bound list.
    Lifetime { name: String, bounds: String },
    /// A type parameter with its (possibly empty) bound list.
    Type { name: String, bounds: String },
    /// A const parameter with its type.
    Const { name: String, ty: String },
}

impl Clone for GenericParam {
    fn clone(&self) -> (res: Self)
        ensures
            res == *self,
    {
        match self {
            GenericParam::Lifetime { name, bounds } => GenericParam::Lifetime {
                name: name.clone(),
                bounds: bounds.clone(),
            },
            GenericParam::Type { name, bounds } => GenericParam::Type {
                name: name.clone(),
                bounds: bounds.clone(),
            },
            GenericParam::Const { name, ty } => GenericParam::Const {
                name: name.clone(),
                ty: ty.clone(),
            },
        }
    }
}

/// The kind of an item an alias can be asked to apply to. The expansion
/// supports functions, structs, traits and impl blocks; every other kind is
/// recognized so that it can be rejected by name.
#[derive(Debug, Clone, Copy, PartialEq, Eq, Structural)]
pub enum ItemKind {
    Function,
    Struct,
    Trait,
    ImplBlock,
    Enum,
    Union,
    Module,
    Constant,
    Static,
    TypeAlias,
    Other,
}

/// The item kinds an alias can be applied to.
pub open spec fn kind_supported(k: ItemKind) -> bool {
    k == ItemKind::Function || k == ItemKind::Struct || k == ItemKind::Trait
        || k == ItemKind::ImplBlock
}

impl ItemKind {
    /// The kind's name, as used in diagnostics.
    pub open spec fn spec_name(self) -> Seq<char> {
        match self {
            ItemKind::Function => "function"@,
            ItemKind::Struct => "struct"@,
            ItemKind::Trait => "trait"@,
            ItemKind::ImplBlock => "impl block"@,
            ItemKind::Enum => "enum"@,
            ItemKind::Union => "union"@,
            ItemKind::Module => "module"@,
            ItemKind::Constant => "constant"@,
            ItemKind::Static => "static item"@,
            ItemKind::TypeAlias => "type alias"@,
            ItemKind::Other => "unrecognized item"@,
        }
    }

    /// The kind's name, as used in diagnostics.
    pub fn name(&self) -> (r: &'static str)
        ensures
            r@ == self.spec_name(),
    {
        match self {
            ItemKind::Function => "function",
            ItemKind::Struct => "struct",
            ItemKind::Trait => "trait",
            ItemKind::ImplBlock => "impl block",
            ItemKind::Enum => "enum",
            ItemKind::Union => "union",
            ItemKind::Module => "module",
            ItemKind::Constant => "constant",
            ItemKind::Static => "static item",
            ItemKind::TypeAlias => "type alias",
            ItemKind::Other => "unrecognized item",
        }
    }

    /// Whether an alias can be applied to an item of this kind.
    pub fn is_supported(&self) -> (r: bool)
        ensures
            r == kind_supported(*self),
    {
        matches!(
            self,
            ItemKind::Function | ItemKind::Struct | ItemKind::Trait | ItemKind::ImplBlock
        )
    }
}

/// A declaration an alias is applied to: its kind, its own generic-parameter
/// list, and its where-clause. `has_where` records whether the clause is
/// present at all, since a clause can exist with no predicates and the
/// rewrite must know whether to create one.
#[derive(Debug, PartialEq, Eq)]
pub struct TargetItem {
    pub kind: ItemKind,
    pub params: Vec<GenericParam>,
    pub has_where: bool,
    pub predicates: Vec<String>,
}

/// One registered alias: its name and the generic parameters and
/// where-predicates it bundles.
#[derive(Debug, PartialEq, Eq)]
pub struct AliasDef {
    pub name: String,
    pub params: Vec<GenericParam>,
    pub has_where: bool,
    pub predicates: Vec<String>,
}

/// The mathematical value of a target declaration.
#[verifier::ext_equal]
pub ghost struct ItemModel {
    pub kind: ItemKind,
    pub params: Seq<GenericParam>,
    pub has_where: bool,
    pub predicates: Seq<String>,
}

/// The mathematical value of an alias definition.
#[verifier::ext_equal]
pub ghost struct DefModel {
    pub name: Seq<char>,
    pub params: Seq<GenericParam>,
    pub has_where: bool,
    pub predicates: Seq<String>,
}

impl ItemModel {
    /// Predicates are only recorded when the where-clause exists.
    pub open spec fn wf(self) -> bool {
        self.predicates.len() > 0 ==> self.has_where
    }
}

impl DefModel {
    /// The name is an identifier, and predicates are only recorded when the
    /// where-clause exists.
    pub open spec fn wf(self) -> bool {
        &&& is_ident(self.name)
        &&& self.predicates.len() > 0 ==> self.has_where
    }
}

impl View for TargetItem {
    type V = ItemModel;

    open spec fn view(&self) -> ItemModel {
        ItemModel {
            kind: self.kind,
            params: self.params@,
            has_where: self.has_where,
            predicates: self.predicates@,
        }
    }
}

impl View for AliasDef {
    type V = DefModel;

    open spec fn view(&self) -> DefModel {
        DefModel {
            name: self.name@,
            params: self.params@,
            has_where: self.has_where,
            predicates: self.predicates@,
        }
    }
}

/// The merge of one resolved alias definition into one target declaration:
/// the definition's parameters are appended after the target's own, its
/// predicates after the target's own, nothing is removed, replaced or
/// reordered, and the target gains a where-clause if the definition carries
/// one. Every other part of the target is left as it was.
pub open spec fn merge(t: ItemModel, d: DefModel) -> ItemModel {
    ItemModel {
        kind: t.kind,
        params: t.params + d.params,
        has_where: t.has_where || d.has_where,
        predicates: t.predicates + d.predicates,
    }
}

/// A character that may start an identifier.
pub open spec fn ident_start(c: char) -> bool {
    c == '_' || ('a' as u32 <= c as u32 && c as u32 <= 'z' as u32) || ('A' as u32 <= c as u32
        && c as u32 <= 'Z' as u32)
}

/// A character that may continue an identifier.
pub open spec fn ident_continue(c: char) -> bool {
    ident_start(c) || ('0' as u32 <= c as u32 && c as u32 <= '9' as u32)
}

/// A plain (non-raw, ASCII) identifier: non-empty, a letter or underscore
/// first, letters, digits and underscores after.
pub open spec fn is_ident(s: Seq<char>) -> bool {
    &&& s.len() > 0
    &&& ident_start(s[0])
    &&& forall|i: int| 1 <= i < s.len() ==> ident_continue(#[trigger] s[i])
}

/// Decides `is_ident` on a string slice.
pub fn check_ident(s: &str) -> (r: bool)
    ensures
        r == is_ident(s@),
{
    let n = s.unicode_len();
    if n == 0 {
        return false;
    }
    let c0 = s.get_char(0);
    let u0 = c0 as u32;
    if !(c0 == '_' || (97 <= u0 && u0 <= 122) || (65 <= u0 && u0 <= 90)) {
        assert(!ident_start(s@[0]));
        return false;
    }
    let mut i: usize = 1;
    while i < n
        invariant
            1 <= i <= n,
            n == s@.len(),
            is_ident(s@.take(i as int)),
        decreases n - i,
    {
        let c = s.get_char(i);
        let u = c as u32;
        if !(c == '_' || (97 <= u && u <= 122) || (65 <= u && u <= 90) || (48 <= u && u <= 57)) {
            assert(!ident_continue(s@[i as int]));
            return false;
        }
        i += 1;
    }
    proof {
        assert(s@.take(n as int) =~= s@);
    }
    true
}

/// Copies a parameter list, preserving its value.
pub fn clone_params(v: &Vec<GenericParam>) -> (r: Vec<GenericParam>)
    ensures
        r@ == v@,
{
    let mut r: Vec<GenericParam> = Vec::new();
    let mut i: usize = 0;
    while i < v.len()
        invariant
            i <= v@.len(),
            r@ == v@.take(i as int),
        decreases v@.len() - i,
    {
        r.push(v[i].clone());
        proof {
            assert(v@.take(i + 1 as int) =~= v@.take(i as int).push(v@[i as int]));
        }
        i += 1;
    }
    proof {
        assert(v@.take(v@.len() as int) =~= v@);
    }
    r
}

/// Copies a predicate list, preserving its value.
pub fn clone_predicates(v: &Vec<String>) -> (r: Vec<String>)
    ensures
        r@ == v@,
{
    let mut r: Vec<String> = Vec::new();
    let mut i: usize = 0;
    while i < v.len()
        invariant
            i <= v@.len(),
            r@ == v@.take(i as int),
        decreases v@.len() - i,
    {
        r.push(v[i].clone());
        proof {
            assert(v@.take(i + 1 as int) =~= v@.take(i as int).push(v@[i as int]));
        }
        i += 1;
    }
    proof {
        assert(v@.take(v@.len() as int) =~= v@);
    }
    r
}

impl Clone for AliasDef {
    fn clone(&self) -> (res: Self)
        ensures
            res@ == self@,
    {
        AliasDef {
            name: self.name.clone(),
            params: clone_params(&self.params),
            has_where: self.has_where,
            predicates: clone_predicates(&self.predicates),
        }
    }
}

impl Clone for TargetItem {
    fn clone(&self) -> (res: Self)
        ensures
            res@ == self@,
    {
        TargetItem {
            kind: self.kind,
            params: clone_params(&self.params),
            has_where: self.has_where,
            predicates: clone_predicates(&self.predicates),
        }
    }
}

/// The errors the expansion can report. Each carries what the diagnostic
/// names: the offending text, alias name, or item kind.
#[derive(Debug, PartialEq, Eq)]
pub enum Error {
    /// The alias list attached to a target was empty.
    EmptyAliasList,
    /// A piece of the alias list is not an identifier.
    InvalidAliasName { text: String },
    /// An alias was defined under a name that is already taken.
    DuplicateAlias { name: String },
    /// An alias name did not resolve to any registered definition.
    UnknownAlias { name: String },
    /// An alias was applied to an item kind outside the supported set.
    UnsupportedItem { kind: ItemKind },
}

/// The mathematical value of an error.
pub ghost enum ErrModel {
    EmptyAliasList,
    InvalidAliasName(Seq<char>),
    DuplicateAlias(Seq<char>),
    UnknownAlias(Seq<char>),
    UnsupportedItem(ItemKind),
}

impl View for Error {
    type V = ErrModel;

    open spec fn view(&self) -> ErrModel {
        match self {
            Error::EmptyAliasList => ErrModel::EmptyAliasList,
            Error::InvalidAliasName { text } => ErrModel::InvalidAliasName(text@),
            Error::DuplicateAlias { name } => ErrModel::DuplicateAlias(name@),
            Error::UnknownAlias { name } => ErrModel::UnknownAlias(name@),
            Error::UnsupportedItem { kind } => ErrModel::UnsupportedItem(*kind),
        }
    }
}

} // verus!
