use generics_alias::apply::{apply_alias, apply_alias_list, apply_aliases};
use generics_alias::model::{AliasDef, Error, GenericParam, ItemKind, TargetItem};
use generics_alias::registry::Registry;

fn ty(name: &str, bounds: &str) -> GenericParam {
    GenericParam::Type { name: String::from(name), bounds: String::from(bounds) }
}

fn def(name: &str, params: Vec<GenericParam>) -> AliasDef {
    AliasDef::new(String::from(name), params, None).unwrap()
}

fn def_where(name: &str, params: Vec<GenericParam>, preds: Vec<&str>) -> AliasDef {
    let preds: Vec<String> = preds.into_iter().map(String::from).collect();
    AliasDef::new(String::from(name), params, Some(preds)).unwrap()
}

fn registry_with(defs: Vec<AliasDef>) -> Registry {
    let mut reg = Registry::new();
    for d in defs {
        reg.define(d).unwrap();
    }
    reg
}

#[test]
fn fn_simple() {
    let reg = registry_with(vec![def("DebugClonable", vec![ty("X", "Debug + Clone")])]);
    let item = TargetItem::new(ItemKind::Function, Vec::new(), None);
    let out = apply_alias(&reg, &String::from("DebugClonable"), item).unwrap();
    assert_eq!(out.kind, ItemKind::Function);
    assert_eq!(out.params, vec![ty("X", "Debug + Clone")]);
    assert!(!out.has_where);
    assert!(out.predicates.is_empty());
}

#[test]
fn impl_simple() {
    let reg = registry_with(vec![def("DebugClonable", vec![ty("X", "Debug + Clone")])]);
    let name = String::from("DebugClonable");
    let strukt = TargetItem::new(ItemKind::Struct, Vec::new(), None);
    let out = apply_alias(&reg, &name, strukt).unwrap();
    assert_eq!(out.kind, ItemKind::Struct);
    assert_eq!(out.params, vec![ty("X", "Debug + Clone")]);
    let imp = TargetItem::new(ItemKind::ImplBlock, Vec::new(), None);
    let out = apply_alias(&reg, &name, imp).unwrap();
    assert_eq!(out.kind, ItemKind::ImplBlock);
    assert_eq!(out.params, vec![ty("X", "Debug + Clone")]);
}

#[test]
fn trait_simple() {
    let reg = registry_with(vec![def("DebugClonable", vec![ty("X", "Debug + Clone")])]);
    let name = String::from("DebugClonable");
    let tr = TargetItem::new(ItemKind::Trait, Vec::new(), None);
    let out = apply_alias(&reg, &name, tr).unwrap();
    assert_eq!(out.kind, ItemKind::Trait);
    assert_eq!(out.params, vec![ty("X", "Debug + Clone")]);
    let imp = TargetItem::new(ItemKind::ImplBlock, Vec::new(), None);
    let out = apply_alias(&reg, &name, imp).unwrap();
    assert_eq!(out.params, vec![ty("X", "Debug + Clone")]);
}

#[test]
fn impl_fn_simple() {
    // A function inside an impl block is annotated as a plain function.
    let reg = registry_with(vec![def("DebugClonable", vec![ty("X", "Debug + Clone")])]);
    let item = TargetItem::new(ItemKind::Function, Vec::new(), None);
    let out = apply_alias(&reg, &String::from("DebugClonable"), item).unwrap();
    assert_eq!(out.kind, ItemKind::Function);
    assert_eq!(out.params, vec![ty("X", "Debug + Clone")]);
}

#[test]
fn merge_appends_after_own_params_and_predicates() {
    let reg = registry_with(vec![def_where(
        "Extra",
        vec![ty("B", "Clone"), ty("C", "")],
        vec!["Option<C>: Send"],
    )]);
    let item = TargetItem::new(
        ItemKind::Function,
        vec![ty("A", "Copy")],
        Some(vec![String::from("A: Send")]),
    );
    let out = apply_alias(&reg, &String::from("Extra"), item).unwrap();
    assert_eq!(out.params, vec![ty("A", "Copy"), ty("B", "Clone"), ty("C", "")]);
    assert!(out.has_where);
    assert_eq!(out.predicates, vec![String::from("A: Send"), String::from("Option<C>: Send")]);
}

#[test]
fn where_clause_created_when_absent() {
    let reg = registry_with(vec![def_where("W", vec![], vec!["T: Send"])]);
    let item = TargetItem::new(ItemKind::Struct, Vec::new(), None);
    assert!(!item.has_where);
    let out = apply_alias(&reg, &String::from("W"), item).unwrap();
    assert!(out.has_where);
    assert_eq!(out.predicates, vec![String::from("T: Send")]);
}

#[test]
fn empty_alias_is_identity() {
    let reg = registry_with(vec![def("Nothing", Vec::new())]);
    let item = TargetItem::new(
        ItemKind::Function,
        vec![ty("A", "Copy")],
        Some(vec![String::from("A: Send")]),
    );
    let before = item.clone();
    let out = apply_alias(&reg, &String::from("Nothing"), item).unwrap();
    assert_eq!(out, before);
}

#[test]
fn two_aliases_equal_sequential_application() {
    let reg = registry_with(vec![
        def("Bounds1", vec![ty("A", "Copy")]),
        def("Bounds2", vec![ty("B", "Clone")]),
    ]);
    let item = TargetItem::new(ItemKind::Function, Vec::new(), None);
    let names = vec![String::from("Bounds1"), String::from("Bounds2")];
    let both = apply_aliases(&reg, &names, item.clone()).unwrap();
    let first = apply_alias(&reg, &String::from("Bounds1"), item).unwrap();
    let sequential = apply_alias(&reg, &String::from("Bounds2"), first).unwrap();
    assert_eq!(both, sequential);
    // The first-listed alias's parameter stands before the second's.
    assert_eq!(both.params, vec![ty("A", "Copy"), ty("B", "Clone")]);
}

#[test]
fn unknown_alias_is_reported_by_name() {
    let reg = registry_with(vec![def("Known", Vec::new())]);
    let item = TargetItem::new(ItemKind::Function, Vec::new(), None);
    let err = apply_alias(&reg, &String::from("Missing"), item).unwrap_err();
    assert_eq!(err, Error::UnknownAlias { name: String::from("Missing") });
}

#[test]
fn unknown_alias_never_yields_an_item() {
    let reg = Registry::new();
    let item = TargetItem::new(ItemKind::Function, Vec::new(), None);
    assert!(apply_alias(&reg, &String::from("Anything"), item).is_err());
}

#[test]
fn unsupported_kinds_are_reported_by_kind() {
    let reg = registry_with(vec![def("B", vec![ty("X", "Copy")])]);
    let module = TargetItem::new(ItemKind::Module, Vec::new(), None);
    let err = apply_alias(&reg, &String::from("B"), module).unwrap_err();
    assert_eq!(err, Error::UnsupportedItem { kind: ItemKind::Module });
    assert_eq!(ItemKind::Module.name(), "module");
    let constant = TargetItem::new(ItemKind::Constant, Vec::new(), None);
    let err = apply_alias(&reg, &String::from("B"), constant).unwrap_err();
    assert_eq!(err, Error::UnsupportedItem { kind: ItemKind::Constant });
    assert_eq!(ItemKind::Constant.name(), "constant");
}

#[test]
fn duplicate_definition_is_refused() {
    let mut reg = Registry::new();
    reg.define(def("B", vec![ty("X", "Copy")])).unwrap();
    let err = reg.define(def("B", Vec::new())).unwrap_err();
    assert_eq!(err, Error::DuplicateAlias { name: String::from("B") });
    // The first definition still resolves unchanged.
    let d = reg.resolve(&String::from("B")).unwrap();
    assert_eq!(d.params, vec![ty("X", "Copy")]);
}

#[test]
fn malformed_definition_name_is_refused() {
    let err = AliasDef::new(String::from("9Bounds"), Vec::new(), None).unwrap_err();
    assert_eq!(err, Error::InvalidAliasName { text: String::from("9Bounds") });
    let err = AliasDef::new(String::from(""), Vec::new(), None).unwrap_err();
    assert_eq!(err, Error::InvalidAliasName { text: String::from("") });
}

#[test]
fn debug_clonable_on_function_signature() {
    // generics_def!(DebugClonable<X: Debug + Clone>); #[generics(DebugClonable)] fn foo(x: X)
    // comes out as fn foo<X: Debug + Clone>(x: X).
    let reg = registry_with(vec![def("DebugClonable", vec![ty("X", "Debug + Clone")])]);
    let item = TargetItem::new(ItemKind::Function, Vec::new(), None);
    let out = apply_alias_list(&reg, "DebugClonable", item).unwrap();
    assert_eq!(out.params, vec![ty("X", "Debug + Clone")]);
    assert!(!out.has_where);
}

#[test]
fn where_bounds_on_function_signature() {
    // generics_def!(WhereBounds<X: Display, T: Debug> where Option<T>: Debug) applied to
    // fn foo(x: X, t: Option<T>) comes out as
    // fn foo<X: Display, T: Debug>(x: X, t: Option<T>) where Option<T>: Debug.
    let reg = registry_with(vec![def_where(
        "WhereBounds",
        vec![ty("X", "Display"), ty("T", "Debug")],
        vec!["Option<T>: Debug"],
    )]);
    let item = TargetItem::new(ItemKind::Function, Vec::new(), None);
    let out = apply_alias_list(&reg, "WhereBounds", item).unwrap();
    assert_eq!(out.params, vec![ty("X", "Display"), ty("T", "Debug")]);
    assert!(out.has_where);
    assert_eq!(out.predicates, vec![String::from("Option<T>: Debug")]);
}

#[test]
fn two_aliases_on_trait_in_listed_order() {
    // #[generics(Bounds1, Bounds2)] trait Foo {} merges both parameter lists in listed order.
    let reg = registry_with(vec![
        def("Bounds1", vec![ty("A", "Copy")]),
        def("Bounds2", vec![ty("B", "Clone")]),
    ]);
    let item = TargetItem::new(ItemKind::Trait, Vec::new(), None);
    let out = apply_alias_list(&reg, "Bounds1,Bounds2", item).unwrap();
    assert_eq!(out.kind, ItemKind::Trait);
    assert_eq!(out.params, vec![ty("A", "Copy"), ty("B", "Clone")]);
}

#[test]
fn empty_alias_list_is_refused() {
    let reg = Registry::new();
    let item = TargetItem::new(ItemKind::Function, Vec::new(), None);
    let err = apply_aliases(&reg, &Vec::new(), item).unwrap_err();
    assert_eq!(err, Error::EmptyAliasList);
}

#[test]
fn lifetime_and_const_parameters_are_carried() {
    let reg = registry_with(vec![def(
        "Mixed",
        vec![
            GenericParam::Lifetime { name: String::from("a"), bounds: String::from("") },
            GenericParam::Const { name: String::from("N"), ty: String::from("usize") },
        ],
    )]);
    let item = TargetItem::new(ItemKind::Struct, Vec::new(), None);
    let out = apply_alias(&reg, &String::from("Mixed"), item).unwrap();
    assert_eq!(
        out.params,
        vec![
            GenericParam::Lifetime { name: String::from("a"), bounds: String::from("") },
            GenericParam::Const { name: String::from("N"), ty: String::from("usize") },
        ]
    );
}

#[test]
fn alias_list_reports_unknown_name() {
    let reg = registry_with(vec![def("Bounds1", vec![ty("A", "Copy")])]);
    let item = TargetItem::new(ItemKind::Function, Vec::new(), None);
    let err = apply_alias_list(&reg, "Bounds1,Missing", item).unwrap_err();
    assert_eq!(err, Error::UnknownAlias { name: String::from("Missing") });
}

#[test]
fn alias_list_reports_unsupported_kind() {
    let reg = registry_with(vec![def("Bounds1", vec![ty("A", "Copy")])]);
    let module = TargetItem::new(ItemKind::Module, Vec::new(), None);
    let err = apply_alias_list(&reg, "Bounds1", module).unwrap_err();
    assert_eq!(err, Error::UnsupportedItem { kind: ItemKind::Module });
}

#[test]
fn alias_list_reports_bad_grammar_before_resolution() {
    let reg = Registry::new();
    let item = TargetItem::new(ItemKind::Function, Vec::new(), None);
    let err = apply_alias_list(&reg, "", item).unwrap_err();
    assert_eq!(err, Error::EmptyAliasList);
    let item = TargetItem::new(ItemKind::Function, Vec::new(), None);
    let err = apply_alias_list(&reg, "1Bad", item).unwrap_err();
    assert_eq!(err, Error::InvalidAliasName { text: String::from("1Bad") });
}

#[test]
fn repeated_application_duplicates_predicates() {
    // No deduplication: applying the same alias twice duplicates its predicates verbatim.
    let reg = registry_with(vec![def_where("W", vec![], vec!["T: Send"])]);
    let names = vec![String::from("W"), String::from("W")];
    let item = TargetItem::new(ItemKind::Function, Vec::new(), None);
    let out = apply_aliases(&reg, &names, item).unwrap();
    assert_eq!(out.predicates, vec![String::from("T: Send"), String::from("T: Send")]);
}
