//! A Tailwind design system: its theme, utilities, variants and the options it was loaded with.

use vstd::prelude::*;
use std::path::PathBuf;
use std::time::SystemTime;
use crate::collections::{NameSet, TextMap, VariantMap, PropertyMap, name_set_contents, text_map_contents, variant_map_contents, property_map_contents};
use crate::variants::{Compounds, UtilityKind, VariantRegistration, builtin_variant_order, builtin_variant_is_global, spec_builtin_variant_order, spec_builtin_variant_is_global, THEME_VARIANT_ORDER};
use crate::loader::copy_path;
use crate::text::{strip_prefix, str_eq, views};

verus! {

/// A filesystem path (`std::path::PathBuf`), carried through unchanged.
#[verifier::external_type_specification]
#[verifier::external_body]
pub struct ExPathBuf(PathBuf);

/// A point in time (`std::time::SystemTime`), carried through unchanged.
#[verifier::external_type_specification]
#[verifier::external_body]
pub struct ExSystemTime(SystemTime);

/// Where to load a design system from: the working directory and an optional CSS entry point.
pub struct LoadOptions {
    pub cwd: PathBuf,
    pub entry_point: Option<PathBuf>,
}

impl LoadOptions {
    pub fn new(cwd: PathBuf) -> (r: Self)
        ensures
            r.cwd == cwd,
            r.entry_point is None,
    {
        LoadOptions { cwd, entry_point: None }
    }

    pub fn with_entry_point(self, entry_point: PathBuf) -> (r: Self)
        ensures
            r.cwd == self.cwd,
            r.entry_point == Some(entry_point),
    {
        LoadOptions { cwd: self.cwd, entry_point: Some(entry_point) }
    }
}

/// What identifies a cached design system: the working directory and the entry point resolved
/// against it. Normalizing both (following links, which reads the file system) is the caller's.
pub struct CacheKey {
    pub cwd: PathBuf,
    pub entry_point: Option<PathBuf>,
}

/// Whether `Path::is_absolute` holds of a path: the path does not depend on a working
/// directory. It is decided by the path's components alone.
pub uninterp spec fn path_absolute(path: PathBuf) -> bool;

/// The path that `Path::join` builds from `base` and `path`: `path` read from `base`. It is a
/// function of the two paths alone.
pub uninterp spec fn joined_path(base: PathBuf, path: PathBuf) -> PathBuf;

/// `Path::is_absolute`; the answer is named by `path_absolute`.
#[verifier::external_body]
fn path_is_absolute(path: &PathBuf) -> (r: bool)
    ensures
        r == path_absolute(*path),
{
    path.is_absolute()
}

/// `Path::join`; the result is named by `joined_path`.
#[verifier::external_body]
fn join_path(base: &PathBuf, path: &PathBuf) -> (r: PathBuf)
    ensures
        r == joined_path(*base, *path),
{
    base.join(path)
}

impl CacheKey {
    /// The key of `options`: its working directory, and its entry point, if any, taken as it is
    /// when absolute and joined to the working directory otherwise.
    pub fn new(options: &LoadOptions) -> (r: Self)
        ensures
            r.cwd == options.cwd,
            r.entry_point == match options.entry_point {
                Some(p) => Some(if path_absolute(p) { p } else { joined_path(options.cwd, p) }),
                None => None,
            },
    {
        let entry_point = match &options.entry_point {
            Some(path) => Some(if path_is_absolute(path) { copy_path(path) } else { join_path(&options.cwd, path) }),
            None => None,
        };
        CacheKey { cwd: copy_path(&options.cwd), entry_point }
    }
}

/// What identifies a version of a file: its modification time, where the platform has one, and
/// its length.
pub struct DependencyStamp {
    pub modified: Option<SystemTime>,
    pub len: u64,
}

/// A file the design system was loaded from, with the stamp it had then.
pub struct Dependency {
    pub path: PathBuf,
    pub stamp: DependencyStamp,
}

/// A Tailwind design system: the theme, the utilities and variants it knows, the classes its
/// component layer declares, and the files it was loaded from.
pub struct DesignSystem {
    pub prefix: Option<String>,
    pub theme: TextMap,
    pub static_utilities: NameSet,
    pub functional_utilities: NameSet,
    /// The roots whose negative spelling (`-root`) is a functional utility.
    pub negative_utilities: NameSet,
    pub variants: VariantMap,
    pub global_variants: NameSet,
    pub local_variants: NameSet,
    pub custom_utilities: PropertyMap,
    pub component_classes: NameSet,
    pub dependencies: Vec<Dependency>,
    pub generation: u64,
}

/// The static variants every design system has.
pub open spec fn builtin_static_variants() -> Seq<Seq<char>> {
    seq![
        "*"@,
        "**"@,
        "first-letter"@,
        "first-line"@,
        "marker"@,
        "selection"@,
        "file"@,
        "placeholder"@,
        "backdrop"@,
        "details-content"@,
        "before"@,
        "after"@,
        "first"@,
        "last"@,
        "only"@,
        "odd"@,
        "even"@,
        "first-of-type"@,
        "last-of-type"@,
        "only-of-type"@,
        "visited"@,
        "target"@,
        "open"@,
        "default"@,
        "checked"@,
        "indeterminate"@,
        "placeholder-shown"@,
        "autofill"@,
        "optional"@,
        "required"@,
        "valid"@,
        "invalid"@,
        "user-valid"@,
        "user-invalid"@,
        "in-range"@,
        "out-of-range"@,
        "read-only"@,
        "empty"@,
        "focus-within"@,
        "hover"@,
        "focus"@,
        "focus-visible"@,
        "active"@,
        "enabled"@,
        "disabled"@,
        "inert"@,
        "motion-safe"@,
        "motion-reduce"@,
        "contrast-more"@,
        "contrast-less"@,
        "portrait"@,
        "landscape"@,
        "ltr"@,
        "rtl"@,
        "dark"@,
        "starting"@,
        "print"@,
        "forced-colors"@,
        "inverted-colors"@,
        "pointer-none"@,
        "pointer-coarse"@,
        "pointer-fine"@,
        "any-pointer-none"@,
        "any-pointer-coarse"@,
        "any-pointer-fine"@,
        "noscript"@
    ]
}

/// The functional variants every design system has.
pub open spec fn builtin_functional_variants() -> Seq<Seq<char>> {
    seq![
        "aria"@,
        "data"@,
        "nth"@,
        "nth-last"@,
        "nth-of-type"@,
        "nth-last-of-type"@,
        "supports"@,
        "max"@,
        "min"@,
        "@max"@,
        "@"@,
        "@min"@
    ]
}

/// The compound variants every design system has.
pub open spec fn builtin_compound_variants() -> Seq<Seq<char>> {
    seq![
        "not"@,
        "group"@,
        "peer"@,
        "has"@,
        "in"@
    ]
}

/// Whether a built-in functional variant wraps its rule in an at-rule.
pub open spec fn functional_variant_is_at_rule(root: Seq<char>) -> bool {
    root == "supports"@ || root == "max"@ || root == "min"@ || root == "@max"@ || root == "@"@ || root == "@min"@
}

/// The registration a design system gives a built-in variant root of the given kind
/// (0: static, 1: functional, 2: compound).
pub open spec fn builtin_registration(root: Seq<char>, kind: int) -> VariantRegistration {
    if kind == 0 {
        VariantRegistration::Static {
            order: spec_builtin_variant_order(root),
            compounds: Compounds { bits: if spec_builtin_variant_is_global(root) { 2 } else { 1 } },
        }
    } else if kind == 1 {
        VariantRegistration::Functional {
            order: spec_builtin_variant_order(root),
            compounds: Compounds { bits: if functional_variant_is_at_rule(root) { 2 } else { 1 } },
        }
    } else {
        VariantRegistration::Compound {
            order: spec_builtin_variant_order(root),
            compounds: Compounds { bits: 1 },
            compounds_with: Compounds { bits: if root == "not"@ { 3 } else { 1 } },
        }
    }
}

/// `m` after registering each of `roots`, in order, as a built-in variant of the given kind.
pub open spec fn register_roots(m: Map<Seq<char>, VariantRegistration>, roots: Seq<Seq<char>>, kind: int) -> Map<Seq<char>, VariantRegistration>
    decreases roots.len(),
{
    if roots.len() == 0 {
        m
    } else {
        register_roots(m, roots.drop_last(), kind).insert(roots.last(), builtin_registration(roots.last(), kind))
    }
}

/// The variants of a design system before its stylesheets are applied.
pub open spec fn builtin_variant_map() -> Map<Seq<char>, VariantRegistration> {
    register_roots(
        register_roots(register_roots(Map::empty(), builtin_static_variants(), 0), builtin_functional_variants(), 1),
        builtin_compound_variants(),
        2,
    )
}

fn static_variant_table() -> (t: Vec<&'static str>)
    ensures
        t@.len() == builtin_static_variants().len(),
        forall|k: int| 0 <= k < t@.len() ==> (#[trigger] t@[k])@ == builtin_static_variants()[k],
{
    vec![
        "*",
        "**",
        "first-letter",
        "first-line",
        "marker",
        "selection",
        "file",
        "placeholder",
        "backdrop",
        "details-content",
        "before",
        "after",
        "first",
        "last",
        "only",
        "odd",
        "even",
        "first-of-type",
        "last-of-type",
        "only-of-type",
        "visited",
        "target",
        "open",
        "default",
        "checked",
        "indeterminate",
        "placeholder-shown",
        "autofill",
        "optional",
        "required",
        "valid",
        "invalid",
        "user-valid",
        "user-invalid",
        "in-range",
        "out-of-range",
        "read-only",
        "empty",
        "focus-within",
        "hover",
        "focus",
        "focus-visible",
        "active",
        "enabled",
        "disabled",
        "inert",
        "motion-safe",
        "motion-reduce",
        "contrast-more",
        "contrast-less",
        "portrait",
        "landscape",
        "ltr",
        "rtl",
        "dark",
        "starting",
        "print",
        "forced-colors",
        "inverted-colors",
        "pointer-none",
        "pointer-coarse",
        "pointer-fine",
        "any-pointer-none",
        "any-pointer-coarse",
        "any-pointer-fine",
        "noscript"
    ]
}

fn functional_variant_table() -> (t: Vec<&'static str>)
    ensures
        t@.len() == builtin_functional_variants().len(),
        forall|k: int| 0 <= k < t@.len() ==> (#[trigger] t@[k])@ == builtin_functional_variants()[k],
{
    vec![
        "aria",
        "data",
        "nth",
        "nth-last",
        "nth-of-type",
        "nth-last-of-type",
        "supports",
        "max",
        "min",
        "@max",
        "@",
        "@min"
    ]
}

fn compound_variant_table() -> (t: Vec<&'static str>)
    ensures
        t@.len() == builtin_compound_variants().len(),
        forall|k: int| 0 <= k < t@.len() ==> (#[trigger] t@[k])@ == builtin_compound_variants()[k],
{
    vec![
        "not",
        "group",
        "peer",
        "has",
        "in"
    ]
}

fn builtin_registration_exec(root: &str, kind: u8) -> (r: VariantRegistration)
    requires
        kind <= 2,
    ensures
        r == builtin_registration(root@, kind as int),
{
    let order = builtin_variant_order(root);
    if kind == 0 {
        VariantRegistration::Static {
            order,
            compounds: if builtin_variant_is_global(root) { Compounds::at_rules() } else { Compounds::style_rules() },
        }
    } else if kind == 1 {
        let at_rule = str_eq(root, "supports") || str_eq(root, "max") || str_eq(root, "min") || str_eq(root, "@max")
            || str_eq(root, "@") || str_eq(root, "@min");
        VariantRegistration::Functional {
            order,
            compounds: if at_rule { Compounds::at_rules() } else { Compounds::style_rules() },
        }
    } else {
        VariantRegistration::Compound {
            order,
            compounds: Compounds::style_rules(),
            compounds_with: if str_eq(root, "not") { Compounds { bits: 3 } } else { Compounds::style_rules() },
        }
    }
}

fn register_table(variants: &mut VariantMap, table: &Vec<&'static str>, kind: u8, Ghost(roots): Ghost<Seq<Seq<char>>>)
    requires
        kind <= 2,
        table@.len() == roots.len(),
        forall|k: int| 0 <= k < table@.len() ==> (#[trigger] table@[k])@ == roots[k],
    ensures
        variant_map_contents(*final(variants)) == register_roots(variant_map_contents(*old(variants)), roots, kind as int),
{
    let ghost start = variant_map_contents(*variants);
    let mut i: usize = 0;
    while i < table.len()
        invariant
            kind <= 2,
            table@.len() == roots.len(),
            forall|k: int| 0 <= k < table@.len() ==> (#[trigger] table@[k])@ == roots[k],
            i <= table@.len(),
            variant_map_contents(*variants) == register_roots(start, roots.take(i as int), kind as int),
        decreases table.len() - i,
    {
        let root = table[i];
        let registration = builtin_registration_exec(root, kind);
        variants.insert(root, registration);
        assert(roots.take(i + 1).drop_last() =~= roots.take(i as int));
        i = i + 1;
    }
    assert(roots.take(roots.len() as int) =~= roots);
}

fn insert_names(set: &mut NameSet, names: &Vec<&str>)
    ensures
        name_set_contents(*final(set)) == name_set_contents(*old(set)).union(views(names@).to_set()),
{
    let ghost start = name_set_contents(*set);
    let mut i: usize = 0;
    while i < names.len()
        invariant
            i <= names@.len(),
            name_set_contents(*set) == start.union(views(names@).take(i as int).to_set()),
        decreases names.len() - i,
    {
        set.insert(names[i]);
        proof {
            let all = views(names@);
            assert(all.take(i + 1) =~= all.take(i as int).push(all[i as int]));
            assert(all.take(i + 1).to_set() =~= all.take(i as int).to_set().insert(all[i as int])) by {
                broadcast use vstd::seq_lib::group_seq_properties;
            }
        }
        i = i + 1;
    }
    assert(views(names@).take(i as int) =~= views(names@));
}

/// Whether `m` is the largest order of the registrations in `variants`, or 0 when there are none.
pub open spec fn is_max_order(variants: Map<Seq<char>, VariantRegistration>, m: u32) -> bool {
    &&& forall|root: Seq<char>| variants.contains_key(root) ==> (#[trigger] variants[root]).spec_order() <= m
    &&& (m == 0 || exists|root: Seq<char>| variants.contains_key(root) && (#[trigger] variants[root]).spec_order() == m)
}

/// Whether `d` is a design system as `DesignSystem::new` makes it: the built-in variants, no
/// prefix, theme, utilities or component classes, and the given generation.
pub open spec fn fresh_design(d: DesignSystem, generation: u64) -> bool {
    &&& d.prefix is None
    &&& text_map_contents(d.theme).dom() == Set::<Seq<char>>::empty()
    &&& name_set_contents(d.static_utilities) == Set::<Seq<char>>::empty()
    &&& name_set_contents(d.functional_utilities) == Set::<Seq<char>>::empty()
    &&& name_set_contents(d.negative_utilities) == Set::<Seq<char>>::empty()
    &&& variant_map_contents(d.variants) == builtin_variant_map()
    &&& name_set_contents(d.global_variants) == Set::<Seq<char>>::empty()
    &&& name_set_contents(d.local_variants) == Set::<Seq<char>>::empty()
    &&& property_map_contents(d.custom_utilities).dom() == Set::<Seq<char>>::empty()
    &&& name_set_contents(d.component_classes) == Set::<Seq<char>>::empty()
    &&& d.generation == generation
}

impl DesignSystem {
    /// A design system with the built-in variants, no theme and no utilities. Tailwind's lists
    /// of built-in utilities are not part of this library: a design system knows the utilities
    /// its stylesheets declare with `@utility`, and those that `register_utilities` adds.
    pub fn new(generation: u64, dependencies: Vec<Dependency>) -> (r: DesignSystem)
        ensures
            r.prefix is None,
            text_map_contents(r.theme).dom() == Set::<Seq<char>>::empty(),
            name_set_contents(r.static_utilities) == Set::<Seq<char>>::empty(),
            name_set_contents(r.functional_utilities) == Set::<Seq<char>>::empty(),
            name_set_contents(r.negative_utilities) == Set::<Seq<char>>::empty(),
            variant_map_contents(r.variants) == builtin_variant_map(),
            name_set_contents(r.global_variants) == Set::<Seq<char>>::empty(),
            name_set_contents(r.local_variants) == Set::<Seq<char>>::empty(),
            property_map_contents(r.custom_utilities).dom() == Set::<Seq<char>>::empty(),
            name_set_contents(r.component_classes) == Set::<Seq<char>>::empty(),
            r.dependencies == dependencies,
            r.generation == generation,
    {
        let mut variants = VariantMap::new();
        proof {
            assert(variant_map_contents(variants) =~= Map::<Seq<char>, VariantRegistration>::empty());
        }
        register_table(&mut variants, &static_variant_table(), 0, Ghost(builtin_static_variants()));
        register_table(&mut variants, &functional_variant_table(), 1, Ghost(builtin_functional_variants()));
        register_table(&mut variants, &compound_variant_table(), 2, Ghost(builtin_compound_variants()));
        DesignSystem {
            prefix: None,
            theme: TextMap::new(),
            static_utilities: NameSet::new(),
            functional_utilities: NameSet::new(),
            negative_utilities: NameSet::new(),
            variants,
            global_variants: NameSet::new(),
            local_variants: NameSet::new(),
            custom_utilities: PropertyMap::new(),
            component_classes: NameSet::new(),
            dependencies,
            generation,
        }
    }

    /// Registers built-in utilities: `statics` as static utilities, `functionals` as functional
    /// ones, and `negatives` as functional utilities that also take a negative spelling
    /// (`-mt-2`). Nothing else changes.
    pub fn register_utilities(&mut self, statics: &Vec<&str>, functionals: &Vec<&str>, negatives: &Vec<&str>)
        ensures
            name_set_contents(final(self).static_utilities)
                == name_set_contents(old(self).static_utilities).union(views(statics@).to_set()),
            name_set_contents(final(self).functional_utilities)
                == name_set_contents(old(self).functional_utilities).union(views(functionals@).to_set()).union(views(negatives@).to_set()),
            name_set_contents(final(self).negative_utilities)
                == name_set_contents(old(self).negative_utilities).union(views(negatives@).to_set()),
            final(self).prefix == old(self).prefix,
            final(self).theme == old(self).theme,
            final(self).variants == old(self).variants,
            final(self).global_variants == old(self).global_variants,
            final(self).local_variants == old(self).local_variants,
            final(self).custom_utilities == old(self).custom_utilities,
            final(self).component_classes == old(self).component_classes,
            final(self).dependencies == old(self).dependencies,
            final(self).generation == old(self).generation,
    {
        insert_names(&mut self.static_utilities, statics);
        insert_names(&mut self.functional_utilities, functionals);
        insert_names(&mut self.functional_utilities, negatives);
        insert_names(&mut self.negative_utilities, negatives);
    }

    pub fn generation(&self) -> (r: u64)
        ensures
            r == self.generation,
    {
        self.generation
    }

    pub fn prefix(&self) -> (r: Option<&str>)
        ensures
            match r {
                Some(p) => self.prefix matches Some(q) && p@ == q@,
                None => self.prefix is None,
            },
    {
        match &self.prefix {
            Some(prefix) => Some(prefix.as_str()),
            None => None,
        }
    }

    pub fn dependencies(&self) -> (r: &[Dependency])
        ensures
            r@ == self.dependencies@,
    {
        self.dependencies.as_slice()
    }

    pub fn theme_value(&self, name: &str) -> (r: Option<&str>)
        ensures
            r is Some <==> text_map_contents(self.theme).contains_key(name@),
            r matches Some(v) ==> v@ == text_map_contents(self.theme)[name@],
    {
        self.theme.get(name)
    }

    pub open spec fn spec_has_static_utility(&self, root: Seq<char>) -> bool {
        name_set_contents(self.static_utilities).contains(root)
    }

    /// A root is a functional utility when the design system registers it, or when it is the
    /// negative spelling of a root that allows one.
    pub open spec fn spec_has_functional_utility(&self, root: Seq<char>) -> bool {
        name_set_contents(self.functional_utilities).contains(root)
            || (root.len() > 0 && root[0] == '-' && name_set_contents(self.negative_utilities).contains(root.drop_first()))
    }

    pub fn has_static_utility(&self, root: &str) -> (r: bool)
        ensures
            r == self.spec_has_static_utility(root@),
    {
        self.static_utilities.contains(root)
    }

    pub fn has_functional_utility(&self, root: &str) -> (r: bool)
        ensures
            r == self.spec_has_functional_utility(root@),
    {
        if self.functional_utilities.contains(root) {
            return true;
        }
        proof {
            reveal_strlit("-");
        }
        match strip_prefix(root, "-") {
            Some(positive) => {
                assert(positive@ =~= root@.drop_first());
                self.negative_utilities.contains(positive)
            },
            None => {
                proof {
                    assert("-"@ =~= seq!['-']);
                    if root@.len() > 0 && root@[0] == '-' {
                        assert(root@.subrange(0, 1) =~= seq!['-']);
                    }
                }
                false
            },
        }
    }

    pub open spec fn spec_utility_kind(&self, root: Seq<char>) -> Option<UtilityKind> {
        if self.spec_has_static_utility(root) {
            Some(UtilityKind::Static)
        } else if self.spec_has_functional_utility(root) {
            Some(UtilityKind::Functional)
        } else {
            None
        }
    }

    pub fn utility_kind(&self, root: &str) -> (r: Option<UtilityKind>)
        ensures
            r == self.spec_utility_kind(root@),
    {
        if self.has_static_utility(root) {
            Some(UtilityKind::Static)
        } else if self.has_functional_utility(root) {
            Some(UtilityKind::Functional)
        } else {
            None
        }
    }

    pub open spec fn spec_variant_registration(&self, root: Seq<char>) -> Option<VariantRegistration> {
        if variant_map_contents(self.variants).contains_key(root) {
            Some(variant_map_contents(self.variants)[root])
        } else {
            None
        }
    }

    pub fn variant_registration(&self, root: &str) -> (r: Option<VariantRegistration>)
        ensures
            r == self.spec_variant_registration(root@),
    {
        self.variants.get(root)
    }

    pub open spec fn spec_custom_utility_properties(&self, root: Seq<char>) -> Option<Seq<Seq<char>>> {
        if property_map_contents(self.custom_utilities).contains_key(root) {
            Some(property_map_contents(self.custom_utilities)[root])
        } else {
            None
        }
    }

    /// The properties a stylesheet `@utility` sets, for a root it declares.
    pub fn custom_utility_properties(&self, root: &str) -> (r: Option<Vec<String>>)
        ensures
            match r {
                Some(v) => self.spec_custom_utility_properties(root@) == Some(v@.map_values(|p: String| p@)),
                None => self.spec_custom_utility_properties(root@) is None,
            },
    {
        self.custom_utilities.get(root)
    }

    pub fn has_component_class(&self, class_name: &str) -> (r: bool)
        ensures
            r == name_set_contents(self.component_classes).contains(class_name@),
    {
        self.component_classes.contains(class_name)
    }

    /// A variant is global when it wraps rules in an at-rule: a stylesheet can declare a
    /// variant either way, and otherwise the built-in table decides.
    pub open spec fn spec_variant_is_global(&self, root: Seq<char>) -> bool {
        !name_set_contents(self.local_variants).contains(root)
            && (name_set_contents(self.global_variants).contains(root) || spec_builtin_variant_is_global(root))
    }

    pub fn variant_is_global(&self, root: &str) -> (r: bool)
        ensures
            r == self.spec_variant_is_global(root@),
    {
        !self.local_variants.contains(root)
            && (self.global_variants.contains(root) || builtin_variant_is_global(root))
    }

    /// The order after every registered variant's, capped at `u32::MAX`.
    pub fn next_variant_order(&self) -> (r: u32)
        ensures
            exists|m: u32| #[trigger] is_max_order(variant_map_contents(self.variants), m)
                && r == if m == u32::MAX { u32::MAX } else { (m + 1) as u32 },
    {
        let registrations = self.variants.registrations();
        let mut max: u32 = 0;
        let mut i: usize = 0;
        while i < registrations.len()
            invariant
                i <= registrations@.len(),
                forall|k: int| 0 <= k < i ==> (#[trigger] registrations@[k]).spec_order() <= max,
                max == 0 || exists|k: int| 0 <= k < i && (#[trigger] registrations@[k]).spec_order() == max,
            decreases registrations.len() - i,
        {
            let order = registrations[i].order();
            if order > max {
                max = order;
            }
            i = i + 1;
        }
        let ghost contents = variant_map_contents(self.variants);
        assert forall|root: Seq<char>| contents.contains_key(root) implies (#[trigger] contents[root]).spec_order() <= max by {
            let k = choose|k: int| 0 <= k < registrations@.len() && #[trigger] registrations@[k] == contents[root];
        }
        proof {
            if max != 0 {
                let k = choose|k: int| 0 <= k < registrations@.len() && (#[trigger] registrations@[k]).spec_order() == max;
                assert(registrations@[k].spec_order() == max);
                let root = choose|root: Seq<char>| contents.contains_key(root) && contents[root] == #[trigger] registrations@[k];
                assert(contents[root].spec_order() == max);
            }
            assert(is_max_order(contents, max));
        }
        if max == u32::MAX { u32::MAX } else { max + 1 }
    }
}

} // verus!
