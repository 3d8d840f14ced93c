//! Concrete instances of generic types and the C structs generated for them.
use vstd::prelude::*;
use crate::ast::{type_fields_model, types_model, lemma_types_model, Field, SpecType, Type};
use crate::name_map::{assoc_get, NameMap};
use crate::text::{join_strings, seq_join, strings_model};

verus! {

/// Name of a concrete instance of a generic type: the base name, then each
/// type argument, all joined by `_` (just the base name without arguments).
pub open spec fn spec_mangled_name(base: Seq<char>, args: Seq<Seq<char>>) -> Seq<char> {
    if args.len() == 0 {
        base
    } else {
        base + "_"@ + seq_join(args, "_"@)
    }
}

/// Computes [`spec_mangled_name`].
pub fn mangle(base: &String, args: &Vec<String>) -> (res: String)
    ensures
        res@ == spec_mangled_name(base@, strings_model(args@)),
{
    if args.len() == 0 {
        base.clone()
    } else {
        let mut res = base.clone();
        res.append("_");
        let joined = join_strings(args, "_");
        res.append(joined.as_str());
        res
    }
}

/// A concrete instance of a generic type, such as `Array[Integer]`.
#[derive(Debug, PartialEq, Eq, Hash)]
pub struct MonomorphicType {
    pub base_name: String,
    pub type_args: Vec<String>,
}

/// Model of a [`MonomorphicType`].
pub struct SpecMonomorph {
    pub base_name: Seq<char>,
    pub type_args: Seq<Seq<char>>,
}

impl View for MonomorphicType {
    type V = SpecMonomorph;

    open spec fn view(&self) -> SpecMonomorph {
        SpecMonomorph { base_name: self.base_name@, type_args: strings_model(self.type_args@) }
    }
}

impl MonomorphicType {
    pub fn new(base_name: String, type_args: Vec<String>) -> (res: Self)
        ensures
            res.base_name == base_name,
            res.type_args == type_args,
    {
        Self { base_name, type_args }
    }

    pub fn mangled_name(&self) -> (res: String)
        ensures
            res@ == spec_mangled_name(self.base_name@, strings_model(self.type_args@)),
    {
        mangle(&self.base_name, &self.type_args)
    }
}


/// Position of the first occurrence of `x` in `v`.
pub open spec fn first_index(v: Seq<Seq<char>>, x: Seq<char>) -> Option<int>
    decreases v.len(),
{
    if v.len() == 0 {
        None
    } else if v[0] == x {
        Some(0)
    } else {
        match first_index(v.drop_first(), x) {
            Some(i) => Some(i + 1),
            None => None,
        }
    }
}

/// The concrete type that replaces a parameter name: the argument at the
/// parameter's first position, if there is one there.
pub open spec fn concrete_for(params: Seq<Seq<char>>, concrete: Seq<Seq<char>>, name: Seq<char>) -> Option<Seq<char>> {
    match first_index(params, name) {
        Some(i) => if 0 <= i < concrete.len() {
            Some(concrete[i])
        } else {
            None
        },
        None => None,
    }
}

/// A type with its type parameters replaced by concrete type names (as
/// custom types), through pointers and generic arguments.
pub open spec fn spec_substitute(t: SpecType, params: Seq<Seq<char>>, concrete: Seq<Seq<char>>) -> SpecType
    decreases t, 1nat,
{
    match t {
        SpecType::Custom(name) => match concrete_for(params, concrete, name) {
            Some(c) => SpecType::Custom(c),
            None => SpecType::Custom(name),
        },
        SpecType::Pointer(inner) => SpecType::Pointer(Box::new(spec_substitute(*inner, params, concrete))),
        SpecType::Generic { name, type_params } => SpecType::Generic {
            name,
            type_params: substitute_all(type_params, params, concrete),
        },
        SpecType::TypeParameter(p) => match concrete_for(params, concrete, p) {
            Some(c) => SpecType::Custom(c),
            None => SpecType::TypeParameter(p),
        },
        _ => t,
    }
}

/// [`spec_substitute`] on each type of a list.
pub open spec fn substitute_all(ts: Seq<SpecType>, params: Seq<Seq<char>>, concrete: Seq<Seq<char>>) -> Seq<SpecType>
    decreases ts, 0nat,
{
    if ts.len() == 0 {
        Seq::empty()
    } else {
        substitute_all(ts.subrange(0, ts.len() - 1), params, concrete).push(
            spec_substitute(ts[ts.len() - 1], params, concrete),
        )
    }
}

pub proof fn lemma_substitute_all(ts: Seq<SpecType>, params: Seq<Seq<char>>, concrete: Seq<Seq<char>>)
    ensures
        substitute_all(ts, params, concrete).len() == ts.len(),
        forall|i: int|
            0 <= i < ts.len() ==> substitute_all(ts, params, concrete)[i] == spec_substitute(
                #[trigger] ts[i],
                params,
                concrete,
            ),
    decreases ts.len(),
{
    if ts.len() > 0 {
        let pre = ts.subrange(0, ts.len() - 1);
        lemma_substitute_all(pre, params, concrete);
        assert forall|i: int| 0 <= i < ts.len() - 1 implies #[trigger] ts[i] == pre[i] by {}
    }
}

/// First position of `name` in `params`.
fn position_of(params: &[String], name: &String) -> (res: Option<usize>)
    ensures
        match first_index(strings_model(params@), name@) {
            Some(i) => 0 <= i < params@.len() && (res matches Some(k) && k as int == i),
            None => res is None,
        },
{
    let ghost model = strings_model(params@);
    assert(model.subrange(0, model.len() as int) =~= model);
    let mut i: usize = 0;
    while i < params.len()
        invariant
            i <= params@.len(),
            model == strings_model(params@),
            first_index(model, name@) == match first_index(model.subrange(i as int, model.len() as int), name@) {
                Some(j) => Some(j + i),
                None => None,
            },
        decreases params@.len() - i,
    {
        let ghost rest = model.subrange(i as int, model.len() as int);
        assert(rest.drop_first() =~= model.subrange(i + 1, model.len() as int));
        if params[i] == *name {
            return Some(i);
        }
        i = i + 1;
    }
    assert(model.subrange(i as int, model.len() as int) =~= Seq::<Seq<char>>::empty());
    None
}

/// The concrete name for a parameter name, as [`concrete_for`] gives it.
fn lookup_concrete(type_params: &[String], concrete_types: &[String], name: &String) -> (res: Option<String>)
    ensures
        match concrete_for(strings_model(type_params@), strings_model(concrete_types@), name@) {
            Some(c) => res matches Some(r) && r@ == c,
            None => res is None,
        },
{
    let ghost ps = strings_model(type_params@);
    let ghost cs = strings_model(concrete_types@);
    match position_of(type_params, name) {
        Some(i) => {
            assert(first_index(ps, name@) == Some(i as int));
            if i < concrete_types.len() {
                assert(cs[i as int] == concrete_types@[i as int]@);
                Some(concrete_types[i].clone())
            } else {
                assert(concrete_for(ps, cs, name@) is None);
                None
            }
        },
        None => None,
    }
}

/// Replaces type parameters by concrete type names in a field type.
pub fn substitute_type_params(generic_type: &Type, type_params: &[String], concrete_types: &[String]) -> (res: Type)
    ensures
        res@ == spec_substitute(generic_type@, strings_model(type_params@), strings_model(concrete_types@)),
    decreases generic_type, 1nat,
{
    match generic_type {
        Type::Custom(name) => match lookup_concrete(type_params, concrete_types, name) {
            Some(c) => Type::Custom(c),
            None => Type::Custom(name.clone()),
        },
        Type::Pointer(inner) => {
            let s = substitute_type_params(&**inner, type_params, concrete_types);
            Type::Pointer(Box::new(s))
        },
        Type::Generic { name, type_params: generic_params } => {
            let args = substitute_list(generic_params, type_params, concrete_types);
            Type::Generic { name: name.clone(), type_params: args }
        },
        Type::TypeParameter(param) => match lookup_concrete(type_params, concrete_types, param) {
            Some(c) => Type::Custom(c),
            None => Type::TypeParameter(param.clone()),
        },
        Type::String => Type::String,
        Type::Integer => Type::Integer,
        Type::Bool => Type::Bool,
        Type::Array(inner) => Type::Array(Box::new(crate::ast::clone_type(&**inner))),
    }
}

fn substitute_list(ts: &Vec<Type>, type_params: &[String], concrete_types: &[String]) -> (res: Vec<Type>)
    ensures
        types_model(res@) == substitute_all(types_model(ts@), strings_model(type_params@), strings_model(concrete_types@)),
    decreases ts@, 0nat,
{
    let ghost ps = strings_model(type_params@);
    let ghost cs = strings_model(concrete_types@);
    let mut res: Vec<Type> = Vec::new();
    let mut i: usize = 0;
    while i < ts.len()
        invariant
            i <= ts.len(),
            ps == strings_model(type_params@),
            cs == strings_model(concrete_types@),
            res@.len() == i,
            forall|j: int| 0 <= j < i ==> (#[trigger] res@[j])@ == spec_substitute(ts@[j]@, ps, cs),
        decreases ts.len() - i,
    {
        proof {
            assert(decreases_to!(ts@ => ts@[i as int]));
        }
        let t = substitute_type_params(&ts[i], type_params, concrete_types);
        res.push(t);
        i = i + 1;
    }
    proof {
        lemma_types_model(res@);
        lemma_types_model(ts@);
        lemma_substitute_all(types_model(ts@), ps, cs);
        assert forall|j: int| 0 <= j < ts@.len() implies types_model(res@)[j] == substitute_all(
            types_model(ts@),
            ps,
            cs,
        )[j] by {
            assert(res@[j]@ == spec_substitute(ts@[j]@, ps, cs));
        }
        assert(types_model(res@) =~= substitute_all(types_model(ts@), ps, cs));
    }
    res
}

/// `    type name;` lines, one per (type text, field name) pair.
pub open spec fn field_lines(fs: Seq<(Seq<char>, Seq<char>)>) -> Seq<char>
    decreases fs.len(),
{
    if fs.len() == 0 {
        Seq::empty()
    } else {
        field_lines(fs.drop_last()) + "    "@ + fs.last().0 + " "@ + fs.last().1 + ";\n"@
    }
}

/// A C struct typedef with the given fields.
pub open spec fn struct_text(name: Seq<char>, fs: Seq<(Seq<char>, Seq<char>)>) -> Seq<char> {
    "typedef struct {\n"@ + field_lines(fs) + "} "@ + name + ";\n\n"@
}

/// Whether `type_to_c` may have rendered the model type `t` as `s`.
pub open spec fn renders<F: Fn(&Type) -> String>(type_to_c: F, t: SpecType, s: Seq<char>) -> bool {
    exists|ty: Type, out: String| ty@ == t && out@ == s && #[trigger] call_ensures(type_to_c, (&ty,), out)
}

/// Whether `text` is the struct of a concrete instance, its field types
/// being what `type_to_c` rendered for the substituted field types.
pub open spec fn built_from<F: Fn(&Type) -> String>(
    type_to_c: F,
    name: Seq<char>,
    fields: Seq<(Seq<char>, SpecType)>,
    params: Seq<Seq<char>>,
    concrete: Seq<Seq<char>>,
    type_texts: Seq<Seq<char>>,
    text: Seq<char>,
) -> bool {
    &&& type_texts.len() == fields.len()
    &&& forall|i: int|
        0 <= i < fields.len() ==> renders(type_to_c, spec_substitute(fields[i].1, params, concrete), #[trigger] type_texts[i])
    &&& text == struct_text(name, Seq::new(fields.len(), |i: int| (type_texts[i], fields[i].0)))
}

/// The generic type definitions, the instances required so far and the
/// struct text generated for each instance.
pub struct Monomorphizer {
    generic_types: NameMap<(Vec<String>, Vec<Field>)>,
    required_monomorphs: Vec<MonomorphicType>,
    generated_monomorphs: Vec<(MonomorphicType, String)>,
}

/// Whether two monomorphs are the same instance.
pub fn same_monomorph(a: &MonomorphicType, b: &MonomorphicType) -> (res: bool)
    ensures
        res == (a@ == b@),
{
    if a.base_name != b.base_name || a.type_args.len() != b.type_args.len() {
        assert(a.base_name@ != b.base_name@ || strings_model(a.type_args@).len() != strings_model(b.type_args@).len()) by {
        }
        return false;
    }
    let mut i: usize = 0;
    while i < a.type_args.len()
        invariant
            i <= a.type_args@.len(),
            a.type_args@.len() == b.type_args@.len(),
            forall|j: int| 0 <= j < i ==> a.type_args@[j]@ == b.type_args@[j]@,
        decreases a.type_args@.len() - i,
    {
        if a.type_args[i] != b.type_args[i] {
            assert(strings_model(a.type_args@)[i as int] != strings_model(b.type_args@)[i as int]);
            return false;
        }
        i = i + 1;
    }
    assert(strings_model(a.type_args@) =~= strings_model(b.type_args@));
    true
}

/// A copy of a monomorph.
pub fn copy_monomorph(m: &MonomorphicType) -> (res: MonomorphicType)
    ensures
        res@ == m@,
{
    let mut args: Vec<String> = Vec::new();
    let mut i: usize = 0;
    while i < m.type_args.len()
        invariant
            i <= m.type_args@.len(),
            args@.len() == i,
            forall|j: int| 0 <= j < i ==> args@[j]@ == m.type_args@[j]@,
        decreases m.type_args@.len() - i,
    {
        args.push(m.type_args[i].clone());
        i = i + 1;
    }
    assert(strings_model(args@) =~= strings_model(m.type_args@));
    MonomorphicType { base_name: m.base_name.clone(), type_args: args }
}

/// The instances in a list, as a set.
pub open spec fn monomorph_set(v: Seq<MonomorphicType>) -> Set<SpecMonomorph> {
    Set::new(|m: SpecMonomorph| exists|i: int| 0 <= i < v.len() && v[i]@ == m)
}

/// No instance occurs twice in the list.
pub open spec fn distinct_monomorphs(v: Seq<MonomorphicType>) -> bool {
    forall|i: int, j: int| 0 <= i < j < v.len() ==> v[i]@ != v[j]@
}

/// The generated text cached for an instance, if any.
pub open spec fn cached_text(v: Seq<(MonomorphicType, String)>, m: SpecMonomorph) -> Option<Seq<char>> {
    if exists|i: int| 0 <= i < v.len() && v[i].0@ == m {
        let i = choose|i: int| 0 <= i < v.len() && v[i].0@ == m;
        Some(v[i].1@)
    } else {
        None
    }
}

impl Monomorphizer {
    /// The registered definition of a generic type: parameter names and fields.
    pub closed spec fn definition(&self, name: Seq<char>) -> Option<(Seq<Seq<char>>, Seq<(Seq<char>, SpecType)>)> {
        match assoc_get(self.generic_types@, name) {
            Some(d) => Some((strings_model(d.0@), type_fields_model(d.1@))),
            None => None,
        }
    }

    /// The instances required so far.
    pub closed spec fn required(&self) -> Set<SpecMonomorph> {
        monomorph_set(self.required_monomorphs@)
    }

    /// The struct text generated so far for an instance.
    pub closed spec fn generated(&self, m: SpecMonomorph) -> Option<Seq<char>> {
        cached_text(self.generated_monomorphs@, m)
    }

    pub closed spec fn wf(&self) -> bool {
        &&& distinct_monomorphs(self.required_monomorphs@)
        &&& forall|i: int, j: int|
            0 <= i < j < self.generated_monomorphs@.len() ==> self.generated_monomorphs@[i].0@
                != self.generated_monomorphs@[j].0@
    }

    pub fn new() -> (res: Self)
        ensures
            res.wf(),
            forall|n: Seq<char>| res.definition(n) is None,
            res.required() == Set::<SpecMonomorph>::empty(),
            forall|m: SpecMonomorph| res.generated(m) is None,
    {
        let res = Self { generic_types: NameMap::new(), required_monomorphs: Vec::new(), generated_monomorphs: Vec::new() };
        assert(res.required() =~= Set::<SpecMonomorph>::empty());
        res
    }

    /// Registers (or replaces) a generic type definition.
    pub fn register_generic_type(&mut self, name: String, type_params: Vec<String>, fields: Vec<Field>)
        requires
            old(self).wf(),
        ensures
            final(self).wf(),
            final(self).definition(name@) == Some((strings_model(type_params@), type_fields_model(fields@))),
            forall|n: Seq<char>| n != name@ ==> final(self).definition(n) == old(self).definition(n),
            final(self).required() == old(self).required(),
            forall|m: SpecMonomorph| final(self).generated(m) == old(self).generated(m),
    {
        let ghost n = name@;
        let entry = (type_params, fields);
        let ghost gv = entry;
        self.generic_types.insert(name, entry);
        proof {
            assert forall|k: Seq<char>| k != n implies #[trigger] self.definition(k) == old(self).definition(k) by {
                crate::name_map::lemma_assoc_insert(old(self).generic_types@, n, gv, k);
            }
            crate::name_map::lemma_assoc_insert(old(self).generic_types@, n, gv, n);
        }
    }

    /// Whether the instance is already required.
    fn is_required(&self, m: &MonomorphicType) -> (res: bool)
        ensures
            res == self.required().contains(m@),
    {
        let reqs = &self.required_monomorphs;
        let mut i: usize = 0;
        while i < reqs.len()
            invariant
                i <= reqs@.len(),
                reqs@ == self.required_monomorphs@,
                forall|j: int| 0 <= j < i ==> reqs@[j]@ != m@,
            decreases reqs@.len() - i,
        {
            if same_monomorph(&reqs[i], m) {
                assert(reqs@[i as int]@ == m@);
                return true;
            }
            i = i + 1;
        }
        false
    }

    /// Position of the cached text of an instance.
    fn find_generated(&self, m: &MonomorphicType) -> (res: Option<usize>)
        requires
            self.wf(),
        ensures
            match res {
                Some(k) => k < self.generated_monomorphs@.len() && self.generated(m@) == Some(
                    self.generated_monomorphs@[k as int].1@,
                ),
                None => self.generated(m@) is None,
            },
    {
        let gens = &self.generated_monomorphs;
        let mut k: usize = 0;
        while k < gens.len()
            invariant
                k <= gens@.len(),
                gens@ == self.generated_monomorphs@,
                self.wf(),
                forall|j: int| 0 <= j < k ==> gens@[j].0@ != m@,
            decreases gens@.len() - k,
        {
            if same_monomorph(&gens[k].0, m) {
                proof {
                    let v = self.generated_monomorphs@;
                    assert(v[k as int].0@ == m@);
                    assert(exists|i: int| 0 <= i < v.len() && v[i].0@ == m@);
                    let c = choose|i: int| 0 <= i < v.len() && v[i].0@ == m@;
                    assert(c == k as int);
                }
                return Some(k);
            }
            k = k + 1;
        }
        None
    }

    /// Marks an instance as required; nothing changes if it already is.
    pub fn require_monomorph(&mut self, base_name: String, type_args: Vec<String>)
        requires
            old(self).wf(),
        ensures
            final(self).wf(),
            final(self).required() == old(self).required().insert(
                SpecMonomorph { base_name: base_name@, type_args: strings_model(type_args@) },
            ),
            forall|n: Seq<char>| final(self).definition(n) == old(self).definition(n),
            forall|m: SpecMonomorph| final(self).generated(m) == old(self).generated(m),
    {
        let monomorph = MonomorphicType::new(base_name, type_args);
        let ghost mv = monomorph@;
        if self.is_required(&monomorph) {
            assert(self.required() =~= old(self).required().insert(mv));
            return;
        }
        self.required_monomorphs.push(monomorph);
        assert(self.required() =~= old(self).required().insert(mv)) by {
            assert forall|m: SpecMonomorph| #[trigger] self.required().contains(m) <==> old(self).required().insert(mv).contains(m) by {
                if old(self).required().contains(m) {
                    let j = choose|j: int| 0 <= j < old(self).required_monomorphs@.len() && old(self).required_monomorphs@[j]@ == m;
                    assert(self.required_monomorphs@[j]@ == m);
                }
                if m == mv {
                    assert(self.required_monomorphs@[self.required_monomorphs@.len() - 1]@ == m);
                }
            }
        }
    }

    /// The C struct for an instance: the cached text if there is one,
    /// otherwise a typedef with the definition's fields, their types
    /// substituted and rendered by `type_to_c`, which is then cached.
    pub fn generate_monomorphic_struct(&mut self, monomorph: &MonomorphicType, type_to_c: impl Fn(&Type) -> String) -> (res: String)
        requires
            old(self).wf(),
            old(self).generated(monomorph@) is Some || old(self).definition(monomorph.base_name@) is Some,
            forall|t: &Type| #[trigger] type_to_c.requires((t,)),
        ensures
            final(self).wf(),
            forall|n: Seq<char>| final(self).definition(n) == old(self).definition(n),
            final(self).required() == old(self).required(),
            match old(self).generated(monomorph@) {
                Some(text) => res@ == text && forall|m: SpecMonomorph| final(self).generated(m) == old(self).generated(m),
                None => {
                    let d = old(self).definition(monomorph.base_name@).unwrap();
                    &&& exists|texts: Seq<Seq<char>>| #[trigger]
                        built_from(
                            type_to_c,
                            spec_mangled_name(monomorph.base_name@, monomorph@.type_args),
                            d.1,
                            d.0,
                            monomorph@.type_args,
                            texts,
                            res@,
                        )
                    &&& final(self).generated(monomorph@) == Some(res@)
                    &&& forall|m: SpecMonomorph| m != monomorph@ ==> final(self).generated(m) == old(self).generated(m)
                },
            },
    {
        match self.find_generated(monomorph) {
            Some(k) => {
                return self.generated_monomorphs[k].1.clone();
            },
            None => {},
        }
        assert(old(self).generated(monomorph@) is None);
        let def = match self.generic_types.get(monomorph.base_name.as_str()) {
            Some(d) => d,
            None => {
                return String::new();
            },
        };
        let ghost params = strings_model(def.0@);
        let ghost fields = type_fields_model(def.1@);
        let ghost cs = monomorph@.type_args;
        let mut result = String::new();
        result.append("typedef struct {\n");
        let ghost mut texts: Seq<Seq<char>> = Seq::empty();
        let mut i: usize = 0;
        while i < def.1.len()
            invariant
                i <= def.1@.len(),
                params == strings_model(def.0@),
                fields == type_fields_model(def.1@),
                cs == monomorph@.type_args,
                texts.len() == i,
                forall|j: int| 0 <= j < i ==> renders(type_to_c, spec_substitute(fields[j].1, params, cs), #[trigger] texts[j]),
                forall|t: &Type| #[trigger] type_to_c.requires((t,)),
                result@ == "typedef struct {\n"@ + field_lines(Seq::new(i as nat, |j: int| (texts[j], fields[j].0))),
            decreases def.1@.len() - i,
        {
            let field = &def.1[i];
            let concrete = substitute_type_params(&field.field_type, def.0.as_slice(), monomorph.type_args.as_slice());
            let text = type_to_c(&concrete);
            proof {
                assert(call_ensures(type_to_c, (&concrete,), text));
                assert(renders(type_to_c, spec_substitute(fields[i as int].1, params, cs), text@));
                let prev = Seq::new(i as nat, |j: int| (texts[j], fields[j].0));
                texts = texts.push(text@);
                let next = Seq::new((i + 1) as nat, |j: int| (texts[j], fields[j].0));
                assert(next.drop_last() =~= prev);
            }
            result.append("    ");
            result.append(text.as_str());
            result.append(" ");
            result.append(field.name.as_str());
            result.append(";\n");
            i = i + 1;
        }
        let struct_name = monomorph.mangled_name();
        result.append("} ");
        result.append(struct_name.as_str());
        result.append(";\n\n");
        proof {
            let d = old(self).definition(monomorph.base_name@).unwrap();
            assert(d.0 == params && d.1 == fields);
            assert(struct_name@ == spec_mangled_name(monomorph.base_name@, monomorph@.type_args));
            assert(built_from(type_to_c, struct_name@, fields, params, cs, texts, result@));
            assert(exists|tx: Seq<Seq<char>>| #[trigger]
                built_from(
                    type_to_c,
                    spec_mangled_name(monomorph.base_name@, monomorph@.type_args),
                    d.1,
                    d.0,
                    monomorph@.type_args,
                    tx,
                    result@,
                ));
        }
        let key = copy_monomorph(monomorph);
        let cached = result.clone();
        self.generated_monomorphs.push((key, cached));
        proof {
            let v = self.generated_monomorphs@;
            let last = v.len() - 1;
            assert forall|m: SpecMonomorph| m != monomorph@ implies #[trigger] self.generated(m) == old(self).generated(m) by {
                let ov = old(self).generated_monomorphs@;
                if exists|i: int| 0 <= i < ov.len() && ov[i].0@ == m {
                    let c = choose|i: int| 0 <= i < ov.len() && ov[i].0@ == m;
                    assert(v[c] == ov[c]);
                    let c2 = choose|i: int| 0 <= i < v.len() && v[i].0@ == m;
                    assert(c2 != last);
                    assert(v[c2] == ov[c2]);
                }
                if exists|i: int| 0 <= i < v.len() && v[i].0@ == m {
                    let c2 = choose|i: int| 0 <= i < v.len() && v[i].0@ == m;
                    assert(c2 != last);
                    assert(ov[c2] == v[c2]);
                }
            }
            assert(v[last].0@ == monomorph@);
            let c3 = choose|i: int| 0 <= i < v.len() && v[i].0@ == monomorph@;
            assert(c3 == last);
        }
        result
    }

    /// The instances required so far, each once.
    pub fn get_required_monomorphs(&self) -> (res: &Vec<MonomorphicType>)
        requires
            self.wf(),
        ensures
            monomorph_set(res@) == self.required(),
            distinct_monomorphs(res@),
    {
        &self.required_monomorphs
    }

    /// Whether a generic type of this name is registered.
    pub fn has_generic_type(&self, name: &str) -> (res: bool)
        ensures
            res == (self.definition(name@) is Some),
    {
        self.generic_types.contains_key(name)
    }
}

impl Default for Monomorphizer {
    fn default() -> (res: Self)
        ensures
            res.wf(),
            forall|n: Seq<char>| res.definition(n) is None,
            res.required() == Set::<SpecMonomorph>::empty(),
            forall|m: SpecMonomorph| res.generated(m) is None,
    {
        Self::new()
    }
}

} // verus!