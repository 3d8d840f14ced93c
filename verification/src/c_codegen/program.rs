//! Generic types, functions and whole programs.
use vstd::prelude::*;
use crate::ast::{
    clone_type, lemma_types_model, params_model, stmts_model, type_fields_model, types_model, Field, Parameter,
    native_model, NativeFunction, Program, SpecSignature, SpecStmt, SpecType, Statement, Type,
};
use crate::codegen::monomorphization::{
    concrete_for, copy_monomorph, mangle, same_monomorph, spec_mangled_name, struct_text, MonomorphicType,
    SpecMonomorph,
};
use crate::module::{all_functions, ModuleSystem};
use crate::name_map::{assoc_index, lemma_assoc_index, text_entries, assoc_get, lemma_map_values_get, lemma_map_values_insert, map_values};
use crate::text::{join_strings, owned, seq_join, string_is, strings_model};
use super::CCodeGen;
use super::expr::{arg_names, type_arg_names};
use super::program_spec::{
    add_req, analyze_expr, analyze_exprs, analyze_fields, analyze_nested, analyze_stmt, analyze_stmts, analyze_type,
    analyze_types, body_ok, cache_get, cg_c_type, cg_substitute, cg_substitute_all, fn_body, fn_param_c, fn_return_c,
    fn_text, gen_monos, mono_text, monos_defined, param_kind, param_kinds, type_arg_name, GenericDef,
};
use super::stmt_spec::{gen_ok, main_stmt, GenState};
use super::program_spec::{
    decl_pass, decl_step, first_native, functions_ok, module_fns_pass, module_scan, modules_ok, modules_program_text,
    code_pass, function_step, functions_text, header_text, main_wrapper, program_ok, program_text, typedef_defs,
    typedef_pass, typedef_text, Emitted,
};

verus! {

/// Model of a registered generic definition.
pub open spec fn def_model(d: (Vec<String>, Vec<Field>)) -> GenericDef {
    (strings_model(d.0@), type_fields_model(d.1@))
}

impl CCodeGen {
    /// The registered generic definitions.
    pub open spec fn defs(&self) -> Seq<(Seq<char>, GenericDef)> {
        map_values(self.generic_types@, |d: (Vec<String>, Vec<Field>)| def_model(d))
    }

    /// The instances required so far, in the order first required.
    pub open spec fn req(&self) -> Seq<SpecMonomorph> {
        Seq::new(self.required_monomorphs@.len(), |i: int| self.required_monomorphs@[i]@)
    }

    /// The struct texts generated so far.
    pub open spec fn cache(&self) -> Seq<(SpecMonomorph, Seq<char>)> {
        Seq::new(self.generated_monomorphs@.len(), |i: int| (self.generated_monomorphs@[i].0@, self.generated_monomorphs@[i].1@))
    }

    /// The C spelling of a type.
    fn type_to_c_string(&self, t: &Type) -> (res: String)
        ensures
            res@ == cg_c_type(t@),
        decreases t,
    {
        match t {
            Type::Integer => owned("int"),
            Type::String => owned("char*"),
            Type::Bool => owned("int"),
            Type::Pointer(inner) => {
                let mut r = self.type_to_c_string(&**inner);
                r.append("*");
                r
            },
            Type::Custom(n) => n.clone(),
            Type::Generic { name, type_params } => {
                let names = type_arg_names(type_params);
                mangle(name, &names)
            },
            _ => owned("void*"),
        }
    }

    /// A field type with type parameters replaced by concrete types.
    fn substitute_type_params(&self, generic_type: &Type, type_params: &[String], concrete_types: &[String]) -> (res: Type)
        ensures
            res@ == cg_substitute(generic_type@, strings_model(type_params@), strings_model(concrete_types@)),
        decreases generic_type, 1nat,
    {
        match generic_type {
            Type::Custom(name) => {
                let ghost ps = strings_model(type_params@);
                let ghost cs = strings_model(concrete_types@);
                match position_in(type_params, name) {
                    Some(i) => {
                        if i < concrete_types.len() {
                            assert(cs[i as int] == concrete_types@[i as int]@);
                            let c = &concrete_types[i];
                            if string_is(c, "Integer") {
                                Type::Integer
                            } else if string_is(c, "String") {
                                Type::String
                            } else if string_is(c, "Bool") {
                                Type::Bool
                            } else {
                                Type::Custom(c.clone())
                            }
                        } else {
                            Type::Custom(name.clone())
                        }
                    },
                    None => Type::Custom(name.clone()),
                }
            },
            Type::Pointer(inner) => {
                let s = self.substitute_type_params(&**inner, type_params, concrete_types);
                Type::Pointer(Box::new(s))
            },
            Type::Generic { name, type_params: inner_params } => {
                let res = self.substitute_list(inner_params, type_params, concrete_types);
                Type::Generic { name: name.clone(), type_params: res }
            },
            _ => clone_type(generic_type),
        }
    }

    fn substitute_list(&self, ts: &Vec<Type>, type_params: &[String], concrete_types: &[String]) -> (res: Vec<Type>)
        ensures
            types_model(res@) == cg_substitute_all(types_model(ts@), strings_model(type_params@), strings_model(concrete_types@)),
        decreases ts@, 0nat,
    {
        let ghost ps = strings_model(type_params@);
        let ghost cs = strings_model(concrete_types@);
        let mut res: Vec<Type> = Vec::new();
        let mut i: usize = 0;
        while i < ts.len()
            invariant
                i <= ts@.len(),
                ps == strings_model(type_params@),
                cs == strings_model(concrete_types@),
                res@.len() == i,
                forall|j: int| 0 <= j < i ==> (#[trigger] res@[j])@ == cg_substitute(ts@[j]@, ps, cs),
            decreases ts@.len() - i,
        {
            proof {
                assert(decreases_to!(ts@ => ts@[i as int]));
            }
            let t = self.substitute_type_params(&ts[i], type_params, concrete_types);
            res.push(t);
            i = i + 1;
        }
        proof {
            lemma_types_model(res@);
            lemma_types_model(ts@);
            lemma_cg_substitute_all(types_model(ts@), ps, cs);
            assert forall|j: int| 0 <= j < ts@.len() implies types_model(res@)[j] == cg_substitute_all(
                types_model(ts@),
                ps,
                cs,
            )[j] by {
                assert(res@[j]@ == cg_substitute(ts@[j]@, ps, cs));
            }
            assert(types_model(res@) =~= cg_substitute_all(types_model(ts@), ps, cs));
        }
        res
    }

    /// Registers a generic type definition.
    fn register_generic_type(&mut self, name: String, type_params: Vec<String>, fields: Vec<Field>)
        ensures
            final(self).defs() == crate::name_map::assoc_insert(
                old(self).defs(),
                name@,
                (strings_model(type_params@), type_fields_model(fields@)),
            ),
            final(self).gen() == old(self).gen(),
            final(self).functions == old(self).functions,
            final(self).has_user_main == old(self).has_user_main,
            final(self).required_monomorphs == old(self).required_monomorphs,
            final(self).generated_monomorphs == old(self).generated_monomorphs,
            final(self).required_libraries == old(self).required_libraries,
            final(self).symbol_table == old(self).symbol_table,
    {
        let d = (type_params, fields);
        let ghost gd = d;
        proof {
            lemma_map_values_insert(self.generic_types@, |d: (Vec<String>, Vec<Field>)| def_model(d), name@, gd);
        }
        self.generic_types.insert(name, d);
    }

    /// Whether an instance is already required.
    fn is_required(&self, m: &MonomorphicType) -> (res: bool)
        ensures
            res == self.req().contains(m@),
    {
        let reqs = &self.required_monomorphs;
        let mut i: usize = 0;
        while i < reqs.len()
            invariant
                i <= reqs@.len(),
                reqs@ == self.required_monomorphs@,
                forall|j: int| 0 <= j < i ==> reqs@[j]@ != m@,
            decreases reqs@.len() - i,
        {
            if same_monomorph(&reqs[i], m) {
                assert(self.req()[i as int] == m@);
                return true;
            }
            i = i + 1;
        }
        false
    }

    /// Marks an instance as required, once.
    fn require_monomorph(&mut self, base_name: String, type_args: Vec<String>)
        ensures
            final(self).req() == add_req(
                old(self).req(),
                SpecMonomorph { base_name: base_name@, type_args: strings_model(type_args@) },
            ),
            final(self).gen() == old(self).gen(),
            final(self).functions == old(self).functions,
            final(self).has_user_main == old(self).has_user_main,
            final(self).generic_types == old(self).generic_types,
            final(self).generated_monomorphs == old(self).generated_monomorphs,
            final(self).required_libraries == old(self).required_libraries,
            final(self).symbol_table == old(self).symbol_table,
    {
        let m = MonomorphicType::new(base_name, type_args);
        let ghost mv = m@;
        if self.is_required(&m) {
            return;
        }
        self.required_monomorphs.push(m);
        assert(self.req() =~= old(self).req().push(mv));
    }
}

impl CCodeGen {
    /// Only the required instances may have changed.
    pub open spec fn only_req_changed(&self, old: &Self) -> bool {
        &&& self.gen() == old.gen()
        &&& self.functions == old.functions
        &&& self.has_user_main == old.has_user_main
        &&& self.generic_types == old.generic_types
        &&& self.generated_monomorphs == old.generated_monomorphs
        &&& self.required_libraries == old.required_libraries
        &&& self.symbol_table == old.symbol_table
    }

    /// Names of a declared generic type's arguments.
    fn generic_arg_names(&self, ts: &Vec<Type>) -> (res: Vec<String>)
        ensures
            strings_model(res@) == Seq::new(types_model(ts@).len(), |j: int| type_arg_name(types_model(ts@)[j])),
    {
        proof {
            lemma_types_model(ts@);
        }
        let mut names: Vec<String> = Vec::new();
        let mut i: usize = 0;
        while i < ts.len()
            invariant
                i <= ts@.len(),
                types_model(ts@).len() == ts@.len(),
                forall|j: int| 0 <= j < ts@.len() ==> types_model(ts@)[j] == (#[trigger] ts@[j])@,
                names@.len() == i,
                forall|j: int| 0 <= j < i ==> (#[trigger] names@[j])@ == type_arg_name(ts@[j]@),
            decreases ts@.len() - i,
        {
            let n = match &ts[i] {
                Type::Generic { .. } => self.type_to_c_string(&ts[i]),
                Type::Integer => owned("Integer"),
                Type::String => owned("String"),
                Type::Bool => owned("Bool"),
                Type::Custom(n) => n.clone(),
                _ => owned("Unknown"),
            };
            names.push(n);
            i = i + 1;
        }
        assert(strings_model(names@) =~= Seq::new(types_model(ts@).len(), |j: int| type_arg_name(types_model(ts@)[j])));
        names
    }

    /// Requires the instances that a declared type needs.
    fn analyze_type_for_generic_usage(&mut self, t: &Type)
        ensures
            final(self).req() == analyze_type(old(self).req(), t@),
            final(self).only_req_changed(old(self)),
        decreases t, 1nat,
    {
        match t {
            Type::Generic { name, type_params } => {
                self.analyze_nested_types(type_params);
                let names = self.generic_arg_names(type_params);
                self.require_monomorph(name.clone(), names);
            },
            Type::Pointer(inner) => self.analyze_type_for_generic_usage(&**inner),
            _ => {},
        }
    }

    fn analyze_nested_types(&mut self, ts: &Vec<Type>)
        ensures
            final(self).req() == analyze_nested(old(self).req(), types_model(ts@)),
            final(self).only_req_changed(old(self)),
        decreases ts@, 0nat,
    {
        let ghost all = types_model(ts@);
        proof {
            lemma_types_model(ts@);
            assert(all.subrange(0, all.len() as int) =~= all);
        }
        let mut i: usize = 0;
        while i < ts.len()
            invariant
                i <= ts@.len(),
                all == types_model(ts@),
                all.len() == ts@.len(),
                forall|j: int| 0 <= j < ts@.len() ==> all[j] == (#[trigger] ts@[j])@,
                analyze_nested(old(self).req(), all) == analyze_nested(self.req(), all.subrange(i as int, all.len() as int)),
                self.only_req_changed(old(self)),
            decreases ts@.len() - i,
        {
            proof {
                assert(decreases_to!(ts@ => ts@[i as int]));
                let rest = all.subrange(i as int, all.len() as int);
                assert(rest.drop_first() =~= all.subrange(i + 1, all.len() as int));
                assert(rest[0] == all[i as int]);
            }
            match &ts[i] {
                Type::Generic { .. } => self.analyze_type_for_generic_usage(&ts[i]),
                _ => {},
            }
            i = i + 1;
        }
        assert(all.subrange(ts@.len() as int, all.len() as int) =~= Seq::<SpecType>::empty());
    }

    /// Requires the instances that generic struct literals in an expression need.
    fn analyze_expression_for_generic_usage(&mut self, expr: &crate::ast::Expression)
        ensures
            final(self).req() == analyze_expr(old(self).req(), expr@),
            final(self).only_req_changed(old(self)),
        decreases expr, 1nat,
    {
        match expr {
            crate::ast::Expression::StructLiteral { struct_name, type_args, fields } => {
                match type_args {
                    Some(args) => {
                        let names = type_arg_names(args);
                        self.require_monomorph(struct_name.clone(), names);
                    },
                    None => {},
                }
                self.analyze_fields(fields);
            },
            crate::ast::Expression::FunctionCall { args, .. } => self.analyze_expressions(args),
            crate::ast::Expression::NamespacedFunctionCall { args, .. } => self.analyze_expressions(args),
            crate::ast::Expression::BinaryOp { left, right, .. } => {
                self.analyze_expression_for_generic_usage(&**left);
                self.analyze_expression_for_generic_usage(&**right);
            },
            crate::ast::Expression::UnaryOp { operand, .. } => self.analyze_expression_for_generic_usage(&**operand),
            crate::ast::Expression::FieldAccess { object, .. } => self.analyze_expression_for_generic_usage(&**object),
            crate::ast::Expression::ArrayAccess { array, index } => {
                self.analyze_expression_for_generic_usage(&**array);
                self.analyze_expression_for_generic_usage(&**index);
            },
            crate::ast::Expression::AddressOf { operand } => self.analyze_expression_for_generic_usage(&**operand),
            crate::ast::Expression::Dereference { operand } => self.analyze_expression_for_generic_usage(&**operand),
            _ => {},
        }
    }

    fn analyze_expressions(&mut self, es: &Vec<crate::ast::Expression>)
        ensures
            final(self).req() == analyze_exprs(old(self).req(), crate::ast::exprs_model(es@)),
            final(self).only_req_changed(old(self)),
        decreases es@, 0nat,
    {
        let ghost all = crate::ast::exprs_model(es@);
        proof {
            crate::ast::lemma_exprs_model(es@);
            assert(all.subrange(0, all.len() as int) =~= all);
        }
        let mut i: usize = 0;
        while i < es.len()
            invariant
                i <= es@.len(),
                all == crate::ast::exprs_model(es@),
                all.len() == es@.len(),
                forall|j: int| 0 <= j < es@.len() ==> all[j] == (#[trigger] es@[j])@,
                analyze_exprs(old(self).req(), all) == analyze_exprs(self.req(), all.subrange(i as int, all.len() as int)),
                self.only_req_changed(old(self)),
            decreases es@.len() - i,
        {
            proof {
                assert(decreases_to!(es@ => es@[i as int]));
                let rest = all.subrange(i as int, all.len() as int);
                assert(rest.drop_first() =~= all.subrange(i + 1, all.len() as int));
                assert(rest[0] == all[i as int]);
            }
            self.analyze_expression_for_generic_usage(&es[i]);
            i = i + 1;
        }
        assert(all.subrange(es@.len() as int, all.len() as int) =~= Seq::<crate::ast::SpecExpr>::empty());
    }

    fn analyze_fields(&mut self, fs: &Vec<crate::ast::StructField>)
        ensures
            final(self).req() == analyze_fields(old(self).req(), crate::ast::fields_model(fs@)),
            final(self).only_req_changed(old(self)),
        decreases fs@, 0nat,
    {
        let ghost all = crate::ast::fields_model(fs@);
        proof {
            crate::ast::lemma_fields_model(fs@);
            assert(all.subrange(0, all.len() as int) =~= all);
        }
        let mut i: usize = 0;
        while i < fs.len()
            invariant
                i <= fs@.len(),
                all == crate::ast::fields_model(fs@),
                all.len() == fs@.len(),
                forall|j: int| 0 <= j < fs@.len() ==> all[j].1 == (#[trigger] fs@[j]).value@,
                analyze_fields(old(self).req(), all) == analyze_fields(self.req(), all.subrange(i as int, all.len() as int)),
                self.only_req_changed(old(self)),
            decreases fs@.len() - i,
        {
            proof {
                assert(decreases_to!(fs@ => fs@[i as int]));
                assert(decreases_to!(fs@[i as int] => fs@[i as int].value));
                let rest = all.subrange(i as int, all.len() as int);
                assert(rest.drop_first() =~= all.subrange(i + 1, all.len() as int));
                assert(rest[0] == all[i as int]);
            }
            self.analyze_expression_for_generic_usage(&fs[i].value);
            i = i + 1;
        }
        assert(all.subrange(fs@.len() as int, all.len() as int) =~= Seq::<(Seq<char>, crate::ast::SpecExpr)>::empty());
    }

    /// Requires the instances a statement needs.
    fn analyze_statement_for_generic_usage(&mut self, statement: &Statement)
        ensures
            final(self).req() == analyze_stmt(old(self).req(), statement@),
            final(self).only_req_changed(old(self)),
    {
        match statement {
            Statement::VarDecl { type_annotation, value, .. } | Statement::ValDecl { type_annotation, value, .. } => {
                match type_annotation {
                    Some(t) => self.analyze_type_for_generic_usage(t),
                    None => {},
                }
                self.analyze_expression_for_generic_usage(value);
            },
            Statement::Function { params, return_type, .. } => {
                let ghost all = Seq::new(params_model(params@).len(), |i: int| params_model(params@)[i].1);
                assert(all.subrange(0, all.len() as int) =~= all);
                let mut i: usize = 0;
                while i < params.len()
                    invariant
                        i <= params@.len(),
                        all == Seq::new(params_model(params@).len(), |i: int| params_model(params@)[i].1),
                        analyze_types(old(self).req(), all) == analyze_types(self.req(), all.subrange(i as int, all.len() as int)),
                        self.only_req_changed(old(self)),
                    decreases params@.len() - i,
                {
                    proof {
                        let rest = all.subrange(i as int, all.len() as int);
                        assert(rest.drop_first() =~= all.subrange(i + 1, all.len() as int));
                        assert(rest[0] == params@[i as int].param_type@);
                    }
                    self.analyze_type_for_generic_usage(&params[i].param_type);
                    i = i + 1;
                }
                assert(all.subrange(params@.len() as int, all.len() as int) =~= Seq::<SpecType>::empty());
                match return_type {
                    Some(t) => self.analyze_type_for_generic_usage(t),
                    None => {},
                }
            },
            Statement::Expression(e) => self.analyze_expression_for_generic_usage(e),
            _ => {},
        }
    }
}

impl CCodeGen {
    /// The cached text of an instance, if any.
    fn cached_struct(&self, m: &MonomorphicType) -> (res: Option<String>)
        ensures
            match cache_get(self.cache(), m@) {
                Some(t) => res matches Some(r) && r@ == t,
                None => res is None,
            },
    {
        let gens = &self.generated_monomorphs;
        let ghost all = self.cache();
        assert(all.subrange(0, all.len() as int) =~= all);
        let mut k: usize = 0;
        while k < gens.len()
            invariant
                k <= gens@.len(),
                gens@ == self.generated_monomorphs@,
                all == self.cache(),
                cache_get(all, m@) == cache_get(all.subrange(k as int, all.len() as int), m@),
            decreases gens@.len() - k,
        {
            proof {
                let rest = all.subrange(k as int, all.len() as int);
                assert(rest.drop_first() =~= all.subrange(k + 1, all.len() as int));
                assert(rest[0] == all[k as int]);
            }
            if same_monomorph(&gens[k].0, m) {
                return Some(gens[k].1.clone());
            }
            k = k + 1;
        }
        assert(all.subrange(k as int, all.len() as int) =~= Seq::<(SpecMonomorph, Seq<char>)>::empty());
        None
    }

    /// The C struct for an instance: the cached text, or one built from the
    /// registered definition and then cached.
    fn generate_monomorphic_struct(&mut self, monomorph: &MonomorphicType) -> (res: String)
        requires
            cache_get(old(self).cache(), monomorph@) is Some || assoc_get(old(self).defs(), monomorph.base_name@) is Some,
        ensures
            match cache_get(old(self).cache(), monomorph@) {
                Some(t) => res@ == t && final(self).cache() == old(self).cache(),
                None => res@ == mono_text(monomorph@, assoc_get(old(self).defs(), monomorph.base_name@).unwrap())
                    && final(self).cache() == old(self).cache().push((monomorph@, res@)),
            },
            final(self).gen() == old(self).gen(),
            final(self).functions == old(self).functions,
            final(self).has_user_main == old(self).has_user_main,
            final(self).generic_types == old(self).generic_types,
            final(self).required_monomorphs == old(self).required_monomorphs,
            final(self).required_libraries == old(self).required_libraries,
            final(self).symbol_table == old(self).symbol_table,
    {
        match self.cached_struct(monomorph) {
            Some(t) => {
                return t;
            },
            None => {},
        }
        proof {
            lemma_map_values_get(self.generic_types@, |d: (Vec<String>, Vec<Field>)| def_model(d), monomorph.base_name@);
        }
        let def = match self.generic_types.get(monomorph.base_name.as_str()) {
            Some(d) => d,
            None => {
                return String::new();
            },
        };
        let ghost params = strings_model(def.0@);
        let ghost fields = type_fields_model(def.1@);
        let ghost cs = monomorph@.type_args;
        let mut result = owned("typedef struct {\n");
        let ghost mut texts: Seq<Seq<char>> = Seq::empty();
        let mut i: usize = 0;
        while i < def.1.len()
            invariant
                i <= def.1@.len(),
                params == strings_model(def.0@),
                fields == type_fields_model(def.1@),
                cs == monomorph@.type_args,
                texts.len() == i,
                forall|j: int| 0 <= j < i ==> #[trigger] texts[j] == cg_c_type(cg_substitute(fields[j].1, params, cs)),
                result@ == "typedef struct {\n"@ + crate::codegen::monomorphization::field_lines(
                    Seq::new(i as nat, |j: int| (texts[j], fields[j].0)),
                ),
            decreases def.1@.len() - i,
        {
            let field = &def.1[i];
            let concrete = self.substitute_type_params(&field.field_type, def.0.as_slice(), monomorph.type_args.as_slice());
            let text = self.type_to_c_string(&concrete);
            proof {
                let prev = Seq::new(i as nat, |j: int| (texts[j], fields[j].0));
                texts = texts.push(text@);
                let next = Seq::new((i + 1) as nat, |j: int| (texts[j], fields[j].0));
                assert(next.drop_last() =~= prev);
            }
            result.append("    ");
            result.append(text.as_str());
            result.append(" ");
            result.append(field.name.as_str());
            result.append(";\n");
            i = i + 1;
        }
        let struct_name = monomorph.mangled_name();
        result.append("} ");
        result.append(struct_name.as_str());
        result.append(";\n\n");
        proof {
            let d = assoc_get(self.defs(), monomorph.base_name@).unwrap();
            assert(d == (params, fields));
            assert(Seq::new(i as nat, |j: int| (texts[j], fields[j].0)) =~= Seq::new(
                fields.len(),
                |j: int| (cg_c_type(cg_substitute(fields[j].1, params, cs)), fields[j].0),
            ));
        }
        let key = copy_monomorph(monomorph);
        let cached = result.clone();
        self.generated_monomorphs.push((key, cached));
        assert(self.cache() =~= old(self).cache().push((monomorph@, result@)));
        result
    }

    /// The structs of all required instances, in the order first required.
    fn generate_all_monomorphs(&mut self) -> (res: String)
        requires
            monos_defined(old(self).defs(), old(self).cache(), old(self).req()),
        ensures
            res@ == gen_monos(old(self).defs(), old(self).cache(), old(self).req()).0,
            final(self).cache() == gen_monos(old(self).defs(), old(self).cache(), old(self).req()).1,
            final(self).gen() == old(self).gen(),
            final(self).functions == old(self).functions,
            final(self).has_user_main == old(self).has_user_main,
            final(self).generic_types == old(self).generic_types,
            final(self).required_monomorphs == old(self).required_monomorphs,
            final(self).required_libraries == old(self).required_libraries,
            final(self).symbol_table == old(self).symbol_table,
    {
        let ghost all = old(self).req();
        let ghost defs = old(self).defs();
        let mut result = String::new();
        let mut i: usize = 0;
        assert(all.subrange(0, all.len() as int) =~= all);
        while i < self.required_monomorphs.len()
            invariant
                i <= all.len(),
                all == self.req(),
                defs == self.defs(),
                self.required_monomorphs@.len() == all.len(),
                forall|j: int| 0 <= j < all.len() ==> (cache_get(self.cache(), #[trigger] all[j]) is Some || assoc_get(defs, all[j].base_name) is Some),
                gen_monos(defs, old(self).cache(), all).0 == result@ + gen_monos(defs, self.cache(), all.subrange(i as int, all.len() as int)).0,
                gen_monos(defs, old(self).cache(), all).1 == gen_monos(defs, self.cache(), all.subrange(i as int, all.len() as int)).1,
                self.gen() == old(self).gen(),
                self.functions == old(self).functions,
                self.has_user_main == old(self).has_user_main,
                self.generic_types == old(self).generic_types,
                self.required_monomorphs == old(self).required_monomorphs,
                self.required_libraries == old(self).required_libraries,
                self.symbol_table == old(self).symbol_table,
            decreases all.len() - i,
        {
            let m = copy_monomorph(&self.required_monomorphs[i]);
            let ghost c0 = self.cache();
            proof {
                let rest = all.subrange(i as int, all.len() as int);
                assert(rest.drop_first() =~= all.subrange(i + 1, all.len() as int));
                assert(rest[0] == all[i as int]);
                assert(m@ == all[i as int]);
            }
            let t = self.generate_monomorphic_struct(&m);
            proof {
                assert forall|j: int| 0 <= j < all.len() implies (cache_get(self.cache(), #[trigger] all[j]) is Some
                    || assoc_get(defs, all[j].base_name) is Some) by {
                    if cache_get(c0, all[j]) is Some && self.cache() != c0 {
                        lemma_cache_get_push(c0, (m@, t@), all[j]);
                    }
                }
                vstd::seq_lib::lemma_concat_associative(
                    result@,
                    t@,
                    gen_monos(defs, self.cache(), all.subrange(i + 1, all.len() as int)).0,
                );
            }
            result.append(t.as_str());
            i = i + 1;
        }
        assert(all.subrange(i as int, all.len() as int) =~= Seq::<SpecMonomorph>::empty());
        result
    }
}

impl CCodeGen {
    /// A type definition: a generic one is registered for later instances,
    /// a plain one becomes a C struct at the end of `result`.
    fn compile_type_definition(&mut self, statement: &Statement, result: &mut String)
        ensures
            final(result)@ == old(result)@ + typedef_text(statement@),
            final(self).defs() == typedef_defs(old(self).defs(), statement@),
            final(self).gen() == old(self).gen(),
            final(self).functions == old(self).functions,
            final(self).has_user_main == old(self).has_user_main,
            final(self).required_monomorphs == old(self).required_monomorphs,
            final(self).generated_monomorphs == old(self).generated_monomorphs,
            final(self).required_libraries == old(self).required_libraries,
            final(self).symbol_table == old(self).symbol_table,
    {
        match statement {
            Statement::TypeDef { name, type_params, fields } => {
                if type_params.len() > 0 {
                    let mut tps: Vec<String> = Vec::new();
                    let mut k: usize = 0;
                    while k < type_params.len()
                        invariant
                            k <= type_params@.len(),
                            tps@.len() == k,
                            forall|j: int| 0 <= j < k ==> (#[trigger] tps@[j])@ == type_params@[j]@,
                        decreases type_params@.len() - k,
                    {
                        tps.push(type_params[k].clone());
                        k = k + 1;
                    }
                    let mut fs: Vec<Field> = Vec::new();
                    let mut k: usize = 0;
                    while k < fields.len()
                        invariant
                            k <= fields@.len(),
                            fs@.len() == k,
                            forall|j: int| 0 <= j < k ==> (#[trigger] fs@[j]).name@ == fields@[j].name@ && fs@[j].field_type@ == fields@[j].field_type@,
                        decreases fields@.len() - k,
                    {
                        fs.push(Field { name: fields[k].name.clone(), field_type: clone_type(&fields[k].field_type) });
                        k = k + 1;
                    }
                    assert(strings_model(tps@) =~= crate::ast::names_model(type_params@));
                    assert(type_fields_model(fs@) =~= type_fields_model(fields@));
                    self.register_generic_type(name.clone(), tps, fs);
                } else {
                    let ghost fm = type_fields_model(fields@);
                    let mut t = owned("typedef struct {\n");
                    let mut i: usize = 0;
                    while i < fields.len()
                        invariant
                            i <= fields@.len(),
                            fm == type_fields_model(fields@),
                            t@ == "typedef struct {\n"@ + crate::codegen::monomorphization::field_lines(
                                Seq::new(i as nat, |j: int| (cg_c_type(fm[j].1), fm[j].0)),
                            ),
                        decreases fields@.len() - i,
                    {
                        let ty = self.type_to_c_string(&fields[i].field_type);
                        proof {
                            let prev = Seq::new(i as nat, |j: int| (cg_c_type(fm[j].1), fm[j].0));
                            let next = Seq::new((i + 1) as nat, |j: int| (cg_c_type(fm[j].1), fm[j].0));
                            assert(next.drop_last() =~= prev);
                        }
                        t.append("    ");
                        t.append(ty.as_str());
                        t.append(" ");
                        t.append(fields[i].name.as_str());
                        t.append(";\n");
                        i = i + 1;
                    }
                    t.append("} ");
                    t.append(name.as_str());
                    t.append(";\n\n");
                    assert(Seq::new(i as nat, |j: int| (cg_c_type(fm[j].1), fm[j].0)) =~= Seq::new(
                        fm.len(),
                        |j: int| (cg_c_type(fm[j].1), fm[j].0),
                    ));
                    result.append(t.as_str());
                }
            },
            _ => {},
        }
    }

    /// A function definition, added to the generated functions (`print` and
    /// `println` are provided and skipped; `main` becomes `bolt_main`).
    fn compile_function(&mut self, statement: &Statement)
        requires
            match statement@ {
                SpecStmt::Function { body, .. } => body_ok(body),
                _ => true,
            },
        ensures
            ({
                let e = function_step(
                    Emitted { gen: old(self).gen(), functions: old(self).functions(), user_main: old(self).has_user_main },
                    statement@,
                );
                &&& final(self).functions() == e.functions
                &&& final(self).has_user_main == e.user_main
            }),
            final(self).gen() == old(self).gen(),
            final(self).generic_types == old(self).generic_types,
            final(self).required_monomorphs == old(self).required_monomorphs,
            final(self).generated_monomorphs == old(self).generated_monomorphs,
            final(self).required_libraries == old(self).required_libraries,
            final(self).symbol_table == old(self).symbol_table,
    {
        match statement {
            Statement::Function { name, params, return_type, body, .. } => {
                if string_is(name, "print") || string_is(name, "println") {
                    return;
                }
                if string_is(name, "main") {
                    self.has_user_main = true;
                }
                let code = function_text(name, params, return_type, body);
                self.functions.push(code);
                assert(self.functions() =~= old(self).functions().push(
                    fn_text(name@, params_model(params@), crate::ast::opt_type_model(*return_type), stmts_model(body@)),
                ));
            },
            _ => {},
        }
    }
}

impl CCodeGen {
    /// Compiles a whole program into one C translation unit: the header and
    /// helpers, the structs of plain type definitions, the structs of every
    /// generic instance the program uses, the functions, and a `main` that
    /// calls the program's own `main` or runs its top-level code.
    #[verifier::spinoff_prover]
    #[verifier::rlimit(40)]
    pub fn compile_program(&mut self, program: Program) -> (res: String)
        requires
            program_ok(stmts_model(program.statements@)),
            monos_defined(
                typedef_pass(old(self).defs(), stmts_model(program.statements@)).1,
                old(self).cache(),
                analyze_stmts(old(self).req(), stmts_model(program.statements@)),
            ),
        ensures
            res@ == program_text(
                old(self).defs(),
                old(self).req(),
                old(self).cache(),
                Emitted { gen: old(self).gen(), functions: old(self).functions(), user_main: old(self).has_user_main },
                stmts_model(program.statements@),
            ),
            ({
                let e = code_pass(
                    Emitted { gen: old(self).gen(), functions: old(self).functions(), user_main: old(self).has_user_main },
                    stmts_model(program.statements@),
                );
                &&& final(self).gen() == e.gen
                &&& final(self).functions() == e.functions
                &&& final(self).has_user_main == e.user_main
            }),
            final(self).defs() == typedef_pass(old(self).defs(), stmts_model(program.statements@)).1,
            final(self).req() == analyze_stmts(old(self).req(), stmts_model(program.statements@)),
            final(self).symbol_table == old(self).symbol_table,
            final(self).required_libraries == old(self).required_libraries,
    {
        let mut result = String::new();
        self.append_header(&mut result);
        let stmts = &program.statements;
        let ghost ss = stmts_model(stmts@);
        let ghost e0 = Emitted { gen: old(self).gen(), functions: old(self).functions(), user_main: old(self).has_user_main };
        proof {
            crate::ast::lemma_stmts_model(stmts@);
            assert(ss.subrange(0, ss.len() as int) =~= ss);
        }
        // Type definitions first.
        let mut i: usize = 0;
        while i < stmts.len()
            invariant
                i <= stmts@.len(),
                ss == stmts_model(stmts@),
                ss.len() == stmts@.len(),
                forall|j: int| 0 <= j < stmts@.len() ==> ss[j] == (#[trigger] stmts@[j])@,
                typedef_pass(old(self).defs(), ss).0 + Seq::<char>::empty() == typedef_pass(old(self).defs(), ss).0,
                header_text() + typedef_pass(old(self).defs(), ss).0 == result@ + typedef_pass(
                    self.defs(),
                    ss.subrange(i as int, ss.len() as int),
                ).0,
                typedef_pass(old(self).defs(), ss).1 == typedef_pass(self.defs(), ss.subrange(i as int, ss.len() as int)).1,
                self.gen() == old(self).gen(),
                self.functions == old(self).functions,
                self.has_user_main == old(self).has_user_main,
                self.required_monomorphs == old(self).required_monomorphs,
                self.generated_monomorphs == old(self).generated_monomorphs,
                self.required_libraries == old(self).required_libraries,
                self.symbol_table == old(self).symbol_table,
            decreases stmts@.len() - i,
        {
            proof {
                let rest = ss.subrange(i as int, ss.len() as int);
                assert(rest.drop_first() =~= ss.subrange(i + 1, ss.len() as int));
                assert(rest[0] == ss[i as int]);
                vstd::seq_lib::lemma_concat_associative(
                    result@,
                    typedef_text(ss[i as int]),
                    typedef_pass(typedef_defs(self.defs(), ss[i as int]), ss.subrange(i + 1, ss.len() as int)).0,
                );
            }
            self.compile_type_definition(&stmts[i], &mut result);
            i = i + 1;
        }
        assert(ss.subrange(i as int, ss.len() as int) =~= Seq::<SpecStmt>::empty());
        // Every generic instance the rest of the program uses.
        let mut i: usize = 0;
        while i < stmts.len()
            invariant
                i <= stmts@.len(),
                ss == stmts_model(stmts@),
                ss.len() == stmts@.len(),
                forall|j: int| 0 <= j < stmts@.len() ==> ss[j] == (#[trigger] stmts@[j])@,
                analyze_stmts(old(self).req(), ss) == analyze_stmts(self.req(), ss.subrange(i as int, ss.len() as int)),
                self.defs() == typedef_pass(old(self).defs(), ss).1,
                self.gen() == old(self).gen(),
                self.functions == old(self).functions,
                self.has_user_main == old(self).has_user_main,
                self.generated_monomorphs == old(self).generated_monomorphs,
                self.required_libraries == old(self).required_libraries,
                self.symbol_table == old(self).symbol_table,
            decreases stmts@.len() - i,
        {
            proof {
                let rest = ss.subrange(i as int, ss.len() as int);
                assert(rest.drop_first() =~= ss.subrange(i + 1, ss.len() as int));
                assert(rest[0] == ss[i as int]);
            }
            match &stmts[i] {
                Statement::TypeDef { .. } => {},
                _ => self.analyze_statement_for_generic_usage(&stmts[i]),
            }
            i = i + 1;
        }
        assert(ss.subrange(i as int, ss.len() as int) =~= Seq::<SpecStmt>::empty());
        let monos = self.generate_all_monomorphs();
        result.append(monos.as_str());
        // Functions and top-level code.
        let mut i: usize = 0;
        while i < stmts.len()
            invariant
                i <= stmts@.len(),
                ss == stmts_model(stmts@),
                ss.len() == stmts@.len(),
                forall|j: int| 0 <= j < stmts@.len() ==> ss[j] == (#[trigger] stmts@[j])@,
                program_ok(ss),
                code_pass(e0, ss) == code_pass(
                    Emitted { gen: self.gen(), functions: self.functions(), user_main: self.has_user_main },
                    ss.subrange(i as int, ss.len() as int),
                ),
                self.defs() == typedef_pass(old(self).defs(), ss).1,
                self.req() == analyze_stmts(old(self).req(), ss),
                self.required_libraries == old(self).required_libraries,
                self.symbol_table == old(self).symbol_table,
            decreases stmts@.len() - i,
        {
            proof {
                let rest = ss.subrange(i as int, ss.len() as int);
                assert(rest.drop_first() =~= ss.subrange(i + 1, ss.len() as int));
                assert(rest[0] == ss[i as int]);
            }
            match &stmts[i] {
                Statement::Function { .. } => self.compile_function(&stmts[i]),
                Statement::TypeDef { .. } => {},
                _ => self.main_statement(&stmts[i]),
            }
            i = i + 1;
        }
        assert(ss.subrange(i as int, ss.len() as int) =~= Seq::<SpecStmt>::empty());
        self.append_functions_and_main(&mut result);
        result
    }

    /// Adds the includes, helper functions and argument globals.
    fn append_header(&self, result: &mut String)
        ensures
            final(result)@ == old(result)@ + header_text(),
    {
        result.append("#include <stdio.h>\n");
        result.append("#include <string.h>\n");
        result.append("#include <stdlib.h>\n\n");
        result.append("char* string_concat(const char* str1, const char* str2) {\n");
        result.append("    size_t len1 = strlen(str1);\n");
        result.append("    size_t len2 = strlen(str2);\n");
        result.append("    char* result = malloc(len1 + len2 + 1);\n");
        result.append("    strcpy(result, str1);\n");
        result.append("    strcat(result, str2);\n");
        result.append("    return result;\n");
        result.append("}\n\n");
        result.append("char* toString(int value) {\n");
        result.append("    char* result = malloc(32); // enough for any 32-bit int\n");
        result.append("    snprintf(result, 32, \"%d\", value);\n");
        result.append("    return result;\n");
        result.append("}\n\n");
        result.append("int bolt_argc;\n");
        result.append("char** bolt_argv;\n\n");
        result.append("char** getArgs() {\n");
        result.append("    return bolt_argv;\n");
        result.append("}\n\n");
        result.append("int getArgsLength() {\n");
        result.append("    return bolt_argc;\n");
        result.append("}\n\n");
    }
}

impl CCodeGen {
    /// Compiles a program that imports modules: the functions of the loaded
    /// modules come first, then the program as [`CCodeGen::compile_program`]
    /// compiles it, with imports and exports skipped, C native blocks
    /// compiled to their functions and C extern blocks to declarations.
    pub fn compile_program_with_modules(&mut self, program: Program, module_system: &ModuleSystem) -> (res: String)
        requires
            program_ok(stmts_model(program.statements@)),
            modules_ok(module_system.modules()),
            monos_defined(
                decl_pass(old(self).defs(), old(self).libraries(), stmts_model(program.statements@)).1,
                old(self).cache(),
                analyze_stmts(old(self).req(), stmts_model(program.statements@)),
            ),
        ensures
            res@ == modules_program_text(
                old(self).defs(),
                old(self).req(),
                old(self).cache(),
                old(self).libraries(),
                Emitted { gen: old(self).gen(), functions: old(self).functions(), user_main: old(self).has_user_main },
                module_system.modules(),
                stmts_model(program.statements@),
            ),
            final(self).libraries() == decl_pass(
                old(self).defs(),
                old(self).libraries(),
                stmts_model(program.statements@),
            ).2,
            final(self).defs() == decl_pass(old(self).defs(), old(self).libraries(), stmts_model(program.statements@)).1,
            final(self).req() == analyze_stmts(old(self).req(), stmts_model(program.statements@)),
            final(self).symbol_table == old(self).symbol_table,
    {
        let mut result = String::new();
        self.append_header(&mut result);
        self.compile_all_module_functions(module_system, &mut result);
        let ghost e1 = Emitted { gen: self.gen(), functions: self.functions(), user_main: self.has_user_main };
        let stmts = &program.statements;
        let ghost ss = stmts_model(stmts@);
        proof {
            crate::ast::lemma_stmts_model(stmts@);
            assert(ss.subrange(0, ss.len() as int) =~= ss);
        }
        let ghost d0 = old(self).defs();
        let ghost l0 = old(self).libraries();
        self.declaration_pass(stmts, &mut result);
        self.analysis_pass(stmts);
        let monos = self.generate_all_monomorphs();
        result.append(monos.as_str());
        let mut i: usize = 0;
        while i < stmts.len()
            invariant
                i <= stmts@.len(),
                ss == stmts_model(stmts@),
                ss.len() == stmts@.len(),
                forall|j: int| 0 <= j < stmts@.len() ==> ss[j] == (#[trigger] stmts@[j])@,
                program_ok(ss),
                code_pass(e1, ss) == code_pass(
                    Emitted { gen: self.gen(), functions: self.functions(), user_main: self.has_user_main },
                    ss.subrange(i as int, ss.len() as int),
                ),
                self.defs() == decl_pass(d0, l0, ss).1,
                self.libraries() == decl_pass(d0, l0, ss).2,
                self.req() == analyze_stmts(old(self).req(), ss),
                self.symbol_table == old(self).symbol_table,
            decreases stmts@.len() - i,
        {
            proof {
                let rest = ss.subrange(i as int, ss.len() as int);
                assert(rest.drop_first() =~= ss.subrange(i + 1, ss.len() as int));
                assert(rest[0] == ss[i as int]);
            }
            match &stmts[i] {
                Statement::Function { .. } => self.compile_function(&stmts[i]),
                Statement::TypeDef { .. } | Statement::Import { .. } | Statement::Export { .. }
                | Statement::NativeBlock { .. } | Statement::ExternBlock { .. } => {},
                _ => self.main_statement(&stmts[i]),
            }
            i = i + 1;
        }
        assert(ss.subrange(i as int, ss.len() as int) =~= Seq::<SpecStmt>::empty());
        self.append_functions_and_main(&mut result);
        result
    }

    /// The first pass of a program compiled with modules: type
    /// definitions, C native blocks and C extern blocks (see
    /// [`decl_pass`]).
    fn declaration_pass(&mut self, stmts: &Vec<Statement>, result: &mut String)
        ensures
            final(result)@ == old(result)@ + decl_pass(old(self).defs(), old(self).libraries(), stmts_model(stmts@)).0,
            final(self).defs() == decl_pass(old(self).defs(), old(self).libraries(), stmts_model(stmts@)).1,
            final(self).libraries() == decl_pass(old(self).defs(), old(self).libraries(), stmts_model(stmts@)).2,
            final(self).gen() == old(self).gen(),
            final(self).functions == old(self).functions,
            final(self).has_user_main == old(self).has_user_main,
            final(self).required_monomorphs == old(self).required_monomorphs,
            final(self).generated_monomorphs == old(self).generated_monomorphs,
            final(self).symbol_table == old(self).symbol_table,
    {
        let ghost ss = stmts_model(stmts@);
        proof {
            crate::ast::lemma_stmts_model(stmts@);
            assert(ss.subrange(0, ss.len() as int) =~= ss);
        }
        let ghost after_modules = result@;
        let ghost d0 = old(self).defs();
        let ghost l0 = old(self).libraries();
        let mut i: usize = 0;
        while i < stmts.len()
            invariant
                i <= stmts@.len(),
                ss == stmts_model(stmts@),
                ss.len() == stmts@.len(),
                forall|j: int| 0 <= j < stmts@.len() ==> ss[j] == (#[trigger] stmts@[j])@,
                after_modules + decl_pass(d0, l0, ss).0 == result@ + decl_pass(
                    self.defs(),
                    self.libraries(),
                    ss.subrange(i as int, ss.len() as int),
                ).0,
                decl_pass(d0, l0, ss).1 == decl_pass(self.defs(), self.libraries(), ss.subrange(i as int, ss.len() as int)).1,
                decl_pass(d0, l0, ss).2 == decl_pass(self.defs(), self.libraries(), ss.subrange(i as int, ss.len() as int)).2,
                self.gen() == old(self).gen(),
                self.functions == old(self).functions,
                self.has_user_main == old(self).has_user_main,
                self.required_monomorphs == old(self).required_monomorphs,
                self.generated_monomorphs == old(self).generated_monomorphs,
                self.symbol_table == old(self).symbol_table,
            decreases stmts@.len() - i,
        {
            let ghost rest = ss.subrange(i as int, ss.len() as int);
            let ghost step = decl_step(self.defs(), self.libraries(), ss[i as int]);
            proof {
                assert(rest.drop_first() =~= ss.subrange(i + 1, ss.len() as int));
                assert(rest[0] == ss[i as int]);
                vstd::seq_lib::lemma_concat_associative(
                    result@,
                    step.0,
                    decl_pass(step.1, step.2, ss.subrange(i + 1, ss.len() as int)).0,
                );
            }
            match &stmts[i] {
                Statement::TypeDef { .. } => self.compile_type_definition(&stmts[i], result),
                Statement::NativeBlock { language, functions } => {
                    if string_is(language, "C") {
                        self.compile_native_c_functions(functions.as_slice(), result);
                    }
                },
                Statement::ExternBlock { language, functions } => {
                    if string_is(language, "C") {
                        self.compile_extern_c_functions(functions.as_slice(), result);
                    }
                },
                _ => {},
            }
            i = i + 1;
        }
        assert(ss.subrange(i as int, ss.len() as int) =~= Seq::<SpecStmt>::empty());
    }

    /// The generic instances a program's statements need, recorded (type
    /// definitions, imports, exports and native and extern blocks need
    /// none).
    fn analysis_pass(&mut self, stmts: &Vec<Statement>)
        ensures
            final(self).req() == analyze_stmts(old(self).req(), stmts_model(stmts@)),
            final(self).only_req_changed(old(self)),
    {
        let ghost ss = stmts_model(stmts@);
        proof {
            crate::ast::lemma_stmts_model(stmts@);
            assert(ss.subrange(0, ss.len() as int) =~= ss);
        }
        let mut i: usize = 0;
        while i < stmts.len()
            invariant
                i <= stmts@.len(),
                ss == stmts_model(stmts@),
                ss.len() == stmts@.len(),
                forall|j: int| 0 <= j < stmts@.len() ==> ss[j] == (#[trigger] stmts@[j])@,
                analyze_stmts(old(self).req(), ss) == analyze_stmts(self.req(), ss.subrange(i as int, ss.len() as int)),
                self.only_req_changed(old(self)),
            decreases stmts@.len() - i,
        {
            proof {
                let rest = ss.subrange(i as int, ss.len() as int);
                assert(rest.drop_first() =~= ss.subrange(i + 1, ss.len() as int));
                assert(rest[0] == ss[i as int]);
            }
            match &stmts[i] {
                Statement::TypeDef { .. } | Statement::Import { .. } | Statement::Export { .. }
                | Statement::NativeBlock { .. } | Statement::ExternBlock { .. } => {},
                _ => self.analyze_statement_for_generic_usage(&stmts[i]),
            }
            i = i + 1;
        }
        assert(ss.subrange(i as int, ss.len() as int) =~= Seq::<SpecStmt>::empty());
    }

    /// The generic type of the first instance a program with modules needs
    /// that is neither cached nor defined once its declarations are
    /// recorded, if any: compiling it with
    /// [`CCodeGen::compile_program_with_modules`] from this state requires
    /// that there is none. The declarations and instances are recorded in
    /// this generator, so it is meant for a scratch copy.
    pub fn undefined_generic_type(&mut self, program: &Program) -> (res: Option<String>)
        ensures
            ({
                let defs = decl_pass(old(self).defs(), old(self).libraries(), stmts_model(program.statements@)).1;
                let ms = analyze_stmts(old(self).req(), stmts_model(program.statements@));
                &&& res is None <==> monos_defined(defs, old(self).cache(), ms)
                &&& res matches Some(n) ==> exists|i: int|
                    0 <= i < ms.len() && (#[trigger] ms[i]).base_name == n@ && !(cache_get(old(self).cache(), ms[i]) is Some
                        || assoc_get(defs, ms[i].base_name) is Some)
            }),
    {
        let ghost ss = stmts_model(program.statements@);
        let ghost defs = decl_pass(old(self).defs(), old(self).libraries(), ss).1;
        let ghost cache = old(self).cache();
        let mut scratch = String::new();
        self.declaration_pass(&program.statements, &mut scratch);
        self.analysis_pass(&program.statements);
        let ghost all = self.req();
        assert(all == analyze_stmts(old(self).req(), ss));
        assert(self.cache() == cache);
        assert(self.defs() == defs);
        let mut i: usize = 0;
        while i < self.required_monomorphs.len()
            invariant
                i <= all.len(),
                all == self.req(),
                ss == stmts_model(program.statements@),
                defs == decl_pass(old(self).defs(), old(self).libraries(), ss).1,
                cache == old(self).cache(),
                all == analyze_stmts(old(self).req(), ss),
                self.cache() == cache,
                self.defs() == defs,
                self.required_monomorphs@.len() == all.len(),
                forall|j: int| 0 <= j < i ==> (cache_get(cache, #[trigger] all[j]) is Some || assoc_get(
                    defs,
                    all[j].base_name,
                ) is Some),
            decreases all.len() - i,
        {
            let m = &self.required_monomorphs[i];
            assert(m@ == all[i as int]);
            let cached = self.cached_struct(m).is_some();
            proof {
                lemma_map_values_get(self.generic_types@, |d: (Vec<String>, Vec<Field>)| def_model(d), m.base_name@);
            }
            if !cached && !self.generic_types.contains_key(m.base_name.as_str()) {
                assert(!(cache_get(cache, all[i as int]) is Some || assoc_get(defs, all[i as int].base_name) is Some));
                return Some(m.base_name.clone());
            }
            i = i + 1;
        }
        None
    }

    /// Adds each generated function followed by a newline, then the C `main`.
    fn append_functions_and_main(&self, result: &mut String)
        ensures
            final(result)@ == old(result)@ + functions_text(self.functions()) + main_wrapper(
                self.has_user_main,
                self.main_text(),
            ),
    {
        let ghost before = result@;
        let ghost fs = self.functions();
        let mut k: usize = 0;
        while k < self.functions.len()
            invariant
                k <= fs.len(),
                fs == self.functions(),
                result@ == before + functions_text(fs.take(k as int)),
            decreases fs.len() - k,
        {
            assert(fs.take(k + 1).drop_last() =~= fs.take(k as int));
            result.append(self.functions[k].as_str());
            result.append("\n");
            k = k + 1;
        }
        assert(fs.take(k as int) =~= fs);
        result.append("int main(int argc, char* argv[]) {\n");
        result.append("    bolt_argc = argc;\n");
        result.append("    bolt_argv = argv;\n");
        if self.has_user_main {
            result.append("    bolt_main();\n");
        } else {
            result.append(self.main_code.as_str());
        }
        result.append("    return 0;\n");
        result.append("}\n");
    }

    /// The functions of the loaded modules, each found in its module.
    fn compile_all_module_functions(&mut self, module_system: &ModuleSystem, result: &mut String)
        requires
            modules_ok(module_system.modules()),
        ensures
            ({
                let (e, t) = module_fns_pass(
                    Emitted { gen: old(self).gen(), functions: old(self).functions(), user_main: old(self).has_user_main },
                    old(result)@,
                    all_functions(module_system.modules()),
                    module_system.modules(),
                );
                &&& final(result)@ == t
                &&& final(self).functions() == e.functions
                &&& final(self).has_user_main == e.user_main
                &&& final(self).gen() == e.gen
            }),
            final(self).generic_types == old(self).generic_types,
            final(self).required_monomorphs == old(self).required_monomorphs,
            final(self).generated_monomorphs == old(self).generated_monomorphs,
            final(self).required_libraries == old(self).required_libraries,
            final(self).symbol_table == old(self).symbol_table,
    {
        let all = module_system.get_all_functions();
        let ghost fns = text_entries(all@);
        let ghost mods = module_system.modules();
        let ghost e0 = Emitted { gen: old(self).gen(), functions: old(self).functions(), user_main: old(self).has_user_main };
        let mut k: usize = 0;
        while k < all.len()
            invariant
                k <= fns.len(),
                fns == text_entries(all@),
                fns == all_functions(mods),
                mods == module_system.modules(),
                modules_ok(mods),
                module_fns_pass(e0, old(result)@, fns.take(k as int), mods) == (
                    Emitted { gen: self.gen(), functions: self.functions(), user_main: self.has_user_main },
                    result@,
                ),
                self.generic_types == old(self).generic_types,
                self.required_monomorphs == old(self).required_monomorphs,
                self.generated_monomorphs == old(self).generated_monomorphs,
                self.required_libraries == old(self).required_libraries,
                self.symbol_table == old(self).symbol_table,
            decreases fns.len() - k,
        {
            let (fname, mpath) = all.entry(k);
            assert(fns[k as int] == (fname@, mpath@));
            assert(fns.take(k + 1).drop_last() =~= fns.take(k as int));
            match module_system.get_module(mpath.as_str()) {
                Some(prog) => {
                    proof {
                        lemma_assoc_index(mods, mpath@);
                        let j = assoc_index(mods, mpath@).unwrap();
                        assert(functions_ok(mods[j].1));
                    }
                    self.compile_module_function(prog, fname, result);
                },
                None => {},
            }
            k = k + 1;
        }
        assert(fns.take(k as int) =~= fns);
    }

    /// Looks through a module for the function `name` (see [`module_scan`]).
    fn compile_module_function(&mut self, program: &Program, name: &String, result: &mut String)
        requires
            functions_ok(stmts_model(program.statements@)),
        ensures
            ({
                let (e, t) = module_scan(
                    Emitted { gen: old(self).gen(), functions: old(self).functions(), user_main: old(self).has_user_main },
                    old(result)@,
                    stmts_model(program.statements@),
                    name@,
                );
                &&& final(result)@ == t
                &&& final(self).functions() == e.functions
                &&& final(self).has_user_main == e.user_main
                &&& final(self).gen() == e.gen
            }),
            final(self).generic_types == old(self).generic_types,
            final(self).required_monomorphs == old(self).required_monomorphs,
            final(self).generated_monomorphs == old(self).generated_monomorphs,
            final(self).required_libraries == old(self).required_libraries,
            final(self).symbol_table == old(self).symbol_table,
    {
        let stmts = &program.statements;
        let ghost ss = stmts_model(stmts@);
        let ghost e0 = Emitted { gen: old(self).gen(), functions: old(self).functions(), user_main: old(self).has_user_main };
        proof {
            crate::ast::lemma_stmts_model(stmts@);
            assert(ss.subrange(0, ss.len() as int) =~= ss);
        }
        let mut i: usize = 0;
        while i < stmts.len()
            invariant
                i <= stmts@.len(),
                ss == stmts_model(stmts@),
                stmts@ == program.statements@,
                ss.len() == stmts@.len(),
                forall|j: int| 0 <= j < stmts@.len() ==> ss[j] == (#[trigger] stmts@[j])@,
                functions_ok(ss),
                e0 == (Emitted { gen: old(self).gen(), functions: old(self).functions(), user_main: old(self).has_user_main }),
                module_scan(e0, old(result)@, ss, name@) == module_scan(
                    Emitted { gen: self.gen(), functions: self.functions(), user_main: self.has_user_main },
                    result@,
                    ss.subrange(i as int, ss.len() as int),
                    name@,
                ),
                self.generic_types == old(self).generic_types,
                self.required_monomorphs == old(self).required_monomorphs,
                self.generated_monomorphs == old(self).generated_monomorphs,
                self.required_libraries == old(self).required_libraries,
                self.symbol_table == old(self).symbol_table,
            decreases stmts@.len() - i,
        {
            proof {
                let rest = ss.subrange(i as int, ss.len() as int);
                assert(rest.drop_first() =~= ss.subrange(i + 1, ss.len() as int));
                assert(rest[0] == ss[i as int]);
                assert(ss[i as int] == stmts@[i as int]@);
            }
            match &stmts[i] {
                Statement::Function { name: n, .. } => {
                    if *n == *name {
                        self.compile_function(&stmts[i]);
                        return;
                    }
                },
                Statement::NativeBlock { language, functions } => {
                    if string_is(language, "C") {
                        match first_native_index(functions, name) {
                            Some(j) => self.compile_single_native_c_function(&functions[j], result),
                            None => {},
                        }
                    }
                },
                _ => {},
            }
            i = i + 1;
        }
        assert(ss.subrange(i as int, ss.len() as int) =~= Seq::<SpecStmt>::empty());
    }
}

/// Position of the first native function named `name`.
fn first_native_index(functions: &Vec<NativeFunction>, name: &String) -> (res: Option<usize>)
    ensures
        match first_native(Seq::new(functions@.len(), |i: int| native_model(functions@[i])), name@) {
            Some(f) => res matches Some(j) && j < functions@.len() && native_model(functions@[j as int]) == f,
            None => res is None,
        },
{
    let ghost all = Seq::new(functions@.len(), |i: int| native_model(functions@[i]));
    assert(all.subrange(0, all.len() as int) =~= all);
    let mut i: usize = 0;
    while i < functions.len()
        invariant
            i <= functions@.len(),
            all == Seq::new(functions@.len(), |i: int| native_model(functions@[i])),
            first_native(all, name@) == first_native(all.subrange(i as int, all.len() as int), name@),
        decreases functions@.len() - i,
    {
        let ghost rest = all.subrange(i as int, all.len() as int);
        assert(rest.drop_first() =~= all.subrange(i + 1, all.len() as int));
        assert(rest[0] == all[i as int]);
        if functions[i].name == *name {
            return Some(i);
        }
        i = i + 1;
    }
    assert(all.subrange(i as int, all.len() as int) =~= Seq::<SpecSignature>::empty());
    None
}

/// C return type of a function.
fn fn_return_text(t: &Option<Type>) -> (res: &'static str)
    ensures
        res@ == fn_return_c(crate::ast::opt_type_model(*t)),
{
    match t {
        Some(Type::Integer) => "int",
        Some(Type::String) => "char*",
        Some(Type::Bool) => "int",
        Some(Type::Array(_)) | Some(Type::Pointer(_)) => "int*",
        Some(_) => "void*",
        None => "void",
    }
}

/// C type of a function parameter.
fn fn_param_text(t: &Type) -> (res: &'static str)
    ensures
        res@ == fn_param_c(t@),
{
    match t {
        Type::Integer => "int",
        Type::String => "char*",
        Type::Bool => "int",
        Type::Array(_) | Type::Pointer(_) => "int*",
        _ => "void*",
    }
}

/// Kind recorded for a parameter.
fn param_kind_text(t: &Type) -> (res: &'static str)
    ensures
        res@ == param_kind(t@),
{
    match t {
        Type::Integer => "int",
        Type::String => "string",
        Type::Bool => "bool",
        Type::Array(_) => "array",
        Type::Pointer(_) => "pointer",
        Type::Custom(_) => "custom",
        Type::Generic { .. } => "generic",
        Type::TypeParameter(_) => "typeparam",
    }
}

/// The C definition of a function.
fn function_text(name: &String, params: &Vec<Parameter>, return_type: &Option<Type>, body: &Vec<Statement>) -> (res: String)
    requires
        body_ok(stmts_model(body@)),
    ensures
        res@ == fn_text(name@, params_model(params@), crate::ast::opt_type_model(*return_type), stmts_model(body@)),
{
    let ghost pm = params_model(params@);
    let mut code = owned(fn_return_text(return_type));
    code.append(" ");
    if string_is(name, "main") {
        code.append("bolt_main");
    } else {
        code.append(name.as_str());
    }
    code.append("(");
    let mut decls: Vec<String> = Vec::new();
    let mut i: usize = 0;
    while i < params.len()
        invariant
            i <= params@.len(),
            pm == params_model(params@),
            decls@.len() == i,
            forall|j: int| 0 <= j < i ==> (#[trigger] decls@[j])@ == fn_param_c(pm[j].1) + " "@ + pm[j].0,
        decreases params@.len() - i,
    {
        let mut d = owned(fn_param_text(&params[i].param_type));
        d.append(" ");
        d.append(params[i].name.as_str());
        decls.push(d);
        i = i + 1;
    }
    assert(strings_model(decls@) =~= Seq::new(pm.len(), |i: int| fn_param_c(pm[i].1) + " "@ + pm[i].0));
    let joined = join_strings(&decls, ", ");
    code.append(joined.as_str());
    code.append(") {\n");
    let mut temp = CCodeGen::new();
    let mut k: usize = 0;
    assert(pm.subrange(0, pm.len() as int) =~= pm);
    while k < params.len()
        invariant
            k <= params@.len(),
            pm == params_model(params@),
            param_kinds(Seq::empty(), pm) == param_kinds(temp.vars(), pm.subrange(k as int, pm.len() as int)),
            temp.lens() == Seq::<(Seq<char>, usize)>::empty(),
            temp.main_text() == Seq::<char>::empty(),
        decreases params@.len() - k,
    {
        proof {
            let rest = pm.subrange(k as int, pm.len() as int);
            assert(rest.drop_first() =~= pm.subrange(k + 1, pm.len() as int));
            assert(rest[0] == pm[k as int]);
        }
        let kind = owned(param_kind_text(&params[k].param_type));
        proof {
            crate::name_map::lemma_text_entries_insert(temp.variables@, params@[k as int].name@, kind);
        }
        temp.variables.insert(params[k].name.clone(), kind);
        k = k + 1;
    }
    assert(pm.subrange(k as int, pm.len() as int) =~= Seq::<(Seq<char>, SpecType)>::empty());
    let ghost g0 = temp.gen();
    let ghost all = stmts_model(body@);
    let ghost prefix = code@;
    proof {
        crate::ast::lemma_stmts_model(body@);
        assert(all.subrange(0, all.len() as int) =~= all);
    }
    let mut i: usize = 0;
    while i < body.len()
        invariant
            i <= body@.len(),
            all == stmts_model(body@),
            all.len() == body@.len(),
            forall|j: int| 0 <= j < body@.len() ==> all[j] == (#[trigger] body@[j])@,
            body_ok(all),
            temp.main_text() == Seq::<char>::empty(),
            prefix + fn_body(g0, all) == code@ + fn_body(temp.gen(), all.subrange(i as int, all.len() as int)),
        decreases body@.len() - i,
    {
        let ghost rest = all.subrange(i as int, all.len() as int);
        proof {
            assert(rest.drop_first() =~= all.subrange(i + 1, all.len() as int));
            assert(rest[0] == all[i as int]);
        }
        match &body[i] {
            Statement::Return(Some(e)) => {
                let v = temp.expr_text(e);
                let mut t = owned("    return ");
                t.append(v.as_str());
                t.append(";\n");
                proof {
                    vstd::seq_lib::lemma_concat_associative(code@, t@, fn_body(temp.gen(), all.subrange(i + 1, all.len() as int)));
                }
                code.append(t.as_str());
            },
            Statement::Return(None) => {
                proof {
                    vstd::seq_lib::lemma_concat_associative(code@, "    return;\n"@, fn_body(temp.gen(), all.subrange(i + 1, all.len() as int)));
                }
                code.append("    return;\n");
            },
            _ => {
                assert(gen_ok(all[i as int]));
                temp.main_statement(&body[i]);
                let ghost g2 = temp.gen();
                proof {
                    vstd::seq_lib::lemma_concat_associative(
                        code@,
                        temp.main_text(),
                        fn_body(GenState { main: Seq::empty(), ..g2 }, all.subrange(i + 1, all.len() as int)),
                    );
                }
                code.append(temp.main_code.as_str());
                temp.main_code = String::new();
                assert(temp.gen() == GenState { main: Seq::<char>::empty(), ..g2 });
            },
        }
        i = i + 1;
    }
    assert(all.subrange(i as int, all.len() as int) =~= Seq::<SpecStmt>::empty());
    code.append("}\n");
    code
}

/// A cached text stays cached when another entry is added at the end.
pub proof fn lemma_cache_get_push(cache: Seq<(SpecMonomorph, Seq<char>)>, e: (SpecMonomorph, Seq<char>), m: SpecMonomorph)
    requires
        cache_get(cache, m) is Some,
    ensures
        cache_get(cache.push(e), m) == cache_get(cache, m),
    decreases cache.len(),
{
    if cache.len() > 0 && cache[0].0 != m {
        assert(cache.push(e).drop_first() =~= cache.drop_first().push(e));
        lemma_cache_get_push(cache.drop_first(), e, m);
    }
}

/// First position of `name` in `params`.
fn position_in(params: &[String], name: &String) -> (res: Option<usize>)
    ensures
        match crate::codegen::monomorphization::first_index(strings_model(params@), name@) {
            Some(i) => 0 <= i < params@.len() && (res matches Some(k) && k as int == i),
            None => res is None,
        },
{
    let ghost model = strings_model(params@);
    assert(model.subrange(0, model.len() as int) =~= model);
    let mut i: usize = 0;
    while i < params.len()
        invariant
            i <= params@.len(),
            model == strings_model(params@),
            crate::codegen::monomorphization::first_index(model, name@) == match crate::codegen::monomorphization::first_index(
                model.subrange(i as int, model.len() as int),
                name@,
            ) {
                Some(j) => Some(j + i),
                None => None,
            },
        decreases params@.len() - i,
    {
        let ghost rest = model.subrange(i as int, model.len() as int);
        assert(rest.drop_first() =~= model.subrange(i + 1, model.len() as int));
        if params[i] == *name {
            return Some(i);
        }
        i = i + 1;
    }
    assert(model.subrange(i as int, model.len() as int) =~= Seq::<Seq<char>>::empty());
    None
}

pub proof fn lemma_cg_substitute_all(ts: Seq<SpecType>, params: Seq<Seq<char>>, concrete: Seq<Seq<char>>)
    ensures
        cg_substitute_all(ts, params, concrete).len() == ts.len(),
        forall|i: int|
            0 <= i < ts.len() ==> cg_substitute_all(ts, params, concrete)[i] == cg_substitute(
                #[trigger] ts[i],
                params,
                concrete,
            ),
    decreases ts.len(),
{
    if ts.len() > 0 {
        let pre = ts.subrange(0, ts.len() - 1);
        lemma_cg_substitute_all(pre, params, concrete);
        assert forall|i: int| 0 <= i < ts.len() - 1 implies #[trigger] ts[i] == pre[i] by {}
    }
}

} // verus!
