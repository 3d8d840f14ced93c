//! A type checker for Bolt programs: it infers the type of each expression,
//! checks declarations, assignments, conditions, loops and calls against the
//! known signatures, and collects the errors it finds.
use vstd::prelude::*;
use crate::ast::{
    clone_type, lemma_exprs_model, lemma_stmts_model, opt_type_model, stmts_model, BinaryOperator, Expression,
    ExternFunction, NativeFunction, Parameter, Program, SpecExpr, SpecStmt, SpecType, Statement, Type,
    UnaryOperator,
};
use crate::module::ModuleSystem;
use crate::name_map::{assoc_get, lemma_map_values_get, lemma_map_values_insert, map_values, NameMap};
use crate::text::{owned, usize_to_string};

pub mod spec;

use spec::{
    binary_result, builtin_functions, check, check_all, check_program_state, collect, collect_all, compatible,
    declare_all, declared_sig, infer, infer_args, infer_elems, native_sig, plain_sig, report, str_debug_text, type_debug_text, types_debug_text,
    SpecFnSig, SpecTypeError, TcState,
};

verus! {

/// A type error found by the checker.
#[derive(Debug, Clone)]
pub struct TypeError {
    pub message: String,
    pub line: usize,
    pub column: usize,
}

impl View for TypeError {
    type V = SpecTypeError;

    open spec fn view(&self) -> SpecTypeError {
        SpecTypeError { message: self.message@, line: self.line, column: self.column }
    }
}

/// The signature of a function the checker knows.
#[derive(Debug)]
pub struct FunctionSignature {
    pub name: String,
    pub params: Vec<(String, Type)>,
    pub return_type: Option<Type>,
    pub is_native: bool,
    pub is_extern: bool,
}

impl View for FunctionSignature {
    type V = SpecFnSig;

    open spec fn view(&self) -> SpecFnSig {
        SpecFnSig {
            name: self.name@,
            params: pairs_model(self.params@),
            return_type: opt_type_model(self.return_type),
            is_native: self.is_native,
            is_extern: self.is_extern,
        }
    }
}

/// Model of a list of (name, type) pairs.
pub open spec fn pairs_model(v: Seq<(String, Type)>) -> Seq<(Seq<char>, SpecType)> {
    Seq::new(v.len(), |i: int| (v[i].0@, v[i].1@))
}

/// std's `Debug` formatting of a string (`str`'s `Debug`); its result is
/// named [`str_debug_text`].
#[verifier::external_body]
fn str_debug(s: &str) -> (res: String)
    ensures
        res@ == str_debug_text(s@),
{
    format!("{:?}", s)
}

/// The `Debug` text of a type (see [`type_debug_text`]).
pub(crate) fn type_debug(t: &Type) -> (res: String)
    ensures
        res@ == type_debug_text(t@),
    decreases t, 1nat,
{
    proof {
        reveal(type_debug_text);
    }
    match t {
        Type::String => owned("String"),
        Type::Integer => owned("Integer"),
        Type::Bool => owned("Bool"),
        Type::Array(inner) => {
            let mut r = owned("Array(");
            r.append(type_debug(&**inner).as_str());
            r.append(")");
            r
        },
        Type::Pointer(inner) => {
            let mut r = owned("Pointer(");
            r.append(type_debug(&**inner).as_str());
            r.append(")");
            r
        },
        Type::Custom(n) => {
            let mut r = owned("Custom(");
            r.append(str_debug(n.as_str()).as_str());
            r.append(")");
            r
        },
        Type::Generic { name, type_params } => {
            let mut r = owned("Generic { name: ");
            r.append(str_debug(name.as_str()).as_str());
            r.append(", type_params: [");
            r.append(types_debug(type_params).as_str());
            r.append("] }");
            r
        },
        Type::TypeParameter(n) => {
            let mut r = owned("TypeParameter(");
            r.append(str_debug(n.as_str()).as_str());
            r.append(")");
            r
        },
    }
}

/// The `Debug` texts of a list of types, separated by `, `.
fn types_debug(ts: &Vec<Type>) -> (res: String)
    ensures
        res@ == types_debug_text(crate::ast::types_model(ts@)),
    decreases ts@, 0nat,
{
    let ghost tm = crate::ast::types_model(ts@);
    proof {
        crate::ast::lemma_types_model(ts@);
        reveal(type_debug_text);
    }
    let mut res = String::new();
    let mut i: usize = 0;
    while i < ts.len()
        invariant
            i <= ts@.len(),
            tm == crate::ast::types_model(ts@),
            tm.len() == ts@.len(),
            forall|j: int| 0 <= j < ts@.len() ==> tm[j] == (#[trigger] ts@[j])@,
            res@ == types_debug_text(tm.take(i as int)),
        decreases ts@.len() - i,
    {
        proof {
            assert(decreases_to!(ts@ => ts@[i as int]));
            assert(tm.take(i + 1).subrange(0, i as int) =~= tm.take(i as int));
            assert(tm.take(i + 1)[i as int] == tm[i as int]);
        }
        if i > 0 {
            res.append(", ");
        }
        let d = type_debug(&ts[i]);
        res.append(d.as_str());
        proof {
            reveal(type_debug_text);
            let next = tm.take(i + 1);
            assert(next.len() == i + 1);
            assert(next[i as int] == tm[i as int]);
            if i == 0 {
                assert(types_debug_text(next) == type_debug_text(next[0]));
            } else {
                assert(types_debug_text(next) == types_debug_text(next.subrange(0, i as int)) + ", "@ + type_debug_text(next[i as int]));
            }
        }
        i = i + 1;
    }
    assert(tm.take(i as int) =~= tm);
    res
}

/// The parameters of a declaration as (name, type) pairs.
fn param_pairs(params: &Vec<Parameter>) -> (res: Vec<(String, Type)>)
    ensures
        pairs_model(res@) == crate::ast::params_model(params@),
{
    let mut res: Vec<(String, Type)> = Vec::new();
    let mut i: usize = 0;
    while i < params.len()
        invariant
            i <= params@.len(),
            res@.len() == i,
            forall|j: int| 0 <= j < i ==> (#[trigger] res@[j]).0@ == params@[j].name@ && res@[j].1@ == params@[j].param_type@,
        decreases params@.len() - i,
    {
        res.push((params[i].name.clone(), clone_type(&params[i].param_type)));
        i = i + 1;
    }
    assert(pairs_model(res@) =~= crate::ast::params_model(params@));
    res
}

/// A copy of an optional type.
fn clone_opt_type(t: &Option<Type>) -> (res: Option<Type>)
    ensures
        opt_type_model(res) == opt_type_model(*t),
{
    match t {
        Some(t) => Some(clone_type(t)),
        None => None,
    }
}

/// A copy of a signature.
fn clone_sig(s: &FunctionSignature) -> (res: FunctionSignature)
    ensures
        res@ == s@,
{
    let mut params: Vec<(String, Type)> = Vec::new();
    let mut i: usize = 0;
    while i < s.params.len()
        invariant
            i <= s.params@.len(),
            params@.len() == i,
            forall|j: int| 0 <= j < i ==> (#[trigger] params@[j]).0@ == s.params@[j].0@ && params@[j].1@ == s.params@[j].1@,
        decreases s.params@.len() - i,
    {
        params.push((s.params[i].0.clone(), clone_type(&s.params[i].1)));
        i = i + 1;
    }
    let res = FunctionSignature {
        name: s.name.clone(),
        params,
        return_type: clone_opt_type(&s.return_type),
        is_native: s.is_native,
        is_extern: s.is_extern,
    };
    assert(res@.params =~= s@.params);
    res
}

/// One parameter of the given type.
fn one_param(p: &str, t: Type) -> (res: Vec<(String, Type)>)
    ensures
        pairs_model(res@) == seq![(p@, t@)],
{
    let mut v: Vec<(String, Type)> = Vec::new();
    let ghost tv = t@;
    v.push((owned(p), t));
    assert(pairs_model(v@) =~= seq![(p@, tv)]);
    v
}

/// Two `String` parameters.
fn two_string_params(a: &str, b: &str) -> (res: Vec<(String, Type)>)
    ensures
        pairs_model(res@) == seq![(a@, SpecType::String), (b@, SpecType::String)],
{
    let mut v: Vec<(String, Type)> = Vec::new();
    v.push((owned(a), Type::String));
    v.push((owned(b), Type::String));
    assert(pairs_model(v@) =~= seq![(a@, SpecType::String), (b@, SpecType::String)]);
    v
}

/// A signature of a built-in function.
fn builtin_sig(name: &str, params: Vec<(String, Type)>, ret: Option<Type>, is_native: bool) -> (res: FunctionSignature)
    ensures
        res@ == (SpecFnSig {
            name: name@,
            params: pairs_model(params@),
            return_type: opt_type_model(ret),
            is_native,
            is_extern: false,
        }),
{
    FunctionSignature { name: owned(name), params, return_type: ret, is_native, is_extern: false }
}

/// Checks the types of a program.
pub struct TypeChecker {
    functions: NameMap<FunctionSignature>,
    variables: NameMap<Type>,
    errors: Vec<TypeError>,
    module_system: Option<ModuleSystem>,
}

impl TypeChecker {
    /// What the checker knows: signatures, variable types and errors.
    pub closed spec fn state(&self) -> TcState {
        TcState {
            functions: map_values(self.functions@, |f: FunctionSignature| f@),
            variables: map_values(self.variables@, |t: Type| t@),
            errors: Seq::new(self.errors@.len(), |i: int| self.errors@[i]@),
        }
    }

    /// Whether a module system was given.
    pub closed spec fn has_module_system(&self) -> bool {
        self.module_system is Some
    }

    /// A checker that knows the built-in functions and nothing else.
    pub fn new() -> (res: Self)
        ensures
            res.state() == (TcState {
                functions: builtin_functions(),
                variables: Seq::empty(),
                errors: Seq::empty(),
            }),
            !res.has_module_system(),
    {
        let mut checker = Self {
            functions: NameMap::new(),
            variables: NameMap::new(),
            errors: Vec::new(),
            module_system: None,
        };
        assert(checker.state().functions =~= Seq::<(Seq<char>, SpecFnSig)>::empty());
        checker.add_builtin_functions();
        assert(checker.state().variables =~= Seq::<(Seq<char>, SpecType)>::empty());
        assert(checker.state().errors =~= Seq::<SpecTypeError>::empty());
        checker
    }

    /// The same checker, given a module system.
    pub fn with_module_system(self, module_system: ModuleSystem) -> (res: Self)
        ensures
            res.state() == self.state(),
            res.has_module_system(),
    {
        let mut s = self;
        s.module_system = Some(module_system);
        s
    }

    fn insert_function(&mut self, sig: FunctionSignature)
        ensures
            final(self).state() == (TcState {
                functions: crate::name_map::assoc_insert(old(self).state().functions, sig.name@, sig@),
                ..old(self).state()
            }),
            final(self).module_system == old(self).module_system,
    {
        proof {
            lemma_map_values_insert(self.functions@, |f: FunctionSignature| f@, sig.name@, sig);
        }
        self.functions.insert(sig.name.clone(), sig);
    }

    /// Records the signatures of the built-in functions.
    fn add_builtin_functions(&mut self)
        requires
            old(self).state().functions == Seq::<(Seq<char>, SpecFnSig)>::empty(),
        ensures
            final(self).state() == (TcState { functions: builtin_functions(), ..old(self).state() }),
            final(self).module_system == old(self).module_system,
    {
        let print = builtin_sig("print", one_param("value", Type::String), None, false);
        self.insert_function(print);
        let to_string = builtin_sig("toString", one_param("value", Type::Integer), Some(Type::String), false);
        self.insert_function(to_string);
        let length = builtin_sig("length", one_param("s", Type::String), Some(Type::Integer), true);
        self.insert_function(length);
        let concat = builtin_sig("concat", two_string_params("a", "b"), Some(Type::String), true);
        self.insert_function(concat);
        let index_of = builtin_sig("indexOf", two_string_params("s", "substr"), Some(Type::Integer), true);
        self.insert_function(index_of);
        let contains = builtin_sig("contains", two_string_params("s", "substr"), Some(Type::Bool), true);
        self.insert_function(contains);
        let trim = builtin_sig("trim", one_param("s", Type::String), Some(Type::String), true);
        self.insert_function(trim);
        let read_file = builtin_sig("readFile", one_param("path", Type::String), Some(Type::String), true);
        self.insert_function(read_file);
        let write_file = builtin_sig("writeFile", two_string_params("path", "content"), Some(Type::Bool), true);
        self.insert_function(write_file);
        let append_file = builtin_sig("appendFile", two_string_params("path", "content"), Some(Type::Bool), true);
        self.insert_function(append_file);
        let file_exists = builtin_sig("fileExists", one_param("path", Type::String), Some(Type::Bool), true);
        self.insert_function(file_exists);
        let delete_file = builtin_sig("deleteFile", one_param("path", Type::String), Some(Type::Bool), true);
        self.insert_function(delete_file);
    }

    /// Checks a program: the signatures it declares are recorded first,
    /// then every statement is checked. It succeeds when no error was
    /// reported (counting errors reported before); otherwise it returns
    /// every error reported.
    pub fn check_program(&mut self, program: &Program) -> (res: Result<(), Vec<TypeError>>)
        ensures
            final(self).state() == check_program_state(old(self).state(), stmts_model(program.statements@)),
            match res {
                Ok(()) => final(self).state().errors.len() == 0,
                Err(errs) => final(self).state().errors.len() > 0 && Seq::new(errs@.len(), |i: int| errs@[i]@)
                    == final(self).state().errors,
            },
            final(self).has_module_system() == old(self).has_module_system(),
    {
        let stmts = &program.statements;
        let ghost ss = stmts_model(stmts@);
        proof {
            lemma_stmts_model(stmts@);
        }
        let mut i: usize = 0;
        while i < stmts.len()
            invariant
                i <= stmts@.len(),
                ss == stmts_model(stmts@),
                ss.len() == stmts@.len(),
                forall|j: int| 0 <= j < stmts@.len() ==> ss[j] == (#[trigger] stmts@[j])@,
                self.state() == collect_all(old(self).state(), ss, i as int),
                self.module_system == old(self).module_system,
            decreases stmts@.len() - i,
        {
            self.collect_function_signature(&stmts[i]);
            i = i + 1;
        }
        let ghost collected = self.state();
        let mut i: usize = 0;
        while i < stmts.len()
            invariant
                i <= stmts@.len(),
                ss == stmts_model(stmts@),
                ss.len() == stmts@.len(),
                forall|j: int| 0 <= j < stmts@.len() ==> ss[j] == (#[trigger] stmts@[j])@,
                self.state() == check_all(collected, ss, i as int),
                self.module_system == old(self).module_system,
            decreases stmts@.len() - i,
        {
            proof {
                assert(decreases_to!(stmts@ => stmts@[i as int]));
            }
            self.check_statement(&stmts[i]);
            i = i + 1;
        }
        if self.errors.len() == 0 {
            Ok(())
        } else {
            let mut errs: Vec<TypeError> = Vec::new();
            let mut k: usize = 0;
            while k < self.errors.len()
                invariant
                    k <= self.errors@.len(),
                    errs@.len() == k,
                    forall|j: int| 0 <= j < k ==> (#[trigger] errs@[j])@ == self.errors@[j]@,
                decreases self.errors@.len() - k,
            {
                let e = &self.errors[k];
                errs.push(TypeError { message: e.message.clone(), line: e.line, column: e.column });
                k = k + 1;
            }
            assert(Seq::new(errs@.len(), |i: int| errs@[i]@) =~= self.state().errors);
            Err(errs)
        }
    }

    /// Records the functions a statement declares (see [`collect`]).
    fn collect_function_signature(&mut self, statement: &Statement)
        ensures
            final(self).state() == collect(old(self).state(), statement@),
            final(self).module_system == old(self).module_system,
    {
        match statement {
            Statement::Function { name, params, return_type, .. } => {
                let sig = FunctionSignature {
                    name: name.clone(),
                    params: param_pairs(params),
                    return_type: clone_opt_type(return_type),
                    is_native: false,
                    is_extern: false,
                };
                self.insert_function(sig);
            },
            Statement::NativeBlock { functions, .. } => {
                self.declare_natives(functions);
            },
            Statement::ExternBlock { functions, .. } => {
                self.declare_externs(functions);
            },
            _ => {},
        }
    }

    fn declare_natives(&mut self, functions: &Vec<NativeFunction>)
        ensures
            final(self).state() == (TcState {
                functions: declare_all(
                    old(self).state().functions,
                    Seq::new(functions@.len(), |i: int| crate::ast::native_model(functions@[i])),
                    true,
                    false,
                    functions@.len() as int,
                ),
                ..old(self).state()
            }),
            final(self).module_system == old(self).module_system,
    {
        let ghost decls = Seq::new(functions@.len(), |i: int| crate::ast::native_model(functions@[i]));
        let mut i: usize = 0;
        while i < functions.len()
            invariant
                i <= functions@.len(),
                decls == Seq::new(functions@.len(), |i: int| crate::ast::native_model(functions@[i])),
                self.state() == (TcState {
                    functions: declare_all(old(self).state().functions, decls, true, false, i as int),
                    ..old(self).state()
                }),
                self.module_system == old(self).module_system,
            decreases functions@.len() - i,
        {
            let f = &functions[i];
            let sig = FunctionSignature {
                name: f.name.clone(),
                params: param_pairs(&f.params),
                return_type: clone_opt_type(&f.return_type),
                is_native: true,
                is_extern: false,
            };
            assert(sig@ == declared_sig(decls[i as int], true, false));
            self.insert_function(sig);
            i = i + 1;
        }
    }

    fn declare_externs(&mut self, functions: &Vec<ExternFunction>)
        ensures
            final(self).state() == (TcState {
                functions: declare_all(
                    old(self).state().functions,
                    Seq::new(functions@.len(), |i: int| crate::ast::extern_model(functions@[i])),
                    false,
                    true,
                    functions@.len() as int,
                ),
                ..old(self).state()
            }),
            final(self).module_system == old(self).module_system,
    {
        let ghost decls = Seq::new(functions@.len(), |i: int| crate::ast::extern_model(functions@[i]));
        let mut i: usize = 0;
        while i < functions.len()
            invariant
                i <= functions@.len(),
                decls == Seq::new(functions@.len(), |i: int| crate::ast::extern_model(functions@[i])),
                self.state() == (TcState {
                    functions: declare_all(old(self).state().functions, decls, false, true, i as int),
                    ..old(self).state()
                }),
                self.module_system == old(self).module_system,
            decreases functions@.len() - i,
        {
            let f = &functions[i];
            let sig = FunctionSignature {
                name: f.name.clone(),
                params: param_pairs(&f.params),
                return_type: clone_opt_type(&f.return_type),
                is_native: false,
                is_extern: true,
            };
            assert(sig@ == declared_sig(decls[i as int], false, true));
            self.insert_function(sig);
            i = i + 1;
        }
    }

    /// Records the type of a variable.
    fn set_variable(&mut self, name: &String, t: Type)
        ensures
            final(self).state() == (TcState {
                variables: crate::name_map::assoc_insert(old(self).state().variables, name@, t@),
                ..old(self).state()
            }),
            final(self).module_system == old(self).module_system,
    {
        proof {
            lemma_map_values_insert(self.variables@, |t: Type| t@, name@, t);
        }
        self.variables.insert(name.clone(), t);
    }

    /// Checks one statement (see [`check`]).
    fn check_statement(&mut self, statement: &Statement)
        ensures
            final(self).state() == check(old(self).state(), statement@),
            final(self).module_system == old(self).module_system,
        decreases statement, 1nat,
    {
        broadcast use crate::ast::group_ast_models;

        match statement {
            Statement::VarDecl { name, type_annotation, value } | Statement::ValDecl {
                name,
                type_annotation,
                value,
            } => {
                let inferred = self.infer_expression_type(value);
                match type_annotation {
                    Some(declared) => {
                        if !self.types_compatible(declared, &inferred) {
                            let mut m = owned("Type mismatch: variable '");
                            m.append(name.as_str());
                            m.append("' declared as ");
                            m.append(type_debug(declared).as_str());
                            m.append(", but assigned ");
                            m.append(type_debug(&inferred).as_str());
                            self.add_error(m, 0, 0);
                            return;
                        }
                    },
                    None => {},
                }
                self.set_variable(name, inferred);
            },
            Statement::Assignment { variable, value } => {
                proof {
                    lemma_map_values_get(self.variables@, |t: Type| t@, variable@);
                }
                match self.variables.get(variable.as_str()) {
                    Some(vt) => {
                        let var_type = clone_type(vt);
                        let value_type = self.infer_expression_type(value);
                        if !self.types_compatible(&var_type, &value_type) {
                            let mut m = owned("Type mismatch: cannot assign ");
                            m.append(type_debug(&value_type).as_str());
                            m.append(" to variable '");
                            m.append(variable.as_str());
                            m.append("' of type ");
                            m.append(type_debug(&var_type).as_str());
                            self.add_error(m, 0, 0);
                        }
                    },
                    None => {
                        let mut m = owned("Undefined variable: '");
                        m.append(variable.as_str());
                        m.append("'");
                        self.add_error(m, 0, 0);
                    },
                }
            },
            Statement::If { condition, then_body, else_body } => {
                let ct = self.infer_expression_type(condition);
                if !self.types_compatible(&Type::Bool, &ct) {
                    let mut m = owned("If condition must be boolean, found ");
                    m.append(type_debug(&ct).as_str());
                    self.add_error(m, 0, 0);
                }
                self.check_block(then_body);
                match else_body {
                    Some(eb) => self.check_block(eb),
                    None => {},
                }
            },
            Statement::Function { body, .. } => {
                self.check_block(body);
            },
            Statement::Return(value) => {
                match value {
                    Some(e) => {
                        self.infer_expression_type(e);
                    },
                    None => {},
                }
            },
            Statement::ForIn { iterable, body, .. } => {
                let t = self.infer_expression_type(iterable);
                match t {
                    Type::Array(_) => self.check_block(body),
                    _ => {
                        let mut m = owned("Cannot iterate over ");
                        m.append(type_debug(&t).as_str());
                        m.append(", expected Array");
                        self.add_error(m, 0, 0);
                    },
                }
            },
            Statement::Expression(e) => {
                self.infer_expression_type(e);
            },
            _ => {},
        }
    }

    /// Checks statements one after another.
    fn check_block(&mut self, ss: &Vec<Statement>)
        ensures
            final(self).state() == check_all(old(self).state(), stmts_model(ss@), ss@.len() as int),
            final(self).module_system == old(self).module_system,
        decreases ss@, 0nat,
    {
        let ghost all = stmts_model(ss@);
        proof {
            lemma_stmts_model(ss@);
        }
        let mut i: usize = 0;
        while i < ss.len()
            invariant
                i <= ss@.len(),
                all == stmts_model(ss@),
                all.len() == ss@.len(),
                forall|j: int| 0 <= j < ss@.len() ==> all[j] == (#[trigger] ss@[j])@,
                self.state() == check_all(old(self).state(), all, i as int),
                self.module_system == old(self).module_system,
            decreases ss@.len() - i,
        {
            proof {
                assert(decreases_to!(ss@ => ss@[i as int]));
            }
            self.check_statement(&ss[i]);
            i = i + 1;
        }
    }

    /// The type of an expression (see [`infer`]).
    fn infer_expression_type(&mut self, expression: &Expression) -> (res: Type)
        ensures
            (final(self).state(), res@) == infer(old(self).state(), expression@),
            final(self).module_system == old(self).module_system,
        decreases expression, 1nat,
    {
        broadcast use crate::ast::group_ast_models;

        match expression {
            Expression::StringLiteral(_) => Type::String,
            Expression::IntegerLiteral(_) => Type::Integer,
            Expression::BoolLiteral(_) => Type::Bool,
            Expression::Identifier(name) => {
                proof {
                    lemma_map_values_get(self.variables@, |t: Type| t@, name@);
                }
                match self.variables.get(name.as_str()) {
                    Some(t) => clone_type(t),
                    None => {
                        let mut m = owned("Undefined variable: '");
                        m.append(name.as_str());
                        m.append("'");
                        self.add_error(m, 0, 0);
                        Type::String
                    },
                }
            },
            Expression::FunctionCall { name, args } => {
                proof {
                    lemma_map_values_get(self.functions@, |f: FunctionSignature| f@, name@);
                }
                let sig = match self.functions.get(name.as_str()) {
                    Some(s) => clone_sig(s),
                    None => {
                        let mut m = owned("Undefined function: '");
                        m.append(name.as_str());
                        m.append("'");
                        self.add_error(m, 0, 0);
                        return Type::String;
                    },
                };
                let ghost st0 = old(self).state();
                assert(assoc_get(st0.functions, name@) == Some(sig@));
                assert(expression@ == SpecExpr::FunctionCall { name: name@, args: crate::ast::exprs_model(args@) });
                if args.len() != sig.params.len() {
                    let mut m = owned("Function '");
                    m.append(name.as_str());
                    m.append("' expects ");
                    m.append(usize_to_string(sig.params.len()).as_str());
                    m.append(" arguments, found ");
                    m.append(usize_to_string(args.len()).as_str());
                    self.add_error(m, 0, 0);
                } else {
                    self.check_args(name, args, &sig.params);
                    assert(self.state() == infer(st0, expression@).0);
                }
                assert(self.state() == infer(st0, expression@).0);
                match sig.return_type {
                    Some(t) => t,
                    None => Type::String,
                }
            },
            Expression::BinaryOp { left, operator, right } => {
                let lt = self.infer_expression_type(&**left);
                let rt = self.infer_expression_type(&**right);
                self.check_binary_operation(&lt, operator, &rt)
            },
            Expression::UnaryOp { operator, operand } => {
                let t = self.infer_expression_type(&**operand);
                self.check_unary_operation(operator, &t)
            },
            Expression::ArrayLiteral(elements) => {
                if elements.len() == 0 {
                    Type::Array(Box::new(Type::String))
                } else {
                    proof {
                        lemma_exprs_model(elements@);
                        assert(decreases_to!(elements@ => elements@[0]));
                    }
                    let t0 = self.infer_expression_type(&elements[0]);
                    self.check_elements(elements, &t0);
                    Type::Array(Box::new(t0))
                }
            },
            Expression::ArrayAccess { array, index } => {
                let at = self.infer_expression_type(&**array);
                let it = self.infer_expression_type(&**index);
                if !self.types_compatible(&Type::Integer, &it) {
                    let mut m = owned("Array index must be Integer, found ");
                    m.append(type_debug(&it).as_str());
                    self.add_error(m, 0, 0);
                }
                match at {
                    Type::Array(el) => *el,
                    _ => {
                        let mut m = owned("Cannot index into ");
                        m.append(type_debug(&at).as_str());
                        m.append(", expected Array");
                        self.add_error(m, 0, 0);
                        Type::String
                    },
                }
            },
            Expression::AddressOf { operand } => {
                let t = self.infer_expression_type(&**operand);
                Type::Pointer(Box::new(t))
            },
            Expression::Dereference { operand } => {
                let t = self.infer_expression_type(&**operand);
                match t {
                    Type::Pointer(p) => *p,
                    _ => {
                        let mut m = owned("Cannot dereference ");
                        m.append(type_debug(&t).as_str());
                        m.append(", expected Pointer");
                        self.add_error(m, 0, 0);
                        Type::String
                    },
                }
            },
            _ => Type::String,
        }
    }

    /// The arguments of a call, each checked against its parameter.
    fn check_args(&mut self, fname: &String, args: &Vec<Expression>, params: &Vec<(String, Type)>)
        requires
            args@.len() == params@.len(),
        ensures
            final(self).state() == infer_args(
                old(self).state(),
                fname@,
                crate::ast::exprs_model(args@),
                pairs_model(params@),
                args@.len() as int,
            ),
            final(self).module_system == old(self).module_system,
        decreases args@, 0nat,
    {
        let ghost all = crate::ast::exprs_model(args@);
        let ghost ps = pairs_model(params@);
        proof {
            lemma_exprs_model(args@);
        }
        let mut i: usize = 0;
        while i < args.len()
            invariant
                i <= args@.len(),
                args@.len() == params@.len(),
                all == crate::ast::exprs_model(args@),
                all.len() == args@.len(),
                forall|j: int| 0 <= j < args@.len() ==> all[j] == (#[trigger] args@[j])@,
                ps == pairs_model(params@),
                self.state() == infer_args(old(self).state(), fname@, all, ps, i as int),
                self.module_system == old(self).module_system,
            decreases args@.len() - i,
        {
            proof {
                assert(decreases_to!(args@ => args@[i as int]));
            }
            let at = self.infer_expression_type(&args[i]);
            let (pname, pt) = &params[i];
            if !self.types_compatible(pt, &at) {
                let mut m = owned("Function '");
                m.append(fname.as_str());
                m.append("' parameter '");
                m.append(pname.as_str());
                m.append("' expects ");
                m.append(type_debug(pt).as_str());
                m.append(", found ");
                m.append(type_debug(&at).as_str());
                self.add_error(m, 0, 0);
            }
            i = i + 1;
        }
    }

    /// The elements of an array literal after the first, each checked
    /// against the first's type.
    fn check_elements(&mut self, elements: &Vec<Expression>, t0: &Type)
        ensures
            final(self).state() == infer_elems(
                old(self).state(),
                crate::ast::exprs_model(elements@),
                t0@,
                elements@.len() as int,
            ),
            final(self).module_system == old(self).module_system,
        decreases elements@, 0nat,
    {
        let ghost all = crate::ast::exprs_model(elements@);
        proof {
            lemma_exprs_model(elements@);
        }
        if elements.len() <= 1 {
            return;
        }
        let mut i: usize = 1;
        while i < elements.len()
            invariant
                1 <= i <= elements@.len(),
                all == crate::ast::exprs_model(elements@),
                all.len() == elements@.len(),
                forall|j: int| 0 <= j < elements@.len() ==> all[j] == (#[trigger] elements@[j])@,
                self.state() == infer_elems(old(self).state(), all, t0@, i as int),
                self.module_system == old(self).module_system,
            decreases elements@.len() - i,
        {
            proof {
                assert(decreases_to!(elements@ => elements@[i as int]));
            }
            let t = self.infer_expression_type(&elements[i]);
            if !self.types_compatible(t0, &t) {
                let mut m = owned("Array element ");
                m.append(usize_to_string(i).as_str());
                m.append(" has type ");
                m.append(type_debug(&t).as_str());
                m.append(", expected ");
                m.append(type_debug(t0).as_str());
                self.add_error(m, 0, 0);
            }
            i = i + 1;
        }
    }

    /// The type of a binary operation on operands of the given types,
    /// reporting operands of the wrong type (see [`binary_result`]).
    fn check_binary_operation(&mut self, left: &Type, operator: &BinaryOperator, right: &Type) -> (res: Type)
        ensures
            res@ == binary_result(left@, *operator, right@).0,
            final(self).state() == spec::report_opt(old(self).state(), binary_result(left@, *operator, right@).1),
            final(self).module_system == old(self).module_system,
    {
        match operator {
            BinaryOperator::Add | BinaryOperator::Subtract | BinaryOperator::Multiply | BinaryOperator::Divide
            | BinaryOperator::Modulo => {
                if !(self.types_compatible(&Type::Integer, left) && self.types_compatible(&Type::Integer, right)) {
                    self.report_pair("Arithmetic operation requires Integer operands, found ", left, right);
                }
                Type::Integer
            },
            BinaryOperator::Equal | BinaryOperator::NotEqual => {
                if !self.types_compatible(left, right) {
                    self.report_pair("Cannot compare different types: ", left, right);
                }
                Type::Bool
            },
            BinaryOperator::Less | BinaryOperator::LessEqual | BinaryOperator::Greater
            | BinaryOperator::GreaterEqual => {
                if !(self.types_compatible(&Type::Integer, left) && self.types_compatible(&Type::Integer, right)) {
                    self.report_pair("Comparison requires Integer operands, found ", left, right);
                }
                Type::Bool
            },
            BinaryOperator::And | BinaryOperator::Or => {
                if !(self.types_compatible(&Type::Bool, left) && self.types_compatible(&Type::Bool, right)) {
                    self.report_pair("Logical operation requires Bool operands, found ", left, right);
                }
                Type::Bool
            },
        }
    }

    /// Reports `prefix` followed by the two types.
    fn report_pair(&mut self, prefix: &str, left: &Type, right: &Type)
        ensures
            final(self).state() == report(old(self).state(), prefix@ + spec::pair_text(left@, right@)),
            final(self).module_system == old(self).module_system,
    {
        let mut m = owned(prefix);
        m.append(type_debug(left).as_str());
        m.append(" and ");
        m.append(type_debug(right).as_str());
        assert(m@ =~= prefix@ + spec::pair_text(left@, right@));
        self.add_error(m, 0, 0);
    }

    /// The type of a unary operation, reporting an operand of the wrong type.
    fn check_unary_operation(&mut self, operator: &UnaryOperator, operand: &Type) -> (res: Type)
        ensures
            res@ == SpecType::Bool,
            final(self).state() == if compatible(SpecType::Bool, operand@) {
                old(self).state()
            } else {
                report(old(self).state(), "Logical NOT requires Bool operand, found "@ + type_debug_text(operand@))
            },
            final(self).module_system == old(self).module_system,
    {
        match operator {
            UnaryOperator::Not => {
                if !self.types_compatible(&Type::Bool, operand) {
                    let mut m = owned("Logical NOT requires Bool operand, found ");
                    m.append(type_debug(operand).as_str());
                    self.add_error(m, 0, 0);
                }
                Type::Bool
            },
        }
    }

    /// Whether a value of type `actual` may stand where `expected` is wanted.
    fn types_compatible(&self, expected: &Type, actual: &Type) -> (res: bool)
        ensures
            res == compatible(expected@, actual@),
        decreases expected,
    {
        match (expected, actual) {
            (Type::String, Type::String) => true,
            (Type::Integer, Type::Integer) => true,
            (Type::Bool, Type::Bool) => true,
            (Type::Array(e), Type::Array(a)) => self.types_compatible(&**e, &**a),
            (Type::Pointer(e), Type::Pointer(a)) => self.types_compatible(&**e, &**a),
            _ => false,
        }
    }

    fn add_error(&mut self, message: String, line: usize, column: usize)
        requires
            line == 0,
            column == 0,
        ensures
            final(self).state() == report(old(self).state(), message@),
            final(self).module_system == old(self).module_system,
    {
        self.errors.push(TypeError { message, line, column });
        assert(self.state().errors =~= old(self).state().errors.push(
            SpecTypeError { message: message@, line: 0, column: 0 },
        ));
    }

    /// The signature of a function, if known.
    pub fn get_function_signature(&self, name: &str) -> (res: Option<&FunctionSignature>)
        ensures
            match res {
                Some(s) => assoc_get(self.state().functions, name@) == Some(s@),
                None => assoc_get(self.state().functions, name@) is None,
            },
    {
        proof {
            lemma_map_values_get(self.functions@, |f: FunctionSignature| f@, name@);
        }
        self.functions.get(name)
    }

    /// The recorded type of a variable, if any.
    pub fn get_variable_type(&self, name: &str) -> (res: Option<&Type>)
        ensures
            match res {
                Some(t) => assoc_get(self.state().variables, name@) == Some(t@),
                None => assoc_get(self.state().variables, name@) is None,
            },
    {
        proof {
            lemma_map_values_get(self.variables@, |t: Type| t@, name@);
        }
        self.variables.get(name)
    }

    /// The errors reported so far, in order.
    pub fn get_errors(&self) -> (res: &[TypeError])
        ensures
            Seq::new(res@.len(), |i: int| res@[i]@) == self.state().errors,
    {
        let res = self.errors.as_slice();
        assert(Seq::new(res@.len(), |i: int| res@[i]@) =~= self.state().errors);
        res
    }

    /// Every known function signature, by name.
    pub fn get_all_functions(&self) -> (res: &NameMap<FunctionSignature>)
        ensures
            map_values(res@, |f: FunctionSignature| f@) == self.state().functions,
    {
        &self.functions
    }

    /// Every recorded variable type, by name.
    pub fn get_all_variables(&self) -> (res: &NameMap<Type>)
        ensures
            map_values(res@, |t: Type| t@) == self.state().variables,
    {
        &self.variables
    }
}

impl Default for TypeChecker {
    fn default() -> (res: Self)
        ensures
            res.state() == (TcState {
                functions: builtin_functions(),
                variables: Seq::empty(),
                errors: Seq::empty(),
            }),
    {
        Self::new()
    }
}

} // verus!
