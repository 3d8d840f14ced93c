//! Compiling top-level statements into the code of `main`.
use vstd::prelude::*;
use crate::ast::{lemma_exprs_model, lemma_stmts_model, stmts_model, BinaryOperator, Expression, SpecExpr, SpecStmt, Statement};
use crate::codegen::monomorphization::mangle;
use crate::name_map::{assoc_get, lemma_text_entries_get, lemma_text_entries_insert};
use crate::text::{chars_of, i64_to_string, owned, str_contains, str_starts_with, string_is, usize_to_string};
use super::CCodeGen;
use super::expr::{c_texts, lemma_c_texts, type_arg_names, binary_op_text};
use super::indent::{push_range, push_reindented};
use super::stmt_spec::{
    all_gen_ok, binary_kind, call_kind, cond_text, decl, element_type, emit, expr_stmt, gen_ok, indented_body,
    is_test_op, literal_loop, loop_over, main_body, main_stmt, namespaced_kind, set_kind, stmt_print,
    with_indent, GenState,
};

verus! {

pub proof fn lemma_all_gen_ok(ss: Seq<SpecStmt>)
    requires
        all_gen_ok(ss),
    ensures
        forall|i: int| 0 <= i < ss.len() ==> gen_ok(#[trigger] ss[i]),
    decreases ss.len(),
{
    if ss.len() > 0 {
        lemma_all_gen_ok(ss.drop_first());
        assert forall|i: int| 0 <= i < ss.len() implies gen_ok(#[trigger] ss[i]) by {
            if i > 0 {
                assert(ss[i] == ss.drop_first()[i - 1]);
            }
        }
    }
}

impl CCodeGen {
    /// The part of the generator that top-level statements change.
    pub open spec fn gen(&self) -> GenState {
        GenState { vars: self.vars(), lens: self.lens(), main: self.main_text() }
    }

    /// Everything but variables, array lengths and `main` is as in `other`.
    pub open spec fn same_rest(&self, other: &Self) -> bool {
        &&& self.functions == other.functions
        &&& self.symbol_table == other.symbol_table
        &&& self.has_user_main == other.has_user_main
        &&& self.generic_types == other.generic_types
        &&& self.required_monomorphs == other.required_monomorphs
        &&& self.generated_monomorphs == other.generated_monomorphs
        &&& self.required_libraries == other.required_libraries
    }

    /// Records the kind of a variable.
    fn set_var_kind(&mut self, name: &String, kind: String)
        ensures
            final(self).gen() == set_kind(old(self).gen(), name@, kind@),
            final(self).same_rest(old(self)),
    {
        let ghost k = kind;
        proof {
            lemma_text_entries_insert(self.variables@, name@, k);
        }
        self.variables.insert(name.clone(), kind);
    }

    /// Appends text to `main`.
    fn emit_text(&mut self, text: &String)
        ensures
            final(self).gen() == emit(old(self).gen(), text@),
            final(self).same_rest(old(self)),
    {
        self.main_code.append(text.as_str());
    }

    /// `    ctype name = value;` and a newline.
    fn decl_line_text(ctype: &str, name: &String, value: &String) -> (res: String)
        ensures
            res@ == super::stmt_spec::decl_line(ctype@, name@, value@),
    {
        let mut t = owned("    ");
        t.append(ctype);
        t.append(" ");
        t.append(name.as_str());
        t.append(" = ");
        t.append(value.as_str());
        t.append(";\n");
        t
    }

    /// A `var` or `val` declaration.
    fn compile_declaration(&mut self, name: &String, value: &Expression)
        ensures
            final(self).gen() == decl(old(self).gen(), name@, value@),
            final(self).same_rest(old(self)),
    {
        let text = self.expr_text(value);
        match value {
            Expression::StringLiteral(s) => {
                let mut t = owned("    char ");
                t.append(name.as_str());
                t.append("[] = \"");
                t.append(s.as_str());
                t.append("\";\n");
                self.emit_text(&t);
                self.set_var_kind(name, owned("string"));
            },
            Expression::IntegerLiteral(_) => {
                let t = Self::decl_line_text("int", name, &text);
                self.emit_text(&t);
                self.set_var_kind(name, owned("int"));
            },
            Expression::BoolLiteral(_) => {
                let t = Self::decl_line_text("int", name, &text);
                self.emit_text(&t);
                self.set_var_kind(name, owned("bool"));
            },
            Expression::FunctionCall { name: f, .. } => {
                let (ct, k) = call_kind_text(f);
                let t = Self::decl_line_text(ct, name, &text);
                self.emit_text(&t);
                self.set_var_kind(name, owned(k));
            },
            Expression::NamespacedFunctionCall { function, .. } => {
                let (ct, k) = if string_is(function, "toString") {
                    ("char*", "string")
                } else if string_is(function, "getArgs") {
                    ("char**", "getargs")
                } else {
                    ("int", "int")
                };
                let t = Self::decl_line_text(ct, name, &text);
                self.emit_text(&t);
                self.set_var_kind(name, owned(k));
            },
            Expression::ArrayLiteral(elems) => {
                proof {
                    lemma_exprs_model(elems@);
                }
                self.array_lengths.insert(name.clone(), elems.len());
                let joined = self.args_text(elems);
                let mut t = owned("    int ");
                t.append(name.as_str());
                t.append("[] = {");
                t.append(joined.as_str());
                t.append("};\n");
                self.emit_text(&t);
                self.set_var_kind(name, owned("array"));
            },
            Expression::BinaryOp { left, operator, right } => {
                let is_add = match operator {
                    BinaryOperator::Add => true,
                    _ => false,
                };
                let (ct, k) = if is_add && (self.is_string_expression(&**left) || self.is_string_expression(&**right)) {
                    ("char*", "string")
                } else if test_operator(*operator) {
                    ("int", "bool")
                } else {
                    ("int", "int")
                };
                let t = Self::decl_line_text(ct, name, &text);
                self.emit_text(&t);
                self.set_var_kind(name, owned(k));
            },
            Expression::Identifier(v) => {
                let t = Self::decl_line_text("int", name, v);
                self.emit_text(&t);
                self.set_var_kind(name, owned("int"));
            },
            Expression::UnaryOp { .. } => {
                let t = Self::decl_line_text("int", name, &text);
                self.emit_text(&t);
                self.set_var_kind(name, owned("bool"));
            },
            Expression::StructLiteral { struct_name, type_args, .. } => {
                let ty = match type_args {
                    Some(args) => {
                        let names = type_arg_names(args);
                        mangle(struct_name, &names)
                    },
                    None => struct_name.clone(),
                };
                let t = Self::decl_line_text(ty.as_str(), name, &text);
                self.emit_text(&t);
                self.set_var_kind(name, ty);
            },
            Expression::AddressOf { .. } => {
                let t = Self::decl_line_text("int*", name, &text);
                self.emit_text(&t);
                self.set_var_kind(name, owned("int*"));
            },
            _ => {
                let t = Self::decl_line_text("int", name, &text);
                self.emit_text(&t);
                self.set_var_kind(name, owned("int"));
            },
        }
    }

    /// The text of a condition.
    fn condition_text(&self, expression: &Expression) -> (res: String)
        ensures
            res@ == cond_text(self.vars(), self.lens(), expression@),
    {
        match expression {
            Expression::BoolLiteral(b) => if *b {
                owned("1")
            } else {
                owned("0")
            },
            Expression::Identifier(n) => n.clone(),
            Expression::BinaryOp { left, operator, right } => {
                let l = self.expr_text(&**left);
                let r = self.expr_text(&**right);
                if test_operator(*operator) {
                    let mut t = l;
                    t.append(" ");
                    t.append(binary_op_text(*operator));
                    t.append(" ");
                    t.append(r.as_str());
                    t
                } else {
                    let ghost (lv, rv) = (l@, r@);
                    let le = Expression::Identifier(l);
                    let re = Expression::Identifier(r);
                    assert(le@ == SpecExpr::Identifier(lv));
                    assert(re@ == SpecExpr::Identifier(rv));
                    let e = Expression::BinaryOp { left: Box::new(le), operator: *operator, right: Box::new(re) };
                    let inner = self.expr_text(&e);
                    let mut t = owned("(");
                    t.append(inner.as_str());
                    t.append(")");
                    t
                }
            },
            _ => self.expr_text(expression),
        }
    }

    /// Appends the text of a condition to `main`.
    fn compile_condition(&mut self, expression: &Expression)
        ensures
            final(self).gen() == emit(old(self).gen(), cond_text(old(self).vars(), old(self).lens(), expression@)),
            final(self).same_rest(old(self)),
    {
        let t = self.condition_text(expression);
        self.emit_text(&t);
    }

    /// The statement printing the argument of a top-level `stdio.print`.
    fn print_statement_text(&self, arg: &Expression) -> (res: String)
        ensures
            res@ == stmt_print(self.vars(), self.lens(), arg@),
    {
        match arg {
            Expression::StringLiteral(s) => {
                let mut x = owned("\"");
                x.append(s.as_str());
                x.append("\"");
                line_print_str_text(&x)
            },
            Expression::IntegerLiteral(n) => line_print_int_text(&i64_to_string(*n)),
            Expression::Identifier(v) => {
                proof {
                    lemma_text_entries_get(self.variables@, v@);
                }
                match self.variables.get(v.as_str()) {
                    Some(t) => if string_is(t, "string") {
                        line_print_str_text(v)
                    } else if string_is(t, "bool") {
                        line_print_bool_text(v)
                    } else {
                        line_print_int_text(v)
                    },
                    None => line_print_int_text(v),
                }
            },
            _ => line_print_int_text(&self.expr_text(arg)),
        }
    }

    /// A top-level expression statement.
    fn compile_expression(&mut self, expression: &Expression)
        ensures
            final(self).gen() == expr_stmt(old(self).gen(), expression@),
            final(self).same_rest(old(self)),
    {
        match expression {
            Expression::BoolLiteral(b) => {
                let x = if *b {
                    owned("\"true\"")
                } else {
                    owned("\"false\"")
                };
                let t = line_print_str_text(&x);
                self.emit_text(&t);
            },
            Expression::FunctionCall { .. } | Expression::BinaryOp { .. } => {
                let e = self.expr_text(expression);
                let mut t = owned("    ");
                t.append(e.as_str());
                t.append(";\n");
                self.emit_text(&t);
            },
            Expression::NamespacedFunctionCall { namespace, function, args } => {
                proof {
                    lemma_exprs_model(args@);
                }
                if string_is(namespace, "stdio") && string_is(function, "print") && args.len() == 1 {
                    let t = self.print_statement_text(&args[0]);
                    self.emit_text(&t);
                } else {
                    let e = self.expr_text(expression);
                    let mut t = owned("    ");
                    t.append(e.as_str());
                    t.append(";\n");
                    self.emit_text(&t);
                }
            },
            _ => {},
        }
    }
}

impl CCodeGen {
    /// Compiles one top-level statement into `main`, recording what it
    /// declares.
    pub fn compile_main_statement(&mut self, statement: Statement)
        requires
            gen_ok(statement@),
        ensures
            final(self).gen() == main_stmt(old(self).gen(), statement@),
            final(self).same_rest(old(self)),
    {
        self.main_statement(&statement);
    }

    pub(crate) fn main_statement(&mut self, statement: &Statement)
        requires
            gen_ok(statement@),
        ensures
            final(self).gen() == main_stmt(old(self).gen(), statement@),
            final(self).same_rest(old(self)),
        decreases statement, 1nat,
    {
        broadcast use crate::ast::group_ast_models;

        match statement {
            Statement::ValDecl { name, value, .. } => self.compile_declaration(name, value),
            Statement::VarDecl { name, value, .. } => self.compile_declaration(name, value),
            Statement::If { condition, then_body, else_body } => {
                let ghost m0 = self.main_text();
                let open = owned("    if (");
                self.emit_text(&open);
                self.compile_condition(condition);
                let close_cond = owned(") {\n");
                self.emit_text(&close_cond);
                proof {
                    let c = cond_text(old(self).vars(), old(self).lens(), condition@);
                    assert(self.main_text() =~= m0 + (open@ + c + close_cond@));
                }
                self.main_body(then_body);
                match else_body {
                    Some(eb) => {
                        let e = owned("    } else {\n");
                        self.emit_text(&e);
                        self.main_body(eb);
                    },
                    None => {},
                }
                let close = owned("    }\n");
                self.emit_text(&close);
            },
            Statement::ForCondition { condition, body } => {
                let c = self.expr_text(condition);
                let mut t = owned("    while (");
                t.append(c.as_str());
                t.append(") {\n");
                self.emit_text(&t);
                self.indented_body(body, "        ");
                let close = owned("    }\n");
                self.emit_text(&close);
            },
            Statement::ForIn { variable, iterable, body } => {
                self.compile_for_in(variable, iterable, body);
            },
            Statement::Return(Some(e)) => {
                let v = self.expr_text(e);
                let mut t = owned("    return ");
                t.append(v.as_str());
                t.append(";\n");
                self.emit_text(&t);
            },
            Statement::Return(None) => {
                let t = owned("    return;\n");
                self.emit_text(&t);
            },
            Statement::Assignment { variable, value } => {
                let v = self.expr_text(value);
                let mut t = owned("    ");
                t.append(variable.as_str());
                t.append(" = ");
                t.append(v.as_str());
                t.append(";\n");
                self.emit_text(&t);
            },
            Statement::Expression(e) => self.compile_expression(e),
            _ => {},
        }
    }

    /// A `for ... in` loop at top level.
    fn compile_for_in(&mut self, variable: &String, iterable: &Expression, body: &Vec<Statement>)
        requires
            gen_ok(SpecStmt::ForIn { variable: variable@, iterable: iterable@, body: stmts_model(body@) }),
        ensures
            final(self).gen() == main_stmt(
                old(self).gen(),
                SpecStmt::ForIn { variable: variable@, iterable: iterable@, body: stmts_model(body@) },
            ),
            final(self).same_rest(old(self)),
        decreases body@, 1nat,
    {
        let n = usize_to_string(self.variables.len());
        match iterable {
            Expression::ArrayLiteral(elems) => {
                let joined = self.args_text(elems);
                proof {
                    lemma_exprs_model(elems@);
                    lemma_c_texts(self.vars(), self.lens(), crate::ast::exprs_model(elems@));
                }
                let t = literal_loop_text(&joined, elems.len(), &n, variable);
                self.emit_text(&t);
                self.set_var_kind(variable, owned("int"));
                self.indented_body(body, "        ");
            },
            Expression::Identifier(a) => {
                let kind = match self.var_kind(a.as_str()) {
                    Some(k) => k.clone(),
                    None => owned("unknown"),
                };
                let mut lv = owned("_i_for_");
                lv.append(n.as_str());
                let (header, k) = loop_over_text(a, &kind, &lv, variable, true);
                self.emit_text(&header);
                self.set_var_kind(variable, k);
                self.indented_body(body, "        ");
            },
            Expression::FunctionCall { args, .. } => {
                proof {
                    lemma_exprs_model(args@);
                }
                match &args[0] {
                    Expression::Identifier(a) => {
                        let kind = match self.var_kind(a.as_str()) {
                            Some(k) => k.clone(),
                            None => owned("int*"),
                        };
                        let mut lv = owned("_i_iter_");
                        lv.append(n.as_str());
                        let (header, k) = loop_over_text(a, &kind, &lv, variable, false);
                        self.emit_text(&header);
                        self.set_var_kind(variable, k);
                        self.indented_body(body, "        ");
                    },
                    _ => {
                        return;
                    },
                }
            },
            _ => {
                let t = owned("    // TODO: for-in with complex expression\n");
                self.emit_text(&t);
                return;
            },
        }
        let close = owned("    }\n");
        self.emit_text(&close);
    }

    /// Statements compiled one after another.
    fn main_body(&mut self, ss: &Vec<Statement>)
        requires
            all_gen_ok(stmts_model(ss@)),
        ensures
            final(self).gen() == main_body(old(self).gen(), stmts_model(ss@)),
            final(self).same_rest(old(self)),
        decreases ss@, 0nat,
    {
        let ghost all = stmts_model(ss@);
        proof {
            lemma_stmts_model(ss@);
            lemma_all_gen_ok(all);
            assert(all.subrange(0, all.len() as int) =~= all);
        }
        let mut i: usize = 0;
        while i < ss.len()
            invariant
                i <= ss@.len(),
                all == stmts_model(ss@),
                all.len() == ss@.len(),
                forall|j: int| 0 <= j < all.len() ==> gen_ok(#[trigger] all[j]),
                forall|j: int| 0 <= j < ss@.len() ==> all[j] == (#[trigger] ss@[j])@,
                main_body(old(self).gen(), all) == main_body(self.gen(), all.subrange(i as int, all.len() as int)),
                self.same_rest(old(self)),
            decreases ss@.len() - i,
        {
            proof {
                assert(decreases_to!(ss@ => ss@[i as int]));
                let rest = all.subrange(i as int, all.len() as int);
                assert(rest.drop_first() =~= all.subrange(i + 1, all.len() as int));
                assert(rest[0] == all[i as int]);
            }
            self.main_statement(&ss[i]);
            i = i + 1;
        }
        proof {
            assert(all.subrange(ss@.len() as int, all.len() as int) =~= Seq::<SpecStmt>::empty());
        }
    }

    /// A statement compiled on its own and its code added re-indented.
    fn compile_main_statement_with_indent(&mut self, statement: &Statement, indent: &str)
        requires
            gen_ok(statement@),
        ensures
            final(self).gen() == with_indent(old(self).gen(), statement@, indent@),
            final(self).same_rest(old(self)),
        decreases statement, 2nat,
    {
        let old_code = self.main_code.clone();
        self.main_code = String::new();
        self.main_statement(statement);
        let new_code = self.main_code.clone();
        self.main_code = old_code;
        push_reindented(&mut self.main_code, &new_code, indent);
    }

    /// Statements compiled one after another, each re-indented.
    fn indented_body(&mut self, ss: &Vec<Statement>, indent: &str)
        requires
            all_gen_ok(stmts_model(ss@)),
        ensures
            final(self).gen() == indented_body(old(self).gen(), stmts_model(ss@), indent@),
            final(self).same_rest(old(self)),
        decreases ss@, 0nat,
    {
        let ghost all = stmts_model(ss@);
        proof {
            lemma_stmts_model(ss@);
            lemma_all_gen_ok(all);
            assert(all.subrange(0, all.len() as int) =~= all);
        }
        let mut i: usize = 0;
        while i < ss.len()
            invariant
                i <= ss@.len(),
                all == stmts_model(ss@),
                all.len() == ss@.len(),
                forall|j: int| 0 <= j < all.len() ==> gen_ok(#[trigger] all[j]),
                forall|j: int| 0 <= j < ss@.len() ==> all[j] == (#[trigger] ss@[j])@,
                indented_body(old(self).gen(), all, indent@) == indented_body(
                    self.gen(),
                    all.subrange(i as int, all.len() as int),
                    indent@,
                ),
                self.same_rest(old(self)),
            decreases ss@.len() - i,
        {
            proof {
                assert(decreases_to!(ss@ => ss@[i as int]));
                let rest = all.subrange(i as int, all.len() as int);
                assert(rest.drop_first() =~= all.subrange(i + 1, all.len() as int));
                assert(rest[0] == all[i as int]);
            }
            self.compile_main_statement_with_indent(&ss[i], indent);
            i = i + 1;
        }
        proof {
            assert(all.subrange(ss@.len() as int, all.len() as int) =~= Seq::<SpecStmt>::empty());
        }
    }
}

/// Header of a loop over an array literal.
fn literal_loop_text(joined: &String, count: usize, n: &String, variable: &String) -> (res: String)
    ensures
        forall|texts: Seq<Seq<char>>|
            texts.len() == count && crate::text::seq_join(texts, ", "@) == joined@ ==> res@ == literal_loop(
                texts,
                n@,
                variable@,
            ),
{
    let mut arr = owned("_temp_array_");
    arr.append(n.as_str());
    let mut size = owned("_temp_size_");
    size.append(n.as_str());
    let mut lv = owned("_i_");
    lv.append(n.as_str());
    let mut t = owned("    int ");
    t.append(arr.as_str());
    t.append("[] = {");
    t.append(joined.as_str());
    t.append("};\n");
    t.append("    int ");
    t.append(size.as_str());
    t.append(" = ");
    t.append(usize_to_string(count).as_str());
    t.append(";\n");
    t.append("    for (int ");
    t.append(lv.as_str());
    t.append(" = 0; ");
    t.append(lv.as_str());
    t.append(" < ");
    t.append(size.as_str());
    t.append("; ");
    t.append(lv.as_str());
    t.append("++) {\n");
    t.append("        int ");
    t.append(variable.as_str());
    t.append(" = ");
    t.append(arr.as_str());
    t.append("[");
    t.append(lv.as_str());
    t.append("];\n");
    t
}

/// The element type of an `Array_...` kind.
fn element_type_text(kind: &String) -> (res: String)
    ensures
        res@ == element_type(kind@),
{
    if str_contains(kind.as_str(), "Array_Integer") {
        owned("int")
    } else if str_contains(kind.as_str(), "Array_String") {
        owned("char*")
    } else if str_contains(kind.as_str(), "Array_Bool") {
        owned("int")
    } else if str_starts_with(kind.as_str(), "Array_") {
        proof {
            reveal_strlit("Array_");
        }
        let cs = chars_of(kind.as_str());
        let mut r = String::new();
        push_range(&mut r, &cs, 6, cs.len());
        r
    } else {
        owned("int")
    }
}

/// Loop header over an array variable and the kind of the loop variable.
fn loop_over_text(a: &String, kind: &String, lv: &String, variable: &String, with_args: bool) -> (res: (String, String))
    ensures
        (res.0@, res.1@) == loop_over(a@, kind@, lv@, variable@, with_args),
{
    if str_contains(kind.as_str(), "Array_") {
        let et = element_type_text(kind);
        let mut t = owned("    for (int ");
        t.append(lv.as_str());
        t.append(" = 0; ");
        t.append(lv.as_str());
        t.append(" < ");
        t.append(a.as_str());
        t.append(".length; ");
        t.append(lv.as_str());
        t.append("++) {\n");
        t.append("        ");
        t.append(et.as_str());
        t.append(" ");
        t.append(variable.as_str());
        t.append(" = ");
        t.append(a.as_str());
        t.append(".data[");
        t.append(lv.as_str());
        t.append("];\n");
        (t, et)
    } else if with_args && string_is(kind, "getargs") {
        let mut t = owned("    for (int ");
        t.append(lv.as_str());
        t.append(" = 0; ");
        t.append(lv.as_str());
        t.append(" < getArgsLength(); ");
        t.append(lv.as_str());
        t.append("++) {\n");
        t.append("        char* ");
        t.append(variable.as_str());
        t.append(" = ");
        t.append(a.as_str());
        t.append("[");
        t.append(lv.as_str());
        t.append("];\n");
        (t, owned("string"))
    } else {
        let mut size = owned("_size_of_");
        size.append(a.as_str());
        let mut t = owned("    int ");
        t.append(size.as_str());
        t.append(" = sizeof(");
        t.append(a.as_str());
        t.append(") / sizeof(");
        t.append(a.as_str());
        t.append("[0]);\n");
        t.append("    for (int ");
        t.append(lv.as_str());
        t.append(" = 0; ");
        t.append(lv.as_str());
        t.append(" < ");
        t.append(size.as_str());
        t.append("; ");
        t.append(lv.as_str());
        t.append("++) {\n");
        t.append("        int ");
        t.append(variable.as_str());
        t.append(" = ");
        t.append(a.as_str());
        t.append("[");
        t.append(lv.as_str());
        t.append("];\n");
        (t, owned("int"))
    }
}

fn line_print_str_text(x: &String) -> (res: String)
    ensures
        res@ == super::stmt_spec::line_print_str(x@),
{
    let mut t = owned("    printf(\"%s\\n\", ");
    t.append(x.as_str());
    t.append(");\n");
    t
}

fn line_print_int_text(x: &String) -> (res: String)
    ensures
        res@ == super::stmt_spec::line_print_int(x@),
{
    let mut t = owned("    printf(\"%d\\n\", ");
    t.append(x.as_str());
    t.append(");\n");
    t
}

fn line_print_bool_text(x: &String) -> (res: String)
    ensures
        res@ == super::stmt_spec::line_print_bool(x@),
{
    let mut t = owned("    printf(\"%s\\n\", ");
    t.append(x.as_str());
    t.append(" ? \"true\" : \"false\");\n");
    t
}

/// Whether an operator compares or combines truth values.
fn test_operator(op: BinaryOperator) -> (res: bool)
    ensures
        res == is_test_op(op),
{
    match op {
        BinaryOperator::Equal | BinaryOperator::NotEqual | BinaryOperator::Less | BinaryOperator::LessEqual
        | BinaryOperator::Greater | BinaryOperator::GreaterEqual | BinaryOperator::And | BinaryOperator::Or => true,
        _ => false,
    }
}

/// C type and recorded kind of a variable holding a call's result.
fn call_kind_text(f: &String) -> (res: (&'static str, &'static str))
    ensures
        (res.0@, res.1@) == call_kind(f@),
{
    if string_is(f, "toString") {
        ("char*", "string")
    } else if string_is(f, "getArgs") {
        ("char**", "getargs")
    } else if string_is(f, "readFile") {
        ("char*", "string")
    } else if string_is(f, "writeFile") || string_is(f, "appendFile") || string_is(f, "fileExists")
        || string_is(f, "deleteFile") {
        ("int", "bool")
    } else if string_is(f, "concat") || string_is(f, "trim") || string_is(f, "getenv") {
        ("char*", "string")
    } else if string_is(f, "contains") {
        ("int", "bool")
    } else {
        ("int", "int")
    }
}

} // verus!
