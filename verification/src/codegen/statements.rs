//! A plain statement compiler: declarations, assignments, `if`, `return`
//! and expression statements as C text, added to a code buffer.
use vstd::prelude::*;
use crate::ast::{lemma_stmts_model, stmts_model, Expression, SpecExpr, SpecStmt, SpecType, Statement, Type};
use crate::c_codegen::indent::{is_whitespace, spec_is_whitespace};
use crate::codegen::expressions::{plain_expr, print_line, ExpressionCompiler};
use crate::codegen::types::{spec_c_type, type_to_c_string};
use crate::name_map::{assoc_insert, lemma_text_entries_insert, text_entries, NameMap};
use crate::text::{chars_of, owned, push_char};

verus! {

/// The C type given to a declared variable: that of its declared type, or
/// one guessed from a literal value (`char*` for text, `int` otherwise).
pub open spec fn decl_type(t: Option<SpecType>, value: SpecExpr) -> Seq<char> {
    match t {
        Some(t) => spec_c_type(t),
        None => match value {
            SpecExpr::StringLiteral(_) => "char*"@,
            _ => "int"@,
        },
    }
}

/// A text without its trailing whitespace.
pub open spec fn trim_end_text(s: Seq<char>) -> Seq<char>
    decreases s.len(),
{
    if s.len() > 0 && spec_is_whitespace(s.last()) {
        trim_end_text(s.drop_last())
    } else {
        s
    }
}

/// What compiling a statement one level below `base` adds: the code, and
/// the kind recorded for a declared variable.
pub open spec fn indented_stmt(vars: Seq<(Seq<char>, Seq<char>)>, s: SpecStmt, base: Seq<char>) -> (
    Seq<char>,
    Seq<(Seq<char>, Seq<char>)>,
) {
    let indent = base + "    "@;
    match s {
        SpecStmt::VarDecl { name, type_annotation, value } | SpecStmt::ValDecl { name, type_annotation, value } => {
            let ct = decl_type(type_annotation, value);
            (indent + ct + " "@ + name + " = "@ + plain_expr(value) + ";\n"@, assoc_insert(vars, name, ct))
        },
        SpecStmt::Assignment { variable, value } => (indent + variable + " = "@ + plain_expr(value) + ";\n"@, vars),
        SpecStmt::Expression(e) => match e {
            SpecExpr::NamespacedFunctionCall { namespace, function, args } => if namespace == "stdio"@ && function
                == "print"@ && args.len() == 1 {
                (trim_end_text(indent) + print_line(vars, args[0]), vars)
            } else {
                (Seq::empty(), vars)
            },
            _ => (indent + plain_expr(e) + ";\n"@, vars),
        },
        SpecStmt::Return(Some(e)) => (indent + "return "@ + plain_expr(e) + ";\n"@, vars),
        SpecStmt::Return(None) => (indent + "return;\n"@, vars),
        _ => (indent + "/* Unhandled statement type */;\n"@, vars),
    }
}

/// Statements compiled one level below `base`, one after another.
pub open spec fn indented_stmts(vars: Seq<(Seq<char>, Seq<char>)>, ss: Seq<SpecStmt>, base: Seq<char>) -> (
    Seq<char>,
    Seq<(Seq<char>, Seq<char>)>,
)
    decreases ss.len(),
{
    if ss.len() == 0 {
        (Seq::empty(), vars)
    } else {
        let (code, vars1) = indented_stmts(vars, ss.drop_last(), base);
        let (code2, vars2) = indented_stmt(vars1, ss.last(), base);
        (code + code2, vars2)
    }
}

/// Compiles statements into a code buffer, recording declared variables.
pub struct StatementCompiler<'a> {
    pub variables: &'a mut NameMap<String>,
    pub main_code: &'a mut String,
}

impl<'a> StatementCompiler<'a> {
    pub fn new(variables: &'a mut NameMap<String>, main_code: &'a mut String) -> (res: Self)
        ensures
            *res.variables == *old(variables),
            *res.main_code == *old(main_code),
            *final(variables) == *final(res.variables),
            *final(main_code) == *final(res.main_code),
    {
        Self { variables, main_code }
    }

    /// The recorded variable kinds.
    pub open spec fn vars(&self) -> Seq<(Seq<char>, Seq<char>)> {
        text_entries(self.variables@)
    }

    /// The code so far.
    pub open spec fn code(&self) -> Seq<char> {
        self.main_code@
    }

    fn record(&mut self, name: &str, kind: String)
        ensures
            final(self).vars() == assoc_insert(old(self).vars(), name@, kind@),
            final(self).code() == old(self).code(),
    {
        proof {
            lemma_text_entries_insert(self.variables@, name@, kind);
        }
        self.variables.insert(owned(name), kind);
    }

    /// A variable declaration: `<type> <name> = <value>;`, the type recorded
    /// for the variable.
    pub fn compile_var_decl(&mut self, name: &str, var_type: &Option<Type>, value: &Expression)
        ensures
            final(self).vars() == assoc_insert(
                old(self).vars(),
                name@,
                decl_type(crate::ast::opt_type_model(*var_type), value@),
            ),
            final(self).code() == old(self).code() + "    "@ + decl_type(crate::ast::opt_type_model(*var_type), value@)
                + " "@ + name@ + " = "@ + plain_expr(value@) + ";\n"@,
    {
        self.declare("    ", name, var_type, value);
    }

    /// A constant declaration, compiled as a variable declaration.
    pub fn compile_val_decl(&mut self, name: &str, var_type: &Option<Type>, value: &Expression)
        ensures
            final(self).vars() == assoc_insert(
                old(self).vars(),
                name@,
                decl_type(crate::ast::opt_type_model(*var_type), value@),
            ),
            final(self).code() == old(self).code() + "    "@ + decl_type(crate::ast::opt_type_model(*var_type), value@)
                + " "@ + name@ + " = "@ + plain_expr(value@) + ";\n"@,
    {
        self.compile_var_decl(name, var_type, value);
    }

    fn declare(&mut self, indent: &str, name: &str, var_type: &Option<Type>, value: &Expression)
        ensures
            final(self).vars() == assoc_insert(
                old(self).vars(),
                name@,
                decl_type(crate::ast::opt_type_model(*var_type), value@),
            ),
            final(self).code() == old(self).code() + indent@ + decl_type(crate::ast::opt_type_model(*var_type), value@)
                + " "@ + name@ + " = "@ + plain_expr(value@) + ";\n"@,
    {
        let value_str = ExpressionCompiler::new(&*self.variables).expr_text(value);
        let ctype = match var_type {
            Some(t) => type_to_c_string(t),
            None => match value {
                Expression::StringLiteral(_) => owned("char*"),
                _ => owned("int"),
            },
        };
        self.record(name, ctype.clone());
        self.main_code.append(indent);
        self.main_code.append(ctype.as_str());
        self.main_code.append(" ");
        self.main_code.append(name);
        self.main_code.append(" = ");
        self.main_code.append(value_str.as_str());
        self.main_code.append(";\n");
    }

    /// An assignment: `<variable> = <value>;`.
    pub fn compile_assignment(&mut self, variable: &str, value: &Expression)
        ensures
            final(self).vars() == old(self).vars(),
            final(self).code() == old(self).code() + "    "@ + variable@ + " = "@ + plain_expr(value@) + ";\n"@,
    {
        let value_str = ExpressionCompiler::new(&*self.variables).expr_text(value);
        self.main_code.append("    ");
        self.main_code.append(variable);
        self.main_code.append(" = ");
        self.main_code.append(value_str.as_str());
        self.main_code.append(";\n");
    }

    /// An `if` statement; each branch compiled one level deeper, the `else`
    /// branch only when it has statements.
    pub fn compile_if(&mut self, condition: &Expression, then_statements: &[Statement], else_statements: &[Statement])
        ensures
            ({
                let (then_code, vars1) = indented_stmts(old(self).vars(), stmts_model(then_statements@), "    "@);
                let (else_code, vars2) = indented_stmts(vars1, stmts_model(else_statements@), "    "@);
                &&& final(self).vars() == if else_statements@.len() == 0 {
                    vars1
                } else {
                    vars2
                }
                &&& final(self).code() == old(self).code() + "    if ("@ + plain_expr(condition@) + ") {\n"@
                    + then_code + (if else_statements@.len() == 0 {
                    Seq::<char>::empty()
                } else {
                    "    } else {\n"@ + else_code
                }) + "    }\n"@
            }),
    {
        let condition_str = ExpressionCompiler::new(&*self.variables).expr_text(condition);
        self.main_code.append("    if (");
        self.main_code.append(condition_str.as_str());
        self.main_code.append(") {\n");
        self.compile_block(then_statements, "    ");
        if else_statements.len() > 0 {
            self.main_code.append("    } else {\n");
            self.compile_block(else_statements, "    ");
        }
        self.main_code.append("    }\n");
    }

    fn compile_block(&mut self, statements: &[Statement], base_indent: &str)
        ensures
            ({
                let (code, vars) = indented_stmts(old(self).vars(), stmts_model(statements@), base_indent@);
                &&& final(self).vars() == vars
                &&& final(self).code() == old(self).code() + code
            }),
    {
        let ghost all = stmts_model(statements@);
        proof {
            lemma_stmts_model(statements@);
        }
        let mut i: usize = 0;
        while i < statements.len()
            invariant
                i <= statements@.len(),
                all == stmts_model(statements@),
                all.len() == statements@.len(),
                forall|j: int| 0 <= j < statements@.len() ==> all[j] == (#[trigger] statements@[j])@,
                (self.vars(), self.code()) == ({
                    let (code, vars) = indented_stmts(old(self).vars(), all.take(i as int), base_indent@);
                    (vars, old(self).code() + code)
                }),
            decreases statements@.len() - i,
        {
            assert(all.take(i + 1).drop_last() =~= all.take(i as int));
            let ghost before = self.code();
            self.compile_statement_with_indent(&statements[i], base_indent);
            proof {
                let (code, vars) = indented_stmts(old(self).vars(), all.take(i as int), base_indent@);
                let (code2, vars2) = indented_stmt(vars, all[i as int], base_indent@);
                vstd::seq_lib::lemma_concat_associative(old(self).code(), code, code2);
            }
            i = i + 1;
        }
        assert(all.take(i as int) =~= all);
    }

    /// A `return`, with its value when it has one.
    pub fn compile_return(&mut self, value: &Option<Expression>)
        ensures
            final(self).vars() == old(self).vars(),
            final(self).code() == old(self).code() + match value {
                Some(e) => "    return "@ + plain_expr(e@) + ";\n"@,
                None => "    return;\n"@,
            },
    {
        match value {
            Some(e) => {
                let value_str = ExpressionCompiler::new(&*self.variables).expr_text(e);
                self.main_code.append("    return ");
                self.main_code.append(value_str.as_str());
                self.main_code.append(";\n");
            },
            None => {
                self.main_code.append("    return;\n");
            },
        }
    }

    /// A statement compiled one level below `base_indent` (see
    /// [`indented_stmt`]).
    pub fn compile_statement_with_indent(&mut self, statement: &Statement, base_indent: &str)
        ensures
            ({
                let (code, vars) = indented_stmt(old(self).vars(), statement@, base_indent@);
                &&& final(self).vars() == vars
                &&& final(self).code() == old(self).code() + code
            }),
    {
        let mut indent = owned(base_indent);
        indent.append("    ");
        match statement {
            Statement::VarDecl { name, type_annotation, value } | Statement::ValDecl {
                name,
                type_annotation,
                value,
            } => {
                self.declare(indent.as_str(), name.as_str(), type_annotation, value);
            },
            Statement::Assignment { variable, value } => {
                let value_str = ExpressionCompiler::new(&*self.variables).expr_text(value);
                self.main_code.append(indent.as_str());
                self.main_code.append(variable.as_str());
                self.main_code.append(" = ");
                self.main_code.append(value_str.as_str());
                self.main_code.append(";\n");
            },
            Statement::Expression(expr) => {
                match expr {
                    Expression::NamespacedFunctionCall { namespace, function, args } => {
                        if crate::text::string_is(namespace, "stdio") && crate::text::string_is(function, "print")
                            && args.len() == 1 {
                            proof {
                                crate::ast::lemma_exprs_model(args@);
                            }
                            let print_stmt = ExpressionCompiler::new(&*self.variables).generate_print_statement(
                                &args[0],
                            );
                            let trimmed = trim_end(&indent);
                            self.main_code.append(trimmed.as_str());
                            self.main_code.append(print_stmt.as_str());
                        } else {
                            proof {
                                crate::ast::lemma_exprs_model(args@);
                            }
                        }
                    },
                    _ => {
                        let expr_str = ExpressionCompiler::new(&*self.variables).expr_text(expr);
                        self.main_code.append(indent.as_str());
                        self.main_code.append(expr_str.as_str());
                        self.main_code.append(";\n");
                    },
                }
            },
            Statement::Return(value) => {
                match value {
                    Some(e) => {
                        let value_str = ExpressionCompiler::new(&*self.variables).expr_text(e);
                        self.main_code.append(indent.as_str());
                        self.main_code.append("return ");
                        self.main_code.append(value_str.as_str());
                        self.main_code.append(";\n");
                    },
                    None => {
                        self.main_code.append(indent.as_str());
                        self.main_code.append("return;\n");
                    },
                }
            },
            _ => {
                self.main_code.append(indent.as_str());
                self.main_code.append("/* Unhandled statement type */;\n");
            },
        }
    }
}

/// `s` without its trailing whitespace, as `str::trim_end` gives it.
pub(crate) fn trim_end(s: &String) -> (res: String)
    ensures
        res@ == trim_end_text(s@),
{
    let chars = chars_of(s.as_str());
    let mut n: usize = chars.len();
    assert(s@.take(n as int) =~= s@);
    while n > 0 && is_whitespace(chars[n - 1])
        invariant
            n <= chars@.len(),
            chars@ == s@,
            trim_end_text(s@) == trim_end_text(s@.take(n as int)),
        decreases n,
    {
        assert(s@.take(n as int).drop_last() =~= s@.take(n - 1));
        n = n - 1;
    }
    let mut res = String::new();
    let mut i: usize = 0;
    while i < n
        invariant
            i <= n <= chars@.len(),
            chars@ == s@,
            res@ == s@.take(i as int),
        decreases n - i,
    {
        push_char(&mut res, chars[i]);
        assert(s@.take(i + 1) =~= s@.take(i as int).push(chars@[i as int]));
        i = i + 1;
    }
    assert(trim_end_text(s@.take(n as int)) == s@.take(n as int));
    res
}

} // verus!
