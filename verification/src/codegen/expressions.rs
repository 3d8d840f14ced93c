//! A plain expression compiler: each expression as C text, without the
//! special cases of the full generator.
use vstd::prelude::*;
use crate::ast::{
    exprs_model, fields_model, lemma_exprs_model, lemma_fields_model, BinaryOperator, Expression, SpecExpr,
    UnaryOperator,
};
use crate::c_codegen::expr::op_text;
use crate::name_map::{assoc_get, lemma_text_entries_get, text_entries, NameMap};
use crate::text::{i64_to_string, int_decimal, join_strings, owned, seq_join, string_is, strings_model};

verus! {

/// The C text of an expression: literals, names, operators in parentheses,
/// calls, field and element access, and struct literals; `0` for anything
/// else.
pub open spec fn plain_expr(e: SpecExpr) -> Seq<char>
    decreases e, 1nat,
{
    match e {
        SpecExpr::IntegerLiteral(n) => int_decimal(n as int),
        SpecExpr::StringLiteral(s) => "\""@ + s + "\""@,
        SpecExpr::BoolLiteral(b) => if b {
            "1"@
        } else {
            "0"@
        },
        SpecExpr::Identifier(name) => name,
        SpecExpr::BinaryOp { left, operator, right } => "("@ + plain_expr(*left) + " "@ + op_text(operator) + " "@
            + plain_expr(*right) + ")"@,
        SpecExpr::UnaryOp { operand, .. } => "(!"@ + plain_expr(*operand) + ")"@,
        SpecExpr::FunctionCall { name, args } => name + "("@ + seq_join(plain_exprs(args), ", "@) + ")"@,
        SpecExpr::FieldAccess { object, field } => plain_expr(*object) + "."@ + field,
        SpecExpr::ArrayAccess { array, index } => plain_expr(*array) + "["@ + plain_expr(*index) + "]"@,
        SpecExpr::StructLiteral { struct_name, fields, .. } => "(("@ + struct_name + ") {"@ + seq_join(
            plain_fields(fields),
            ", "@,
        ) + "})"@,
        _ => "0"@,
    }
}

pub open spec fn plain_exprs(es: Seq<SpecExpr>) -> Seq<Seq<char>>
    decreases es, 0nat,
{
    if es.len() == 0 {
        Seq::empty()
    } else {
        plain_exprs(es.drop_last()).push(plain_expr(es.last()))
    }
}

/// `.name = value` for each field of a struct literal.
pub open spec fn plain_fields(fs: Seq<(Seq<char>, SpecExpr)>) -> Seq<Seq<char>>
    decreases fs, 0nat,
{
    if fs.len() == 0 {
        Seq::empty()
    } else {
        plain_fields(fs.drop_last()).push("."@ + fs.last().0 + " = "@ + plain_expr(fs.last().1))
    }
}

/// The `printf` statement printing one value, by what is known of it: text
/// with `%s`, numbers with `%d`, booleans as `true` or `false`.
pub open spec fn print_line(vars: Seq<(Seq<char>, Seq<char>)>, arg: SpecExpr) -> Seq<char> {
    match arg {
        SpecExpr::StringLiteral(s) => "    printf(\"%s\\n\", \""@ + s + "\");\n"@,
        SpecExpr::IntegerLiteral(n) => "    printf(\"%d\\n\", "@ + int_decimal(n as int) + ");\n"@,
        SpecExpr::BoolLiteral(b) => "    printf(\"%s\\n\", \""@ + (if b {
            "true"@
        } else {
            "false"@
        }) + "\");\n"@,
        SpecExpr::Identifier(name) => match assoc_get(vars, name) {
            Some(k) => if k == "string"@ || k == "char*"@ {
                "    printf(\"%s\\n\", "@ + name + ");\n"@
            } else if k == "bool"@ {
                "    printf(\"%s\\n\", "@ + name + " ? \"true\" : \"false\");\n"@
            } else {
                "    printf(\"%d\\n\", "@ + name + ");\n"@
            },
            None => "    printf(\"%d\\n\", "@ + name + ");\n"@,
        },
        _ => "    printf(\"%d\\n\", "@ + plain_expr(arg) + ");\n"@,
    }
}

/// Compiles expressions, with the kinds of the variables in scope.
pub struct ExpressionCompiler<'a> {
    pub variables: &'a NameMap<String>,
}

impl<'a> ExpressionCompiler<'a> {
    pub fn new(variables: &'a NameMap<String>) -> (res: Self)
        ensures
            res.variables == variables,
    {
        Self { variables }
    }

    /// The C text of an expression (see [`plain_expr`]).
    pub fn compile_to_string(&self, expression: Expression) -> (res: String)
        ensures
            res@ == plain_expr(expression@),
    {
        self.expr_text(&expression)
    }

    pub(crate) fn expr_text(&self, expression: &Expression) -> (res: String)
        ensures
            res@ == plain_expr(expression@),
        decreases expression, 1nat,
    {
        broadcast use crate::ast::group_ast_models;

        match expression {
            Expression::IntegerLiteral(n) => i64_to_string(*n),
            Expression::StringLiteral(s) => {
                let mut r = owned("\"");
                r.append(s.as_str());
                r.append("\"");
                r
            },
            Expression::BoolLiteral(b) => if *b {
                owned("1")
            } else {
                owned("0")
            },
            Expression::Identifier(name) => name.clone(),
            Expression::BinaryOp { left, operator, right } => {
                let l = self.expr_text(&**left);
                let r = self.expr_text(&**right);
                let mut t = owned("(");
                t.append(l.as_str());
                t.append(" ");
                t.append(op_str(operator));
                t.append(" ");
                t.append(r.as_str());
                t.append(")");
                t
            },
            Expression::UnaryOp { operator, operand } => {
                let o = self.expr_text(&**operand);
                let mut t = match operator {
                    UnaryOperator::Not => owned("(!"),
                };
                t.append(o.as_str());
                t.append(")");
                t
            },
            Expression::FunctionCall { name, args } => {
                let parts = self.exprs_text(args);
                let mut t = name.clone();
                t.append("(");
                t.append(join_strings(&parts, ", ").as_str());
                t.append(")");
                t
            },
            Expression::FieldAccess { object, field } => {
                let mut t = self.expr_text(&**object);
                t.append(".");
                t.append(field.as_str());
                t
            },
            Expression::ArrayAccess { array, index } => {
                let mut t = self.expr_text(&**array);
                let i = self.expr_text(&**index);
                t.append("[");
                t.append(i.as_str());
                t.append("]");
                t
            },
            Expression::StructLiteral { struct_name, fields, .. } => {
                let parts = self.fields_text(fields);
                let mut t = owned("((");
                t.append(struct_name.as_str());
                t.append(") {");
                t.append(join_strings(&parts, ", ").as_str());
                t.append("})");
                t
            },
            _ => owned("0"),
        }
    }

    fn fields_text(&self, fields: &Vec<crate::ast::StructField>) -> (res: Vec<String>)
        ensures
            strings_model(res@) == plain_fields(fields_model(fields@)),
        decreases fields@, 0nat,
    {
        proof {
            lemma_fields_model(fields@);
        }
        let ghost fm = fields_model(fields@);
        let mut parts: Vec<String> = Vec::new();
        let mut i: usize = 0;
        while i < fields.len()
            invariant
                i <= fields@.len(),
                fm == fields_model(fields@),
                fm.len() == fields@.len(),
                forall|j: int| 0 <= j < fields@.len() ==> fm[j] == (fields@[j].name@, (#[trigger] fields@[j]).value@),
                strings_model(parts@) == plain_fields(fm.take(i as int)),
            decreases fields@.len() - i,
        {
            proof {
                assert(decreases_to!(fields@ => fields@[i as int]));
                assert(decreases_to!(fields@[i as int] => fields@[i as int].value));
                assert(fm.take(i + 1).drop_last() =~= fm.take(i as int));
            }
            let mut p = owned(".");
            p.append(fields[i].name.as_str());
            p.append(" = ");
            p.append(self.expr_text(&fields[i].value).as_str());
            parts.push(p);
            assert(strings_model(parts@) =~= plain_fields(fm.take(i as int)).push(
                "."@ + fm[i as int].0 + " = "@ + plain_expr(fm[i as int].1),
            ));
            i = i + 1;
        }
        assert(fm.take(i as int) =~= fm);
        parts
    }

    fn exprs_text(&self, es: &Vec<Expression>) -> (res: Vec<String>)
        ensures
            strings_model(res@) == plain_exprs(exprs_model(es@)),
        decreases es@, 0nat,
    {
        let ghost all = exprs_model(es@);
        proof {
            lemma_exprs_model(es@);
        }
        let mut parts: Vec<String> = Vec::new();
        let mut i: usize = 0;
        while i < es.len()
            invariant
                i <= es@.len(),
                all == exprs_model(es@),
                all.len() == es@.len(),
                forall|j: int| 0 <= j < es@.len() ==> all[j] == (#[trigger] es@[j])@,
                strings_model(parts@) == plain_exprs(all.take(i as int)),
            decreases es@.len() - i,
        {
            proof {
                assert(decreases_to!(es@ => es@[i as int]));
                assert(all.take(i + 1).drop_last() =~= all.take(i as int));
            }
            let t = self.expr_text(&es[i]);
            parts.push(t);
            assert(strings_model(parts@) =~= plain_exprs(all.take(i as int)).push(plain_expr(all[i as int])));
            i = i + 1;
        }
        assert(all.take(i as int) =~= all);
        parts
    }

    /// The `printf` statement that prints `arg` (see [`print_line`]).
    pub fn generate_print_statement(&self, arg: &Expression) -> (res: String)
        ensures
            res@ == print_line(text_entries(self.variables@), arg@),
    {
        match arg {
            Expression::StringLiteral(s) => {
                let mut t = owned("    printf(\"%s\\n\", \"");
                t.append(s.as_str());
                t.append("\");\n");
                t
            },
            Expression::IntegerLiteral(n) => {
                let mut t = owned("    printf(\"%d\\n\", ");
                t.append(i64_to_string(*n).as_str());
                t.append(");\n");
                t
            },
            Expression::BoolLiteral(b) => {
                let mut t = owned("    printf(\"%s\\n\", \"");
                t.append(if *b {
                    "true"
                } else {
                    "false"
                });
                t.append("\");\n");
                t
            },
            Expression::Identifier(name) => {
                proof {
                    lemma_text_entries_get(self.variables@, name@);
                }
                let pattern = match self.variables.get(name.as_str()) {
                    Some(k) => if string_is(k, "string") || string_is(k, "char*") {
                        0u8
                    } else if string_is(k, "bool") {
                        1u8
                    } else {
                        2u8
                    },
                    None => 2u8,
                };
                if pattern == 0 {
                    let mut t = owned("    printf(\"%s\\n\", ");
                    t.append(name.as_str());
                    t.append(");\n");
                    t
                } else if pattern == 1 {
                    let mut t = owned("    printf(\"%s\\n\", ");
                    t.append(name.as_str());
                    t.append(" ? \"true\" : \"false\");\n");
                    t
                } else {
                    let mut t = owned("    printf(\"%d\\n\", ");
                    t.append(name.as_str());
                    t.append(");\n");
                    t
                }
            },
            _ => {
                let mut t = owned("    printf(\"%d\\n\", ");
                t.append(self.expr_text(arg).as_str());
                t.append(");\n");
                t
            },
        }
    }
}

/// The C spelling of a binary operator.
fn op_str(op: &BinaryOperator) -> (res: &'static str)
    ensures
        res@ == op_text(*op),
{
    match op {
        BinaryOperator::Add => "+",
        BinaryOperator::Subtract => "-",
        BinaryOperator::Multiply => "*",
        BinaryOperator::Divide => "/",
        BinaryOperator::Modulo => "%",
        BinaryOperator::Equal => "==",
        BinaryOperator::NotEqual => "!=",
        BinaryOperator::Less => "<",
        BinaryOperator::LessEqual => "<=",
        BinaryOperator::Greater => ">",
        BinaryOperator::GreaterEqual => ">=",
        BinaryOperator::And => "&&",
        BinaryOperator::Or => "||",
    }
}

} // verus!
