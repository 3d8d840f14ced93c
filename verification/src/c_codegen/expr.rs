//! C text of expressions, as a function of the variables' recorded kinds
//! and the array lengths known so far.
use vstd::prelude::*;
use crate::ast::{
    exprs_model, fields_model, lemma_exprs_model, lemma_fields_model, types_model, lemma_types_model,
    BinaryOperator, Expression, SpecExpr, SpecType, StructField, Type, UnaryOperator,
};
use crate::codegen::monomorphization::{mangle, spec_mangled_name};
use crate::name_map::{assoc_get, lemma_text_entries_get, text_entries};
use crate::text::{
    ends_with, i64_to_string, int_decimal, join_strings, nat_decimal, owned, seq_join, starts_with,
    str_ends_with, str_starts_with, string_is, strings_model, usize_to_string,
};
use super::CCodeGen;

verus! {

/// Recorded kinds of variables (`"int"`, `"string"`, `"getargs"`, ...).
pub type VarKinds = Seq<(Seq<char>, Seq<char>)>;

/// Known array lengths.
pub type ArrayLens = Seq<(Seq<char>, usize)>;

/// Whether an expression is known to be a string: a string literal, or a
/// variable recorded as `string` or `char*`.
pub open spec fn is_string_expr(vars: VarKinds, e: SpecExpr) -> bool {
    match e {
        SpecExpr::StringLiteral(_) => true,
        SpecExpr::Identifier(n) => match assoc_get(vars, n) {
            Some(t) => t == "string"@ || t == "char*"@,
            None => false,
        },
        _ => false,
    }
}

/// The C operator of a binary operator.
pub open spec fn op_text(op: BinaryOperator) -> Seq<char> {
    match op {
        BinaryOperator::Add => "+"@,
        BinaryOperator::Subtract => "-"@,
        BinaryOperator::Multiply => "*"@,
        BinaryOperator::Divide => "/"@,
        BinaryOperator::Modulo => "%"@,
        BinaryOperator::Equal => "=="@,
        BinaryOperator::NotEqual => "!="@,
        BinaryOperator::Less => "<"@,
        BinaryOperator::LessEqual => "<="@,
        BinaryOperator::Greater => ">"@,
        BinaryOperator::GreaterEqual => ">="@,
        BinaryOperator::And => "&&"@,
        BinaryOperator::Or => "||"@,
    }
}

/// Name of a type argument inside a mangled struct name; nested
/// constructions are not named.
pub open spec fn arg_name(t: SpecType) -> Seq<char> {
    match t {
        SpecType::Integer => "Integer"@,
        SpecType::String => "String"@,
        SpecType::Bool => "Bool"@,
        SpecType::Custom(n) => n,
        _ => "Unknown"@,
    }
}

pub open spec fn arg_names(ts: Seq<SpecType>) -> Seq<Seq<char>> {
    Seq::new(ts.len(), |i: int| arg_name(ts[i]))
}

/// `printf` of a value with `%d`.
pub open spec fn print_int(x: Seq<char>) -> Seq<char> {
    "printf(\"%d\\n\", "@ + x + ")"@
}

/// `printf` of a value with `%s`.
pub open spec fn print_str(x: Seq<char>) -> Seq<char> {
    "printf(\"%s\\n\", "@ + x + ")"@
}

/// `printf` of a truth value as `true` or `false`.
pub open spec fn print_bool(x: Seq<char>) -> Seq<char> {
    "printf(\"%s\\n\", "@ + x + " ? \"true\" : \"false\")"@
}

/// Whether a field name suggests a string, by its name alone.
pub open spec fn stringy_field(f: Seq<char>) -> bool {
    ends_with(f, "name"@) || f == "title"@ || f == "description"@
}

/// Whether a field name suggests a truth value, by its name alone.
pub open spec fn flag_field(f: Seq<char>) -> bool {
    f == "active"@ || f == "enabled"@ || starts_with(f, "is"@) || starts_with(f, "has"@)
}

/// The C text of an expression.
pub open spec fn c_expr(vars: VarKinds, lens: ArrayLens, e: SpecExpr) -> Seq<char>
    decreases e, 1nat,
{
    match e {
        SpecExpr::StringLiteral(s) => "\""@ + s + "\""@,
        SpecExpr::IntegerLiteral(n) => int_decimal(n as int),
        SpecExpr::BoolLiteral(b) => if b { "1"@ } else { "0"@ },
        SpecExpr::Identifier(n) => n,
        SpecExpr::FunctionCall { name, args } => if name == "print"@ && args.len() == 1 {
            c_print(vars, lens, args[0])
        } else {
            name + "("@ + seq_join(c_texts(vars, lens, args), ", "@) + ")"@
        },
        SpecExpr::NamespacedFunctionCall { namespace, function, args } => if namespace == "stdio"@
            && function == "print"@ && args.len() == 1 {
            c_print(vars, lens, args[0])
        } else {
            function + "("@ + seq_join(c_texts(vars, lens, args), ", "@) + ")"@
        },
        SpecExpr::ArrayLiteral(elems) => "{"@ + seq_join(c_texts(vars, lens, elems), ", "@) + "}"@,
        SpecExpr::BinaryOp { left, operator, right } => {
            let l = c_expr(vars, lens, *left);
            let r = c_expr(vars, lens, *right);
            if operator == BinaryOperator::Add && (is_string_expr(vars, *left) || is_string_expr(vars, *right)) {
                "string_concat("@ + l + ", "@ + r + ")"@
            } else {
                "("@ + l + " "@ + op_text(operator) + " "@ + r + ")"@
            }
        },
        SpecExpr::UnaryOp { operator, operand } => "(!"@ + c_expr(vars, lens, *operand) + ")"@,
        SpecExpr::StructLiteral { struct_name, type_args, fields } => {
            let ty = match type_args {
                Some(args) => spec_mangled_name(struct_name, arg_names(args)),
                None => struct_name,
            };
            "(("@ + ty + ") {"@ + seq_join(c_field_texts(vars, lens, fields), ", "@) + "})"@
        },
        SpecExpr::FieldAccess { object, field } => match c_length(vars, lens, *object, field) {
            Some(t) => t,
            None => c_expr(vars, lens, *object) + "."@ + field,
        },
        SpecExpr::ArrayAccess { array, index } => c_expr(vars, lens, *array) + "["@ + c_expr(vars, lens, *index)
            + "]"@,
        SpecExpr::AddressOf { operand } => "(&"@ + c_expr(vars, lens, *operand) + ")"@,
        SpecExpr::Dereference { operand } => "(*"@ + c_expr(vars, lens, *operand) + ")"@,
    }
}

/// `.length` on a known array (its length), a string variable (`strlen`),
/// the program arguments (`getArgsLength()`) or a string literal (its
/// length in bytes); `None` for anything else.
pub open spec fn c_length(vars: VarKinds, lens: ArrayLens, object: SpecExpr, field: Seq<char>) -> Option<Seq<char>> {
    if field != "length"@ {
        None
    } else {
        match object {
            SpecExpr::Identifier(v) => match assoc_get(lens, v) {
                Some(n) => Some(nat_decimal(n as nat)),
                None => match assoc_get(vars, v) {
                    Some(t) => if t == "char*"@ || t == "string"@ {
                        Some("strlen("@ + v + ")"@)
                    } else if t == "getargs"@ {
                        Some("getArgsLength()"@)
                    } else {
                        None
                    },
                    None => None,
                },
            },
            SpecExpr::StringLiteral(s) => Some(nat_decimal((vstd::utf8::encode_utf8(s).len() as usize) as nat)),
            _ => None,
        }
    }
}

/// The C texts of a list of expressions.
pub open spec fn c_texts(vars: VarKinds, lens: ArrayLens, es: Seq<SpecExpr>) -> Seq<Seq<char>>
    decreases es, 0nat,
{
    if es.len() == 0 {
        Seq::empty()
    } else {
        c_texts(vars, lens, es.subrange(0, es.len() - 1)).push(c_expr(vars, lens, es[es.len() - 1]))
    }
}

/// `.name = value` texts of struct literal fields.
pub open spec fn c_field_texts(vars: VarKinds, lens: ArrayLens, fs: Seq<(Seq<char>, SpecExpr)>) -> Seq<Seq<char>>
    decreases fs, 0nat,
{
    if fs.len() == 0 {
        Seq::empty()
    } else {
        c_field_texts(vars, lens, fs.subrange(0, fs.len() - 1)).push(
            "."@ + fs[fs.len() - 1].0 + " = "@ + c_expr(vars, lens, fs[fs.len() - 1].1),
        )
    }
}

/// The `printf` call that prints a value, its format chosen from what is
/// known of the value.
pub open spec fn c_print(vars: VarKinds, lens: ArrayLens, arg: SpecExpr) -> Seq<char>
    decreases arg, 2nat,
{
    match arg {
        SpecExpr::StringLiteral(s) => print_str("\""@ + s + "\""@),
        SpecExpr::IntegerLiteral(n) => print_int(int_decimal(n as int)),
        SpecExpr::BoolLiteral(b) => print_str(if b { "\"true\""@ } else { "\"false\""@ }),
        SpecExpr::Identifier(v) => match assoc_get(vars, v) {
            Some(t) => if t == "int"@ {
                print_int(v)
            } else if t == "bool"@ {
                print_bool(v)
            } else {
                print_str(v)
            },
            None => print_int(v),
        },
        SpecExpr::FieldAccess { object, field } => {
            let text = c_expr(vars, lens, arg);
            if stringy_field(field) {
                print_str(text)
            } else if flag_field(field) {
                print_bool(text)
            } else {
                print_int(text)
            }
        },
        SpecExpr::FunctionCall { name, args } => if name == "toString"@ {
            print_str(c_expr(vars, lens, arg))
        } else {
            print_int(c_expr(vars, lens, arg))
        },
        _ => print_int(c_expr(vars, lens, arg)),
    }
}

pub proof fn lemma_c_texts(vars: VarKinds, lens: ArrayLens, es: Seq<SpecExpr>)
    ensures
        c_texts(vars, lens, es).len() == es.len(),
        forall|i: int| 0 <= i < es.len() ==> c_texts(vars, lens, es)[i] == c_expr(vars, lens, #[trigger] es[i]),
    decreases es.len(),
{
    if es.len() > 0 {
        let pre = es.subrange(0, es.len() - 1);
        lemma_c_texts(vars, lens, pre);
        assert forall|i: int| 0 <= i < es.len() - 1 implies #[trigger] es[i] == pre[i] by {}
    }
}

pub proof fn lemma_c_field_texts(vars: VarKinds, lens: ArrayLens, fs: Seq<(Seq<char>, SpecExpr)>)
    ensures
        c_field_texts(vars, lens, fs).len() == fs.len(),
        forall|i: int|
            0 <= i < fs.len() ==> c_field_texts(vars, lens, fs)[i] == "."@ + (#[trigger] fs[i]).0 + " = "@
                + c_expr(vars, lens, fs[i].1),
    decreases fs.len(),
{
    if fs.len() > 0 {
        let pre = fs.subrange(0, fs.len() - 1);
        lemma_c_field_texts(vars, lens, pre);
        assert forall|i: int| 0 <= i < fs.len() - 1 implies #[trigger] fs[i] == pre[i] by {}
    }
}

impl CCodeGen {
    /// The recorded kind of a variable.
    pub(crate) fn var_kind(&self, name: &str) -> (res: Option<&String>)
        ensures
            match res {
                Some(t) => assoc_get(self.vars(), name@) == Some(t@),
                None => assoc_get(self.vars(), name@) is None,
            },
    {
        proof {
            lemma_text_entries_get(self.variables@, name@);
        }
        self.variables.get(name)
    }

    /// Whether an expression is known to be a string.
    pub(crate) fn is_string_expression(&self, expr: &Expression) -> (res: bool)
        ensures
            res == is_string_expr(self.vars(), expr@),
    {
        match expr {
            Expression::StringLiteral(_) => true,
            Expression::Identifier(name) => match self.var_kind(name.as_str()) {
                Some(t) => string_is(t, "string") || string_is(t, "char*"),
                None => false,
            },
            _ => false,
        }
    }

    /// The C text of an expression; the generator is left as it was.
    pub fn compile_expression_to_string(&mut self, expression: Expression) -> (res: String)
        ensures
            res@ == c_expr(old(self).vars(), old(self).lens(), expression@),
            *final(self) == *old(self),
    {
        self.expr_text(&expression)
    }

    pub(crate) fn expr_text(&self, e: &Expression) -> (res: String)
        ensures
            res@ == c_expr(self.vars(), self.lens(), e@),
        decreases e, 1nat,
    {
        let result: String = match e {
            Expression::StringLiteral(s) => {
                let mut r = owned("\"");
                r.append(s.as_str());
                r.append("\"");
                r
            },
            Expression::IntegerLiteral(n) => i64_to_string(*n),
            Expression::BoolLiteral(b) => if *b {
                owned("1")
            } else {
                owned("0")
            },
            Expression::Identifier(n) => n.clone(),
            Expression::FunctionCall { name, args } => {
                proof {
                    lemma_exprs_model(args@);
                }
                if string_is(name, "print") && args.len() == 1 {
                    return self.print_text(&args[0]);
                }
                let joined = self.args_text(args);
                let mut r = name.clone();
                r.append("(");
                r.append(joined.as_str());
                r.append(")");
                r
            },
            Expression::NamespacedFunctionCall { namespace, function, args } => {
                proof {
                    lemma_exprs_model(args@);
                }
                if string_is(namespace, "stdio") && string_is(function, "print") && args.len() == 1 {
                    return self.print_text(&args[0]);
                }
                let joined = self.args_text(args);
                let mut r = function.clone();
                r.append("(");
                r.append(joined.as_str());
                r.append(")");
                r
            },
            Expression::ArrayLiteral(elems) => {
                let joined = self.args_text(elems);
                let mut r = owned("{");
                r.append(joined.as_str());
                r.append("}");
                r
            },
            Expression::BinaryOp { left, operator, right } => {
                let l = self.expr_text(&**left);
                let r = self.expr_text(&**right);
                let is_add = match operator {
                    BinaryOperator::Add => true,
                    _ => false,
                };
                if is_add && (self.is_string_expression(&**left) || self.is_string_expression(&**right)) {
                    let mut t = owned("string_concat(");
                    t.append(l.as_str());
                    t.append(", ");
                    t.append(r.as_str());
                    t.append(")");
                    return t;
                }
                let mut t = owned("(");
                t.append(l.as_str());
                t.append(" ");
                t.append(binary_op_text(*operator));
                t.append(" ");
                t.append(r.as_str());
                t.append(")");
                t
            },
            Expression::UnaryOp { operator, operand } => {
                let o = self.expr_text(&**operand);
                let mut t = owned("(!");
                t.append(o.as_str());
                t.append(")");
                t
            },
            Expression::StructLiteral { struct_name, type_args, fields } => {
                let ty = match type_args {
                    Some(args) => {
                        let names = type_arg_names(args);
                        mangle(struct_name, &names)
                    },
                    None => struct_name.clone(),
                };
                let joined = self.fields_text(fields);
                let mut t = owned("((");
                t.append(ty.as_str());
                t.append(") {");
                t.append(joined.as_str());
                t.append("})");
                t
            },
            Expression::FieldAccess { object, field } => {
                match self.length_text(&**object, field) {
                    Some(t) => t,
                    None => {
                        let o = self.expr_text(&**object);
                        let mut t = o;
                        t.append(".");
                        t.append(field.as_str());
                        t
                    },
                }
            },
            Expression::ArrayAccess { array, index } => {
                let a = self.expr_text(&**array);
                let i = self.expr_text(&**index);
                let mut t = a;
                t.append("[");
                t.append(i.as_str());
                t.append("]");
                t
            },
            Expression::AddressOf { operand } => {
                let o = self.expr_text(&**operand);
                let mut t = owned("(&");
                t.append(o.as_str());
                t.append(")");
                t
            },
            Expression::Dereference { operand } => {
                let o = self.expr_text(&**operand);
                let mut t = owned("(*");
                t.append(o.as_str());
                t.append(")");
                t
            },
        };
        assert(result@ == c_expr(self.vars(), self.lens(), e@));
        result
    }

    /// The texts of a list of expressions, joined with `, `.
    pub(crate) fn args_text(&self, es: &Vec<Expression>) -> (res: String)
        ensures
            res@ == seq_join(c_texts(self.vars(), self.lens(), exprs_model(es@)), ", "@),
        decreases es@, 0nat,
    {
        let ghost vars = self.vars();
        let ghost lens = self.lens();
        let mut parts: Vec<String> = Vec::new();
        let mut i: usize = 0;
        while i < es.len()
            invariant
                i <= es@.len(),
                vars == self.vars(),
                lens == self.lens(),
                parts@.len() == i,
                forall|j: int| 0 <= j < i ==> (#[trigger] parts@[j])@ == c_expr(vars, lens, es@[j]@),
            decreases es@.len() - i,
        {
            proof {
                assert(decreases_to!(es@ => es@[i as int]));
            }
            let t = self.expr_text(&es[i]);
            parts.push(t);
            i = i + 1;
        }
        proof {
            lemma_exprs_model(es@);
            lemma_c_texts(vars, lens, exprs_model(es@));
            assert(strings_model(parts@) =~= c_texts(vars, lens, exprs_model(es@)));
        }
        join_strings(&parts, ", ")
    }

    /// `.name = value` texts of struct literal fields, joined with `, `.
    pub(crate) fn fields_text(&self, fs: &Vec<StructField>) -> (res: String)
        ensures
            res@ == seq_join(c_field_texts(self.vars(), self.lens(), fields_model(fs@)), ", "@),
        decreases fs@, 0nat,
    {
        let ghost vars = self.vars();
        let ghost lens = self.lens();
        let mut parts: Vec<String> = Vec::new();
        let mut i: usize = 0;
        while i < fs.len()
            invariant
                i <= fs@.len(),
                vars == self.vars(),
                lens == self.lens(),
                parts@.len() == i,
                forall|j: int|
                    0 <= j < i ==> (#[trigger] parts@[j])@ == "."@ + fs@[j].name@ + " = "@ + c_expr(
                        vars,
                        lens,
                        fs@[j].value@,
                    ),
            decreases fs@.len() - i,
        {
            proof {
                assert(decreases_to!(fs@ => fs@[i as int]));
                assert(decreases_to!(fs@[i as int] => fs@[i as int].value));
            }
            let v = self.expr_text(&fs[i].value);
            let mut t = owned(".");
            t.append(fs[i].name.as_str());
            t.append(" = ");
            t.append(v.as_str());
            parts.push(t);
            i = i + 1;
        }
        proof {
            lemma_fields_model(fs@);
            lemma_c_field_texts(vars, lens, fields_model(fs@));
            assert(strings_model(parts@) =~= c_field_texts(vars, lens, fields_model(fs@)));
        }
        join_strings(&parts, ", ")
    }

    /// The special `.length` texts.
    fn length_text(&self, object: &Expression, field: &String) -> (res: Option<String>)
        ensures
            match c_length(self.vars(), self.lens(), object@, field@) {
                Some(t) => res matches Some(r) && r@ == t,
                None => res is None,
            },
    {
        if !string_is(field, "length") {
            return None;
        }
        match object {
            Expression::Identifier(v) => {
                match self.array_lengths.get(v.as_str()) {
                    Some(n) => {
                        let r = usize_to_string(*n);
                        assert(c_length(self.vars(), self.lens(), object@, field@) == Some(r@));
                        return Some(r);
                    },
                    None => {},
                }
                match self.var_kind(v.as_str()) {
                    Some(t) => {
                        if string_is(t, "char*") || string_is(t, "string") {
                            let mut r = owned("strlen(");
                            r.append(v.as_str());
                            r.append(")");
                            assert(c_length(self.vars(), self.lens(), object@, field@) == Some(r@));
                            Some(r)
                        } else if string_is(t, "getargs") {
                            Some(owned("getArgsLength()"))
                        } else {
                            None
                        }
                    },
                    None => None,
                }
            },
            Expression::StringLiteral(s) => {
                let r = usize_to_string(s.as_str().len());
                assert(c_length(self.vars(), self.lens(), object@, field@) == Some(r@));
                Some(r)
            },
            _ => None,
        }
    }

    /// The `printf` call printing a value.
    fn print_text(&self, arg: &Expression) -> (res: String)
        ensures
            res@ == c_print(self.vars(), self.lens(), arg@),
        decreases arg, 2nat,
    {
        match arg {
            Expression::StringLiteral(s) => {
                let mut q = owned("\"");
                q.append(s.as_str());
                q.append("\"");
                print_str_text(&q)
            },
            Expression::IntegerLiteral(n) => {
                let mut r = owned("printf(\"%d\\n\", ");
                r.append(i64_to_string(*n).as_str());
                r.append(")");
                r
            },
            Expression::BoolLiteral(b) => {
                if *b {
                    print_str_text(&owned("\"true\""))
                } else {
                    print_str_text(&owned("\"false\""))
                }
            },
            Expression::Identifier(v) => {
                match self.var_kind(v.as_str()) {
                    Some(t) => {
                        if string_is(t, "int") {
                            print_int_text(v)
                        } else if string_is(t, "bool") {
                            print_bool_text(v)
                        } else {
                            print_str_text(v)
                        }
                    },
                    None => print_int_text(v),
                }
            },
            Expression::FieldAccess { object, field } => {
                let text = self.expr_text(arg);
                if str_ends_with(field.as_str(), "name") || string_is(field, "title") || string_is(field, "description") {
                    print_str_text(&text)
                } else if string_is(field, "active") || string_is(field, "enabled") || str_starts_with(field.as_str(), "is")
                    || str_starts_with(field.as_str(), "has") {
                    print_bool_text(&text)
                } else {
                    print_int_text(&text)
                }
            },
            Expression::FunctionCall { name, args } => {
                let text = self.expr_text(arg);
                if string_is(name, "toString") {
                    print_str_text(&text)
                } else {
                    print_int_text(&text)
                }
            },
            _ => {
                let text = self.expr_text(arg);
                print_int_text(&text)
            },
        }
    }
}

fn print_int_text(x: &String) -> (res: String)
    ensures
        res@ == print_int(x@),
{
    let mut r = owned("printf(\"%d\\n\", ");
    r.append(x.as_str());
    r.append(")");
    r
}

fn print_str_text(x: &String) -> (res: String)
    ensures
        res@ == print_str(x@),
{
    let mut r = owned("printf(\"%s\\n\", ");
    r.append(x.as_str());
    r.append(")");
    r
}

fn print_bool_text(x: &String) -> (res: String)
    ensures
        res@ == print_bool(x@),
{
    let mut r = owned("printf(\"%s\\n\", ");
    r.append(x.as_str());
    r.append(" ? \"true\" : \"false\")");
    r
}

/// The C operator of a binary operator.
pub fn binary_op_text(op: BinaryOperator) -> (res: &'static str)
    ensures
        res@ == op_text(op),
{
    match op {
        BinaryOperator::Add => "+",
        BinaryOperator::Subtract => "-",
        BinaryOperator::Multiply => "*",
        BinaryOperator::Divide => "/",
        BinaryOperator::Modulo => "%",
        BinaryOperator::Equal => "==",
        BinaryOperator::NotEqual => "!=",
        BinaryOperator::Less => "<",
        BinaryOperator::LessEqual => "<=",
        BinaryOperator::Greater => ">",
        BinaryOperator::GreaterEqual => ">=",
        BinaryOperator::And => "&&",
        BinaryOperator::Or => "||",
    }
}

/// Names of type arguments inside a mangled struct name.
pub fn type_arg_names(args: &Vec<Type>) -> (res: Vec<String>)
    ensures
        strings_model(res@) == arg_names(types_model(args@)),
{
    let mut names: Vec<String> = Vec::new();
    let mut i: usize = 0;
    while i < args.len()
        invariant
            i <= args@.len(),
            names@.len() == i,
            forall|j: int| 0 <= j < i ==> (#[trigger] names@[j])@ == arg_name(args@[j]@),
        decreases args@.len() - i,
    {
        let n = match &args[i] {
            Type::Integer => owned("Integer"),
            Type::String => owned("String"),
            Type::Bool => owned("Bool"),
            Type::Custom(n) => n.clone(),
            _ => owned("Unknown"),
        };
        names.push(n);
        i = i + 1;
    }
    proof {
        lemma_types_model(args@);
        assert(strings_model(names@) =~= arg_names(types_model(args@)));
    }
    names
}

} // verus!
