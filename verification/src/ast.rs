//! The syntax tree of Bolt programs, with a mathematical model of each node.
use vstd::prelude::*;

verus! {

/// A type as written in Bolt source.
#[derive(Debug, PartialEq, Eq)]
pub enum Type {
    String,
    Integer,
    Bool,
    Array(Box<Type>),
    Pointer(Box<Type>),
    Custom(String),
    Generic { name: String, type_params: Vec<Type> },
    TypeParameter(String),
}

/// A field of a type definition.
#[derive(Debug)]
pub struct Field {
    pub name: String,
    pub field_type: Type,
}

/// A `name: value` pair in a struct literal.
#[derive(Debug)]
pub struct StructField {
    pub name: String,
    pub value: Expression,
}

/// A function parameter.
#[derive(Debug)]
pub struct Parameter {
    pub name: String,
    pub param_type: Type,
}

/// A function signature inside a `native` block.
#[derive(Debug)]
pub struct NativeFunction {
    pub name: String,
    pub params: Vec<Parameter>,
    pub return_type: Option<Type>,
    pub exported: bool,
}

/// A function signature inside an `extern` block.
#[derive(Debug)]
pub struct ExternFunction {
    pub name: String,
    pub params: Vec<Parameter>,
    pub return_type: Option<Type>,
    pub library: Option<String>,
}

#[derive(Debug)]
#[allow(inconsistent_fields)]
pub enum Statement {
    VarDecl { name: String, type_annotation: Option<Type>, value: Expression },
    ValDecl { name: String, type_annotation: Option<Type>, value: Expression },
    TypeDef { name: String, type_params: Vec<String>, fields: Vec<Field> },
    If { condition: Expression, then_body: Vec<Statement>, else_body: Option<Vec<Statement>> },
    ForIn { variable: String, iterable: Expression, body: Vec<Statement> },
    ForCondition { condition: Expression, body: Vec<Statement> },
    ForLoop {
        init: Option<Box<Statement>>,
        condition: Option<Expression>,
        update: Option<Expression>,
        body: Vec<Statement>,
    },
    Import { module_name: Option<String>, source_path: String, items: Option<Vec<String>> },
    Export { item: String },
    Function {
        name: String,
        params: Vec<Parameter>,
        return_type: Option<Type>,
        body: Vec<Statement>,
        exported: bool,
    },
    Return(Option<Expression>),
    Expression(Expression),
    Assignment { variable: String, value: Expression },
    NativeBlock { language: String, functions: Vec<NativeFunction> },
    ExternBlock { language: String, functions: Vec<ExternFunction> },
}

#[derive(Debug)]
#[allow(inconsistent_fields)]
pub enum Expression {
    StringLiteral(String),
    IntegerLiteral(i64),
    BoolLiteral(bool),
    ArrayLiteral(Vec<Expression>),
    Identifier(String),
    FunctionCall { name: String, args: Vec<Expression> },
    NamespacedFunctionCall { namespace: String, function: String, args: Vec<Expression> },
    BinaryOp { left: Box<Expression>, operator: BinaryOperator, right: Box<Expression> },
    UnaryOp { operator: UnaryOperator, operand: Box<Expression> },
    StructLiteral { struct_name: String, type_args: Option<Vec<Type>>, fields: Vec<StructField> },
    FieldAccess { object: Box<Expression>, field: String },
    ArrayAccess { array: Box<Expression>, index: Box<Expression> },
    AddressOf { operand: Box<Expression> },
    Dereference { operand: Box<Expression> },
}

#[derive(Debug, Clone, Copy, PartialEq, Eq, Structural)]
pub enum UnaryOperator {
    Not,
}

#[derive(Debug, Clone, Copy, PartialEq, Eq, Structural)]
pub enum BinaryOperator {
    Add,
    Subtract,
    Multiply,
    Divide,
    Modulo,
    Equal,
    NotEqual,
    Less,
    LessEqual,
    Greater,
    GreaterEqual,
    And,
    Or,
}

/// A whole program: its top-level statements in order.
#[derive(Debug)]
pub struct Program {
    pub statements: Vec<Statement>,
}

// ---------------------------------------------------------------------------
// Models
// ---------------------------------------------------------------------------

/// Model of a [`Type`]: names are character sequences.
pub enum SpecType {
    String,
    Integer,
    Bool,
    Array(Box<SpecType>),
    Pointer(Box<SpecType>),
    Custom(Seq<char>),
    Generic { name: Seq<char>, type_params: Seq<SpecType> },
    TypeParameter(Seq<char>),
}

/// Model of an [`Expression`].
#[allow(inconsistent_fields)]
pub enum SpecExpr {
    StringLiteral(Seq<char>),
    IntegerLiteral(i64),
    BoolLiteral(bool),
    ArrayLiteral(Seq<SpecExpr>),
    Identifier(Seq<char>),
    FunctionCall { name: Seq<char>, args: Seq<SpecExpr> },
    NamespacedFunctionCall { namespace: Seq<char>, function: Seq<char>, args: Seq<SpecExpr> },
    BinaryOp { left: Box<SpecExpr>, operator: BinaryOperator, right: Box<SpecExpr> },
    UnaryOp { operator: UnaryOperator, operand: Box<SpecExpr> },
    StructLiteral {
        struct_name: Seq<char>,
        type_args: Option<Seq<SpecType>>,
        fields: Seq<(Seq<char>, SpecExpr)>,
    },
    FieldAccess { object: Box<SpecExpr>, field: Seq<char> },
    ArrayAccess { array: Box<SpecExpr>, index: Box<SpecExpr> },
    AddressOf { operand: Box<SpecExpr> },
    Dereference { operand: Box<SpecExpr> },
}

/// Model of a native or extern function signature.
pub struct SpecSignature {
    pub name: Seq<char>,
    pub params: Seq<(Seq<char>, SpecType)>,
    pub return_type: Option<SpecType>,
    pub exported: bool,
    pub library: Option<Seq<char>>,
}

/// Model of a [`Statement`].
#[allow(inconsistent_fields)]
pub enum SpecStmt {
    VarDecl { name: Seq<char>, type_annotation: Option<SpecType>, value: SpecExpr },
    ValDecl { name: Seq<char>, type_annotation: Option<SpecType>, value: SpecExpr },
    TypeDef { name: Seq<char>, type_params: Seq<Seq<char>>, fields: Seq<(Seq<char>, SpecType)> },
    If { condition: SpecExpr, then_body: Seq<SpecStmt>, else_body: Option<Seq<SpecStmt>> },
    ForIn { variable: Seq<char>, iterable: SpecExpr, body: Seq<SpecStmt> },
    ForCondition { condition: SpecExpr, body: Seq<SpecStmt> },
    ForLoop {
        init: Option<Box<SpecStmt>>,
        condition: Option<SpecExpr>,
        update: Option<SpecExpr>,
        body: Seq<SpecStmt>,
    },
    Import {
        module_name: Option<Seq<char>>,
        source_path: Seq<char>,
        items: Option<Seq<Seq<char>>>,
    },
    Export { item: Seq<char> },
    Function {
        name: Seq<char>,
        params: Seq<(Seq<char>, SpecType)>,
        return_type: Option<SpecType>,
        body: Seq<SpecStmt>,
        exported: bool,
    },
    Return(Option<SpecExpr>),
    Expression(SpecExpr),
    Assignment { variable: Seq<char>, value: SpecExpr },
    NativeBlock { language: Seq<char>, functions: Seq<SpecSignature> },
    ExternBlock { language: Seq<char>, functions: Seq<SpecSignature> },
}

pub open spec fn type_model(t: Type) -> SpecType
    decreases t, 1nat,
{
    match t {
        Type::String => SpecType::String,
        Type::Integer => SpecType::Integer,
        Type::Bool => SpecType::Bool,
        Type::Array(inner) => SpecType::Array(Box::new(type_model(*inner))),
        Type::Pointer(inner) => SpecType::Pointer(Box::new(type_model(*inner))),
        Type::Custom(n) => SpecType::Custom(n@),
        Type::Generic { name, type_params } => SpecType::Generic {
            name: name@,
            type_params: types_model(type_params@),
        },
        Type::TypeParameter(n) => SpecType::TypeParameter(n@),
    }
}

pub open spec fn types_model(ts: Seq<Type>) -> Seq<SpecType>
    decreases ts, 0nat,
{
    if ts.len() == 0 {
        Seq::empty()
    } else {
        types_model(ts.subrange(0, ts.len() - 1)).push(type_model(ts[ts.len() - 1]))
    }
}

pub open spec fn opt_type_model(t: Option<Type>) -> Option<SpecType> {
    match t {
        Some(t) => Some(type_model(t)),
        None => None,
    }
}

pub open spec fn expr_model(e: Expression) -> SpecExpr
    decreases e, 1nat,
{
    match e {
        Expression::StringLiteral(s) => SpecExpr::StringLiteral(s@),
        Expression::IntegerLiteral(n) => SpecExpr::IntegerLiteral(n),
        Expression::BoolLiteral(b) => SpecExpr::BoolLiteral(b),
        Expression::ArrayLiteral(v) => SpecExpr::ArrayLiteral(exprs_model(v@)),
        Expression::Identifier(n) => SpecExpr::Identifier(n@),
        Expression::FunctionCall { name, args } => SpecExpr::FunctionCall {
            name: name@,
            args: exprs_model(args@),
        },
        Expression::NamespacedFunctionCall { namespace, function, args } =>
            SpecExpr::NamespacedFunctionCall {
                namespace: namespace@,
                function: function@,
                args: exprs_model(args@),
            },
        Expression::BinaryOp { left, operator, right } => SpecExpr::BinaryOp {
            left: Box::new(expr_model(*left)),
            operator,
            right: Box::new(expr_model(*right)),
        },
        Expression::UnaryOp { operator, operand } => SpecExpr::UnaryOp {
            operator,
            operand: Box::new(expr_model(*operand)),
        },
        Expression::StructLiteral { struct_name, type_args, fields } => SpecExpr::StructLiteral {
            struct_name: struct_name@,
            type_args: match type_args {
                Some(a) => Some(types_model(a@)),
                None => None,
            },
            fields: fields_model(fields@),
        },
        Expression::FieldAccess { object, field } => SpecExpr::FieldAccess {
            object: Box::new(expr_model(*object)),
            field: field@,
        },
        Expression::ArrayAccess { array, index } => SpecExpr::ArrayAccess {
            array: Box::new(expr_model(*array)),
            index: Box::new(expr_model(*index)),
        },
        Expression::AddressOf { operand } => SpecExpr::AddressOf {
            operand: Box::new(expr_model(*operand)),
        },
        Expression::Dereference { operand } => SpecExpr::Dereference {
            operand: Box::new(expr_model(*operand)),
        },
    }
}

pub open spec fn exprs_model(es: Seq<Expression>) -> Seq<SpecExpr>
    decreases es, 0nat,
{
    if es.len() == 0 {
        Seq::empty()
    } else {
        exprs_model(es.subrange(0, es.len() - 1)).push(expr_model(es[es.len() - 1]))
    }
}

pub open spec fn fields_model(fs: Seq<StructField>) -> Seq<(Seq<char>, SpecExpr)>
    decreases fs, 0nat,
{
    if fs.len() == 0 {
        Seq::empty()
    } else {
        let last = fs[fs.len() - 1];
        fields_model(fs.subrange(0, fs.len() - 1)).push((last.name@, expr_model(last.value)))
    }
}

pub open spec fn opt_expr_model(e: Option<Expression>) -> Option<SpecExpr> {
    match e {
        Some(e) => Some(expr_model(e)),
        None => None,
    }
}

pub open spec fn names_model(v: Seq<String>) -> Seq<Seq<char>> {
    Seq::new(v.len(), |i: int| v[i]@)
}

pub open spec fn params_model(ps: Seq<Parameter>) -> Seq<(Seq<char>, SpecType)> {
    Seq::new(ps.len(), |i: int| (ps[i].name@, type_model(ps[i].param_type)))
}

pub open spec fn type_fields_model(fs: Seq<Field>) -> Seq<(Seq<char>, SpecType)> {
    Seq::new(fs.len(), |i: int| (fs[i].name@, type_model(fs[i].field_type)))
}

pub open spec fn native_model(f: NativeFunction) -> SpecSignature {
    SpecSignature {
        name: f.name@,
        params: params_model(f.params@),
        return_type: opt_type_model(f.return_type),
        exported: f.exported,
        library: None,
    }
}

pub open spec fn extern_model(f: ExternFunction) -> SpecSignature {
    SpecSignature {
        name: f.name@,
        params: params_model(f.params@),
        return_type: opt_type_model(f.return_type),
        exported: false,
        library: match f.library {
            Some(l) => Some(l@),
            None => None,
        },
    }
}

pub open spec fn stmt_model(s: Statement) -> SpecStmt
    decreases s, 1nat,
{
    match s {
        Statement::VarDecl { name, type_annotation, value } => SpecStmt::VarDecl {
            name: name@,
            type_annotation: opt_type_model(type_annotation),
            value: expr_model(value),
        },
        Statement::ValDecl { name, type_annotation, value } => SpecStmt::ValDecl {
            name: name@,
            type_annotation: opt_type_model(type_annotation),
            value: expr_model(value),
        },
        Statement::TypeDef { name, type_params, fields } => SpecStmt::TypeDef {
            name: name@,
            type_params: names_model(type_params@),
            fields: type_fields_model(fields@),
        },
        Statement::If { condition, then_body, else_body } => SpecStmt::If {
            condition: expr_model(condition),
            then_body: stmts_model(then_body@),
            else_body: match else_body {
                Some(v) => Some(stmts_model(v@)),
                None => None,
            },
        },
        Statement::ForIn { variable, iterable, body } => SpecStmt::ForIn {
            variable: variable@,
            iterable: expr_model(iterable),
            body: stmts_model(body@),
        },
        Statement::ForCondition { condition, body } => SpecStmt::ForCondition {
            condition: expr_model(condition),
            body: stmts_model(body@),
        },
        Statement::ForLoop { init, condition, update, body } => SpecStmt::ForLoop {
            init: match init {
                Some(b) => Some(Box::new(stmt_model(*b))),
                None => None,
            },
            condition: opt_expr_model(condition),
            update: opt_expr_model(update),
            body: stmts_model(body@),
        },
        Statement::Import { module_name, source_path, items } => SpecStmt::Import {
            module_name: match module_name {
                Some(n) => Some(n@),
                None => None,
            },
            source_path: source_path@,
            items: match items {
                Some(v) => Some(names_model(v@)),
                None => None,
            },
        },
        Statement::Export { item } => SpecStmt::Export { item: item@ },
        Statement::Function { name, params, return_type, body, exported } => SpecStmt::Function {
            name: name@,
            params: params_model(params@),
            return_type: opt_type_model(return_type),
            body: stmts_model(body@),
            exported,
        },
        Statement::Return(e) => SpecStmt::Return(opt_expr_model(e)),
        Statement::Expression(e) => SpecStmt::Expression(expr_model(e)),
        Statement::Assignment { variable, value } => SpecStmt::Assignment {
            variable: variable@,
            value: expr_model(value),
        },
        Statement::NativeBlock { language, functions } => SpecStmt::NativeBlock {
            language: language@,
            functions: Seq::new(functions@.len(), |i: int| native_model(functions@[i])),
        },
        Statement::ExternBlock { language, functions } => SpecStmt::ExternBlock {
            language: language@,
            functions: Seq::new(functions@.len(), |i: int| extern_model(functions@[i])),
        },
    }
}

pub open spec fn stmts_model(ss: Seq<Statement>) -> Seq<SpecStmt>
    decreases ss, 0nat,
{
    if ss.len() == 0 {
        Seq::empty()
    } else {
        stmts_model(ss.subrange(0, ss.len() - 1)).push(stmt_model(ss[ss.len() - 1]))
    }
}

impl View for Type {
    type V = SpecType;

    open spec fn view(&self) -> SpecType {
        type_model(*self)
    }
}

impl View for Expression {
    type V = SpecExpr;

    open spec fn view(&self) -> SpecExpr {
        expr_model(*self)
    }
}

impl View for Statement {
    type V = SpecStmt;

    open spec fn view(&self) -> SpecStmt {
        stmt_model(*self)
    }
}

impl View for Program {
    type V = Seq<SpecStmt>;

    open spec fn view(&self) -> Seq<SpecStmt> {
        stmts_model(self.statements@)
    }
}

// ---------------------------------------------------------------------------
// Facts about the list models
// ---------------------------------------------------------------------------

pub broadcast proof fn lemma_types_model(ts: Seq<Type>)
    ensures
        (#[trigger] types_model(ts)).len() == ts.len(),
        forall|i: int| 0 <= i < ts.len() ==> types_model(ts)[i] == type_model(#[trigger] ts[i]),
    decreases ts.len(),
{
    if ts.len() > 0 {
        let pre = ts.subrange(0, ts.len() - 1);
        lemma_types_model(pre);
        assert forall|i: int| 0 <= i < ts.len() - 1 implies #[trigger] ts[i] == pre[i] by {}
    }
}

pub broadcast proof fn lemma_exprs_model(es: Seq<Expression>)
    ensures
        (#[trigger] exprs_model(es)).len() == es.len(),
        forall|i: int| 0 <= i < es.len() ==> exprs_model(es)[i] == expr_model(#[trigger] es[i]),
    decreases es.len(),
{
    if es.len() > 0 {
        let pre = es.subrange(0, es.len() - 1);
        lemma_exprs_model(pre);
        assert forall|i: int| 0 <= i < es.len() - 1 implies #[trigger] es[i] == pre[i] by {}
    }
}

pub broadcast proof fn lemma_fields_model(fs: Seq<StructField>)
    ensures
        (#[trigger] fields_model(fs)).len() == fs.len(),
        forall|i: int|
            0 <= i < fs.len() ==> fields_model(fs)[i] == ((#[trigger] fs[i]).name@, expr_model(
                fs[i].value,
            )),
    decreases fs.len(),
{
    if fs.len() > 0 {
        let pre = fs.subrange(0, fs.len() - 1);
        lemma_fields_model(pre);
        assert forall|i: int| 0 <= i < fs.len() - 1 implies #[trigger] fs[i] == pre[i] by {}
    }
}

pub broadcast proof fn lemma_stmts_model(ss: Seq<Statement>)
    ensures
        (#[trigger] stmts_model(ss)).len() == ss.len(),
        forall|i: int| 0 <= i < ss.len() ==> stmts_model(ss)[i] == stmt_model(#[trigger] ss[i]),
    decreases ss.len(),
{
    if ss.len() > 0 {
        let pre = ss.subrange(0, ss.len() - 1);
        lemma_stmts_model(pre);
        assert forall|i: int| 0 <= i < ss.len() - 1 implies #[trigger] ss[i] == pre[i] by {}
    }
}

pub broadcast group group_ast_models {
    lemma_types_model,
    lemma_exprs_model,
    lemma_fields_model,
    lemma_stmts_model,
}

} // verus!

verus! {

/// A copy of a type.
pub fn clone_type(t: &Type) -> (res: Type)
    ensures
        res@ == t@,
    decreases t, 1nat,
{
    match t {
        Type::String => Type::String,
        Type::Integer => Type::Integer,
        Type::Bool => Type::Bool,
        Type::Array(inner) => Type::Array(Box::new(clone_type(&**inner))),
        Type::Pointer(inner) => Type::Pointer(Box::new(clone_type(&**inner))),
        Type::Custom(n) => Type::Custom(n.clone()),
        Type::Generic { name, type_params } => {
            let ps = clone_types(type_params);
            Type::Generic { name: name.clone(), type_params: ps }
        },
        Type::TypeParameter(n) => Type::TypeParameter(n.clone()),
    }
}

/// A copy of a list of types.
pub fn clone_types(ts: &Vec<Type>) -> (res: Vec<Type>)
    ensures
        types_model(res@) == types_model(ts@),
    decreases ts@, 0nat,
{
    broadcast use group_ast_models;

    let mut res: Vec<Type> = Vec::new();
    let mut i: usize = 0;
    while i < ts.len()
        invariant
            i <= ts.len(),
            res@.len() == i,
            forall|j: int| 0 <= j < i ==> (#[trigger] res@[j])@ == ts@[j]@,
        decreases ts.len() - i,
    {
        proof {
            assert(decreases_to!(ts@ => ts@[i as int]));
        }
        let t = clone_type(&ts[i]);
        res.push(t);
        i = i + 1;
    }
    proof {
        lemma_types_model(res@);
        lemma_types_model(ts@);
    }
    assert forall|j: int| 0 <= j < ts@.len() implies types_model(res@)[j] == types_model(ts@)[j] by {
        assert(res@[j]@ == ts@[j]@);
    }
    assert(types_model(res@) =~= types_model(ts@));
    res
}

/// A copy of an optional type.
pub fn clone_opt_type(t: &Option<Type>) -> (res: Option<Type>)
    ensures
        opt_type_model(res) == opt_type_model(*t),
{
    match t {
        Some(t) => Some(clone_type(t)),
        None => None,
    }
}

} // verus!

verus! {

pub proof fn lemma_exprs_model_push(es: Seq<Expression>, e: Expression)
    ensures
        exprs_model(es.push(e)) == exprs_model(es).push(expr_model(e)),
{
    assert(es.push(e).subrange(0, es.len() as int) =~= es);
}

pub proof fn lemma_types_model_push(ts: Seq<Type>, t: Type)
    ensures
        types_model(ts.push(t)) == types_model(ts).push(type_model(t)),
{
    assert(ts.push(t).subrange(0, ts.len() as int) =~= ts);
}

pub proof fn lemma_fields_model_push(fs: Seq<StructField>, f: StructField)
    ensures
        fields_model(fs.push(f)) == fields_model(fs).push((f.name@, expr_model(f.value))),
{
    assert(fs.push(f).subrange(0, fs.len() as int) =~= fs);
}

pub proof fn lemma_stmts_model_push(ss: Seq<Statement>, s: Statement)
    ensures
        stmts_model(ss.push(s)) == stmts_model(ss).push(stmt_model(s)),
{
    assert(ss.push(s).subrange(0, ss.len() as int) =~= ss);
}

impl Clone for Type {
    fn clone(&self) -> (res: Self)
        ensures
            res@ == self@,
    {
        clone_type(self)
    }
}

/// A copy of an expression.
pub fn clone_expr(e: &Expression) -> (res: Expression)
    ensures
        res@ == e@,
    decreases e, 1nat,
{
    match e {
        Expression::StringLiteral(t) => Expression::StringLiteral(t.clone()),
        Expression::IntegerLiteral(n) => Expression::IntegerLiteral(*n),
        Expression::BoolLiteral(b) => Expression::BoolLiteral(*b),
        Expression::ArrayLiteral(v) => Expression::ArrayLiteral(clone_exprs(v)),
        Expression::Identifier(n) => Expression::Identifier(n.clone()),
        Expression::FunctionCall { name, args } => Expression::FunctionCall { name: name.clone(), args: clone_exprs(args) },
        Expression::NamespacedFunctionCall { namespace, function, args } => Expression::NamespacedFunctionCall {
            namespace: namespace.clone(),
            function: function.clone(),
            args: clone_exprs(args),
        },
        Expression::BinaryOp { left, operator, right } => Expression::BinaryOp {
            left: Box::new(clone_expr(&**left)),
            operator: *operator,
            right: Box::new(clone_expr(&**right)),
        },
        Expression::UnaryOp { operator, operand } => Expression::UnaryOp {
            operator: *operator,
            operand: Box::new(clone_expr(&**operand)),
        },
        Expression::StructLiteral { struct_name, type_args, fields } => {
            let args = match type_args {
                Some(a) => Some(clone_types(a)),
                None => None,
            };
            Expression::StructLiteral { struct_name: struct_name.clone(), type_args: args, fields: clone_fields(fields) }
        },
        Expression::FieldAccess { object, field } => Expression::FieldAccess {
            object: Box::new(clone_expr(&**object)),
            field: field.clone(),
        },
        Expression::ArrayAccess { array, index } => Expression::ArrayAccess {
            array: Box::new(clone_expr(&**array)),
            index: Box::new(clone_expr(&**index)),
        },
        Expression::AddressOf { operand } => Expression::AddressOf { operand: Box::new(clone_expr(&**operand)) },
        Expression::Dereference { operand } => Expression::Dereference { operand: Box::new(clone_expr(&**operand)) },
    }
}

/// A copy of a list of expressions.
pub fn clone_exprs(es: &Vec<Expression>) -> (res: Vec<Expression>)
    ensures
        exprs_model(res@) == exprs_model(es@),
    decreases es@, 0nat,
{
    broadcast use group_ast_models;

    let mut res: Vec<Expression> = Vec::new();
    let mut i: usize = 0;
    while i < es.len()
        invariant
            i <= es.len(),
            res@.len() == i,
            forall|j: int| 0 <= j < i ==> (#[trigger] res@[j])@ == es@[j]@,
        decreases es.len() - i,
    {
        proof {
            assert(decreases_to!(es@ => es@[i as int]));
        }
        let e = clone_expr(&es[i]);
        res.push(e);
        i = i + 1;
    }
    proof {
        lemma_exprs_model(res@);
        lemma_exprs_model(es@);
    }
    assert forall|j: int| 0 <= j < es@.len() implies exprs_model(res@)[j] == exprs_model(es@)[j] by {
        assert(res@[j]@ == es@[j]@);
    }
    assert(exprs_model(res@) =~= exprs_model(es@));
    res
}

/// A copy of the fields of a struct literal.
pub fn clone_fields(fs: &Vec<StructField>) -> (res: Vec<StructField>)
    ensures
        fields_model(res@) == fields_model(fs@),
    decreases fs@, 0nat,
{
    broadcast use group_ast_models;

    let mut res: Vec<StructField> = Vec::new();
    let mut i: usize = 0;
    while i < fs.len()
        invariant
            i <= fs.len(),
            res@.len() == i,
            forall|j: int| 0 <= j < i ==> (#[trigger] res@[j]).name@ == fs@[j].name@ && res@[j].value@ == fs@[j].value@,
        decreases fs.len() - i,
    {
        proof {
            assert(decreases_to!(fs@ => fs@[i as int]));
        }
        let f = StructField { name: fs[i].name.clone(), value: clone_expr(&fs[i].value) };
        res.push(f);
        i = i + 1;
    }
    proof {
        lemma_fields_model(res@);
        lemma_fields_model(fs@);
    }
    assert forall|j: int| 0 <= j < fs@.len() implies fields_model(res@)[j] == fields_model(fs@)[j] by {
        assert(res@[j].name@ == fs@[j].name@);
    }
    assert(fields_model(res@) =~= fields_model(fs@));
    res
}

impl Clone for Expression {
    fn clone(&self) -> (res: Self)
        ensures
            res@ == self@,
    {
        clone_expr(self)
    }
}

impl Clone for StructField {
    fn clone(&self) -> (res: Self)
        ensures
            res.name@ == self.name@,
            res.value@ == self.value@,
    {
        StructField { name: self.name.clone(), value: clone_expr(&self.value) }
    }
}

/// A copy of a list of names.
pub fn clone_names(v: &Vec<String>) -> (res: Vec<String>)
    ensures
        names_model(res@) == names_model(v@),
{
    let mut res: Vec<String> = Vec::new();
    let mut i: usize = 0;
    while i < v.len()
        invariant
            i <= v.len(),
            res@.len() == i,
            forall|j: int| 0 <= j < i ==> (#[trigger] res@[j])@ == v@[j]@,
        decreases v.len() - i,
    {
        res.push(v[i].clone());
        i = i + 1;
    }
    assert(names_model(res@) =~= names_model(v@));
    res
}

/// A copy of a list of parameters.
pub fn clone_params(ps: &Vec<Parameter>) -> (res: Vec<Parameter>)
    ensures
        params_model(res@) == params_model(ps@),
{
    let mut res: Vec<Parameter> = Vec::new();
    let mut i: usize = 0;
    while i < ps.len()
        invariant
            i <= ps.len(),
            res@.len() == i,
            forall|j: int| 0 <= j < i ==> (#[trigger] res@[j]).name@ == ps@[j].name@ && res@[j].param_type@ == ps@[j].param_type@,
        decreases ps.len() - i,
    {
        res.push(Parameter { name: ps[i].name.clone(), param_type: clone_type(&ps[i].param_type) });
        i = i + 1;
    }
    assert(params_model(res@) =~= params_model(ps@));
    res
}

/// A copy of the fields of a type definition.
pub fn clone_type_fields(fs: &Vec<Field>) -> (res: Vec<Field>)
    ensures
        type_fields_model(res@) == type_fields_model(fs@),
{
    let mut res: Vec<Field> = Vec::new();
    let mut i: usize = 0;
    while i < fs.len()
        invariant
            i <= fs.len(),
            res@.len() == i,
            forall|j: int| 0 <= j < i ==> (#[trigger] res@[j]).name@ == fs@[j].name@ && res@[j].field_type@ == fs@[j].field_type@,
        decreases fs.len() - i,
    {
        res.push(Field { name: fs[i].name.clone(), field_type: clone_type(&fs[i].field_type) });
        i = i + 1;
    }
    assert(type_fields_model(res@) =~= type_fields_model(fs@));
    res
}

/// A copy of a native function signature.
pub fn clone_native(f: &NativeFunction) -> (res: NativeFunction)
    ensures
        native_model(res) == native_model(*f),
{
    NativeFunction {
        name: f.name.clone(),
        params: clone_params(&f.params),
        return_type: clone_opt_type(&f.return_type),
        exported: f.exported,
    }
}

/// A copy of an extern function signature.
pub fn clone_extern(f: &ExternFunction) -> (res: ExternFunction)
    ensures
        extern_model(res) == extern_model(*f),
{
    ExternFunction {
        name: f.name.clone(),
        params: clone_params(&f.params),
        return_type: clone_opt_type(&f.return_type),
        library: match &f.library {
            Some(l) => Some(l.clone()),
            None => None,
        },
    }
}

fn clone_natives(v: &Vec<NativeFunction>) -> (res: Vec<NativeFunction>)
    ensures
        Seq::new(res@.len(), |i: int| native_model(res@[i])) == Seq::new(v@.len(), |i: int| native_model(v@[i])),
{
    let mut res: Vec<NativeFunction> = Vec::new();
    let mut i: usize = 0;
    while i < v.len()
        invariant
            i <= v.len(),
            res@.len() == i,
            forall|j: int| 0 <= j < i ==> native_model(#[trigger] res@[j]) == native_model(v@[j]),
        decreases v.len() - i,
    {
        res.push(clone_native(&v[i]));
        i = i + 1;
    }
    assert(Seq::new(res@.len(), |i: int| native_model(res@[i])) =~= Seq::new(v@.len(), |i: int| native_model(v@[i])));
    res
}

fn clone_externs(v: &Vec<ExternFunction>) -> (res: Vec<ExternFunction>)
    ensures
        Seq::new(res@.len(), |i: int| extern_model(res@[i])) == Seq::new(v@.len(), |i: int| extern_model(v@[i])),
{
    let mut res: Vec<ExternFunction> = Vec::new();
    let mut i: usize = 0;
    while i < v.len()
        invariant
            i <= v.len(),
            res@.len() == i,
            forall|j: int| 0 <= j < i ==> extern_model(#[trigger] res@[j]) == extern_model(v@[j]),
        decreases v.len() - i,
    {
        res.push(clone_extern(&v[i]));
        i = i + 1;
    }
    assert(Seq::new(res@.len(), |i: int| extern_model(res@[i])) =~= Seq::new(v@.len(), |i: int| extern_model(v@[i])));
    res
}

fn clone_opt_expr(e: &Option<Expression>) -> (res: Option<Expression>)
    ensures
        opt_expr_model(res) == opt_expr_model(*e),
{
    match e {
        Some(x) => Some(clone_expr(x)),
        None => None,
    }
}

/// A copy of a statement.
pub fn clone_stmt(s: &Statement) -> (res: Statement)
    ensures
        res@ == s@,
    decreases s, 1nat,
{
    match s {
        Statement::VarDecl { name, type_annotation, value } => Statement::VarDecl {
            name: name.clone(),
            type_annotation: clone_opt_type(type_annotation),
            value: clone_expr(value),
        },
        Statement::ValDecl { name, type_annotation, value } => Statement::ValDecl {
            name: name.clone(),
            type_annotation: clone_opt_type(type_annotation),
            value: clone_expr(value),
        },
        Statement::TypeDef { name, type_params, fields } => Statement::TypeDef {
            name: name.clone(),
            type_params: clone_names(type_params),
            fields: clone_type_fields(fields),
        },
        Statement::If { condition, then_body, else_body } => {
            let eb = match else_body {
                Some(v) => Some(clone_stmts(v)),
                None => None,
            };
            Statement::If { condition: clone_expr(condition), then_body: clone_stmts(then_body), else_body: eb }
        },
        Statement::ForIn { variable, iterable, body } => Statement::ForIn {
            variable: variable.clone(),
            iterable: clone_expr(iterable),
            body: clone_stmts(body),
        },
        Statement::ForCondition { condition, body } => Statement::ForCondition {
            condition: clone_expr(condition),
            body: clone_stmts(body),
        },
        Statement::ForLoop { init, condition, update, body } => {
            let i = match init {
                Some(b) => Some(Box::new(clone_stmt(&**b))),
                None => None,
            };
            Statement::ForLoop {
                init: i,
                condition: clone_opt_expr(condition),
                update: clone_opt_expr(update),
                body: clone_stmts(body),
            }
        },
        Statement::Import { module_name, source_path, items } => {
            let m = match module_name {
                Some(n) => Some(n.clone()),
                None => None,
            };
            let it = match items {
                Some(v) => Some(clone_names(v)),
                None => None,
            };
            Statement::Import { module_name: m, source_path: source_path.clone(), items: it }
        },
        Statement::Export { item } => Statement::Export { item: item.clone() },
        Statement::Function { name, params, return_type, body, exported } => Statement::Function {
            name: name.clone(),
            params: clone_params(params),
            return_type: clone_opt_type(return_type),
            body: clone_stmts(body),
            exported: *exported,
        },
        Statement::Return(e) => Statement::Return(clone_opt_expr(e)),
        Statement::Expression(e) => Statement::Expression(clone_expr(e)),
        Statement::Assignment { variable, value } => Statement::Assignment {
            variable: variable.clone(),
            value: clone_expr(value),
        },
        Statement::NativeBlock { language, functions } => Statement::NativeBlock {
            language: language.clone(),
            functions: clone_natives(functions),
        },
        Statement::ExternBlock { language, functions } => Statement::ExternBlock {
            language: language.clone(),
            functions: clone_externs(functions),
        },
    }
}

/// A copy of a list of statements.
pub fn clone_stmts(ss: &Vec<Statement>) -> (res: Vec<Statement>)
    ensures
        stmts_model(res@) == stmts_model(ss@),
    decreases ss@, 0nat,
{
    broadcast use group_ast_models;

    let mut res: Vec<Statement> = Vec::new();
    let mut i: usize = 0;
    while i < ss.len()
        invariant
            i <= ss.len(),
            res@.len() == i,
            forall|j: int| 0 <= j < i ==> (#[trigger] res@[j])@ == ss@[j]@,
        decreases ss.len() - i,
    {
        proof {
            assert(decreases_to!(ss@ => ss@[i as int]));
        }
        let s = clone_stmt(&ss[i]);
        res.push(s);
        i = i + 1;
    }
    proof {
        lemma_stmts_model(res@);
        lemma_stmts_model(ss@);
    }
    assert forall|j: int| 0 <= j < ss@.len() implies stmts_model(res@)[j] == stmts_model(ss@)[j] by {
        assert(res@[j]@ == ss@[j]@);
    }
    assert(stmts_model(res@) =~= stmts_model(ss@));
    res
}

impl Clone for Statement {
    fn clone(&self) -> (res: Self)
        ensures
            res@ == self@,
    {
        clone_stmt(self)
    }
}

impl Clone for Program {
    fn clone(&self) -> (res: Self)
        ensures
            res@ == self@,
    {
        Program { statements: clone_stmts(&self.statements) }
    }
}

impl Clone for Field {
    fn clone(&self) -> (res: Self)
        ensures
            res.name@ == self.name@,
            res.field_type@ == self.field_type@,
    {
        Field { name: self.name.clone(), field_type: clone_type(&self.field_type) }
    }
}

impl Clone for Parameter {
    fn clone(&self) -> (res: Self)
        ensures
            res.name@ == self.name@,
            res.param_type@ == self.param_type@,
    {
        Parameter { name: self.name.clone(), param_type: clone_type(&self.param_type) }
    }
}

impl Clone for NativeFunction {
    fn clone(&self) -> (res: Self)
        ensures
            native_model(res) == native_model(*self),
    {
        clone_native(self)
    }
}

impl Clone for ExternFunction {
    fn clone(&self) -> (res: Self)
        ensures
            extern_model(res) == extern_model(*self),
    {
        clone_extern(self)
    }
}

} // verus!
