//! Recursive-descent parser from tokens to a [`Program`], filling a symbol table.
use vstd::prelude::*;
use crate::ast::{
    exprs_model, fields_model, lemma_exprs_model_push, lemma_fields_model_push, lemma_stmts_model_push,
    lemma_types_model_push, stmts_model, types_model, BinaryOperator, Expression, Field, NativeFunction,
    Parameter, Program, SpecExpr, SpecStmt, SpecType, Statement, StructField, Type, UnaryOperator,
};
use crate::lexer::{SpecTok, Token, TokenType};
use crate::parser_spec::{
    advance, is_uppercase, level_op, peek, peek_is, sp_after_identifier, sp_binary, sp_braced_fields, sp_bracket_after, sp_call_args, sp_dot_after, sp_binary_rest,
    sp_expr_list, sp_expression, sp_operand, sp_postfix, sp_primary, sp_primary_base, sp_struct_fields,
    sp_type, sp_type_args, sp_type_params, starts_uppercase,
};
use crate::parser_spec::{sp_program, PState};
use crate::symbol_table::{spec_new_table, spec_wf, SpecSymbolTable, SymbolTable};
use crate::text::{chars_of, owned};

mod statements;

verus! {

pub type ParseResult<T> = Result<T, String>;

/// The token types of a token list.
pub open spec fn tok_types(ts: Seq<Token>) -> Seq<SpecTok> {
    Seq::new(ts.len(), |i: int| ts[i].token_type@)
}

/// Whether a parse result is what the grammar gives: the same value and end
/// position where the grammar succeeds, an error where it gives up.
pub open spec fn agrees<T: View>(expected: Option<(T::V, int)>, res: ParseResult<T>, pos: int) -> bool {
    match expected {
        Some((v, p)) => res matches Ok(r) && r@ == v && pos == p,
        None => res is Err,
    }
}

/// Whether a statement parse agrees with the grammar, symbol table included.
pub open spec fn stmt_agrees<T: View>(
    expected: Option<(T::V, PState)>,
    res: ParseResult<T>,
    pos: int,
    st: SpecSymbolTable,
) -> bool {
    match expected {
        Some((v, ps)) => res matches Ok(r) && r@ == v && pos == ps.pos && st == ps.st,
        None => res is Err,
    }
}

/// Parses a token list into a program, declaring what the program declares
/// in its symbol table.
pub struct Parser {
    tokens: Vec<Token>,
    current: usize,
    symbol_table: SymbolTable,
}

impl Parser {
    /// The token types being parsed.
    pub closed spec fn toks(&self) -> Seq<SpecTok> {
        tok_types(self.tokens@)
    }

    /// Position of the next token.
    pub closed spec fn pos(&self) -> int {
        self.current as int
    }

    /// The symbol table filled so far.
    pub closed spec fn st(&self) -> SpecSymbolTable {
        self.symbol_table@
    }

    pub open spec fn wf(&self) -> bool {
        &&& 0 <= self.pos() <= self.toks().len()
        &&& spec_wf(self.st())
    }

    /// Same tokens, position not before where it was; the symbol table may
    /// have changed.
    pub open spec fn kept(&self, old: &Self) -> bool {
        &&& self.wf()
        &&& self.toks() == old.toks()
        &&& self.pos() >= old.pos()
    }

    /// The next token is there and is not the end marker.
    pub open spec fn on_token(&self) -> bool {
        &&& 0 <= self.pos() < self.toks().len()
        &&& !(self.toks()[self.pos()] is Eof)
    }

    /// Same tokens and symbol table, position not before where it was.
    pub open spec fn moved_on(&self, old: &Self) -> bool {
        &&& self.wf()
        &&& self.toks() == old.toks()
        &&& self.st() == old.st()
        &&& self.pos() >= old.pos()
    }

    pub fn new(tokens: Vec<Token>) -> (res: Self)
        ensures
            res.toks() == tok_types(tokens@),
            res.pos() == 0,
            res.st() == spec_new_table(),
            res.wf(),
    {
        Self { tokens, current: 0, symbol_table: SymbolTable::new() }
    }

    /// The symbol table filled so far.
    pub fn symbol_table(&self) -> (res: &SymbolTable)
        ensures
            res@ == self.st(),
    {
        &self.symbol_table
    }

    /// The symbol table, giving up the parser.
    pub fn into_symbol_table(self) -> (res: SymbolTable)
        ensures
            res@ == self.st(),
    {
        self.symbol_table
    }

    /// Parses statements up to the end marker, skipping blank lines. Where the
    /// grammar gives up ([`sp_program`] is `None`) the result is an error.
    #[verifier::spinoff_prover]
    pub fn parse(&mut self) -> (res: ParseResult<Program>)
        requires
            old(self).wf(),
        ensures
            final(self).kept(old(self)),
            stmt_agrees(
                sp_program(old(self).toks(), old(self).pos(), old(self).st(), Seq::empty()),
                res,
                final(self).pos(),
                final(self).st(),
            ),
    {
        let mut statements: Vec<Statement> = Vec::new();
        assert(stmts_model(statements@) =~= Seq::<SpecStmt>::empty());
        loop
            invariant
                self.kept(old(self)),
                sp_program(old(self).toks(), old(self).pos(), old(self).st(), Seq::empty()) == sp_program(
                    self.toks(),
                    self.pos(),
                    self.st(),
                    stmts_model(statements@),
                ),
            decreases self.toks().len() - self.pos(),
        {
            let t = self.peek()?;
            if matches!(t, TokenType::Eof) {
                return Ok(Program { statements });
            }
            if matches!(t, TokenType::Newline) {
                self.advance()?;
                continue;
            }
            let before = self.current;
            let s = self.parse_statement()?;
            if self.current <= before {
                return Err(owned("Expected statement"));
            }
            proof {
                lemma_stmts_model_push(statements@, s);
            }
            statements.push(s);
        }
    }

    /// Whether the token after the next one is `=`.
    fn next_is_equal(&self) -> (res: bool)
        requires
            self.wf(),
        ensures
            res == peek_is(self.toks(), self.pos() + 1, SpecTok::Equal),
    {
        self.current < self.tokens.len() && self.current + 1 < self.tokens.len() && matches!(
            self.tokens[self.current + 1].token_type,
            TokenType::Equal
        )
    }

    /// The token type at `i`.
    fn token_at(&self, i: usize) -> (res: &TokenType)
        requires
            i < self.toks().len(),
        ensures
            res@ == self.toks()[i as int],
    {
        &self.tokens[i].token_type
    }

    fn peek(&self) -> (res: ParseResult<&TokenType>)
        requires
            self.wf(),
        ensures
            match peek(self.toks(), self.pos()) {
                Some(t) => res matches Ok(r) && r@ == t,
                None => res is Err,
            },
    {
        if self.current < self.tokens.len() {
            Ok(&self.tokens[self.current].token_type)
        } else {
            Err(owned("index out of bounds: no token left"))
        }
    }

    fn is_at_end(&self) -> (res: ParseResult<bool>)
        requires
            self.wf(),
        ensures
            match peek(self.toks(), self.pos()) {
                Some(t) => res == Ok::<bool, String>(t is Eof),
                None => res is Err,
            },
    {
        let t = self.peek()?;
        Ok(matches!(t, TokenType::Eof))
    }

    /// Consumes a token; the index of the token it returns.
    fn advance(&mut self) -> (res: ParseResult<usize>)
        requires
            old(self).wf(),
        ensures
            final(self).moved_on(old(self)),
            match advance(old(self).toks(), old(self).pos()) {
                Some((t, p)) => res matches Ok(i) && i < old(self).toks().len() && old(self).toks()[i as int] == t
                    && final(self).pos() == p,
                None => res is Err,
            },
    {
        let at_end = match self.is_at_end() {
            Ok(b) => b,
            Err(e) => {
                return Err(e);
            },
        };
        if !at_end {
            assert(self.current < self.tokens.len());
            self.current = self.current + 1;
        }
        if self.current == 0 {
            return Err(owned("attempt to subtract with overflow"));
        }
        Ok(self.current - 1)
    }
}

impl Parser {
    fn identifier_at(&self, i: usize) -> (res: Option<String>)
        requires
            i < self.toks().len(),
        ensures
            match self.toks()[i as int] {
                SpecTok::Identifier(n) => res matches Some(s) && s@ == n,
                _ => res is None,
            },
    {
        match &self.tokens[i].token_type {
            TokenType::Identifier(n) => Some(n.clone()),
            _ => None,
        }
    }

    fn string_at(&self, i: usize) -> (res: Option<String>)
        requires
            i < self.toks().len(),
        ensures
            match self.toks()[i as int] {
                SpecTok::String(n) => res matches Some(s) && s@ == n,
                _ => res is None,
            },
    {
        match &self.tokens[i].token_type {
            TokenType::String(n) => Some(n.clone()),
            _ => None,
        }
    }

    /// Parses a type (`^T`, a named type, or a generic `Name[T, ...]`).
    #[verifier::spinoff_prover]
    pub fn parse_type(&mut self) -> (res: ParseResult<Type>)
        requires
            old(self).wf(),
        ensures
            final(self).moved_on(old(self)),
            agrees(sp_type(old(self).toks(), old(self).pos()), res, final(self).pos()),
        decreases old(self).toks().len() - old(self).pos(), 5nat,
    {
        if matches!(self.peek()?, TokenType::Caret) {
            self.advance()?;
            let pointee_type = self.parse_type()?;
            return Ok(Type::Pointer(Box::new(pointee_type)));
        }
        let i = self.advance()?;
        let name = match self.identifier_at(i) {
            Some(n) => n,
            None => {
                return Err(owned("Expected type name"));
            },
        };
        if crate::text::string_is(&name, "String") {
            Ok(Type::String)
        } else if crate::text::string_is(&name, "Integer") {
            Ok(Type::Integer)
        } else if crate::text::string_is(&name, "Bool") {
            Ok(Type::Bool)
        } else if matches!(self.peek()?, TokenType::LeftBracket) {
            self.advance()?;
            let type_params = self.parse_type_params()?;
            if !matches!(self.peek()?, TokenType::RightBracket) {
                return Err(owned("Expected ']' after generic type parameters"));
            }
            self.advance()?;
            Ok(Type::Generic { name, type_params })
        } else {
            Ok(Type::Custom(name))
        }
    }

    /// The parameters of a generic type up to `]`.
    fn parse_type_params(&mut self) -> (res: ParseResult<Vec<Type>>)
        requires
            old(self).wf(),
        ensures
            final(self).moved_on(old(self)),
            match sp_type_params(old(self).toks(), old(self).pos(), Seq::empty()) {
                Some((v, p)) => res matches Ok(r) && types_model(r@) == v && final(self).pos() == p,
                None => res is Err,
            },
        decreases old(self).toks().len() - old(self).pos(), 6nat,
    {
        let mut type_params: Vec<Type> = Vec::new();
        let ghost target = sp_type_params(self.toks(), self.pos(), Seq::empty());
        assert(types_model(type_params@) =~= Seq::<SpecType>::empty());
        loop
            invariant
                self.moved_on(old(self)),
                target == sp_type_params(old(self).toks(), old(self).pos(), Seq::empty()),
                sp_type_params(self.toks(), self.pos(), types_model(type_params@)) == target,
            decreases self.toks().len() - self.pos(),
        {
            let t = self.peek()?;
            if matches!(t, TokenType::RightBracket) || matches!(t, TokenType::Eof) {
                return Ok(type_params);
            }
            let param_type = self.parse_type()?;
            proof {
                lemma_types_model_push(type_params@, param_type);
            }
            type_params.push(param_type);
            if matches!(self.peek()?, TokenType::Comma) {
                self.advance()?;
            } else if !matches!(self.peek()?, TokenType::RightBracket) {
                return Err(owned("Expected ',' or ']' in generic type parameter list"));
            }
        }
    }
}


/// The operator that a token stands for at a precedence level.
fn level_operator(level: u8, t: &TokenType) -> (res: Option<BinaryOperator>)
    requires
        level <= 4,
    ensures
        res == level_op(level as int, t@),
{
    if level == 0 {
        match t {
            TokenType::OrOr => Some(BinaryOperator::Or),
            _ => None,
        }
    } else if level == 1 {
        match t {
            TokenType::AndAnd => Some(BinaryOperator::And),
            _ => None,
        }
    } else if level == 2 {
        match t {
            TokenType::EqualEqual => Some(BinaryOperator::Equal),
            TokenType::NotEqual => Some(BinaryOperator::NotEqual),
            TokenType::Less => Some(BinaryOperator::Less),
            TokenType::LessEqual => Some(BinaryOperator::LessEqual),
            TokenType::Greater => Some(BinaryOperator::Greater),
            TokenType::GreaterEqual => Some(BinaryOperator::GreaterEqual),
            _ => None,
        }
    } else if level == 3 {
        match t {
            TokenType::Plus => Some(BinaryOperator::Add),
            TokenType::Minus => Some(BinaryOperator::Subtract),
            _ => None,
        }
    } else {
        match t {
            TokenType::Star => Some(BinaryOperator::Multiply),
            TokenType::Slash => Some(BinaryOperator::Divide),
            TokenType::Percent => Some(BinaryOperator::Modulo),
            _ => None,
        }
    }
}

impl Parser {
    /// Parses an expression (operators by precedence, lowest first: `||`,
    /// `&&`, comparisons, `+ -`, `* / %`, all grouping to the left).
    pub fn parse_expression(&mut self) -> (res: ParseResult<Expression>)
        requires
            old(self).wf(),
        ensures
            final(self).moved_on(old(self)),
            agrees(sp_expression(old(self).toks(), old(self).pos()), res, final(self).pos()),
        decreases old(self).toks().len() - old(self).pos(), 45nat,
    {
        self.parse_binary(0)
    }

    /// One precedence level: operands of the next level joined by this
    /// level's operators.
    fn parse_binary(&mut self, level: u8) -> (res: ParseResult<Expression>)
        requires
            old(self).wf(),
            level <= 4,
        ensures
            final(self).moved_on(old(self)),
            agrees(sp_binary(old(self).toks(), old(self).pos(), level as int), res, final(self).pos()),
        decreases old(self).toks().len() - old(self).pos(), (44 - 3 * level) as nat,
    {
        let mut expr = self.parse_operand(level)?;
        loop
            invariant
                self.moved_on(old(self)),
                level <= 4,
                sp_binary(old(self).toks(), old(self).pos(), level as int) == sp_binary_rest(
                    self.toks(),
                    self.pos(),
                    level as int,
                    expr@,
                ),
            decreases self.toks().len() - self.pos(),
        {
            let op = match level_operator(level, self.peek()?) {
                Some(op) => op,
                None => {
                    return Ok(expr);
                },
            };
            self.advance()?;
            let right = self.parse_operand(level)?;
            expr = Expression::BinaryOp { left: Box::new(expr), operator: op, right: Box::new(right) };
        }
    }

    fn parse_operand(&mut self, level: u8) -> (res: ParseResult<Expression>)
        requires
            old(self).wf(),
            level <= 4,
        ensures
            final(self).moved_on(old(self)),
            agrees(sp_operand(old(self).toks(), old(self).pos(), level as int), res, final(self).pos()),
        decreases old(self).toks().len() - old(self).pos(), (42 - 3 * level) as nat,
    {
        if level < 4 {
            self.parse_binary(level + 1)
        } else {
            self.parse_primary()
        }
    }

    /// A primary expression followed by `.field`, `[index]` and `^`.
    #[verifier::spinoff_prover]
    fn parse_primary(&mut self) -> (res: ParseResult<Expression>)
        requires
            old(self).wf(),
        ensures
            final(self).moved_on(old(self)),
            agrees(sp_primary(old(self).toks(), old(self).pos()), res, final(self).pos()),
        decreases old(self).toks().len() - old(self).pos(), 19nat,
    {
        let mut expr = self.parse_primary_base()?;
        loop
            invariant
                self.moved_on(old(self)),
                sp_primary(old(self).toks(), old(self).pos()) == sp_postfix(self.toks(), self.pos(), expr@),
            decreases self.toks().len() - self.pos(),
        {
            let t = self.peek()?;
            if matches!(t, TokenType::Dot) {
                self.advance()?;
                let i = self.advance()?;
                let field = match self.identifier_at(i) {
                    Some(f) => f,
                    None => {
                        return Err(owned("Expected field name after '.'"));
                    },
                };
                expr = Expression::FieldAccess { object: Box::new(expr), field };
            } else if matches!(t, TokenType::LeftBracket) {
                self.advance()?;
                let index = self.parse_expression()?;
                if !matches!(self.peek()?, TokenType::RightBracket) {
                    return Err(owned("Expected ']' after array index"));
                }
                self.advance()?;
                expr = Expression::ArrayAccess { array: Box::new(expr), index: Box::new(index) };
            } else if matches!(t, TokenType::Caret) {
                self.advance()?;
                expr = Expression::Dereference { operand: Box::new(expr) };
            } else {
                return Ok(expr);
            }
        }
    }

    #[verifier::rlimit(60)]
    #[verifier::spinoff_prover]
    fn parse_primary_base(&mut self) -> (res: ParseResult<Expression>)
        requires
            old(self).wf(),
        ensures
            final(self).moved_on(old(self)),
            agrees(sp_primary_base(old(self).toks(), old(self).pos()), res, final(self).pos()),
        decreases old(self).toks().len() - old(self).pos(), 18nat,
    {
        let t = self.peek()?;
        match t {
            TokenType::Bang => {
                self.advance()?;
                let operand = self.parse_primary()?;
                Ok(Expression::UnaryOp { operator: UnaryOperator::Not, operand: Box::new(operand) })
            },
            TokenType::Ampersand => {
                self.advance()?;
                let operand = self.parse_primary()?;
                Ok(Expression::AddressOf { operand: Box::new(operand) })
            },
            TokenType::String(v) => {
                let val = v.clone();
                self.advance()?;
                Ok(Expression::StringLiteral(val))
            },
            TokenType::Integer(n) => {
                let val = *n;
                self.advance()?;
                Ok(Expression::IntegerLiteral(val))
            },
            TokenType::Identifier(n) => {
                let name = n.clone();
                self.advance()?;
                self.parse_after_identifier(name)
            },
            TokenType::True => {
                self.advance()?;
                Ok(Expression::BoolLiteral(true))
            },
            TokenType::False => {
                self.advance()?;
                Ok(Expression::BoolLiteral(false))
            },
            TokenType::LeftBracket => {
                self.advance()?;
                let elements = self.parse_expr_list(false)?;
                if !matches!(self.peek()?, TokenType::RightBracket) {
                    return Err(owned("Expected ']' after array elements"));
                }
                self.advance()?;
                Ok(Expression::ArrayLiteral(elements))
            },
            TokenType::LeftParen => {
                self.advance()?;
                let expr = self.parse_expression()?;
                if !matches!(self.peek()?, TokenType::RightParen) {
                    return Err(owned("Expected ')' after expression"));
                }
                self.advance()?;
                Ok(expr)
            },
            _ => Err(owned("Expected expression")),
        }
    }

    /// An identifier followed by `[`: a generic struct literal or type
    /// reference when an uppercase name follows; otherwise the `[` is left
    /// for indexing.
    #[verifier::spinoff_prover]
    fn parse_bracket_after(&mut self, name: String) -> (res: ParseResult<Expression>)
        requires
            old(self).wf(),
            old(self).on_token(),
        ensures
            final(self).moved_on(old(self)),
            agrees(sp_bracket_after(old(self).toks(), name@, old(self).pos()), res, final(self).pos()),
        decreases old(self).toks().len() - old(self).pos(), 16nat,
    {
        let saved_pos = self.current;
        self.advance()?;
        let is_generic = match self.peek()? {
            TokenType::Identifier(n) => {
                let cs = chars_of(n.as_str());
                cs.len() > 0 && is_uppercase(cs[0])
            },
            _ => false,
        };
        if !is_generic {
            self.current = saved_pos;
            return Ok(Expression::Identifier(name));
        }
        let type_args = self.parse_type_args()?;
        if !matches!(self.peek()?, TokenType::RightBracket) {
            return Err(owned("Expected ']' after generic type arguments"));
        }
        self.advance()?;
        if matches!(self.peek()?, TokenType::LeftBrace) {
            self.advance()?;
            let fields = self.parse_struct_fields()?;
            if !matches!(self.peek()?, TokenType::RightBrace) {
                return Err(owned("Expected '}' after struct fields"));
            }
            self.advance()?;
            Ok(Expression::StructLiteral { struct_name: name, type_args: Some(type_args), fields })
        } else {
            Ok(Expression::Identifier(name))
        }
    }

    /// Call arguments `( ... )`, at the `(`.
    fn parse_call_args(&mut self) -> (res: ParseResult<Vec<Expression>>)
        requires
            old(self).wf(),
            old(self).on_token(),
        ensures
            final(self).moved_on(old(self)),
            match sp_call_args(old(self).toks(), old(self).pos()) {
                Some((v, p)) => res matches Ok(r) && exprs_model(r@) == v && final(self).pos() == p,
                None => res is Err,
            },
        decreases old(self).toks().len() - old(self).pos(), 15nat,
    {
        self.advance()?;
        let args = self.parse_expr_list(true)?;
        if !matches!(self.peek()?, TokenType::RightParen) {
            return Err(owned("Expected ')' after function arguments"));
        }
        self.advance()?;
        Ok(args)
    }

    /// Struct literal fields `{ ... }`, at the `{`.
    fn parse_braced_fields(&mut self) -> (res: ParseResult<Vec<StructField>>)
        requires
            old(self).wf(),
            old(self).on_token(),
        ensures
            final(self).moved_on(old(self)),
            match sp_braced_fields(old(self).toks(), old(self).pos()) {
                Some((v, p)) => res matches Ok(r) && fields_model(r@) == v && final(self).pos() == p,
                None => res is Err,
            },
        decreases old(self).toks().len() - old(self).pos(), 15nat,
    {
        self.advance()?;
        let fields = self.parse_struct_fields()?;
        if !matches!(self.peek()?, TokenType::RightBrace) {
            return Err(owned("Expected '}' after struct fields"));
        }
        self.advance()?;
        Ok(fields)
    }

    /// An identifier followed by `.`: a namespaced call or a field access.
    #[verifier::spinoff_prover]
    fn parse_dot_after(&mut self, name: String) -> (res: ParseResult<Expression>)
        requires
            old(self).wf(),
            old(self).on_token(),
        ensures
            final(self).moved_on(old(self)),
            agrees(sp_dot_after(old(self).toks(), name@, old(self).pos()), res, final(self).pos()),
        decreases old(self).toks().len() - old(self).pos(), 16nat,
    {
        self.advance()?;
        let i = self.advance()?;
        let function = match self.identifier_at(i) {
            Some(f) => f,
            None => {
                return Err(owned("Expected function name after '.'"));
            },
        };
        if matches!(self.peek()?, TokenType::LeftParen) {
            let args = self.parse_call_args()?;
            Ok(Expression::NamespacedFunctionCall { namespace: name, function, args })
        } else {
            let object = Expression::Identifier(name);
            assert(object@ == SpecExpr::Identifier(name@));
            Ok(Expression::FieldAccess { object: Box::new(object), field: function })
        }
    }

    /// What follows an identifier: generic struct literal, call, namespaced
    /// call or field access, struct literal, or the identifier alone.
    fn parse_after_identifier(&mut self, name: String) -> (res: ParseResult<Expression>)
        requires
            old(self).wf(),
        ensures
            final(self).moved_on(old(self)),
            agrees(sp_after_identifier(old(self).toks(), name@, old(self).pos()), res, final(self).pos()),
        decreases old(self).toks().len() - old(self).pos(), 17nat,
    {
        let t = self.peek()?;
        if matches!(t, TokenType::LeftBracket) {
            self.parse_bracket_after(name)
        } else if matches!(t, TokenType::LeftParen) {
            let args = self.parse_call_args()?;
            Ok(Expression::FunctionCall { name, args })
        } else if matches!(t, TokenType::Dot) {
            self.parse_dot_after(name)
        } else if matches!(t, TokenType::LeftBrace) {
            let fields = self.parse_braced_fields()?;
            Ok(Expression::StructLiteral { struct_name: name, type_args: None, fields })
        } else {
            Ok(Expression::Identifier(name))
        }
    }

    /// Expressions up to `)` (`paren`) or `]`, commas optional.
    fn parse_expr_list(&mut self, paren: bool) -> (res: ParseResult<Vec<Expression>>)
        requires
            old(self).wf(),
        ensures
            final(self).moved_on(old(self)),
            match sp_expr_list(old(self).toks(), old(self).pos(), Seq::empty(), paren) {
                Some((v, p)) => res matches Ok(r) && exprs_model(r@) == v && final(self).pos() == p,
                None => res is Err,
            },
        decreases old(self).toks().len() - old(self).pos(), 46nat,
    {
        let mut items: Vec<Expression> = Vec::new();
        assert(exprs_model(items@) =~= Seq::<SpecExpr>::empty());
        loop
            invariant
                self.moved_on(old(self)),
                sp_expr_list(old(self).toks(), old(self).pos(), Seq::empty(), paren) == sp_expr_list(
                    self.toks(),
                    self.pos(),
                    exprs_model(items@),
                    paren,
                ),
            decreases self.toks().len() - self.pos(),
        {
            let t = self.peek()?;
            if (paren && matches!(t, TokenType::RightParen)) || (!paren && matches!(t, TokenType::RightBracket))
                || matches!(t, TokenType::Eof) {
                return Ok(items);
            }
            let before = self.current;
            let e = self.parse_expression()?;
            if self.current <= before {
                return Err(owned("Expected expression"));
            }
            proof {
                lemma_exprs_model_push(items@, e);
            }
            items.push(e);
            if matches!(self.peek()?, TokenType::Comma) {
                self.advance()?;
            }
        }
    }

    /// Type arguments up to `]`, commas optional.
    fn parse_type_args(&mut self) -> (res: ParseResult<Vec<Type>>)
        requires
            old(self).wf(),
        ensures
            final(self).moved_on(old(self)),
            match sp_type_args(old(self).toks(), old(self).pos(), Seq::empty()) {
                Some((v, p)) => res matches Ok(r) && types_model(r@) == v && final(self).pos() == p,
                None => res is Err,
            },
        decreases old(self).toks().len() - old(self).pos(), 16nat,
    {
        let mut args: Vec<Type> = Vec::new();
        assert(types_model(args@) =~= Seq::<SpecType>::empty());
        loop
            invariant
                self.moved_on(old(self)),
                sp_type_args(old(self).toks(), old(self).pos(), Seq::empty()) == sp_type_args(
                    self.toks(),
                    self.pos(),
                    types_model(args@),
                ),
            decreases self.toks().len() - self.pos(),
        {
            let t = self.peek()?;
            if matches!(t, TokenType::RightBracket) || matches!(t, TokenType::Eof) {
                return Ok(args);
            }
            let before = self.current;
            let a = self.parse_type()?;
            if self.current <= before {
                return Err(owned("Expected type argument"));
            }
            proof {
                lemma_types_model_push(args@, a);
            }
            args.push(a);
            if matches!(self.peek()?, TokenType::Comma) {
                self.advance()?;
            }
        }
    }

    /// `name: value` pairs up to `}`, newlines skipped, commas optional.
    fn parse_struct_fields(&mut self) -> (res: ParseResult<Vec<StructField>>)
        requires
            old(self).wf(),
        ensures
            final(self).moved_on(old(self)),
            match sp_struct_fields(old(self).toks(), old(self).pos(), Seq::empty()) {
                Some((v, p)) => res matches Ok(r) && fields_model(r@) == v && final(self).pos() == p,
                None => res is Err,
            },
        decreases old(self).toks().len() - old(self).pos(), 16nat,
    {
        let mut fields: Vec<StructField> = Vec::new();
        assert(fields_model(fields@) =~= Seq::<(Seq<char>, SpecExpr)>::empty());
        loop
            invariant
                self.moved_on(old(self)),
                sp_struct_fields(old(self).toks(), old(self).pos(), Seq::empty()) == sp_struct_fields(
                    self.toks(),
                    self.pos(),
                    fields_model(fields@),
                ),
            decreases self.toks().len() - self.pos(),
        {
            let t = self.peek()?;
            if matches!(t, TokenType::RightBrace) || matches!(t, TokenType::Eof) {
                return Ok(fields);
            }
            if matches!(t, TokenType::Newline) {
                self.advance()?;
                continue;
            }
            let i = self.advance()?;
            let name = match self.identifier_at(i) {
                Some(n) => n,
                None => {
                    return Err(owned("Expected field name in struct literal"));
                },
            };
            if !matches!(self.peek()?, TokenType::Colon) {
                return Err(owned("Expected ':' after field name in struct literal"));
            }
            self.advance()?;
            let value = self.parse_expression()?;
            let field = StructField { name, value };
            proof {
                lemma_fields_model_push(fields@, field);
            }
            fields.push(field);
            if matches!(self.peek()?, TokenType::Comma) {
                self.advance()?;
            }
        }
    }
}

} // verus!
