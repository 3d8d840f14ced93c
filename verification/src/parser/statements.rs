//! Statement parsing: declarations go to the symbol table as they are read.
use vstd::prelude::*;
use crate::ast::{
    clone_opt_type, clone_type, lemma_stmts_model_push, lemma_types_model_push, native_model, names_model,
    opt_type_model, params_model, stmts_model, type_fields_model, types_model, Expression, Field, NativeFunction, Parameter, SpecSignature, SpecStmt, SpecType,
    Statement, Type,
};
use crate::lexer::{SpecTok, TokenType};
use crate::parser::{agrees, stmt_agrees, ParseResult, Parser};
use crate::parser_spec::{
    new_symbol, param_types, peek, scan_semicolon, sp_block, sp_body, sp_declare, sp_declare_params, sp_def_fields,
    sp_def_params, sp_export, sp_fn_header, sp_for, sp_for_iterable, sp_function, sp_if, sp_import, sp_import_items,
    sp_native_block, sp_native_fns, sp_native_params, sp_native_sig, sp_params, sp_return, sp_statement, sp_type_def, sp_type_def_rest,
    sp_var_decl, PState,
};
use crate::symbol_table::{spec_enter_scope, ScopeKind, SpecScopeKind, SpecSymbolKind};
use crate::text::owned;

verus! {

/// Models of the signatures in a native block.
pub open spec fn natives_model(fs: Seq<NativeFunction>) -> Seq<SpecSignature> {
    Seq::new(fs.len(), |i: int| native_model(fs[i]))
}

impl Parser {
    /// Parses one statement at the current position.
    #[verifier::rlimit(100)]
    #[verifier::spinoff_prover]
    pub fn parse_statement(&mut self) -> (res: ParseResult<Statement>)
        requires
            old(self).wf(),
        ensures
            final(self).kept(old(self)),
            stmt_agrees(
                sp_statement(old(self).toks(), old(self).pos(), old(self).st()),
                res,
                final(self).pos(),
                final(self).st(),
            ),
        decreases old(self).toks().len() - old(self).pos(), 60nat,
    {
        let ghost toks = self.toks();
        let ghost p = self.pos();
        let ghost st = self.st();
        let t = self.peek()?;
        let r = match t {
            TokenType::Var => {
                let r = self.parse_var_decl();
                assert(stmt_agrees(sp_statement(toks, p, st), r, self.pos(), self.st()));
                r
            },
            TokenType::Val => {
                let r = self.parse_val_decl();
                assert(stmt_agrees(sp_statement(toks, p, st), r, self.pos(), self.st()));
                r
            },
            TokenType::Type => {
                let r = self.parse_type_def();
                assert(stmt_agrees(sp_statement(toks, p, st), r, self.pos(), self.st()));
                r
            },
            TokenType::If => {
                let r = self.parse_if_statement();
                proof {
                    reveal(sp_if);
                }
                assert(stmt_agrees(sp_statement(toks, p, st), r, self.pos(), self.st()));
                r
            },
            TokenType::For => {
                let r = self.parse_for_loop();
                proof {
                    reveal(sp_for);
                }
                assert(stmt_agrees(sp_statement(toks, p, st), r, self.pos(), self.st()));
                r
            },
            TokenType::Fun => {
                let r = self.parse_function(false);
                proof {
                    reveal(sp_function);
                }
                assert(stmt_agrees(sp_statement(toks, p, st), r, self.pos(), self.st()));
                r
            },
            TokenType::Return => {
                let r = self.parse_return();
                assert(stmt_agrees(sp_statement(toks, p, st), r, self.pos(), self.st()));
                r
            },
            TokenType::Import => {
                let r = self.parse_import();
                assert(stmt_agrees(sp_statement(toks, p, st), r, self.pos(), self.st()));
                r
            },
            TokenType::Export => {
                let r = self.parse_export();
                proof {
                    reveal(sp_export);
                }
                assert(stmt_agrees(sp_statement(toks, p, st), r, self.pos(), self.st()));
                r
            },
            TokenType::Native => {
                let r = self.parse_native_block();
                assert(stmt_agrees(sp_statement(toks, p, st), r, self.pos(), self.st()));
                r
            },
            TokenType::Identifier(n) => {
                let name = n.clone();
                if self.next_is_equal() {
                    self.advance()?;
                    self.advance()?;
                    let value = self.parse_expression()?;
                    let r = Ok(Statement::Assignment { variable: name, value });
                    assert(stmt_agrees(sp_statement(toks, p, st), r, self.pos(), self.st()));
                    r
                } else {
                    let e = self.parse_expression()?;
                    let r = Ok(Statement::Expression(e));
                    assert(stmt_agrees(sp_statement(toks, p, st), r, self.pos(), self.st()));
                    r
                }
            },
            _ => {
                let e = self.parse_expression()?;
                let r = Ok(Statement::Expression(e));
                assert(stmt_agrees(sp_statement(toks, p, st), r, self.pos(), self.st()));
                r
            },
        };
        assert(stmt_agrees(sp_statement(toks, p, st), r, self.pos(), self.st()));
        r
    }

    /// `var name := value` or `var name: Type = value`.
    fn parse_var_decl(&mut self) -> (res: ParseResult<Statement>)
        requires
            old(self).wf(),
            old(self).on_token(),
        ensures
            final(self).kept(old(self)),
            stmt_agrees(
                sp_var_decl(old(self).toks(), old(self).pos(), old(self).st(), true),
                res,
                final(self).pos(),
                final(self).st(),
            ),
    {
        self.parse_declaration(true)
    }

    /// `val name := value` or `val name: Type = value`.
    fn parse_val_decl(&mut self) -> (res: ParseResult<Statement>)
        requires
            old(self).wf(),
            old(self).on_token(),
        ensures
            final(self).kept(old(self)),
            stmt_agrees(
                sp_var_decl(old(self).toks(), old(self).pos(), old(self).st(), false),
                res,
                final(self).pos(),
                final(self).st(),
            ),
    {
        self.parse_declaration(false)
    }

    #[verifier::spinoff_prover]
    fn parse_declaration(&mut self, mutable: bool) -> (res: ParseResult<Statement>)
        requires
            old(self).wf(),
            old(self).on_token(),
        ensures
            final(self).kept(old(self)),
            stmt_agrees(
                sp_var_decl(old(self).toks(), old(self).pos(), old(self).st(), mutable),
                res,
                final(self).pos(),
                final(self).st(),
            ),
    {
        proof {
            reveal(sp_var_decl);
        }
        self.advance()?;
        let i = self.advance()?;
        let name = match self.identifier_at(i) {
            Some(n) => n,
            None => {
                return Err(owned("Expected identifier after declaration keyword"));
            },
        };
        let t = self.peek()?;
        let (type_annotation, value) = if matches!(t, TokenType::Colon) {
            self.advance()?;
            let ty = self.parse_type()?;
            if !matches!(self.peek()?, TokenType::Equal) {
                return Err(owned("Expected '=' after type annotation"));
            }
            self.advance()?;
            let v = self.parse_expression()?;
            (Some(ty), v)
        } else if matches!(t, TokenType::ColonEqual) {
            self.advance()?;
            let v = self.parse_expression()?;
            (None, v)
        } else {
            return Err(owned("Expected ':' or ':=' after variable name"));
        };
        let var_type = match &type_annotation {
            Some(ty) => clone_type(ty),
            None => Type::Custom(owned("inferred")),
        };
        if self.symbol_table.next_symbol_id() == usize::MAX {
            return Err(owned("Too many symbols"));
        }
        match self.symbol_table.declare_variable(name.clone(), var_type, mutable, None) {
            Ok(_) => {},
            Err(_) => {
                return Err(owned("Error declaring variable"));
            },
        }
        if mutable {
            Ok(Statement::VarDecl { name, type_annotation, value })
        } else {
            Ok(Statement::ValDecl { name, type_annotation, value })
        }
    }

    /// `type Name[T, ...] = { field: Type, ... }`.
    #[verifier::spinoff_prover]
    fn parse_type_def(&mut self) -> (res: ParseResult<Statement>)
        requires
            old(self).wf(),
            old(self).on_token(),
        ensures
            final(self).moved_on(old(self)),
            agrees(sp_type_def(old(self).toks(), old(self).pos()), res, final(self).pos()),
    {
        proof {
            reveal(sp_type_def);
        }
        self.advance()?;
        let i = self.advance()?;
        let name = match self.identifier_at(i) {
            Some(n) => n,
            None => {
                return Err(owned("Expected identifier after 'type'"));
            },
        };
        let type_params = if matches!(self.peek()?, TokenType::LeftBracket) {
            self.advance()?;
            let ps = self.parse_def_params()?;
            if !matches!(self.peek()?, TokenType::RightBracket) {
                return Err(owned("Expected ']' after type parameters"));
            }
            self.advance()?;
            ps
        } else {
            let ps: Vec<String> = Vec::new();
            assert(names_model(ps@) =~= Seq::<Seq<char>>::empty());
            ps
        };
        self.parse_type_def_rest(name, type_params)
    }

    /// The `= { field: Type, ... }` part of a type definition.
    fn parse_type_def_rest(&mut self, name: String, type_params: Vec<String>) -> (res: ParseResult<Statement>)
        requires
            old(self).wf(),
        ensures
            final(self).moved_on(old(self)),
            agrees(
                sp_type_def_rest(old(self).toks(), old(self).pos(), name@, names_model(type_params@)),
                res,
                final(self).pos(),
            ),
    {
        if !matches!(self.peek()?, TokenType::Equal) {
            return Err(owned("Expected '=' after type name"));
        }
        self.advance()?;
        if !matches!(self.peek()?, TokenType::LeftBrace) {
            return Err(owned("Expected '{' after '='"));
        }
        self.advance()?;
        let fields = self.parse_def_fields()?;
        if !matches!(self.peek()?, TokenType::RightBrace) {
            return Err(owned("Expected '}'"));
        }
        self.advance()?;
        Ok(Statement::TypeDef { name, type_params, fields })
    }

    /// Type parameter names up to `]`.
    fn parse_def_params(&mut self) -> (res: ParseResult<Vec<String>>)
        requires
            old(self).wf(),
        ensures
            final(self).moved_on(old(self)),
            match sp_def_params(old(self).toks(), old(self).pos(), Seq::empty()) {
                Some((v, p)) => res matches Ok(r) && names_model(r@) == v && final(self).pos() == p,
                None => res is Err,
            },
    {
        let mut params: Vec<String> = Vec::new();
        assert(names_model(params@) =~= Seq::<Seq<char>>::empty());
        loop
            invariant
                self.moved_on(old(self)),
                sp_def_params(old(self).toks(), old(self).pos(), Seq::empty()) == sp_def_params(
                    self.toks(),
                    self.pos(),
                    names_model(params@),
                ),
            decreases self.toks().len() - self.pos(),
        {
            let t = self.peek()?;
            if matches!(t, TokenType::RightBracket) || matches!(t, TokenType::Eof) {
                return Ok(params);
            }
            let i = self.advance()?;
            let n = match self.identifier_at(i) {
                Some(n) => n,
                None => {
                    return Err(owned("Expected type parameter name"));
                },
            };
            let t2 = self.peek()?;
            if matches!(t2, TokenType::Comma) {
                self.advance()?;
            } else if !matches!(t2, TokenType::RightBracket) {
                return Err(owned("Expected ',' or ']' in type parameter list"));
            }
            let ghost before = names_model(params@);
            params.push(n);
            assert(names_model(params@) =~= before.push(n@));
        }
    }

    /// `name: Type` fields up to `}`, newlines skipped, commas optional.
    fn parse_def_fields(&mut self) -> (res: ParseResult<Vec<Field>>)
        requires
            old(self).wf(),
        ensures
            final(self).moved_on(old(self)),
            match sp_def_fields(old(self).toks(), old(self).pos(), Seq::empty()) {
                Some((v, p)) => res matches Ok(r) && type_fields_model(r@) == v && final(self).pos() == p,
                None => res is Err,
            },
    {
        let mut fields: Vec<Field> = Vec::new();
        assert(type_fields_model(fields@) =~= Seq::<(Seq<char>, SpecType)>::empty());
        loop
            invariant
                self.moved_on(old(self)),
                sp_def_fields(old(self).toks(), old(self).pos(), Seq::empty()) == sp_def_fields(
                    self.toks(),
                    self.pos(),
                    type_fields_model(fields@),
                ),
            decreases self.toks().len() - self.pos(),
        {
            let t = self.peek()?;
            if matches!(t, TokenType::RightBrace) || matches!(t, TokenType::Eof) {
                return Ok(fields);
            }
            if matches!(t, TokenType::Newline) {
                self.advance()?;
                continue;
            }
            let i = self.advance()?;
            let name = match self.identifier_at(i) {
                Some(n) => n,
                None => {
                    return Err(owned("Expected field name"));
                },
            };
            if !matches!(self.peek()?, TokenType::Colon) {
                return Err(owned("Expected ':' after field name"));
            }
            self.advance()?;
            let field_type = self.parse_type()?;
            let f = Field { name, field_type };
            let ghost before = type_fields_model(fields@);
            fields.push(f);
            assert(type_fields_model(fields@) =~= before.push((f.name@, f.field_type@)));
            if matches!(self.peek()?, TokenType::Comma) {
                self.advance()?;
            }
        }
    }

    /// Statements up to `}` (or the end), newlines skipped.
    fn parse_body(&mut self) -> (res: ParseResult<Vec<Statement>>)
        requires
            old(self).wf(),
        ensures
            final(self).kept(old(self)),
            match sp_body(old(self).toks(), old(self).pos(), old(self).st(), Seq::empty()) {
                Some((v, ps)) => res matches Ok(r) && stmts_model(r@) == v && final(self).pos() == ps.pos
                    && final(self).st() == ps.st,
                None => res is Err,
            },
        decreases old(self).toks().len() - old(self).pos(), 61nat,
    {
        let mut body: Vec<Statement> = Vec::new();
        assert(stmts_model(body@) =~= Seq::<SpecStmt>::empty());
        loop
            invariant
                self.kept(old(self)),
                sp_body(old(self).toks(), old(self).pos(), old(self).st(), Seq::empty()) == sp_body(
                    self.toks(),
                    self.pos(),
                    self.st(),
                    stmts_model(body@),
                ),
            decreases self.toks().len() - self.pos(),
        {
            let t = self.peek()?;
            if matches!(t, TokenType::RightBrace) || matches!(t, TokenType::Eof) {
                return Ok(body);
            }
            if matches!(t, TokenType::Newline) {
                self.advance()?;
                continue;
            }
            let before = self.current;
            let s = self.parse_statement()?;
            if self.current <= before {
                return Err(owned("Expected statement"));
            }
            proof {
                lemma_stmts_model_push(body@, s);
            }
            body.push(s);
        }
    }

    /// `{ statements }`.
    fn parse_block(&mut self) -> (res: ParseResult<Vec<Statement>>)
        requires
            old(self).wf(),
        ensures
            final(self).kept(old(self)),
            match sp_block(old(self).toks(), old(self).pos(), old(self).st()) {
                Some((v, ps)) => res matches Ok(r) && stmts_model(r@) == v && final(self).pos() == ps.pos
                    && final(self).st() == ps.st,
                None => res is Err,
            },
            res is Ok ==> final(self).pos() > old(self).pos(),
        decreases old(self).toks().len() - old(self).pos(), 62nat,
    {
        if !matches!(self.peek()?, TokenType::LeftBrace) {
            return Err(owned("Expected '{'"));
        }
        self.advance()?;
        let body = self.parse_body()?;
        if !matches!(self.peek()?, TokenType::RightBrace) {
            return Err(owned("Expected '}'"));
        }
        self.advance()?;
        Ok(body)
    }

    /// `if condition { ... }` (the condition in parentheses or not) with an optional `else { ... }` or `else if`.
    #[verifier::spinoff_prover]
    #[verifier::rlimit(50)]
    fn parse_if_statement(&mut self) -> (res: ParseResult<Statement>)
        requires
            old(self).wf(),
            old(self).on_token(),
        ensures
            final(self).kept(old(self)),
            stmt_agrees(
                sp_if(old(self).toks(), old(self).pos(), old(self).st()),
                res,
                final(self).pos(),
                final(self).st(),
            ),
        decreases old(self).toks().len() - old(self).pos(), 55nat,
    {
        proof {
            reveal(sp_if);
        }
        self.advance()?;
        let condition = self.parse_expression()?;
        let then_body = self.parse_block()?;
        let else_body = if matches!(self.peek()?, TokenType::Else) {
            self.advance()?;
            let t = self.peek()?;
            if matches!(t, TokenType::If) {
                let s = self.parse_if_statement()?;
                let mut v: Vec<Statement> = Vec::new();
                proof {
                    lemma_stmts_model_push(v@, s);
                    assert(stmts_model(v@) =~= Seq::<SpecStmt>::empty());
                }
                v.push(s);
                Some(v)
            } else if matches!(t, TokenType::LeftBrace) {
                Some(self.parse_block()?)
            } else {
                return Err(owned("Expected '{' or 'if' after 'else'"));
            }
        } else {
            None
        };
        Ok(Statement::If { condition, then_body, else_body })
    }

    /// Whether a `;` comes before the `)` closing the `(` just read; `None`
    /// when the nesting count would overflow.
    fn has_semicolon(&self, start: usize) -> (res: Option<bool>)
        requires
            start <= self.toks().len(),
        ensures
            res == scan_semicolon(self.toks(), start as int, 1),
    {
        let mut i = start;
        let mut depth: i32 = 1;
        let mut found = false;
        while i < self.tokens.len() && depth > 0
            invariant
                start <= i <= self.toks().len(),
                self.toks().len() == self.tokens@.len(),
                scan_semicolon(self.toks(), start as int, 1) == match scan_semicolon(self.toks(), i as int, depth as int) {
                    Some(b) => Some(b || found),
                    None => None,
                },
            decreases self.tokens@.len() - i,
        {
            let t = self.token_at(i);
            if matches!(t, TokenType::LeftParen) {
                if depth == i32::MAX {
                    return None;
                }
                depth = depth + 1;
            } else if matches!(t, TokenType::RightParen) {
                depth = depth - 1;
            } else if matches!(t, TokenType::Semicolon) {
                found = true;
            }
            i = i + 1;
        }
        Some(found)
    }

    /// `for { ... }`, `for (condition) { ... }` or `for x in iterable { ... }`.
    #[verifier::spinoff_prover]
    fn parse_for_loop(&mut self) -> (res: ParseResult<Statement>)
        requires
            old(self).wf(),
            old(self).on_token(),
        ensures
            final(self).kept(old(self)),
            stmt_agrees(
                sp_for(old(self).toks(), old(self).pos(), old(self).st()),
                res,
                final(self).pos(),
                final(self).st(),
            ),
        decreases old(self).toks().len() - old(self).pos(), 55nat,
    {
        proof {
            reveal(sp_for);
        }
        self.advance()?;
        let t = self.peek()?;
        match t {
            TokenType::LeftBrace => {
                let body = self.parse_block()?;
                Ok(Statement::ForCondition { condition: Expression::BoolLiteral(true), body })
            },
            TokenType::LeftParen => {
                self.advance()?;
                match self.has_semicolon(self.current) {
                    None => Err(owned("Too deeply nested parentheses")),
                    Some(true) => Err(owned("C-style for loops not yet implemented")),
                    Some(false) => {
                        let condition = self.parse_expression()?;
                        if !matches!(self.peek()?, TokenType::RightParen) {
                            return Err(owned("Expected ')' after for condition"));
                        }
                        self.advance()?;
                        let body = self.parse_block()?;
                        Ok(Statement::ForCondition { condition, body })
                    },
                }
            },
            TokenType::Identifier(v) => {
                let variable = v.clone();
                self.advance()?;
                if !matches!(self.peek()?, TokenType::In) {
                    return Err(owned("Expected 'in' after for loop variable"));
                }
                self.advance()?;
                let iterable = self.parse_for_in_iterable()?;
                let body = self.parse_block()?;
                Ok(Statement::ForIn { variable, iterable, body })
            },
            _ => Err(owned("Unexpected token after 'for'")),
        }
    }

    /// The iterable of a for-in loop.
    fn parse_for_in_iterable(&mut self) -> (res: ParseResult<Expression>)
        requires
            old(self).wf(),
        ensures
            final(self).moved_on(old(self)),
            agrees(sp_for_iterable(old(self).toks(), old(self).pos()), res, final(self).pos()),
    {
        let t = self.peek()?;
        match t {
            TokenType::Identifier(n) => {
                let name = n.clone();
                self.advance()?;
                Ok(Expression::Identifier(name))
            },
            TokenType::LeftBracket => {
                self.advance()?;
                let elements = self.parse_expr_list(false)?;
                if !matches!(self.peek()?, TokenType::RightBracket) {
                    return Err(owned("Expected ']' after array elements"));
                }
                self.advance()?;
                Ok(Expression::ArrayLiteral(elements))
            },
            _ => self.parse_binary(0),
        }
    }

    /// `name: Type` parameters up to `)`, commas optional.
    fn parse_params(&mut self) -> (res: ParseResult<Vec<Parameter>>)
        requires
            old(self).wf(),
        ensures
            final(self).moved_on(old(self)),
            match sp_params(old(self).toks(), old(self).pos(), Seq::empty()) {
                Some((v, p)) => res matches Ok(r) && params_model(r@) == v && final(self).pos() == p,
                None => res is Err,
            },
    {
        let mut params: Vec<Parameter> = Vec::new();
        assert(params_model(params@) =~= Seq::<(Seq<char>, SpecType)>::empty());
        loop
            invariant
                self.moved_on(old(self)),
                sp_params(old(self).toks(), old(self).pos(), Seq::empty()) == sp_params(
                    self.toks(),
                    self.pos(),
                    params_model(params@),
                ),
            decreases self.toks().len() - self.pos(),
        {
            let t = self.peek()?;
            if matches!(t, TokenType::RightParen) || matches!(t, TokenType::Eof) {
                return Ok(params);
            }
            let i = self.advance()?;
            let name = match self.identifier_at(i) {
                Some(n) => n,
                None => {
                    return Err(owned("Expected parameter name"));
                },
            };
            if !matches!(self.peek()?, TokenType::Colon) {
                return Err(owned("Expected ':' after parameter name"));
            }
            self.advance()?;
            let param_type = self.parse_type()?;
            let prm = Parameter { name, param_type };
            let ghost before = params_model(params@);
            params.push(prm);
            assert(params_model(params@) =~= before.push((prm.name@, prm.param_type@)));
            if matches!(self.peek()?, TokenType::Comma) {
                self.advance()?;
            }
        }
    }

    /// The signature of a function: name, parameters and return type.
    #[verifier::spinoff_prover]
    fn parse_fn_header(&mut self) -> (res: ParseResult<(String, Vec<Parameter>, Option<Type>)>)
        requires
            old(self).wf(),
            old(self).on_token(),
        ensures
            final(self).moved_on(old(self)),
            match sp_fn_header(old(self).toks(), old(self).pos()) {
                Some((n, ps, rt, p)) => res matches Ok(r) && r.0@ == n && params_model(r.1@) == ps
                    && opt_type_model(r.2) == rt && final(self).pos() == p,
                None => res is Err,
            },
    {
        proof {
            reveal(sp_fn_header);
        }
        self.advance()?;
        let i = self.advance()?;
        let name = match self.identifier_at(i) {
            Some(n) => n,
            None => {
                return Err(owned("Expected function name"));
            },
        };
        if !matches!(self.peek()?, TokenType::LeftParen) {
            return Err(owned("Expected '(' after function name"));
        }
        self.advance()?;
        let params = self.parse_params()?;
        if !matches!(self.peek()?, TokenType::RightParen) {
            return Err(owned("Expected ')' after parameters"));
        }
        self.advance()?;
        let return_type = if matches!(self.peek()?, TokenType::Colon) {
            self.advance()?;
            Some(self.parse_type()?)
        } else {
            None
        };
        Ok((name, params, return_type))
    }

    /// Declares the parameters in order in the current scope; `false` where
    /// a declaration fails.
    fn declare_params(&mut self, params: &Vec<Parameter>) -> (ok: bool)
        requires
            old(self).wf(),
        ensures
            final(self).wf(),
            final(self).toks() == old(self).toks(),
            final(self).pos() == old(self).pos(),
            match sp_declare_params(old(self).st(), params_model(params@), 0) {
                Some(st) => ok && final(self).st() == st,
                None => !ok,
            },
    {
        let mut j: usize = 0;
        while j < params.len()
            invariant
                j <= params@.len(),
                self.wf(),
                self.toks() == old(self).toks(),
                self.pos() == old(self).pos(),
                sp_declare_params(old(self).st(), params_model(params@), 0) == sp_declare_params(
                    self.st(),
                    params_model(params@),
                    j as int,
                ),
            decreases params@.len() - j,
        {
            if self.symbol_table.next_symbol_id() == usize::MAX {
                return false;
            }
            let pname = params[j].name.clone();
            let ptype = clone_type(&params[j].param_type);
            match self.symbol_table.declare_parameter(pname, ptype, None) {
                Ok(_) => {},
                Err(_) => {
                    return false;
                },
            }
            j = j + 1;
        }
        true
    }

    /// The types of a parameter list, in order.
    fn param_type_list(params: &Vec<Parameter>) -> (res: Vec<Type>)
        ensures
            types_model(res@) == param_types(params_model(params@)),
    {
        let mut types: Vec<Type> = Vec::new();
        let mut k: usize = 0;
        while k < params.len()
            invariant
                k <= params@.len(),
                types_model(types@) =~= param_types(params_model(params@)).subrange(0, k as int),
            decreases params@.len() - k,
        {
            let ty = clone_type(&params[k].param_type);
            proof {
                lemma_types_model_push(types@, ty);
            }
            types.push(ty);
            k = k + 1;
        }
        assert(param_types(params_model(params@)).subrange(0, k as int) =~= param_types(params_model(params@)));
        types
    }

    /// `fun name(params): Ret { body }`: declares the function, then parses
    /// its body in a new scope holding the parameters.
    #[verifier::spinoff_prover]
    fn parse_function(&mut self, exported: bool) -> (res: ParseResult<Statement>)
        requires
            old(self).wf(),
            old(self).on_token(),
        ensures
            final(self).kept(old(self)),
            stmt_agrees(
                sp_function(old(self).toks(), old(self).pos(), old(self).st(), exported),
                res,
                final(self).pos(),
                final(self).st(),
            ),
        decreases old(self).toks().len() - old(self).pos(), 55nat,
    {
        proof {
            reveal(sp_function);
        }
        let start = self.current;
        let (name, params, return_type) = self.parse_fn_header()?;
        if self.current <= start {
            return Err(owned("Expected function body"));
        }
        let types = Self::param_type_list(&params);
        if self.symbol_table.next_symbol_id() == usize::MAX {
            return Err(owned("Too many symbols"));
        }
        match self.symbol_table.declare_function(name.clone(), types, clone_opt_type(&return_type), None) {
            Ok(_) => {},
            Err(_) => {
                return Err(owned("Error declaring function"));
            },
        }
        if self.symbol_table.scope_count() == usize::MAX {
            return Err(owned("Too many scopes"));
        }
        self.symbol_table.enter_scope(ScopeKind::Function { name: name.clone() });
        if !self.declare_params(&params) {
            return Err(owned("Error declaring parameter"));
        }
        let body = self.parse_block()?;
        match self.symbol_table.exit_scope() {
            Ok(_) => {},
            Err(_) => {
                return Err(owned("Error exiting function scope"));
            },
        }
        Ok(Statement::Function { name, params, return_type, body, exported })
    }

    /// `return` with an optional value.
    fn parse_return(&mut self) -> (res: ParseResult<Statement>)
        requires
            old(self).wf(),
            old(self).on_token(),
        ensures
            final(self).moved_on(old(self)),
            agrees(sp_return(old(self).toks(), old(self).pos()), res, final(self).pos()),
    {
        proof {
            reveal(sp_return);
        }
        self.advance()?;
        let t = self.peek()?;
        if matches!(t, TokenType::Newline) || matches!(t, TokenType::RightBrace) || matches!(t, TokenType::Eof) {
            Ok(Statement::Return(None))
        } else {
            let e = self.parse_expression()?;
            Ok(Statement::Return(Some(e)))
        }
    }

    /// Names of a selective import up to `}`, commas optional.
    fn parse_import_items(&mut self) -> (res: ParseResult<Vec<String>>)
        requires
            old(self).wf(),
        ensures
            final(self).moved_on(old(self)),
            match sp_import_items(old(self).toks(), old(self).pos(), Seq::empty()) {
                Some((v, p)) => res matches Ok(r) && names_model(r@) == v && final(self).pos() == p,
                None => res is Err,
            },
    {
        let mut items: Vec<String> = Vec::new();
        assert(names_model(items@) =~= Seq::<Seq<char>>::empty());
        loop
            invariant
                self.moved_on(old(self)),
                sp_import_items(old(self).toks(), old(self).pos(), Seq::empty()) == sp_import_items(
                    self.toks(),
                    self.pos(),
                    names_model(items@),
                ),
            decreases self.toks().len() - self.pos(),
        {
            let t = self.peek()?;
            if matches!(t, TokenType::RightBrace) || matches!(t, TokenType::Eof) {
                return Ok(items);
            }
            let i = self.advance()?;
            let n = match self.identifier_at(i) {
                Some(n) => n,
                None => {
                    return Err(owned("Expected identifier in import list"));
                },
            };
            if matches!(self.peek()?, TokenType::Comma) {
                self.advance()?;
            }
            let ghost before = names_model(items@);
            items.push(n);
            assert(names_model(items@) =~= before.push(n@));
        }
    }

    /// `import { a, b } from "path"` or `import name from "path"`.
    #[verifier::spinoff_prover]
    fn parse_import(&mut self) -> (res: ParseResult<Statement>)
        requires
            old(self).wf(),
            old(self).on_token(),
        ensures
            final(self).moved_on(old(self)),
            agrees(sp_import(old(self).toks(), old(self).pos()), res, final(self).pos()),
    {
        proof {
            reveal(sp_import);
        }
        self.advance()?;
        if matches!(self.peek()?, TokenType::LeftBrace) {
            self.advance()?;
            let items = self.parse_import_items()?;
            if !matches!(self.peek()?, TokenType::RightBrace) {
                return Err(owned("Expected '}' after import list"));
            }
            self.advance()?;
            if !matches!(self.peek()?, TokenType::From) {
                return Err(owned("Expected 'from' after import list"));
            }
            self.advance()?;
            let i = self.advance()?;
            let path = match self.string_at(i) {
                Some(s) => s,
                None => {
                    return Err(owned("Expected string after 'from'"));
                },
            };
            Ok(Statement::Import { module_name: None, source_path: path, items: Some(items) })
        } else {
            let i = self.advance()?;
            let module_name = match self.identifier_at(i) {
                Some(n) => n,
                None => {
                    return Err(owned("Expected module name after 'import'"));
                },
            };
            if !matches!(self.peek()?, TokenType::From) {
                return Err(owned("Expected 'from' after module name"));
            }
            self.advance()?;
            let j = self.advance()?;
            let path = match self.string_at(j) {
                Some(s) => s,
                None => {
                    return Err(owned("Expected string after 'from'"));
                },
            };
            Ok(Statement::Import { module_name: Some(module_name), source_path: path, items: None })
        }
    }

    /// `export fun ...` or `export name`.
    #[verifier::spinoff_prover]
    fn parse_export(&mut self) -> (res: ParseResult<Statement>)
        requires
            old(self).wf(),
            old(self).on_token(),
        ensures
            final(self).kept(old(self)),
            stmt_agrees(
                sp_export(old(self).toks(), old(self).pos(), old(self).st()),
                res,
                final(self).pos(),
                final(self).st(),
            ),
        decreases old(self).toks().len() - old(self).pos(), 56nat,
    {
        proof {
            reveal(sp_export);
            reveal(sp_function);
        }
        self.advance()?;
        let t = self.peek()?;
        match t {
            TokenType::Fun => self.parse_function(true),
            TokenType::Identifier(n) => {
                let item = n.clone();
                self.advance()?;
                Ok(Statement::Export { item })
            },
            _ => Err(owned("Expected 'fun' or identifier after 'export'")),
        }
    }

    /// Parameters of a native function up to `)`, separated by commas.
    fn parse_native_params(&mut self) -> (res: ParseResult<Vec<Parameter>>)
        requires
            old(self).wf(),
        ensures
            final(self).moved_on(old(self)),
            match sp_native_params(old(self).toks(), old(self).pos(), Seq::empty()) {
                Some((v, p)) => res matches Ok(r) && params_model(r@) == v && final(self).pos() == p,
                None => res is Err,
            },
            res is Ok ==> peek(final(self).toks(), final(self).pos()) == Some(SpecTok::RightParen),
    {
        let mut params: Vec<Parameter> = Vec::new();
        assert(params_model(params@) =~= Seq::<(Seq<char>, SpecType)>::empty());
        loop
            invariant
                self.moved_on(old(self)),
                sp_native_params(old(self).toks(), old(self).pos(), Seq::empty()) == sp_native_params(
                    self.toks(),
                    self.pos(),
                    params_model(params@),
                ),
            decreases self.toks().len() - self.pos(),
        {
            let t = self.peek()?;
            if matches!(t, TokenType::RightParen) {
                return Ok(params);
            }
            let before = self.current;
            if params.len() > 0 {
                let c = self.advance()?;
                if !matches!(self.token_at(c), TokenType::Comma) {
                    return Err(owned("Expected ',' between parameters"));
                }
            }
            let i = self.advance()?;
            let name = match self.identifier_at(i) {
                Some(n) => n,
                None => {
                    return Err(owned("Expected parameter name"));
                },
            };
            let j = self.advance()?;
            if !matches!(self.token_at(j), TokenType::Colon) {
                return Err(owned("Expected ':' after parameter name"));
            }
            let param_type = self.parse_type()?;
            if self.current <= before {
                return Err(owned("Expected parameter"));
            }
            let prm = Parameter { name, param_type };
            let ghost prev = params_model(params@);
            params.push(prm);
            assert(params_model(params@) =~= prev.push((prm.name@, prm.param_type@)));
        }
    }

    /// One signature `fun name(params): Ret` of a native block, at `fun`.
    #[verifier::spinoff_prover]
    fn parse_native_sig(&mut self, exported: bool) -> (res: ParseResult<NativeFunction>)
        requires
            old(self).wf(),
            old(self).on_token(),
        ensures
            final(self).moved_on(old(self)),
            match sp_native_sig(old(self).toks(), old(self).pos(), exported) {
                Some((sig, q)) => res matches Ok(f) && native_model(f) == sig && final(self).pos() == q,
                None => res is Err,
            },
    {
        self.advance()?;
        let i = self.advance()?;
        let name = match self.identifier_at(i) {
            Some(n) => n,
            None => {
                return Err(owned("Expected function name"));
            },
        };
        let j = self.advance()?;
        if !matches!(self.token_at(j), TokenType::LeftParen) {
            return Err(owned("Expected '(' after function name"));
        }
        let params = self.parse_native_params()?;
        self.advance()?;
        let return_type = if matches!(self.peek()?, TokenType::Colon) {
            self.advance()?;
            Some(self.parse_type()?)
        } else {
            None
        };
        Ok(NativeFunction { name, params, return_type, exported })
    }

    /// Function signatures of a native block up to `}`.
    fn parse_native_fns(&mut self) -> (res: ParseResult<Vec<NativeFunction>>)
        requires
            old(self).wf(),
        ensures
            final(self).moved_on(old(self)),
            match sp_native_fns(old(self).toks(), old(self).pos(), Seq::empty()) {
                Some((v, p)) => res matches Ok(r) && natives_model(r@) == v && final(self).pos() == p,
                None => res is Err,
            },
    {
        let mut functions: Vec<NativeFunction> = Vec::new();
        assert(natives_model(functions@) =~= Seq::<SpecSignature>::empty());
        loop
            invariant
                self.moved_on(old(self)),
                sp_native_fns(old(self).toks(), old(self).pos(), Seq::empty()) == sp_native_fns(
                    self.toks(),
                    self.pos(),
                    natives_model(functions@),
                ),
            decreases self.toks().len() - self.pos(),
        {
            let t = self.peek()?;
            if matches!(t, TokenType::RightBrace) {
                return Ok(functions);
            }
            if matches!(t, TokenType::Eof) {
                return Err(owned("Unclosed native block"));
            }
            if matches!(t, TokenType::Newline) {
                self.advance()?;
                continue;
            }
            let before = self.current;
            let exported = if matches!(t, TokenType::Export) {
                self.advance()?;
                true
            } else {
                false
            };
            if !matches!(self.peek()?, TokenType::Fun) {
                return Err(owned("Expected 'fun' in native block"));
            }
            let f = self.parse_native_sig(exported)?;
            if self.current <= before {
                return Err(owned("Expected native function"));
            }
            let ghost prev = natives_model(functions@);
            functions.push(f);
            assert(natives_model(functions@) =~= prev.push(native_model(f)));
        }
    }

    /// `native "language" { fun ...; ... }`.
    fn parse_native_block(&mut self) -> (res: ParseResult<Statement>)
        requires
            old(self).wf(),
            old(self).on_token(),
        ensures
            final(self).moved_on(old(self)),
            agrees(sp_native_block(old(self).toks(), old(self).pos()), res, final(self).pos()),
    {
        proof {
            reveal(sp_native_block);
        }
        self.advance()?;
        let i = self.advance()?;
        let language = match self.string_at(i) {
            Some(s) => s,
            None => {
                return Err(owned("Expected string literal after 'native'"));
            },
        };
        let j = self.advance()?;
        if !matches!(self.token_at(j), TokenType::LeftBrace) {
            return Err(owned("Expected '{' after native language"));
        }
        let functions = self.parse_native_fns()?;
        let k = self.advance()?;
        if !matches!(self.token_at(k), TokenType::RightBrace) {
            return Err(owned("Expected '}' to close native block"));
        }
        let ghost fm = natives_model(functions@);
        let s = Statement::NativeBlock { language, functions };
        assert(s@ == (SpecStmt::NativeBlock { language: language@, functions: fm }));
        Ok(s)
    }
}

} // verus!
