//! Parsing of whole programs: top level statements and instance blocks.
use vstd::prelude::*;

use crate::lexer::{is_whitespace, lex, lex_error_at, lexes, Lexeme, Span, Terminal, Token};
use crate::parser::ast::{Function, Instance, MethodDeclaration, TopLevelStatement};
use crate::parser::descent::{
    advanced,
    at_terminal, consumed, end_of_previous, expect, lemma_lexemes_empty, lemma_lexemes_one,
    lemma_lexemes_split, parse_type_name, parse_type_name_list, ready, same_tokens, spelled,
    unexpected, id_at, token_is, type_literal,
};
use crate::parser::render::{
    count_true, lexemes, render_function, render_members, render_method_declaration,
    render_type_name, spells_instance, spells_top_level, term,
};
use crate::parser::syntax::{
    comment_text, empty_block_at, empty_function_at, empty_struct_at, id_of, parse_constant,
    parse_declaration, parse_function, parse_id, parse_struct_declaration, plain_constant_at,
    plain_declaration_at,
};
use crate::parser::{ParseError, ParseState};

verus! {

/// `declare name(): type;` at `i`, where the type is a single name.
pub open spec fn plain_method_declaration_at(toks: Seq<Token>, i: int) -> bool {
    &&& token_is(toks, i, Terminal::DeclareKeyword)
    &&& id_at(toks, i + 1)
    &&& token_is(toks, i + 2, Terminal::LParen)
    &&& token_is(toks, i + 3, Terminal::RParen)
    &&& token_is(toks, i + 4, Terminal::Colon)
    &&& id_at(toks, i + 5)
    &&& token_is(toks, i + 6, Terminal::Semicolon)
}

/// `instance Name { }` at `i`.
pub open spec fn empty_instance_at(toks: Seq<Token>, i: int) -> bool {
    token_is(toks, i, Terminal::InstanceKeyword) && id_at(toks, i + 1) && empty_block_at(toks, i + 2)
}

/// Whether a top level statement can start with the token at `i`.
pub open spec fn top_level_start(toks: Seq<Token>, i: int) -> bool {
    &&& 0 <= i < toks.len()
    &&& toks[i] is Comment || toks[i] is FnKeyword || toks[i] is Const || toks[i] is DeclareKeyword
        || toks[i] is StructKeyword || toks[i] is InstanceKeyword
}

/// Parse a method declaration `declare name(types): type;` of an instance block.
pub(crate) fn parse_method_declaration(ts: &mut ParseState<Token>) -> (r: Result<
    MethodDeclaration<()>,
    ParseError,
>)
    requires
        ready(*old(ts)),
    ensures
        same_tokens(*old(ts), *final(ts)),
        r matches Ok(m) ==> spelled(*old(ts), *final(ts), render_method_declaration(m)),
        plain_method_declaration_at(old(ts).spec_tokens(), old(ts).spec_index()) ==> (r matches Ok(m) && m.id == id_of(old(ts).spec_tokens()[old(ts).spec_index() + 1])
            && m.parameter_types@.len() == 0 && m.return_type == type_literal(old(ts).spec_tokens()[old(ts).spec_index() + 5])) && final(ts).spec_index() == old(ts).spec_index()
            + 7,
{
    let ghost toks = ts.spec_tokens();
    let ghost i0 = ts.spec_index();
    let kw = expect(ts, Terminal::DeclareKeyword, "declare keyword")?;
    let id = parse_id(ts)?;
    expect(ts, Terminal::LParen, "left parenthesis")?;
    let ghost i3 = ts.spec_index();
    let parameter_types = parse_type_name_list(ts)?;
    let ghost i4 = ts.spec_index();
    expect(ts, Terminal::RParen, "right parenthesis")?;
    expect(ts, Terminal::Colon, "colon")?;
    let ghost i6 = ts.spec_index();
    let return_type = parse_type_name(ts)?;
    let ghost i7 = ts.spec_index();
    expect(ts, Terminal::Semicolon, "semicolon")?;
    let end = end_of_previous(ts);
    let m = MethodDeclaration {
        id,
        parameter_types,
        return_type,
        info: (),
        position: Span { start: kw.start, end },
    };
    proof {
        lemma_lexemes_split(toks, i0, i0 + 1, i0 + 2);
        lemma_lexemes_split(toks, i0, i0 + 2, i3);
        lemma_lexemes_split(toks, i0, i3, i4);
        lemma_lexemes_split(toks, i0, i4, i4 + 1);
        lemma_lexemes_split(toks, i0, i4 + 1, i6);
        lemma_lexemes_split(toks, i0, i6, i7);
        lemma_lexemes_split(toks, i0, i7, ts.spec_index());
        assert(lexemes(toks, i0, ts.spec_index()) =~= render_method_declaration(m));
    }
    Ok(m)
}

/// Parse an instance block `instance Type { functions and method declarations }`.
pub(crate) fn parse_instance(ts: &mut ParseState<Token>) -> (r: Result<Instance<()>, ParseError>)
    requires
        ready(*old(ts)),
    ensures
        same_tokens(*old(ts), *final(ts)),
        r matches Ok(i) ==> advanced(*old(ts), *final(ts)) && spells_instance(
            i,
            consumed(*old(ts), *final(ts)),
        ),
        empty_instance_at(old(ts).spec_tokens(), old(ts).spec_index()) ==> (r matches Ok(x) && x.name == type_literal(old(ts).spec_tokens()[old(ts).spec_index() + 1])
            && x.functions@.len() == 0 && x.declarations@.len() == 0) && final(ts).spec_index() == old(ts).spec_index() + 4,
{
    let ghost toks = ts.spec_tokens();
    let ghost i0 = ts.spec_index();
    let kw = expect(ts, Terminal::InstanceKeyword, "instance keyword")?;
    let name = parse_type_name(ts)?;
    let ghost i2 = ts.spec_index();
    expect(ts, Terminal::LBrace, "left brace")?;
    let ghost i3 = ts.spec_index();
    let mut functions: Vec<Function<()>> = Vec::new();
    let mut declarations: Vec<MethodDeclaration<()>> = Vec::new();
    let ghost mut order: Seq<bool> = Seq::empty();
    proof {
        lemma_lexemes_empty(toks, i3);
    }
    while !at_terminal(ts, Terminal::RBrace)
        invariant
            ready(*old(ts)),
            same_tokens(*old(ts), *ts),
            toks == old(ts).spec_tokens(),
            i0 == old(ts).spec_index(),
            i0 < i3 <= ts.spec_index(),
            count_true(order) == functions@.len(),
            order.len() == functions@.len() + declarations@.len(),
            lexemes(toks, i3, ts.spec_index()) == render_members(functions@, declarations@, order),
            empty_instance_at(toks, i0) ==> ts.spec_index() == i0 + 3 && i3 == i0 + 3
                && functions@.len() == 0 && declarations@.len() == 0 && name == type_literal(
                toks[i0 + 1],
            ),
        decreases ts.spec_tokens().len() - ts.spec_index(),
    {
        let ghost i4 = ts.spec_index();
        let ghost fs = functions@;
        let ghost ds = declarations@;
        let ghost o = order;
        if at_terminal(ts, Terminal::FnKeyword) {
            let f = parse_function(ts)?;
            functions.push(f);
            proof {
                order = order.push(true);
                assert(order.drop_last() =~= o);
                assert(functions@.drop_last() =~= fs);
                lemma_lexemes_split(toks, i3, i4, ts.spec_index());
            }
        } else {
            let m = parse_method_declaration(ts)?;
            declarations.push(m);
            proof {
                order = order.push(false);
                assert(order.drop_last() =~= o);
                assert(declarations@.drop_last() =~= ds);
                lemma_lexemes_split(toks, i3, i4, ts.spec_index());
            }
        }
    }
    let ghost i5 = ts.spec_index();
    expect(ts, Terminal::RBrace, "right brace")?;
    let end = end_of_previous(ts);
    let i = Instance { name, functions, declarations, info: (), position: Span { start: kw.start, end } };
    proof {
        lemma_lexemes_split(toks, i0, i0 + 1, i2);
        lemma_lexemes_split(toks, i0, i2, i3);
        lemma_lexemes_split(toks, i0, i3, i5);
        lemma_lexemes_split(toks, i0, i5, ts.spec_index());
        assert(lexemes(toks, i0, ts.spec_index()) =~= term(Terminal::InstanceKeyword) + render_type_name(i.name) + term(
                Terminal::LBrace,
            ) + render_members(i.functions@, i.declarations@, order) + term(Terminal::RBrace));
    }
    Ok(i)
}

/// Where a top level statement in its plainest form that starts at `i` ends: a comment, an
/// empty function without parameters, a constant or declaration with a single type name and
/// a single operand, an empty struct or an empty instance block; -1 where none starts there.
pub open spec fn plain_top_level_end(toks: Seq<Token>, i: int) -> int {
    if 0 <= i < toks.len() && toks[i] is Comment {
        i + 1
    } else if empty_function_at(toks, i) {
        i + 8
    } else if plain_constant_at(toks, i) {
        i + 7
    } else if plain_declaration_at(toks, i) {
        i + 5
    } else if empty_struct_at(toks, i) {
        i + 4
    } else if empty_instance_at(toks, i) {
        i + 4
    } else {
        -1
    }
}

/// Whether the tokens from `i` on are top level statements in their plainest forms, one after
/// the other.
pub open spec fn plain_top_level_from(toks: Seq<Token>, i: int) -> bool
    decreases toks.len() - i,
{
    if i >= toks.len() {
        true
    } else if plain_top_level_end(toks, i) > i {
        plain_top_level_from(toks, plain_top_level_end(toks, i))
    } else {
        false
    }
}

/// Parse one top level statement.
fn parse_top_level_statement(ts: &mut ParseState<Token>) -> (r: Result<
    TopLevelStatement<()>,
    ParseError,
>)
    requires
        ready(*old(ts)),
    ensures
        same_tokens(*old(ts), *final(ts)),
        r matches Ok(s) ==> advanced(*old(ts), *final(ts)) && spells_top_level(
            s,
            consumed(*old(ts), *final(ts)),
        ),
        !top_level_start(old(ts).spec_tokens(), old(ts).spec_index()) ==> r is Err,
        0 <= old(ts).spec_index() < old(ts).spec_tokens().len() && old(ts).spec_tokens()[old(ts).spec_index()] is Comment ==> r == Ok::<TopLevelStatement<()>, ParseError>(
            TopLevelStatement::Comment(comment_text(old(ts).spec_tokens()[old(ts).spec_index()])),
        ) && final(ts).spec_index() == old(ts).spec_index() + 1,
        empty_function_at(old(ts).spec_tokens(), old(ts).spec_index()) ==> (r matches Ok(TopLevelStatement::Function(f)) && f.id == id_of(
            old(ts).spec_tokens()[old(ts).spec_index() + 1],
        ) && f.parameters@.len() == 0 && f.return_type == type_literal(old(ts).spec_tokens()[old(ts).spec_index() + 5])
            && f.body.statements@.len() == 0) && final(ts).spec_index() == old(ts).spec_index() + 8,
        plain_constant_at(old(ts).spec_tokens(), old(ts).spec_index()) ==> (r matches Ok(TopLevelStatement::Constant(_))) && final(ts).spec_index() == old(ts).spec_index() + 7,
        plain_declaration_at(old(ts).spec_tokens(), old(ts).spec_index()) ==> (r matches Ok(TopLevelStatement::Declaration(_))) && final(ts).spec_index() == old(ts).spec_index()
            + 5,
        empty_struct_at(old(ts).spec_tokens(), old(ts).spec_index()) ==> (r matches Ok(TopLevelStatement::StructDeclaration(_))) && final(ts).spec_index() == old(ts).spec_index()
            + 4,
        empty_instance_at(old(ts).spec_tokens(), old(ts).spec_index()) ==> (r matches Ok(TopLevelStatement::Instance(_))) && final(ts).spec_index() == old(ts).spec_index() + 4,
{
    let ghost toks = ts.spec_tokens();
    let ghost i0 = ts.spec_index();
    let tok = match ts.peek() {
        Some(tok) => tok,
        None => {
            return Err(ParseError::eof("top level statement"));
        },
    };
    match tok {
        Token::Comment { value, .. } => {
            ts.next();
            proof {
                lemma_lexemes_one(toks, i0);
            }
            Ok(TopLevelStatement::Comment(value))
        },
        Token::FnKeyword { .. } => Ok(TopLevelStatement::Function(parse_function(ts)?)),
        Token::Const { .. } => Ok(TopLevelStatement::Constant(parse_constant(ts)?)),
        Token::DeclareKeyword { .. } => Ok(TopLevelStatement::Declaration(parse_declaration(ts)?)),
        Token::StructKeyword { .. } => Ok(
            TopLevelStatement::StructDeclaration(parse_struct_declaration(ts)?),
        ),
        Token::InstanceKeyword { .. } => Ok(TopLevelStatement::Instance(parse_instance(ts)?)),
        _ => Err(unexpected(ts, "top level statement")),
    }
}

/// `statements` are spelled by `tokens[from..]`, cut at the positions `cuts`.
pub open spec fn program_cuts(
    tokens: Seq<Token>,
    from: int,
    statements: Seq<TopLevelStatement<()>>,
    cuts: Seq<int>,
) -> bool {
    &&& cuts.len() == statements.len() + 1
    &&& cuts[0] == from
    &&& cuts.last() == tokens.len()
    &&& forall|k: int| 0 <= k < statements.len() ==> #[trigger] cuts[k] < cuts[k + 1]
    &&& forall|k: int|
        0 <= k < statements.len() ==> spells_top_level(
            #[trigger] statements[k],
            lexemes(tokens, cuts[k], cuts[k + 1]),
        )
}

/// `tokens[from..]` spell the top level `statements`, one after the other.
pub open spec fn spells_program(
    tokens: Seq<Token>,
    from: int,
    statements: Seq<TopLevelStatement<()>>,
) -> bool {
    exists|cuts: Seq<int>| program_cuts(tokens, from, statements, cuts)
}

/// Parse top level statements up to the end of the tokens.
pub fn parse_top_level_statements(ts: &mut ParseState<Token>) -> (r: Result<
    Vec<TopLevelStatement<()>>,
    ParseError,
>)
    requires
        ready(*old(ts)),
    ensures
        same_tokens(*old(ts), *final(ts)),
        r matches Ok(v) ==> spells_program(old(ts).spec_tokens(), old(ts).spec_index(), v@),
        old(ts).spec_index() >= old(ts).spec_tokens().len() ==> (r matches Ok(v) && v@.len() == 0),
        plain_top_level_from(old(ts).spec_tokens(), old(ts).spec_index()) ==> r is Ok,
{
    let ghost toks = ts.spec_tokens();
    let ghost i0 = ts.spec_index();
    let mut statements: Vec<TopLevelStatement<()>> = Vec::new();
    let ghost mut cuts: Seq<int> = seq![i0];
    while ts.peek().is_some()
        invariant
            ready(*old(ts)),
            same_tokens(*old(ts), *ts),
            toks == old(ts).spec_tokens(),
            i0 == old(ts).spec_index(),
            cuts.len() == statements@.len() + 1,
            cuts[0] == i0,
            cuts.last() == ts.spec_index(),
            i0 >= toks.len() ==> statements@.len() == 0,
            plain_top_level_from(toks, i0) ==> plain_top_level_from(toks, ts.spec_index()),
            forall|k: int| 0 <= k < statements@.len() ==> #[trigger] cuts[k] < cuts[k + 1],
            forall|k: int|
                0 <= k < statements@.len() ==> spells_top_level(
                    #[trigger] statements@[k],
                    lexemes(toks, cuts[k], cuts[k + 1]),
                ),
        decreases ts.spec_tokens().len() - ts.spec_index(),
    {
        let ghost before = statements@;
        let ghost c = cuts;
        let s = parse_top_level_statement(ts)?;
        statements.push(s);
        proof {
            cuts = cuts.push(ts.spec_index());
            assert forall|k: int| 0 <= k < statements@.len() implies spells_top_level(
                #[trigger] statements@[k],
                lexemes(toks, cuts[k], cuts[k + 1]),
            ) by {
                if k < before.len() {
                    assert(statements@[k] == before[k]);
                    assert(cuts[k] == c[k]);
                    assert(cuts[k + 1] == c[k + 1]);
                }
            }
        }
    }
    proof {
        assert(program_cuts(toks, i0, statements@, cuts));
    }
    Ok(statements)
}

/// Parse the source text of a Y program into its top level statements.
///
/// On success the source lexes into tokens that spell the returned statements one after
/// the other.
pub fn parse_program(source: &str) -> (r: Result<Vec<TopLevelStatement<()>>, ParseError>)
    ensures
        r matches Ok(v) ==> exists|tokens: Seq<Token>| lexes(source@, tokens) && spells_program(tokens, 0, v@),
        (forall|k: int| 0 <= k < source@.len() ==> is_whitespace(#[trigger] source@[k])) ==> (r matches Ok(
            v,
        ) && v@.len() == 0),
        (forall|t: Seq<Token>|
            #[trigger] lexes(source@, t) ==> plain_top_level_from(t, 0) && t.len() < usize::MAX - 1) ==> (r is Ok
            || (r matches Err(e) && e.position matches Some(p) && p.start < source@.len()
            && lex_error_at(source@, p.start as int))),
{
    let tokens = lex(source)?;
    if tokens.len() >= usize::MAX - 1 {
        return Err(ParseError::eof("program"));
    }
    let ghost toks = tokens@;
    let mut ts = ParseState::new(tokens);
    let statements = parse_top_level_statements(&mut ts)?;
    proof {
        assert(lexes(source@, toks) && spells_program(toks, 0, statements@));
    }
    Ok(statements)
}

} // verus!
