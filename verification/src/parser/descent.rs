//! A recursive descent parser for the Y language over a token cursor.
use vstd::prelude::*;
use vstd::string::StringExecFns;

use crate::lexer::{Lexeme, Span, Terminal, Token};
use crate::parser::ast::TypeName;
use crate::parser::render::{lexemes, render_type_name, render_type_names, term};
use crate::parser::{ParseError, ParseState};

verus! {

/// The cursor can be used by the parser: it stands inside (or at the end of) its tokens.
pub open spec fn ready(ts: ParseState<Token>) -> bool {
    &&& 0 <= ts.spec_index() <= ts.spec_tokens().len()
    &&& ts.spec_tokens().len() < usize::MAX
}

/// Whether the token at `j` exists and is the terminal `t`.
pub open spec fn token_is(toks: Seq<Token>, j: int, t: Terminal) -> bool {
    0 <= j < toks.len() && toks[j].lexeme() == Lexeme::Term(t)
}

/// Whether the token at `j` exists and is an identifier.
pub open spec fn id_at(toks: Seq<Token>, j: int) -> bool {
    0 <= j < toks.len() && toks[j] is Id
}

/// The type name that an identifier token spells.
pub open spec fn type_literal(t: Token) -> TypeName {
    match t {
        Token::Id { value, position } => TypeName::Literal(value, position),
        _ => arbitrary(),
    }
}

/// `after` runs over the same tokens as `before`, with the same errors.
pub open spec fn same_tokens(before: ParseState<Token>, after: ParseState<Token>) -> bool {
    &&& after.spec_tokens() == before.spec_tokens()
    &&& after.spec_errors() == before.spec_errors()
    &&& ready(after)
}

/// `after` moved forward over at least one token of `before`.
pub open spec fn advanced(before: ParseState<Token>, after: ParseState<Token>) -> bool {
    &&& same_tokens(before, after)
    &&& before.spec_index() < after.spec_index()
}

/// The lexemes of the tokens between the two cursors.
pub open spec fn consumed(before: ParseState<Token>, after: ParseState<Token>) -> Seq<Lexeme> {
    lexemes(before.spec_tokens(), before.spec_index(), after.spec_index())
}

pub proof fn lemma_lexemes_split(tokens: Seq<Token>, a: int, b: int, c: int)
    requires
        0 <= a <= b <= c <= tokens.len(),
    ensures
        lexemes(tokens, a, c) == lexemes(tokens, a, b) + lexemes(tokens, b, c),
{
    assert(lexemes(tokens, a, c) =~= lexemes(tokens, a, b) + lexemes(tokens, b, c));
}

pub proof fn lemma_lexemes_one(tokens: Seq<Token>, a: int)
    requires
        0 <= a < tokens.len(),
    ensures
        lexemes(tokens, a, a + 1) == seq![tokens[a].lexeme()],
{
    assert(lexemes(tokens, a, a + 1) =~= seq![tokens[a].lexeme()]);
}

pub proof fn lemma_lexemes_empty(tokens: Seq<Token>, a: int)
    requires
        0 <= a <= tokens.len(),
    ensures
        lexemes(tokens, a, a) == Seq::<Lexeme>::empty(),
{
    assert(lexemes(tokens, a, a) =~= Seq::<Lexeme>::empty());
}

/// Whether the token under the cursor is `t`.
pub fn at_terminal(ts: &ParseState<Token>, t: Terminal) -> (b: bool)
    requires
        ready(*ts),
    ensures
        b == (ts.spec_index() < ts.spec_tokens().len() && ts.spec_tokens()[ts.spec_index()].lexeme()
            == Lexeme::Term(t)),
{
    match ts.peek() {
        Some(tok) => tok.is_terminal(t),
        None => false,
    }
}

/// The error for a token that is not what was expected.
pub fn unexpected(ts: &ParseState<Token>, expected: &str) -> (e: ParseError)
    requires
        ready(*ts),
    ensures
        ts.spec_index() < ts.spec_tokens().len() ==> e.position == Some(
            ts.spec_tokens()[ts.spec_index()].spec_position(),
        ),
{
    match ts.peek() {
        Some(tok) => ParseError::at(
            String::from_str("Expected ").concat(expected).as_str(),
            tok.position(),
        ),
        None => ParseError::eof(expected),
    }
}

/// Consume the terminal `t`, returning its position.
pub fn expect(ts: &mut ParseState<Token>, t: Terminal, what: &str) -> (r: Result<Span, ParseError>)
    requires
        ready(*old(ts)),
    ensures
        same_tokens(*old(ts), *final(ts)),
        r matches Ok(span) ==> {
            &&& final(ts).spec_index() == old(ts).spec_index() + 1
            &&& old(ts).spec_tokens()[old(ts).spec_index()].lexeme() == Lexeme::Term(t)
            &&& span == old(ts).spec_tokens()[old(ts).spec_index()].spec_position()
            &&& consumed(*old(ts), *final(ts)) == term(t)
        },
        r is Err ==> final(ts).spec_index() == old(ts).spec_index(),
        r is Ok <==> old(ts).spec_index() < old(ts).spec_tokens().len() && old(ts).spec_tokens()[old(
            ts,
        ).spec_index()].lexeme() == Lexeme::Term(t),
{
    if at_terminal(ts, t) {
        let tok = ts.next();
        proof {
            lemma_lexemes_one(old(ts).spec_tokens(), old(ts).spec_index());
        }
        match tok {
            Some(tok) => Ok(tok.position()),
            None => Err(ParseError::eof(what)),
        }
    } else {
        Err(unexpected(ts, what))
    }
}

/// The end of the token just before the cursor.
pub fn end_of_previous(ts: &ParseState<Token>) -> (end: usize)
    requires
        ready(*ts),
        ts.spec_index() > 0,
    ensures
        end == ts.spec_tokens()[ts.spec_index() - 1].spec_position().end,
{
    match ts.peek_reverse() {
        Some(tok) => tok.position().end,
        None => 0,
    }
}

/// Parse a type name.
pub fn parse_type_name(ts: &mut ParseState<Token>) -> (r: Result<TypeName, ParseError>)
    requires
        ready(*old(ts)),
    ensures
        same_tokens(*old(ts), *final(ts)),
        r matches Ok(t) ==> advanced(*old(ts), *final(ts)) && consumed(*old(ts), *final(ts))
            == render_type_name(t),
        id_at(old(ts).spec_tokens(), old(ts).spec_index()) ==> r == Ok::<TypeName, ParseError>(
            type_literal(old(ts).spec_tokens()[old(ts).spec_index()]),
        ) && final(ts).spec_index() == old(ts).spec_index() + 1,
    decreases old(ts).spec_tokens().len() - old(ts).spec_index(), 0nat,
{
    let ghost s0 = *ts;
    let ghost toks = ts.spec_tokens();
    let ghost i0 = ts.spec_index();
    if at_terminal(ts, Terminal::Ampersand) {
        let amp = expect(ts, Terminal::Ampersand, "type name")?;
        if at_terminal(ts, Terminal::LBracket) {
            expect(ts, Terminal::LBracket, "left bracket")?;
            let ghost i2 = ts.spec_index();
            let inner = parse_type_name(ts)?;
            let ghost i3 = ts.spec_index();
            expect(ts, Terminal::RBracket, "right bracket")?;
            let end = end_of_previous(ts);
            let t = TypeName::Array(Box::new(inner), Span { start: amp.start, end });
            proof {
                lemma_lexemes_split(toks, i0, i0 + 1, i2);
                lemma_lexemes_split(toks, i0, i2, i3);
                lemma_lexemes_split(toks, i0, i3, i3 + 1);
            }
            Ok(t)
        } else {
            let ghost i1 = ts.spec_index();
            let inner = parse_type_name(ts)?;
            let end = end_of_previous(ts);
            proof {
                lemma_lexemes_split(toks, i0, i1, ts.spec_index());
            }
            Ok(TypeName::Reference(Box::new(inner), Span { start: amp.start, end }))
        }
    } else if at_terminal(ts, Terminal::LParen) {
        let lparen = expect(ts, Terminal::LParen, "type name")?;
        let ghost i1 = ts.spec_index();
        let elements = parse_type_name_list(ts)?;
        let ghost i2 = ts.spec_index();
        expect(ts, Terminal::RParen, "right parenthesis")?;
        let ghost i3 = ts.spec_index();
        proof {
            lemma_lexemes_split(toks, i0, i1, i2);
            lemma_lexemes_split(toks, i0, i2, i3);
        }
        if at_terminal(ts, Terminal::SmallRightArrow) {
            expect(ts, Terminal::SmallRightArrow, "arrow")?;
            let ghost i4 = ts.spec_index();
            let return_type = parse_type_name(ts)?;
            let end = end_of_previous(ts);
            proof {
                lemma_lexemes_split(toks, i0, i3, i4);
                lemma_lexemes_split(toks, i0, i4, ts.spec_index());
            }
            Ok(
                TypeName::Fn {
                    params: elements,
                    return_type: Box::new(return_type),
                    position: Span { start: lparen.start, end },
                },
            )
        } else {
            let end = end_of_previous(ts);
            Ok(TypeName::Tuple(elements, Span { start: lparen.start, end }))
        }
    } else {
        match ts.peek() {
            Some(Token::Id { value, position }) => {
                ts.next();
                proof {
                    lemma_lexemes_one(toks, i0);
                }
                Ok(TypeName::Literal(value, position))
            },
            _ => Err(unexpected(ts, "type name")),
        }
    }
}

/// Parse type names separated by commas, up to (not including) a closing parenthesis.
pub fn parse_type_name_list(ts: &mut ParseState<Token>) -> (r: Result<Vec<TypeName>, ParseError>)
    requires
        ready(*old(ts)),
    ensures
        same_tokens(*old(ts), *final(ts)),
        r matches Ok(v) ==> old(ts).spec_index() <= final(ts).spec_index() && consumed(
            *old(ts),
            *final(ts),
        ) == render_type_names(v@),
        token_is(old(ts).spec_tokens(), old(ts).spec_index(), Terminal::RParen) ==> (r matches Ok(v)
            && v@.len() == 0 && final(ts).spec_index() == old(ts).spec_index()),
        id_at(old(ts).spec_tokens(), old(ts).spec_index()) && token_is(
            old(ts).spec_tokens(),
            old(ts).spec_index() + 1,
            Terminal::RParen,
        ) ==> (r matches Ok(v) && v@ == seq![type_literal(old(ts).spec_tokens()[old(ts).spec_index()])]
            && final(ts).spec_index() == old(ts).spec_index() + 1),
    decreases old(ts).spec_tokens().len() - old(ts).spec_index(), 1nat,
{
    let ghost toks = ts.spec_tokens();
    let ghost i0 = ts.spec_index();
    let mut names: Vec<TypeName> = Vec::new();
    proof {
        lemma_lexemes_empty(toks, i0);
    }
    if at_terminal(ts, Terminal::RParen) {
        return Ok(names);
    }
    let first = parse_type_name(ts)?;
    names.push(first);
    proof {
        assert(names@ =~= seq![first]);
    }
    while at_terminal(ts, Terminal::Comma)
        invariant
            ready(*old(ts)),
            same_tokens(*old(ts), *ts),
            i0 == old(ts).spec_index(),
            toks == old(ts).spec_tokens(),
            i0 < ts.spec_index(),
            names@.len() > 0,
            consumed(*old(ts), *ts) == render_type_names(names@),
            !token_is(toks, i0, Terminal::RParen),
            id_at(toks, i0) && token_is(toks, i0 + 1, Terminal::RParen) ==> ts.spec_index() == i0 + 1
                && names@ == seq![type_literal(toks[i0])],
        decreases ts.spec_tokens().len() - ts.spec_index(),
    {
        let ghost i1 = ts.spec_index();
        let ghost before = names@;
        expect(ts, Terminal::Comma, "comma")?;
        let ghost i2 = ts.spec_index();
        let next = parse_type_name(ts)?;
        names.push(next);
        proof {
            lemma_lexemes_split(toks, i0, i1, i2);
            lemma_lexemes_split(toks, i0, i2, ts.spec_index());
            assert(names@.drop_last() =~= before);
        }
    }
    Ok(names)
}

} // verus!

verus! {

/// `after` moved forward from `before` over tokens that spell `s`.
pub open spec fn spelled(before: ParseState<Token>, after: ParseState<Token>, s: Seq<Lexeme>) -> bool {
    &&& advanced(before, after)
    &&& consumed(before, after) == s
}

/// Where the token under the cursor starts (0 at the end of the tokens).
pub fn start_here(ts: &ParseState<Token>) -> (start: usize)
    requires
        ready(*ts),
    ensures
        ts.spec_index() < ts.spec_tokens().len() ==> start == ts.spec_tokens()[ts.spec_index()].spec_position().start,
{
    match ts.peek() {
        Some(tok) => tok.position().start,
        None => 0,
    }
}

} // verus!
