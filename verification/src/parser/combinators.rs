//! Parser combinators over tokens: terminals, nodes, sequences, alternatives, options and
//! repetitions, with the grammar each of them accepts.
use vstd::prelude::*;
use vstd::string::StringExecFns;

use crate::lexer::{Lexeme, Span, Terminal, Token};
use crate::parser::ast::{
    AstNode, AstString, Character, Expression, FunctionParameter, LambdaParameter, Num, Statement,
    StructFieldDeclaration, StructFieldInitialisation,
};
use crate::parser::descent::{
    advanced, at_terminal, consumed, end_of_previous, expect, lemma_lexemes_empty,
    lemma_lexemes_one, lemma_lexemes_split, parse_type_name, ready, same_tokens, unexpected, id_at,
    token_is, type_literal,
};
use crate::parser::program::{
    empty_instance_at, parse_instance, parse_method_declaration, plain_method_declaration_at,
};
use crate::parser::render::{
    lexemes, render_expression, render_field_declaration, render_field_initialisation,
    render_parameter, render_statement, spells_node, term,
};
use crate::parser::syntax::{
    empty_array_at, empty_block_at, empty_function_at, empty_struct_at, id_of, operand_expression,
    plain_constant_at, plain_declaration_at, plain_if_at, plain_initialisation_at, plain_lambda_at,
    plain_while_at, single_operand, parse_array, parse_block, parse_constant, parse_declaration, parse_expression, parse_function,
    parse_id, parse_if, parse_initialisation, parse_lambda, parse_statement,
    parse_struct_declaration, parse_struct_initialisation, parse_while,
};
use crate::parser::direct_parsing::{debug_terminal, debug_token, terminal_debug_text, token_debug_text};
use crate::parser::{ParseError, ParseState};

verus! {

/// What running a combinator from a cursor position gives, as far as it is determined by the
/// tokens: a failure with the cursor left at a position, success with the cursor at a position
/// and the nodes produced, or open, where a node parser is involved whose outcome is not
/// stated on these tokens.
pub enum ParseOutcome {
    Fail(int),
    Done(int, Seq<AstNode>),
    Open,
}

/// The outcome with `nodes` produced before it.
pub open spec fn after_nodes(nodes: Seq<AstNode>, o: ParseOutcome) -> ParseOutcome {
    match o {
        ParseOutcome::Done(j, ns) => ParseOutcome::Done(j, nodes + ns),
        _ => o,
    }
}

/// Nodes produced before nodes produced before an outcome are produced before it in order.
pub proof fn lemma_after_nodes_twice(a: Seq<AstNode>, b: Seq<AstNode>, o: ParseOutcome)
    ensures
        after_nodes(a, after_nodes(b, o)) == after_nodes(a + b, o),
{
    match o {
        ParseOutcome::Done(j, ns) => {
            assert(a + (b + ns) =~= (a + b) + ns);
        },
        _ => {},
    }
}

/// Whether a combinator records no errors while parsing: only a repetition up to a closing
/// combinator records one, when its closing part fails.
pub open spec fn records_no_errors(c: Comb) -> bool
    decreases c,
{
    match c {
        Comb::Sequence { current, next } => records_no_errors(*current) && records_no_errors(*next),
        Comb::Either { left, right } => records_no_errors(*left) && records_no_errors(*right),
        Comb::Optional { inner } => records_no_errors(*inner),
        Comb::Repitition { inner, .. } => records_no_errors(*inner),
        Comb::RepeatUntil { .. } => false,
        _ => true,
    }
}

/// The outcome of running the combinator `c` from position `i` of the tokens.
pub open spec fn comb_outcome(c: Comb, toks: Seq<Token>, i: int) -> ParseOutcome
    decreases c, 0nat,
{
    match c {
        Comb::Terminal { token } => if 0 <= i < toks.len() {
            if toks[i].lexeme() == Lexeme::Term(token) {
                ParseOutcome::Done(i + 1, Seq::empty())
            } else {
                ParseOutcome::Fail(i + 1)
            }
        } else {
            ParseOutcome::Fail(i)
        },
        Comb::Node { parser } => match one_token_node(parser, toks, i) {
            Some(n) => ParseOutcome::Done(i + 1, seq![n]),
            None => if one_token_kind(parser) {
                ParseOutcome::Fail(i)
            } else {
                ParseOutcome::Open
            },
        },
        Comb::Sequence { current, next } => match comb_outcome(*current, toks, i) {
            ParseOutcome::Done(j, ns) => after_nodes(ns, comb_outcome(*next, toks, j)),
            other => other,
        },
        Comb::Either { left, right } => match comb_outcome(*left, toks, i) {
            ParseOutcome::Fail(_) => comb_outcome(*right, toks, i),
            other => other,
        },
        Comb::Optional { inner } => match comb_outcome(*inner, toks, i) {
            ParseOutcome::Fail(_) => ParseOutcome::Done(i, Seq::empty()),
            other => other,
        },
        Comb::Repitition { inner, amount } => match amount {
            Some(n) => repeated_outcome(*inner, toks, i, n as nat),
            None => repeated_while_outcome(*inner, toks, i),
        },
        Comb::RepeatUntil { repeated, closing } => match repeated_while_outcome(*repeated, toks, i) {
            ParseOutcome::Done(j, ns) => after_nodes(ns, comb_outcome(*closing, toks, j)),
            other => other,
        },
    }
}

/// The outcome of running `inner` exactly `n` times from position `i`.
pub open spec fn repeated_outcome(inner: Comb, toks: Seq<Token>, i: int, n: nat) -> ParseOutcome
    decreases inner, n + 1,
{
    if n == 0 {
        ParseOutcome::Done(i, Seq::empty())
    } else {
        match comb_outcome(inner, toks, i) {
            ParseOutcome::Done(j, ns) => after_nodes(ns, repeated_outcome(inner, toks, j, (n - 1) as nat)),
            other => other,
        }
    }
}

/// The outcome of running `inner` from position `i` for as long as it succeeds and moves the
/// cursor forward: a failed run leaves the cursor where that run started.
pub open spec fn repeated_while_outcome(inner: Comb, toks: Seq<Token>, i: int) -> ParseOutcome
    decreases inner, if i <= toks.len() {
        toks.len() - i + 2
    } else {
        1
    },
{
    match comb_outcome(inner, toks, i) {
        ParseOutcome::Fail(_) => ParseOutcome::Done(i, Seq::empty()),
        ParseOutcome::Done(j, ns) => if j <= i {
            ParseOutcome::Done(j, ns)
        } else if j <= toks.len() {
            after_nodes(ns, repeated_while_outcome(inner, toks, j))
        } else {
            ParseOutcome::Open
        },
        ParseOutcome::Open => ParseOutcome::Open,
    }
}

/// The kinds of node a combinator can parse.
#[derive(Debug, Clone, Copy, PartialEq, Eq, Structural)]
pub enum NodeParser {
    Id,
    Num,
    Character,
    String,
    Expression,
    Statement,
    Initialisation,
    Assignment,
    Function,
    Lambda,
    LambdaParameter,
    If,
    WhileLoop,
    Block,
    Array,
    Parameter,
    TypeName,
    Declaration,
    Constant,
    StructDeclaration,
    StructFieldDeclaration,
    StructInitialisation,
    StructFieldInitialisation,
    Instance,
    MethodDeclaration,
}

/// Whether a node is of the kind a node parser produces.
pub open spec fn node_of_kind(kind: NodeParser, n: AstNode) -> bool {
    match kind {
        NodeParser::Id => n is Id,
        NodeParser::Num => n is Num,
        NodeParser::Character => n is Character,
        NodeParser::String => n is AstString,
        NodeParser::Expression => n is Expression,
        NodeParser::Statement => n is Statement,
        NodeParser::Initialisation => n is Initialization,
        NodeParser::Assignment => n is Assignment,
        NodeParser::Function => n is Function,
        NodeParser::Lambda => n is Lambda,
        NodeParser::LambdaParameter => n is LambdaParameter,
        NodeParser::If => n is If,
        NodeParser::WhileLoop => n is WhileLoop,
        NodeParser::Block => n is Block,
        NodeParser::Array => n is Array,
        NodeParser::Parameter => n is FunctionParameter,
        NodeParser::TypeName => n is TypeName,
        NodeParser::Declaration => n is Declaration,
        NodeParser::Constant => n is Constant,
        NodeParser::StructDeclaration => n is StructDeclaration,
        NodeParser::StructFieldDeclaration => n is StructFieldDeclaration,
        NodeParser::StructInitialisation => n is StructInitialisation,
        NodeParser::StructFieldInitialisation => n is StructFieldInitialisation,
        NodeParser::Instance => n is Instance,
        NodeParser::MethodDeclaration => n is MethodDeclaration,
    }
}

/// The node that the token at `i` makes on its own, for the kinds of node that one token
/// can make.
pub open spec fn one_token_node(kind: NodeParser, toks: Seq<Token>, i: int) -> Option<AstNode> {
    if !(0 <= i < toks.len()) {
        None
    } else {
        match (kind, toks[i]) {
            (NodeParser::Id, Token::Id { .. }) => Some(AstNode::Id(id_of(toks[i]))),
            (NodeParser::Num, Token::Integer { value, position }) => Some(
                AstNode::Num(Num::Integer(value, (), position)),
            ),
            (NodeParser::Num, Token::FloatingPoint { value, position }) => Some(
                AstNode::Num(Num::FloatingPoint(value, (), position)),
            ),
            (NodeParser::Character, Token::Character { value, position }) => Some(
                AstNode::Character(Character { character: value, position, info: () }),
            ),
            (NodeParser::String, Token::String { value, position }) => Some(
                AstNode::AstString(AstString { value, info: (), position }),
            ),
            (NodeParser::LambdaParameter, Token::Id { position, .. }) => Some(
                AstNode::LambdaParameter(LambdaParameter { name: id_of(toks[i]), info: (), position }),
            ),
            (NodeParser::TypeName, Token::Id { .. }) => Some(AstNode::TypeName(type_literal(toks[i]))),
            (NodeParser::Expression, _) => if single_operand(toks, i) {
                Some(AstNode::Expression(operand_expression(toks[i])))
            } else {
                None
            },
            _ => None,
        }
    }
}

/// Whether a node parser of this kind reads exactly one token.
pub open spec fn one_token_kind(kind: NodeParser) -> bool {
    kind is Id || kind is Num || kind is Character || kind is String || kind is LambdaParameter
}

/// The plainest form of a node of the given kind at `i`: no parameters, fields or statements,
/// and single operands for expressions.
pub open spec fn plain_node_at(kind: NodeParser, toks: Seq<Token>, i: int) -> bool {
    match kind {
        NodeParser::Statement => single_operand(toks, i) && token_is(toks, i + 1, Terminal::Semicolon),
        NodeParser::Initialisation => plain_initialisation_at(toks, i),
        NodeParser::Function => empty_function_at(toks, i),
        NodeParser::Lambda => plain_lambda_at(toks, i),
        NodeParser::If => plain_if_at(toks, i),
        NodeParser::WhileLoop => plain_while_at(toks, i),
        NodeParser::Block => empty_block_at(toks, i),
        NodeParser::Array => empty_array_at(toks, i),
        NodeParser::Declaration => plain_declaration_at(toks, i),
        NodeParser::Constant => plain_constant_at(toks, i),
        NodeParser::StructDeclaration => empty_struct_at(toks, i),
        NodeParser::StructInitialisation => id_at(toks, i) && empty_block_at(toks, i + 1),
        NodeParser::Instance => empty_instance_at(toks, i),
        NodeParser::MethodDeclaration => plain_method_declaration_at(toks, i),
        _ => false,
    }
}

/// Parse a node of the given kind.
pub fn parse_node(kind: NodeParser, ts: &mut ParseState<Token>) -> (r: Result<AstNode, ParseError>)
    requires
        ready(*old(ts)),
    ensures
        same_tokens(*old(ts), *final(ts)),
        r matches Ok(n) ==> {
            &&& advanced(*old(ts), *final(ts))
            &&& spells_node(n, consumed(*old(ts), *final(ts)))
            &&& node_of_kind(kind, n)
        },
        one_token_node(kind, old(ts).spec_tokens(), old(ts).spec_index()) matches Some(n) ==> r == Ok::<AstNode, ParseError>(n) && final(ts).spec_index() == old(ts).spec_index()
            + 1,
        one_token_kind(kind) ==> (r is Ok <==> one_token_node(kind, old(ts).spec_tokens(), old(ts).spec_index()) is Some),
        one_token_kind(kind) && r is Err ==> final(ts).spec_index() == old(ts).spec_index(),
        plain_node_at(kind, old(ts).spec_tokens(), old(ts).spec_index()) ==> r is Ok,
{
    let ghost toks = ts.spec_tokens();
    let ghost i0 = ts.spec_index();
    match kind {
        NodeParser::Id => Ok(AstNode::Id(parse_id(ts)?)),
        NodeParser::Num => match ts.peek() {
            Some(Token::Integer { value, position }) => {
                ts.next();
                proof {
                    lemma_lexemes_one(toks, i0);
                }
                let n = Num::Integer(value, (), position);
                assert(render_expression(Expression::Num(n)) == seq![Lexeme::Int(value)]);
                Ok(AstNode::Num(n))
            },
            Some(Token::FloatingPoint { value, position }) => {
                ts.next();
                proof {
                    lemma_lexemes_one(toks, i0);
                }
                let ghost digits = value@;
                let n = Num::FloatingPoint(value, (), position);
                assert(render_expression(Expression::Num(n)) == seq![Lexeme::Float(digits)]);
                Ok(AstNode::Num(n))
            },
            _ => Err(unexpected(ts, "number")),
        },
        NodeParser::Character => match ts.peek() {
            Some(Token::Character { value, position }) => {
                ts.next();
                proof {
                    lemma_lexemes_one(toks, i0);
                }
                let c = Character { character: value, position, info: () };
                assert(render_expression(Expression::Character(c)) == seq![Lexeme::Chr(value)]);
                Ok(AstNode::Character(c))
            },
            _ => Err(unexpected(ts, "character")),
        },
        NodeParser::String => match ts.peek() {
            Some(Token::String { value, position }) => {
                ts.next();
                proof {
                    lemma_lexemes_one(toks, i0);
                }
                let ghost text = value@;
                let a = AstString { value, info: (), position };
                assert(render_expression(Expression::AstString(a)) == seq![Lexeme::Str(text)]);
                Ok(AstNode::AstString(a))
            },
            _ => Err(unexpected(ts, "string")),
        },
        NodeParser::Expression => Ok(AstNode::Expression(parse_expression(ts)?)),
        NodeParser::Statement => Ok(AstNode::Statement(parse_statement(ts)?)),
        NodeParser::Initialisation => Ok(AstNode::Initialization(parse_initialisation(ts)?)),
        NodeParser::Assignment => {
            let start = ts.get_index();
            match parse_statement(ts)? {
                Statement::Assignment(a) => Ok(AstNode::Assignment(a)),
                _ => {
                    ts.set_index(start);
                    Err(unexpected(ts, "assignment"))
                },
            }
        },
        NodeParser::Function => Ok(AstNode::Function(parse_function(ts)?)),
        NodeParser::Lambda => Ok(AstNode::Lambda(parse_lambda(ts)?)),
        NodeParser::LambdaParameter => {
            let name = parse_id(ts)?;
            let position = name.position;
            Ok(AstNode::LambdaParameter(LambdaParameter { name, info: (), position }))
        },
        NodeParser::If => Ok(AstNode::If(parse_if(ts)?)),
        NodeParser::WhileLoop => Ok(AstNode::WhileLoop(parse_while(ts)?)),
        NodeParser::Block => Ok(AstNode::Block(parse_block(ts)?)),
        NodeParser::Array => Ok(AstNode::Array(parse_array(ts)?)),
        NodeParser::Parameter => {
            let name = parse_id(ts)?;
            let ghost i1 = ts.spec_index();
            expect(ts, Terminal::Colon, "colon")?;
            let ghost i2 = ts.spec_index();
            let type_annotation = parse_type_name(ts)?;
            let end = end_of_previous(ts);
            let start = name.position.start;
            let p = FunctionParameter { name, type_annotation, info: (), position: Span { start, end } };
            proof {
                lemma_lexemes_split(toks, i0, i1, i2);
                lemma_lexemes_split(toks, i0, i2, ts.spec_index());
                assert(lexemes(toks, i0, ts.spec_index()) =~= render_parameter(p));
            }
            Ok(AstNode::FunctionParameter(p))
        },
        NodeParser::TypeName => Ok(AstNode::TypeName(parse_type_name(ts)?)),
        NodeParser::Declaration => Ok(AstNode::Declaration(parse_declaration(ts)?)),
        NodeParser::Constant => Ok(AstNode::Constant(parse_constant(ts)?)),
        NodeParser::StructDeclaration => Ok(
            AstNode::StructDeclaration(parse_struct_declaration(ts)?),
        ),
        NodeParser::StructFieldDeclaration => {
            let name = parse_id(ts)?;
            let ghost i1 = ts.spec_index();
            expect(ts, Terminal::Colon, "colon")?;
            let ghost i2 = ts.spec_index();
            let type_annotation = parse_type_name(ts)?;
            let ghost i3 = ts.spec_index();
            expect(ts, Terminal::Semicolon, "semicolon")?;
            let end = end_of_previous(ts);
            let start = name.position.start;
            let f = StructFieldDeclaration {
                name,
                type_annotation,
                info: (),
                position: Span { start, end },
            };
            proof {
                lemma_lexemes_split(toks, i0, i1, i2);
                lemma_lexemes_split(toks, i0, i2, i3);
                lemma_lexemes_split(toks, i0, i3, ts.spec_index());
                assert(lexemes(toks, i0, ts.spec_index()) =~= render_field_declaration(f));
            }
            Ok(AstNode::StructFieldDeclaration(f))
        },
        NodeParser::StructInitialisation => {
            let id = parse_id(ts)?;
            let ghost i1 = ts.spec_index();
            let s = parse_struct_initialisation(ts, id)?;
            proof {
                lemma_lexemes_split(toks, i0, i1, ts.spec_index());
                assert(lexemes(toks, i0, ts.spec_index()) =~= render_expression(
                    Expression::StructInitialisation(s),
                ));
            }
            Ok(AstNode::StructInitialisation(s))
        },
        NodeParser::StructFieldInitialisation => {
            let name = parse_id(ts)?;
            let ghost i1 = ts.spec_index();
            expect(ts, Terminal::Colon, "colon")?;
            let ghost i2 = ts.spec_index();
            let value = parse_expression(ts)?;
            let end = end_of_previous(ts);
            let start = name.position.start;
            let f = StructFieldInitialisation { name, value, info: (), position: Span { start, end } };
            proof {
                lemma_lexemes_split(toks, i0, i1, i2);
                lemma_lexemes_split(toks, i0, i2, ts.spec_index());
                assert(lexemes(toks, i0, ts.spec_index()) =~= render_field_initialisation(f));
            }
            Ok(AstNode::StructFieldInitialisation(f))
        },
        NodeParser::Instance => Ok(AstNode::Instance(parse_instance(ts)?)),
        NodeParser::MethodDeclaration => Ok(
            AstNode::MethodDeclaration(parse_method_declaration(ts)?),
        ),
    }
}

} // verus!

verus! {

/// A parser combinator.
#[derive(Debug)]
pub enum Comb {
    /// Parse a non terminal symbol with the parser of its kind.
    Node { parser: NodeParser },
    /// Match a terminal.
    Terminal { token: Terminal },
    /// Match two combinators one after the other.
    Sequence { current: Box<Comb>, next: Box<Comb> },
    /// Match the left combinator, or else the right one. The left one is tried first.
    Either { left: Box<Comb>, right: Box<Comb> },
    /// Match a combinator or nothing; when the inner combinator does not match, the
    /// cursor is not moved.
    Optional { inner: Box<Comb> },
    /// Match a combinator `amount` times, or as often as it matches when there is no amount.
    Repitition { inner: Box<Comb>, amount: Option<usize> },
    /// Match a combinator as often as it matches, then `closing`.
    RepeatUntil { repeated: Box<Comb>, closing: Box<Comb> },
}

/// `cs` and `cn` cut `0..ls` and `0..ln` into `count` consecutive parts.
pub open spec fn cuts(cs: Seq<int>, cn: Seq<int>, ls: int, ln: int, count: int) -> bool {
    &&& count >= 0
    &&& cs.len() == count + 1
    &&& cn.len() == count + 1
    &&& cs[0] == 0
    &&& cn[0] == 0
    &&& cs[count] == ls
    &&& cn[count] == ln
    &&& forall|m: int| 0 <= m <= count ==> 0 <= #[trigger] cs[m] <= ls && 0 <= cn[m] <= ln
    &&& forall|m: int| 0 <= m < count ==> #[trigger] cs[m] <= cs[m + 1] && cn[m] <= cn[m + 1]
}

/// The lexemes `s` and the nodes `nodes` are what `c` accepts and produces.
pub open spec fn matches_comb(c: Comb, s: Seq<Lexeme>, nodes: Seq<AstNode>) -> bool
    decreases c,
{
    match c {
        Comb::Node { parser } => nodes.len() == 1 && spells_node(nodes[0], s) && node_of_kind(
            parser,
            nodes[0],
        ),
        Comb::Terminal { token } => s == term(token) && nodes.len() == 0,
        Comb::Sequence { current, next } => exists|i: int, j: int|
            #![trigger s.take(i), nodes.take(j)]
            0 <= i <= s.len() && 0 <= j <= nodes.len() && matches_comb(
                *current,
                s.take(i),
                nodes.take(j),
            ) && matches_comb(*next, s.skip(i), nodes.skip(j)),
        Comb::Either { left, right } => matches_comb(*left, s, nodes) || matches_comb(
            *right,
            s,
            nodes,
        ),
        Comb::Optional { inner } => matches_comb(*inner, s, nodes) || (s.len() == 0 && nodes.len()
            == 0),
        Comb::Repitition { inner, amount } => exists|cs: Seq<int>, cn: Seq<int>|
            #![trigger cuts(cs, cn, s.len() as int, nodes.len() as int, cs.len() - 1)]
            {
                &&& cuts(cs, cn, s.len() as int, nodes.len() as int, cs.len() - 1)
                &&& (amount matches Some(k) ==> cs.len() == k + 1)
                &&& forall|m: int|
                    0 <= m < cs.len() - 1 ==> #[trigger] matches_comb(
                        *inner,
                        s.subrange(cs[m], cs[m + 1]),
                        nodes.subrange(cn[m], cn[m + 1]),
                    )
            },
        Comb::RepeatUntil { repeated, closing } => exists|cs: Seq<int>, cn: Seq<int>|
            #![trigger cuts(cs, cn, cs.last(), cn.last(), cs.len() - 1)]
            {
                &&& cuts(cs, cn, cs.last(), cn.last(), cs.len() - 1)
                &&& cs.last() <= s.len()
                &&& cn.last() <= nodes.len()
                &&& forall|m: int|
                    0 <= m < cs.len() - 1 ==> #[trigger] matches_comb(
                        *repeated,
                        s.subrange(cs[m], cs[m + 1]),
                        nodes.subrange(cn[m], cn[m + 1]),
                    )
                &&& matches_comb(*closing, s.skip(cs.last()), nodes.skip(cn.last()))
            },
    }
}

/// `nodes` are the results of matching `c` on the parts of `tokens[i0..]` that the cuts give.
pub open spec fn parts_match(
    c: Comb,
    tokens: Seq<Token>,
    i0: int,
    nodes: Seq<AstNode>,
    cs: Seq<int>,
    cn: Seq<int>,
) -> bool {
    forall|m: int|
        0 <= m < cs.len() - 1 ==> #[trigger] matches_comb(
            c,
            lexemes(tokens, i0 + cs[m], i0 + cs[m + 1]),
            nodes.subrange(cn[m], cn[m + 1]),
        )
}

proof fn lemma_parts_start(c: Comb, tokens: Seq<Token>, i0: int)
    ensures
        cuts(seq![0int], seq![0int], 0, 0, 0),
        parts_match(c, tokens, i0, Seq::<AstNode>::empty(), seq![0int], seq![0int]),
{
}

proof fn lemma_parts_push(
    c: Comb,
    tokens: Seq<Token>,
    i0: int,
    mid: int,
    cur: int,
    old_nodes: Seq<AstNode>,
    new_nodes: Seq<AstNode>,
    cs: Seq<int>,
    cn: Seq<int>,
)
    requires
        0 <= i0 <= mid <= cur <= tokens.len(),
        cuts(cs, cn, mid - i0, old_nodes.len() as int, cs.len() - 1),
        parts_match(c, tokens, i0, old_nodes, cs, cn),
        matches_comb(c, lexemes(tokens, mid, cur), new_nodes),
    ensures
        cuts(
            cs.push(cur - i0),
            cn.push((old_nodes + new_nodes).len() as int),
            cur - i0,
            (old_nodes + new_nodes).len() as int,
            cs.len() as int,
        ),
        parts_match(
            c,
            tokens,
            i0,
            old_nodes + new_nodes,
            cs.push(cur - i0),
            cn.push((old_nodes + new_nodes).len() as int),
        ),
{
    let nodes = old_nodes + new_nodes;
    let cs2 = cs.push(cur - i0);
    let cn2 = cn.push(nodes.len() as int);
    let k = cs.len() - 1;
    assert forall|m: int| 0 <= m < cs2.len() - 1 implies #[trigger] matches_comb(
        c,
        lexemes(tokens, i0 + cs2[m], i0 + cs2[m + 1]),
        nodes.subrange(cn2[m], cn2[m + 1]),
    ) by {
        if m < k {
            assert(cs2[m] == cs[m] && cs2[m + 1] == cs[m + 1]);
            assert(cn2[m] == cn[m] && cn2[m + 1] == cn[m + 1]);
            assert(0 <= cn[m] <= cn[m + 1] <= old_nodes.len());
            assert(nodes.subrange(cn2[m], cn2[m + 1]) =~= old_nodes.subrange(cn[m], cn[m + 1]));
            assert(matches_comb(
                c,
                lexemes(tokens, i0 + cs[m], i0 + cs[m + 1]),
                old_nodes.subrange(cn[m], cn[m + 1]),
            ));
        } else {
            assert(m == k);
            assert(nodes.subrange(cn2[m], cn2[m + 1]) =~= new_nodes);
        }
    }
    assert forall|m: int| 0 <= m <= k + 1 implies 0 <= #[trigger] cs2[m] <= cur - i0 && 0 <= cn2[m]
        <= nodes.len() by {
        if m <= k {
            assert(cs2[m] == cs[m]);
        }
    }
    assert forall|m: int| 0 <= m < k + 1 implies #[trigger] cs2[m] <= cs2[m + 1] && cn2[m] <= cn2[
        m + 1] by {
        if m < k {
            assert(cs2[m] == cs[m]);
        }
    }
}

proof fn lemma_parts_finish(
    c: Comb,
    tokens: Seq<Token>,
    i0: int,
    cur: int,
    pre: Seq<AstNode>,
    nodes: Seq<AstNode>,
    cs: Seq<int>,
    cn: Seq<int>,
)
    requires
        0 <= i0 <= cur <= tokens.len(),
        cuts(cs, cn, cs.last(), cn.last(), cs.len() - 1),
        i0 + cs.last() <= cur,
        cn.last() <= pre.len() <= nodes.len(),
        nodes.take(pre.len() as int) == pre,
        parts_match(c, tokens, i0, pre, cs, cn),
    ensures
        forall|m: int|
            0 <= m < cs.len() - 1 ==> #[trigger] matches_comb(
                c,
                lexemes(tokens, i0, cur).subrange(cs[m], cs[m + 1]),
                nodes.subrange(cn[m], cn[m + 1]),
            ),
{
    let s = lexemes(tokens, i0, cur);
    assert forall|m: int| 0 <= m < cs.len() - 1 implies #[trigger] matches_comb(
        c,
        s.subrange(cs[m], cs[m + 1]),
        nodes.subrange(cn[m], cn[m + 1]),
    ) by {
        assert(0 <= cs[m] <= cs[m + 1] <= cs.last());
        assert(0 <= cn[m] <= cn[m + 1] <= cn.last());
        assert(s.subrange(cs[m], cs[m + 1]) =~= lexemes(tokens, i0 + cs[m], i0 + cs[m + 1]));
        assert(nodes.subrange(cn[m], cn[m + 1]) =~= pre.subrange(cn[m], cn[m + 1]));
    }
}

proof fn lemma_repitition_intro(
    inner: Comb,
    amount: Option<usize>,
    s: Seq<Lexeme>,
    nodes: Seq<AstNode>,
    cs: Seq<int>,
    cn: Seq<int>,
)
    requires
        cuts(cs, cn, s.len() as int, nodes.len() as int, cs.len() - 1),
        amount matches Some(k) ==> cs.len() == k + 1,
        forall|m: int|
            0 <= m < cs.len() - 1 ==> #[trigger] matches_comb(
                inner,
                s.subrange(cs[m], cs[m + 1]),
                nodes.subrange(cn[m], cn[m + 1]),
            ),
    ensures
        matches_comb(Comb::Repitition { inner: Box::new(inner), amount }, s, nodes),
{
    assert forall|m: int| #![trigger s.subrange(cs[m], cs[m + 1])]
        0 <= m < cs.len() - 1 implies matches_comb(
            inner,
            s.subrange(cs[m], cs[m + 1]),
            nodes.subrange(cn[m], cn[m + 1]),
        ) by {}
}

proof fn lemma_repeat_until_intro(
    repeated: Comb,
    closing: Comb,
    s: Seq<Lexeme>,
    nodes: Seq<AstNode>,
    cs: Seq<int>,
    cn: Seq<int>,
)
    requires
        cuts(cs, cn, cs.last(), cn.last(), cs.len() - 1),
        cs.last() <= s.len(),
        cn.last() <= nodes.len(),
        forall|m: int|
            0 <= m < cs.len() - 1 ==> #[trigger] matches_comb(
                repeated,
                s.subrange(cs[m], cs[m + 1]),
                nodes.subrange(cn[m], cn[m + 1]),
            ),
        matches_comb(closing, s.skip(cs.last()), nodes.skip(cn.last())),
    ensures
        matches_comb(
            Comb::RepeatUntil { repeated: Box::new(repeated), closing: Box::new(closing) },
            s,
            nodes,
        ),
{
    assert forall|m: int| #![trigger s.subrange(cs[m], cs[m + 1])]
        0 <= m < cs.len() - 1 implies matches_comb(
            repeated,
            s.subrange(cs[m], cs[m + 1]),
            nodes.subrange(cn[m], cn[m + 1]),
        ) by {}
}

/// The cursor ran over the same tokens and is still usable.
pub open spec fn kept_tokens(before: ParseState<Token>, after: ParseState<Token>) -> bool {
    &&& after.spec_tokens() == before.spec_tokens()
    &&& ready(after)
}

proof fn lemma_split_match(
    toks: Seq<Token>,
    a: int,
    b: int,
    c: int,
    n1: Seq<AstNode>,
    n2: Seq<AstNode>,
)
    requires
        0 <= a <= b <= c <= toks.len(),
    ensures
        lexemes(toks, a, c).take(b - a) == lexemes(toks, a, b),
        lexemes(toks, a, c).skip(b - a) == lexemes(toks, b, c),
        (n1 + n2).take(n1.len() as int) == n1,
        (n1 + n2).skip(n1.len() as int) == n2,
{
    assert(lexemes(toks, a, c).take(b - a) =~= lexemes(toks, a, b));
    assert(lexemes(toks, a, c).skip(b - a) =~= lexemes(toks, b, c));
    assert((n1 + n2).take(n1.len() as int) =~= n1);
    assert((n1 + n2).skip(n1.len() as int) =~= n2);
}

impl Comb {
    #[allow(non_snake_case)]
    pub fn LET() -> (c: Comb)
        ensures
            c == (Comb::Terminal { token: Terminal::Let }),
    {
        Comb::Terminal { token: Terminal::Let }
    }

    #[allow(non_snake_case)]
    pub fn CONST_KEYWORD() -> (c: Comb)
        ensures
            c == (Comb::Terminal { token: Terminal::Const }),
    {
        Comb::Terminal { token: Terminal::Const }
    }

    #[allow(non_snake_case)]
    pub fn MUT() -> (c: Comb)
        ensures
            c == (Comb::Terminal { token: Terminal::Mut }),
    {
        Comb::Terminal { token: Terminal::Mut }
    }

    #[allow(non_snake_case)]
    pub fn ASSIGN() -> (c: Comb)
        ensures
            c == (Comb::Terminal { token: Terminal::Assign }),
    {
        Comb::Terminal { token: Terminal::Assign }
    }

    #[allow(non_snake_case)]
    pub fn LPAREN() -> (c: Comb)
        ensures
            c == (Comb::Terminal { token: Terminal::LParen }),
    {
        Comb::Terminal { token: Terminal::LParen }
    }

    #[allow(non_snake_case)]
    pub fn RPAREN() -> (c: Comb)
        ensures
            c == (Comb::Terminal { token: Terminal::RParen }),
    {
        Comb::Terminal { token: Terminal::RParen }
    }

    #[allow(non_snake_case)]
    pub fn LBRACE() -> (c: Comb)
        ensures
            c == (Comb::Terminal { token: Terminal::LBrace }),
    {
        Comb::Terminal { token: Terminal::LBrace }
    }

    #[allow(non_snake_case)]
    pub fn RBRACE() -> (c: Comb)
        ensures
            c == (Comb::Terminal { token: Terminal::RBrace }),
    {
        Comb::Terminal { token: Terminal::RBrace }
    }

    #[allow(non_snake_case)]
    pub fn LBRACKET() -> (c: Comb)
        ensures
            c == (Comb::Terminal { token: Terminal::LBracket }),
    {
        Comb::Terminal { token: Terminal::LBracket }
    }

    #[allow(non_snake_case)]
    pub fn RBRACKET() -> (c: Comb)
        ensures
            c == (Comb::Terminal { token: Terminal::RBracket }),
    {
        Comb::Terminal { token: Terminal::RBracket }
    }

    #[allow(non_snake_case)]
    pub fn FN_KEYWORD() -> (c: Comb)
        ensures
            c == (Comb::Terminal { token: Terminal::FnKeyword }),
    {
        Comb::Terminal { token: Terminal::FnKeyword }
    }

    #[allow(non_snake_case)]
    pub fn IF_KEYWORD() -> (c: Comb)
        ensures
            c == (Comb::Terminal { token: Terminal::IfKeyword }),
    {
        Comb::Terminal { token: Terminal::IfKeyword }
    }

    #[allow(non_snake_case)]
    pub fn ELSE_KEYWORD() -> (c: Comb)
        ensures
            c == (Comb::Terminal { token: Terminal::ElseKeyword }),
    {
        Comb::Terminal { token: Terminal::ElseKeyword }
    }

    #[allow(non_snake_case)]
    pub fn WHILE_KEYWORD() -> (c: Comb)
        ensures
            c == (Comb::Terminal { token: Terminal::WhileKeyword }),
    {
        Comb::Terminal { token: Terminal::WhileKeyword }
    }

    #[allow(non_snake_case)]
    pub fn RETURN_KEYWORD() -> (c: Comb)
        ensures
            c == (Comb::Terminal { token: Terminal::ReturnKeyword }),
    {
        Comb::Terminal { token: Terminal::ReturnKeyword }
    }

    #[allow(non_snake_case)]
    pub fn MINUS() -> (c: Comb)
        ensures
            c == (Comb::Terminal { token: Terminal::Minus }),
    {
        Comb::Terminal { token: Terminal::Minus }
    }

    #[allow(non_snake_case)]
    pub fn EXCLAMATION_MARK() -> (c: Comb)
        ensures
            c == (Comb::Terminal { token: Terminal::ExclamationMark }),
    {
        Comb::Terminal { token: Terminal::ExclamationMark }
    }

    #[allow(non_snake_case)]
    pub fn COLON() -> (c: Comb)
        ensures
            c == (Comb::Terminal { token: Terminal::Colon }),
    {
        Comb::Terminal { token: Terminal::Colon }
    }

    #[allow(non_snake_case)]
    pub fn COMMA() -> (c: Comb)
        ensures
            c == (Comb::Terminal { token: Terminal::Comma }),
    {
        Comb::Terminal { token: Terminal::Comma }
    }

    #[allow(non_snake_case)]
    pub fn DOT() -> (c: Comb)
        ensures
            c == (Comb::Terminal { token: Terminal::Dot }),
    {
        Comb::Terminal { token: Terminal::Dot }
    }

    #[allow(non_snake_case)]
    pub fn SEMI() -> (c: Comb)
        ensures
            c == (Comb::Terminal { token: Terminal::Semicolon }),
    {
        Comb::Terminal { token: Terminal::Semicolon }
    }

    #[allow(non_snake_case)]
    pub fn SMALL_RIGHT_ARROW() -> (c: Comb)
        ensures
            c == (Comb::Terminal { token: Terminal::SmallRightArrow }),
    {
        Comb::Terminal { token: Terminal::SmallRightArrow }
    }

    #[allow(non_snake_case)]
    pub fn BIG_RIGHT_ARROW() -> (c: Comb)
        ensures
            c == (Comb::Terminal { token: Terminal::BigRightArrow }),
    {
        Comb::Terminal { token: Terminal::BigRightArrow }
    }

    #[allow(non_snake_case)]
    pub fn BACKSLASH() -> (c: Comb)
        ensures
            c == (Comb::Terminal { token: Terminal::Backslash }),
    {
        Comb::Terminal { token: Terminal::Backslash }
    }

    #[allow(non_snake_case)]
    pub fn AMPERSAND() -> (c: Comb)
        ensures
            c == (Comb::Terminal { token: Terminal::Ampersand }),
    {
        Comb::Terminal { token: Terminal::Ampersand }
    }

    #[allow(non_snake_case)]
    pub fn DECLARE_KEYWORD() -> (c: Comb)
        ensures
            c == (Comb::Terminal { token: Terminal::DeclareKeyword }),
    {
        Comb::Terminal { token: Terminal::DeclareKeyword }
    }

    #[allow(non_snake_case)]
    pub fn STRUCT_KEYWORD() -> (c: Comb)
        ensures
            c == (Comb::Terminal { token: Terminal::StructKeyword }),
    {
        Comb::Terminal { token: Terminal::StructKeyword }
    }

    #[allow(non_snake_case)]
    pub fn INSTANCE_KEYWORD() -> (c: Comb)
        ensures
            c == (Comb::Terminal { token: Terminal::InstanceKeyword }),
    {
        Comb::Terminal { token: Terminal::InstanceKeyword }
    }

    #[allow(non_snake_case)]
    pub fn ID() -> (c: Comb)
        ensures
            c == (Comb::Node { parser: NodeParser::Id }),
    {
        Comb::Node { parser: NodeParser::Id }
    }

    #[allow(non_snake_case)]
    pub fn NUM() -> (c: Comb)
        ensures
            c == (Comb::Node { parser: NodeParser::Num }),
    {
        Comb::Node { parser: NodeParser::Num }
    }

    #[allow(non_snake_case)]
    pub fn CHARACTER() -> (c: Comb)
        ensures
            c == (Comb::Node { parser: NodeParser::Character }),
    {
        Comb::Node { parser: NodeParser::Character }
    }

    #[allow(non_snake_case)]
    pub fn STRING() -> (c: Comb)
        ensures
            c == (Comb::Node { parser: NodeParser::String }),
    {
        Comb::Node { parser: NodeParser::String }
    }

    #[allow(non_snake_case)]
    pub fn EXPR() -> (c: Comb)
        ensures
            c == (Comb::Node { parser: NodeParser::Expression }),
    {
        Comb::Node { parser: NodeParser::Expression }
    }

    #[allow(non_snake_case)]
    pub fn STATEMENT() -> (c: Comb)
        ensures
            c == (Comb::Node { parser: NodeParser::Statement }),
    {
        Comb::Node { parser: NodeParser::Statement }
    }

    #[allow(non_snake_case)]
    pub fn INITIALISATION() -> (c: Comb)
        ensures
            c == (Comb::Node { parser: NodeParser::Initialisation }),
    {
        Comb::Node { parser: NodeParser::Initialisation }
    }

    #[allow(non_snake_case)]
    pub fn ASSIGNMENT() -> (c: Comb)
        ensures
            c == (Comb::Node { parser: NodeParser::Assignment }),
    {
        Comb::Node { parser: NodeParser::Assignment }
    }

    #[allow(non_snake_case)]
    pub fn FUNCTION() -> (c: Comb)
        ensures
            c == (Comb::Node { parser: NodeParser::Function }),
    {
        Comb::Node { parser: NodeParser::Function }
    }

    #[allow(non_snake_case)]
    pub fn LAMBDA() -> (c: Comb)
        ensures
            c == (Comb::Node { parser: NodeParser::Lambda }),
    {
        Comb::Node { parser: NodeParser::Lambda }
    }

    #[allow(non_snake_case)]
    pub fn LAMBDA_PARAMETER() -> (c: Comb)
        ensures
            c == (Comb::Node { parser: NodeParser::LambdaParameter }),
    {
        Comb::Node { parser: NodeParser::LambdaParameter }
    }

    #[allow(non_snake_case)]
    pub fn IF() -> (c: Comb)
        ensures
            c == (Comb::Node { parser: NodeParser::If }),
    {
        Comb::Node { parser: NodeParser::If }
    }

    #[allow(non_snake_case)]
    pub fn WHILE_LOOP() -> (c: Comb)
        ensures
            c == (Comb::Node { parser: NodeParser::WhileLoop }),
    {
        Comb::Node { parser: NodeParser::WhileLoop }
    }

    #[allow(non_snake_case)]
    pub fn BLOCK() -> (c: Comb)
        ensures
            c == (Comb::Node { parser: NodeParser::Block }),
    {
        Comb::Node { parser: NodeParser::Block }
    }

    #[allow(non_snake_case)]
    pub fn ARRAY() -> (c: Comb)
        ensures
            c == (Comb::Node { parser: NodeParser::Array }),
    {
        Comb::Node { parser: NodeParser::Array }
    }

    #[allow(non_snake_case)]
    pub fn PARAMETER() -> (c: Comb)
        ensures
            c == (Comb::Node { parser: NodeParser::Parameter }),
    {
        Comb::Node { parser: NodeParser::Parameter }
    }

    #[allow(non_snake_case)]
    pub fn TYPE_NAME() -> (c: Comb)
        ensures
            c == (Comb::Node { parser: NodeParser::TypeName }),
    {
        Comb::Node { parser: NodeParser::TypeName }
    }

    #[allow(non_snake_case)]
    pub fn DECLARATION() -> (c: Comb)
        ensures
            c == (Comb::Node { parser: NodeParser::Declaration }),
    {
        Comb::Node { parser: NodeParser::Declaration }
    }

    #[allow(non_snake_case)]
    pub fn CONSTANT() -> (c: Comb)
        ensures
            c == (Comb::Node { parser: NodeParser::Constant }),
    {
        Comb::Node { parser: NodeParser::Constant }
    }

    #[allow(non_snake_case)]
    pub fn STRUCT_DECLARATION() -> (c: Comb)
        ensures
            c == (Comb::Node { parser: NodeParser::StructDeclaration }),
    {
        Comb::Node { parser: NodeParser::StructDeclaration }
    }

    #[allow(non_snake_case)]
    pub fn STRUCT_FIELD_DECLARATION() -> (c: Comb)
        ensures
            c == (Comb::Node { parser: NodeParser::StructFieldDeclaration, }),
    {
        Comb::Node { parser: NodeParser::StructFieldDeclaration, }
    }

    #[allow(non_snake_case)]
    pub fn STRUCT_INITILISATION() -> (c: Comb)
        ensures
            c == (Comb::Node { parser: NodeParser::StructInitialisation }),
    {
        Comb::Node { parser: NodeParser::StructInitialisation }
    }

    #[allow(non_snake_case)]
    pub fn STRUCT_FIELD_INITIALISATION() -> (c: Comb)
        ensures
            c == (Comb::Node { parser: NodeParser::StructFieldInitialisation, }),
    {
        Comb::Node { parser: NodeParser::StructFieldInitialisation, }
    }

    #[allow(non_snake_case)]
    pub fn INSTANCE() -> (c: Comb)
        ensures
            c == (Comb::Node { parser: NodeParser::Instance }),
    {
        Comb::Node { parser: NodeParser::Instance }
    }

    #[allow(non_snake_case)]
    pub fn METHOD_DECLARATION() -> (c: Comb)
        ensures
            c == (Comb::Node { parser: NodeParser::MethodDeclaration }),
    {
        Comb::Node { parser: NodeParser::MethodDeclaration }
    }

    /// Parse with this combinator. On success the consumed tokens and the produced nodes are
    /// what the combinator accepts and produces. A cursor past the end of the tokens parses as
    /// one at their end, and stays where it is.
    pub fn parse(&self, tokens: &mut ParseState<Token>) -> (r: Result<Vec<AstNode>, ParseError>)
        requires
            old(tokens).spec_tokens().len() < usize::MAX,
        ensures
            final(tokens).spec_tokens() == old(tokens).spec_tokens(),
            old(tokens).spec_index() <= old(tokens).spec_tokens().len() ==> kept_tokens(*old(tokens), *final(tokens)),
            old(tokens).spec_index() > old(tokens).spec_tokens().len() ==> final(tokens).spec_index() == old(tokens).spec_index(),
            r is Ok ==> old(tokens).spec_index() <= final(tokens).spec_index(),
            old(tokens).spec_index() <= old(tokens).spec_tokens().len() ==> (r matches Ok(nodes) ==> matches_comb(
                *self,
                consumed(*old(tokens), *final(tokens)),
                nodes@,
            )),
            old(tokens).spec_index() > old(tokens).spec_tokens().len() ==> (r matches Ok(nodes) ==> matches_comb(*self, Seq::empty(), nodes@)),
            *self matches Comb::Terminal { token } ==> (r is Ok <==> (old(tokens).spec_index() < old(tokens).spec_tokens().len() && old(tokens).spec_tokens()[old(tokens).spec_index()].lexeme()
                == Lexeme::Term(token))),
            self is Optional ==> r is Ok,
            *self matches Comb::Optional { inner } ==> (r matches Ok(v) && ((v@.len() == 0
                && final(tokens).spec_index() == old(tokens).spec_index() && final(tokens).spec_errors()
                == old(tokens).spec_errors()) || old(tokens).spec_errors().is_prefix_of(
                final(tokens).spec_errors(),
            ))),
            *self matches Comb::Optional { inner } ==> (comb_outcome(*inner, old(tokens).spec_tokens(), (if old(tokens).spec_index() <= old(tokens).spec_tokens().len() { old(tokens).spec_index() } else { old(tokens).spec_tokens().len() as int })) is Fail ==> (r
                matches Ok(v) && v@.len() == 0 && final(tokens).spec_index() == old(tokens).spec_index()
                && final(tokens).spec_errors() == old(tokens).spec_errors())),
            records_no_errors(*self) ==> final(tokens).spec_errors() == old(tokens).spec_errors(),
            *self matches Comb::RepeatUntil { repeated, closing } ==> (records_no_errors(*repeated)
                && records_no_errors(*closing) ==> (r is Ok ==> final(tokens).spec_errors() == old(
                tokens,
            ).spec_errors()) && (r is Err ==> final(tokens).spec_errors().len() == old(
                tokens,
            ).spec_errors().len() + 1)),
            *self matches Comb::Repitition { amount: None, .. } ==> r is Ok,
            comb_outcome(*self, old(tokens).spec_tokens(), (if old(tokens).spec_index() <= old(tokens).spec_tokens().len() { old(tokens).spec_index() } else { old(tokens).spec_tokens().len() as int })) matches ParseOutcome::Done(j, ns) ==> (r matches Ok(v) && v@
                == ns && final(tokens).spec_index() == (if old(tokens).spec_index() <= old(tokens).spec_tokens().len() { j } else { old(tokens).spec_index() })),
            comb_outcome(*self, old(tokens).spec_tokens(), (if old(tokens).spec_index() <= old(tokens).spec_tokens().len() { old(tokens).spec_index() } else { old(tokens).spec_tokens().len() as int })) matches ParseOutcome::Fail(j) ==> (r is Err
                && final(tokens).spec_index() == (if old(tokens).spec_index() <= old(tokens).spec_tokens().len() { j } else { old(tokens).spec_index() })),
            *self matches Comb::Terminal { token } ==> (old(tokens).spec_index() < old(tokens).spec_tokens().len() ==> (old(tokens).spec_tokens()[old(tokens).spec_index()].lexeme()
                != Lexeme::Term(token) ==> (r matches Err(e) && e.message@ == "Unexpected "@
                + token_debug_text(old(tokens).spec_tokens()[old(tokens).spec_index()]) + " while trying to parse "@ + terminal_debug_text(token)
                && e.position == Some(old(tokens).spec_tokens()[old(tokens).spec_index()].spec_position())))),
            self is Terminal && old(tokens).spec_index() >= old(tokens).spec_tokens().len() ==> (r matches Err(e) && e.message@
                == "Unexpected EOF!"@ && e.position == if old(tokens).spec_tokens().len() > 0 {
                Some(old(tokens).spec_tokens().last().spec_position())
            } else {
                None
            }),
    {
        if tokens.get_index() > tokens.token_count() {
            let index = tokens.get_index();
            let end = tokens.token_count();
            tokens.set_index(end);
            let ghost mid = *tokens;
            let r = self.parse_from(tokens);
            proof {
                if r is Ok {
                    assert(tokens.spec_index() == end);
                    assert(consumed(mid, *tokens) =~= Seq::<Lexeme>::empty());
                }
            }
            tokens.set_index(index);
            r
        } else {
            self.parse_from(tokens)
        }
    }

    /// Parse with this combinator from a cursor inside its tokens or at their end.
    #[verifier::loop_isolation(false)]
    #[verifier::spinoff_prover]
    #[verifier::rlimit(100)]
    fn parse_from(&self, tokens: &mut ParseState<Token>) -> (r: Result<Vec<AstNode>, ParseError>)
        requires
            ready(*old(tokens)),
        ensures
            kept_tokens(*old(tokens), *final(tokens)),
            r is Ok ==> old(tokens).spec_index() <= final(tokens).spec_index(),
            r matches Ok(nodes) ==> matches_comb(*self, consumed(*old(tokens), *final(tokens)), nodes@),
            *self matches Comb::Terminal { token } ==> (r is Ok <==> (old(tokens).spec_index()
                < old(tokens).spec_tokens().len() && old(tokens).spec_tokens()[old(
                tokens,
            ).spec_index()].lexeme() == Lexeme::Term(token))),
            self is Optional ==> r is Ok,
            *self matches Comb::Optional { inner } ==> (r matches Ok(v) && ((v@.len() == 0
                && final(tokens).spec_index() == old(tokens).spec_index() && final(tokens).spec_errors()
                == old(tokens).spec_errors()) || old(tokens).spec_errors().is_prefix_of(
                final(tokens).spec_errors(),
            ))),
            *self matches Comb::Optional { inner } ==> (comb_outcome(*inner, old(tokens).spec_tokens(), (if old(tokens).spec_index() <= old(tokens).spec_tokens().len() { old(tokens).spec_index() } else { old(tokens).spec_tokens().len() as int })) is Fail ==> (r
                matches Ok(v) && v@.len() == 0 && final(tokens).spec_index() == old(tokens).spec_index()
                && final(tokens).spec_errors() == old(tokens).spec_errors())),
            records_no_errors(*self) ==> final(tokens).spec_errors() == old(tokens).spec_errors(),
            *self matches Comb::RepeatUntil { repeated, closing } ==> (records_no_errors(*repeated)
                && records_no_errors(*closing) ==> (r is Ok ==> final(tokens).spec_errors() == old(
                tokens,
            ).spec_errors()) && (r is Err ==> final(tokens).spec_errors().len() == old(
                tokens,
            ).spec_errors().len() + 1)),
            *self matches Comb::Repitition { amount: None, .. } ==> r is Ok,
            comb_outcome(*self, old(tokens).spec_tokens(), old(tokens).spec_index()) matches ParseOutcome::Done(
                j,
                ns,
            ) ==> (r matches Ok(v) && v@ == ns && final(tokens).spec_index() == j),
            comb_outcome(*self, old(tokens).spec_tokens(), old(tokens).spec_index()) matches ParseOutcome::Fail(
                j,
            ) ==> (r is Err && final(tokens).spec_index() == j),
            *self matches Comb::Terminal { token } ==> (old(tokens).spec_index() < old(
                tokens,
            ).spec_tokens().len() ==> (old(tokens).spec_tokens()[old(tokens).spec_index()].lexeme()
                != Lexeme::Term(token) ==> (r matches Err(e) && e.message@ == "Unexpected "@
                + token_debug_text(old(tokens).spec_tokens()[old(tokens).spec_index()])
                + " while trying to parse "@ + terminal_debug_text(token) && e.position == Some(
                old(tokens).spec_tokens()[old(tokens).spec_index()].spec_position(),
            )))),
            self is Terminal && old(tokens).spec_index() >= old(tokens).spec_tokens().len() ==> (
            r matches Err(e) && e.message@ == "Unexpected EOF!"@ && e.position == if old(
                tokens,
            ).spec_tokens().len() > 0 {
                Some(old(tokens).spec_tokens().last().spec_position())
            } else {
                None
            }),
        decreases self,
    {
        let ghost toks = tokens.spec_tokens();
        let ghost i0 = tokens.spec_index();
        let mut matched: Vec<AstNode> = Vec::new();
        match self {
            Comb::Terminal { token } => {
                let t = match tokens.next() {
                    Some(t) => t,
                    None => {
                        let position = match tokens.last_token() {
                            Some(last) => Some(last.position()),
                            None => None,
                        };
                        return Err(ParseError { message: String::from_str("Unexpected EOF!"), position });
                    },
                };
                if !t.is_terminal(*token) {
                    let message = String::from_str("Unexpected ").concat(debug_token(&t).as_str()).concat(
                        " while trying to parse ",
                    ).concat(debug_terminal(token).as_str());
                    return Err(ParseError { message, position: Some(t.position()) });
                }
                proof {
                    lemma_lexemes_one(toks, i0);
                    assert(matched@ =~= Seq::<AstNode>::empty());
                }
            },
            Comb::Sequence { current, next } => {
                let mut current_matches = current.parse_from(tokens)?;
                let ghost i1 = tokens.spec_index();
                let ghost n1 = current_matches@;
                matched.append(&mut current_matches);
                let mut next_matches = next.parse_from(tokens)?;
                let ghost n2 = next_matches@;
                matched.append(&mut next_matches);
                proof {
                    assert(matched@ =~= n1 + n2);
                    lemma_split_match(toks, i0, i1, tokens.spec_index(), n1, n2);
                    let s = lexemes(toks, i0, tokens.spec_index());
                    let i = i1 - i0;
                    let j = n1.len() as int;
                    assert(0 <= i <= s.len() && 0 <= j <= matched@.len());
                    assert(matches_comb(**current, s.take(i), matched@.take(j)));
                    assert(matches_comb(**next, s.skip(i), matched@.skip(j)));
                    assert(matches_comb(*self, s, matched@));
                }
            },
            Comb::Either { left, right } => {
                let current_index = tokens.get_index();
                match left.parse_from(tokens) {
                    Ok(mut left_matches) => {
                        let ghost l = left_matches@;
                        matched.append(&mut left_matches);
                        assert(matched@ =~= l);
                    },
                    Err(_) => {
                        tokens.set_index(current_index);
                        let mut right_matches = right.parse_from(tokens)?;
                        let ghost rm = right_matches@;
                        matched.append(&mut right_matches);
                        assert(matched@ =~= rm);
                    },
                }
            },
            Comb::Node { parser } => {
                let node = parse_node(*parser, tokens)?;
                matched.push(node);
                proof {
                    assert(matched@ =~= seq![node]);
                }
            },
            Comb::Optional { inner } => {
                let current_index = tokens.get_index();
                let mut saved = tokens.take_errors();
                match inner.parse_from(tokens) {
                    Ok(mut result) => {
                        let ghost rm = result@;
                        matched.append(&mut result);
                        assert(matched@ =~= rm);
                        let mut added = tokens.take_errors();
                        let ghost a = added@;
                        saved.append(&mut added);
                        tokens.restore_errors(saved);
                        proof {
                            if records_no_errors(**inner) {
                                assert(a =~= Seq::<ParseError>::empty());
                                assert(tokens.spec_errors() =~= old(tokens).spec_errors());
                            }
                        }
                    },
                    Err(_) => {
                        tokens.set_index(current_index);
                        tokens.restore_errors(saved);
                        proof {
                            lemma_lexemes_empty(toks, i0);
                            assert(matched@ =~= Seq::<AstNode>::empty());
                        }
                    },
                }
            },
            Comb::Repitition { inner, amount } => {
                let ghost mut cs: Seq<int> = seq![0int];
                let ghost mut cn: Seq<int> = seq![0int];
                proof {
                    lemma_lexemes_empty(toks, i0);
                    lemma_parts_start(**inner, toks, i0);
                }
                match amount {
                    Some(amount) => {
                        let mut k: usize = 0;
                        let ghost o0 = repeated_outcome(**inner, toks, i0, *amount as nat);
                        proof {
                            assert(matched@ =~= Seq::<AstNode>::empty());
                            assert(after_nodes(matched@, o0) == o0);
                        }
                        while k < *amount
                            invariant
                                !(o0 is Open) ==> o0 == after_nodes(
                                    matched@,
                                    repeated_outcome(**inner, toks, tokens.spec_index(), (*amount - k) as nat),
                                ),
                                kept_tokens(*old(tokens), *tokens),
                                records_no_errors(**inner) ==> tokens.spec_errors() == old(tokens).spec_errors(),
                                toks == old(tokens).spec_tokens(),
                                i0 == old(tokens).spec_index(),
                                i0 <= tokens.spec_index(),
                                k <= *amount,
                                cuts(cs, cn, tokens.spec_index() - i0, matched@.len() as int, k as int),
                                parts_match(**inner, toks, i0, matched@, cs, cn),
                            decreases *amount - k,
                        {
                            let ghost i1 = tokens.spec_index();
                            let ghost n1 = matched@;
                            let mut result = inner.parse_from(tokens)?;
                            let ghost n2 = result@;
                            matched.append(&mut result);
                            proof {
                                lemma_after_nodes_twice(n1, n2, repeated_outcome(**inner, toks, tokens.spec_index(), (*amount - k - 1) as nat));
                                assert(matched@ =~= n1 + n2);
                                lemma_parts_push(**inner, toks, i0, i1, tokens.spec_index(), n1, n2, cs, cn);
                                cs = cs.push(tokens.spec_index() - i0);
                                cn = cn.push(matched@.len() as int);
                            }
                            k = k + 1;
                        }
                        proof {
                            let s = lexemes(toks, i0, tokens.spec_index());
                            assert(cs.last() == tokens.spec_index() - i0);
                            assert(matched@.take(matched@.len() as int) =~= matched@);
                            lemma_parts_finish(**inner, toks, i0, tokens.spec_index(), matched@, matched@, cs, cn);
                            assert(cuts(cs, cn, s.len() as int, matched@.len() as int, cs.len() - 1));
                            lemma_repitition_intro(**inner, Some(*amount), s, matched@, cs, cn);
                            assert(matches_comb(*self, s, matched@));
                        }
                    },
                    None => {
                        let ghost o0 = repeated_while_outcome(**inner, toks, i0);
                        proof {
                            assert(matched@ =~= Seq::<AstNode>::empty());
                            assert(after_nodes(matched@, o0) == o0);
                        }
                        loop
                            invariant
                                !(o0 is Open) ==> o0 == after_nodes(
                                    matched@,
                                    repeated_while_outcome(**inner, toks, tokens.spec_index()),
                                ),
                                kept_tokens(*old(tokens), *tokens),
                                records_no_errors(**inner) ==> tokens.spec_errors() == old(tokens).spec_errors(),
                                toks == old(tokens).spec_tokens(),
                                i0 == old(tokens).spec_index(),
                                i0 <= tokens.spec_index(),
                                cuts(cs, cn, tokens.spec_index() - i0, matched@.len() as int, cs.len() - 1),
                                parts_match(**inner, toks, i0, matched@, cs, cn),
                            decreases tokens.spec_tokens().len() - tokens.spec_index(),
                        {
                            let current_index = tokens.get_index();
                            let ghost n1 = matched@;
                            match inner.parse_from(tokens) {
                                Ok(mut result) => {
                                    let ghost n2 = result@;
                                    matched.append(&mut result);
                                    proof {
                                        lemma_after_nodes_twice(n1, n2, repeated_while_outcome(**inner, toks, tokens.spec_index()));
                                        assert(matched@ =~= n1 + n2);
                                        lemma_parts_push(**inner, toks, i0, current_index as int, tokens.spec_index(), n1, n2, cs, cn);
                                        cs = cs.push(tokens.spec_index() - i0);
                                        cn = cn.push(matched@.len() as int);
                                    }
                                    if tokens.get_index() <= current_index {
                                        break ;
                                    }
                                },
                                Err(_) => {
                                    tokens.set_index(current_index);
                                    break ;
                                },
                            }
                        }
                        proof {
                            let s = lexemes(toks, i0, tokens.spec_index());
                            assert(cs.last() == tokens.spec_index() - i0);
                            assert(matched@.take(matched@.len() as int) =~= matched@);
                            lemma_parts_finish(**inner, toks, i0, tokens.spec_index(), matched@, matched@, cs, cn);
                            assert(cuts(cs, cn, s.len() as int, matched@.len() as int, cs.len() - 1));
                            lemma_repitition_intro(**inner, None, s, matched@, cs, cn);
                            assert(matches_comb(*self, s, matched@));
                        }
                    },
                }
            },
            Comb::RepeatUntil { repeated, closing } => {
                let ghost mut cs: Seq<int> = seq![0int];
                let ghost mut cn: Seq<int> = seq![0int];
                proof {
                    lemma_lexemes_empty(toks, i0);
                    lemma_parts_start(**repeated, toks, i0);
                }
                let ghost o0 = repeated_while_outcome(**repeated, toks, i0);
                proof {
                    assert(matched@ =~= Seq::<AstNode>::empty());
                    assert(after_nodes(matched@, o0) == o0);
                }
                loop
                    invariant
                        !(o0 is Open) ==> o0 == after_nodes(
                            matched@,
                            repeated_while_outcome(**repeated, toks, tokens.spec_index()),
                        ),
                        kept_tokens(*old(tokens), *tokens),
                        records_no_errors(**repeated) ==> tokens.spec_errors() == old(tokens).spec_errors(),
                        toks == old(tokens).spec_tokens(),
                        i0 == old(tokens).spec_index(),
                        i0 <= tokens.spec_index(),
                        cuts(cs, cn, tokens.spec_index() - i0, matched@.len() as int, cs.len() - 1),
                        parts_match(**repeated, toks, i0, matched@, cs, cn),
                    decreases tokens.spec_tokens().len() - tokens.spec_index(),
                {
                    let current_index = tokens.get_index();
                    let ghost n1 = matched@;
                    match repeated.parse_from(tokens) {
                        Ok(mut result) => {
                            let ghost n2 = result@;
                            matched.append(&mut result);
                            proof {
                                lemma_after_nodes_twice(n1, n2, repeated_while_outcome(**repeated, toks, tokens.spec_index()));
                                assert(matched@ =~= n1 + n2);
                                lemma_parts_push(**repeated, toks, i0, current_index as int, tokens.spec_index(), n1, n2, cs, cn);
                                cs = cs.push(tokens.spec_index() - i0);
                                cn = cn.push(matched@.len() as int);
                            }
                            if tokens.get_index() <= current_index {
                                break ;
                            }
                        },
                        Err(_) => {
                            tokens.set_index(current_index);
                            break ;
                        },
                    }
                }
                let ghost i1 = tokens.spec_index();
                let ghost n1 = matched@;
                let mut result = match closing.parse_from(tokens) {
                    Ok(result) => result,
                    Err(e) => {
                        tokens.add_error(e.clone());
                        return Err(e);
                    },
                };
                let ghost n2 = result@;
                matched.append(&mut result);
                proof {
                    lemma_after_nodes_twice(n1, n2, ParseOutcome::Done(tokens.spec_index(), Seq::empty()));
                    assert(n2 + Seq::<AstNode>::empty() =~= n2);
                    assert(matched@ + Seq::<AstNode>::empty() =~= matched@);
                    assert(matched@ =~= n1 + n2);
                    lemma_split_match(toks, i0, i1, tokens.spec_index(), n1, n2);
                    let s = lexemes(toks, i0, tokens.spec_index());
                    assert(cs.last() == i1 - i0);
                    assert(cn.last() == n1.len());
                    lemma_parts_finish(**repeated, toks, i0, tokens.spec_index(), n1, matched@, cs, cn);
                    assert(s.skip(cs.last()) == lexemes(toks, i1, tokens.spec_index()));
                    assert(matched@.skip(cn.last()) == n2);
                    assert(matches_comb(**closing, s.skip(cs.last()), matched@.skip(cn.last())));
                    lemma_repeat_until_intro(**repeated, **closing, s, matched@, cs, cn);
                }
            },
        }
        Ok(matched)
    }
}

} // verus!

verus! {

impl Clone for Comb {
    fn clone(&self) -> (r: Self)
        ensures
            r == *self,
        decreases self,
    {
        match self {
            Comb::Node { parser } => Comb::Node { parser: *parser },
            Comb::Terminal { token } => Comb::Terminal { token: *token },
            Comb::Sequence { current, next } => Comb::Sequence {
                current: Box::new((**current).clone()),
                next: Box::new((**next).clone()),
            },
            Comb::Either { left, right } => Comb::Either {
                left: Box::new((**left).clone()),
                right: Box::new((**right).clone()),
            },
            Comb::Optional { inner } => Comb::Optional { inner: Box::new((**inner).clone()) },
            Comb::Repitition { inner, amount } => Comb::Repitition {
                inner: Box::new((**inner).clone()),
                amount: *amount,
            },
            Comb::RepeatUntil { repeated, closing } => Comb::RepeatUntil {
                repeated: Box::new((**repeated).clone()),
                closing: Box::new((**closing).clone()),
            },
        }
    }
}

/// Two combinators are equal when they are built alike from equal terminals. A combinator
/// that hands over to a node parser, or that repeats until a closing combinator, is equal to
/// no combinator, itself included.
pub open spec fn comb_eq(a: Comb, b: Comb) -> bool
    decreases a,
{
    match a {
        Comb::Terminal { token: l } => match b {
            Comb::Terminal { token: r } => l == r,
            _ => false,
        },
        Comb::Sequence { current: lc, next: ln } => match b {
            Comb::Sequence { current: rc, next: rn } => comb_eq(*lc, *rc) && comb_eq(*ln, *rn),
            _ => false,
        },
        Comb::Either { left: ll, right: lr } => match b {
            Comb::Either { left: rl, right: rr } => comb_eq(*ll, *rl) && comb_eq(*lr, *rr),
            _ => false,
        },
        Comb::Optional { inner: li } => match b {
            Comb::Optional { inner: ri } => comb_eq(*li, *ri),
            _ => false,
        },
        Comb::Repitition { inner: li, amount: la } => match b {
            Comb::Repitition { inner: ri, amount: ra } => comb_eq(*li, *ri) && la == ra,
            _ => false,
        },
        _ => false,
    }
}

fn comb_equals(a: &Comb, b: &Comb) -> (r: bool)
    ensures
        r == comb_eq(*a, *b),
    decreases a,
{
    match (a, b) {
        (Comb::Terminal { token: l }, Comb::Terminal { token: r }) => *l == *r,
        (Comb::Sequence { current: lc, next: ln }, Comb::Sequence { current: rc, next: rn }) => {
            comb_equals(&**lc, &**rc) && comb_equals(&**ln, &**rn)
        },
        (Comb::Either { left: ll, right: lr }, Comb::Either { left: rl, right: rr }) => {
            comb_equals(&**ll, &**rl) && comb_equals(&**lr, &**rr)
        },
        (Comb::Optional { inner: li }, Comb::Optional { inner: ri }) => comb_equals(&**li, &**ri),
        (
            Comb::Repitition { inner: li, amount: la },
            Comb::Repitition { inner: ri, amount: ra },
        ) => {
            let same_amount = match (la, ra) {
                (Some(x), Some(y)) => *x == *y,
                (None, None) => true,
                _ => false,
            };
            same_amount && comb_equals(&**li, &**ri)
        },
        _ => false,
    }
}

impl PartialEq for Comb {
    fn eq(&self, other: &Self) -> (r: bool) {
        comb_equals(self, other)
    }
}

impl vstd::std_specs::cmp::PartialEqSpecImpl for Comb {
    open spec fn obeys_eq_spec() -> bool {
        true
    }

    open spec fn eq_spec(&self, other: &Self) -> bool {
        comb_eq(*self, *other)
    }
}

/// `a >> b` matches `a`, then `b`.
impl std::ops::Shr for Comb {
    type Output = Comb;

    fn shr(self, rhs: Comb) -> (r: Comb) {
        Comb::Sequence { current: Box::new(self), next: Box::new(rhs) }
    }
}

impl vstd::std_specs::ops::ShrSpecImpl for Comb {
    open spec fn obeys_shr_spec() -> bool {
        true
    }

    open spec fn shr_req(self, rhs: Comb) -> bool {
        true
    }

    open spec fn shr_spec(self, rhs: Comb) -> Comb {
        Comb::Sequence { current: Box::new(self), next: Box::new(rhs) }
    }
}

/// `a | b` matches `a`, or else `b`.
impl std::ops::BitOr for Comb {
    type Output = Comb;

    fn bitor(self, rhs: Comb) -> (r: Comb) {
        Comb::Either { left: Box::new(self), right: Box::new(rhs) }
    }
}

impl vstd::std_specs::ops::BitOrSpecImpl for Comb {
    open spec fn obeys_bitor_spec() -> bool {
        true
    }

    open spec fn bitor_req(self, rhs: Comb) -> bool {
        true
    }

    open spec fn bitor_spec(self, rhs: Comb) -> Comb {
        Comb::Either { left: Box::new(self), right: Box::new(rhs) }
    }
}

/// `!a` matches `a` or nothing.
impl std::ops::Not for Comb {
    type Output = Comb;

    fn not(self) -> (r: Comb) {
        Comb::Optional { inner: Box::new(self) }
    }
}

impl vstd::std_specs::ops::NotSpecImpl for Comb {
    open spec fn obeys_not_spec() -> bool {
        true
    }

    open spec fn not_req(self) -> bool {
        true
    }

    open spec fn not_spec(self) -> Comb {
        Comb::Optional { inner: Box::new(self) }
    }
}

/// `a ^ ()` matches `a` as often as it matches.
impl std::ops::BitXor<()> for Comb {
    type Output = Comb;

    fn bitxor(self, rhs: ()) -> (r: Comb) {
        Comb::Repitition { inner: Box::new(self), amount: None }
    }
}

impl vstd::std_specs::ops::BitXorSpecImpl<()> for Comb {
    open spec fn obeys_bitxor_spec() -> bool {
        true
    }

    open spec fn bitxor_req(self, rhs: ()) -> bool {
        true
    }

    open spec fn bitxor_spec(self, rhs: ()) -> Comb {
        Comb::Repitition { inner: Box::new(self), amount: None }
    }
}

/// `a ^ n` matches `a` exactly `n` times.
impl std::ops::BitXor<usize> for Comb {
    type Output = Comb;

    fn bitxor(self, rhs: usize) -> (r: Comb) {
        Comb::Repitition { inner: Box::new(self), amount: Some(rhs) }
    }
}

impl vstd::std_specs::ops::BitXorSpecImpl<usize> for Comb {
    open spec fn obeys_bitxor_spec() -> bool {
        true
    }

    open spec fn bitxor_req(self, rhs: usize) -> bool {
        true
    }

    open spec fn bitxor_spec(self, rhs: usize) -> Comb {
        Comb::Repitition { inner: Box::new(self), amount: Some(rhs) }
    }
}

/// `a ^ b` matches `a` as often as it matches, then `b`.
impl std::ops::BitXor<Comb> for Comb {
    type Output = Comb;

    fn bitxor(self, rhs: Comb) -> (r: Comb) {
        Comb::RepeatUntil { repeated: Box::new(self), closing: Box::new(rhs) }
    }
}

impl vstd::std_specs::ops::BitXorSpecImpl<Comb> for Comb {
    open spec fn obeys_bitxor_spec() -> bool {
        true
    }

    open spec fn bitxor_req(self, rhs: Comb) -> bool {
        true
    }

    open spec fn bitxor_spec(self, rhs: Comb) -> Comb {
        Comb::RepeatUntil { repeated: Box::new(self), closing: Box::new(rhs) }
    }
}

/// `a % b`: an optional list of `a`, separated by `b`.
impl std::ops::Rem for Comb {
    type Output = Comb;

    fn rem(self, rhs: Comb) -> (r: Comb) {
        let first = self.clone();
        let rest = Comb::Repitition {
            inner: Box::new(Comb::Sequence { current: Box::new(rhs), next: Box::new(self) }),
            amount: None,
        };
        Comb::Optional {
            inner: Box::new(Comb::Sequence { current: Box::new(first), next: Box::new(rest) }),
        }
    }
}

impl vstd::std_specs::ops::RemSpecImpl for Comb {
    open spec fn obeys_rem_spec() -> bool {
        true
    }

    open spec fn rem_req(self, rhs: Comb) -> bool {
        true
    }

    open spec fn rem_spec(self, rhs: Comb) -> Comb {
        Comb::Optional {
            inner: Box::new(
                Comb::Sequence {
                    current: Box::new(self),
                    next: Box::new(
                        Comb::Repitition {
                            inner: Box::new(Comb::Sequence { current: Box::new(rhs), next: Box::new(self) }),
                            amount: None,
                        },
                    ),
                },
            ),
        }
    }
}

} // verus!
