//! Direct parsing utilities: terminals, options, separated lists and repetitions.
use vstd::prelude::*;
use vstd::string::StringExecFns;

use crate::lexer::{Lexeme, Terminal, Token};
use crate::parser::{ParseError, ParseState};

verus! {

/// Simple parsing utilities over a token cursor.
pub struct DirectParser;

/// The text that the `Debug` rendering `derive` writes for `Token` gives for a token.
pub uninterp spec fn token_debug_text(t: Token) -> Seq<char>;

/// The debug rendering of a token, for error messages: std's `format!` with the `Debug`
/// rendering that `derive` writes for `Token`. The text is a function of the token alone,
/// named `token_debug_text`; nothing more is claimed of it.
#[verifier::external_body]
pub(crate) fn debug_token(token: &Token) -> (s: String)
    ensures
        s@ == token_debug_text(*token),
{
    format!("{:?}", token)
}

/// The text of a terminal as the `Debug` rendering that `derive` writes for it: a terminal
/// has no fields, so the text is the name of its variant.
pub open spec fn terminal_debug_text(t: Terminal) -> Seq<char> {
    match t {
        Terminal::Let => "Let"@,
        Terminal::Const => "Const"@,
        Terminal::Mut => "Mut"@,
        Terminal::FnKeyword => "FnKeyword"@,
        Terminal::IfKeyword => "IfKeyword"@,
        Terminal::ElseKeyword => "ElseKeyword"@,
        Terminal::WhileKeyword => "WhileKeyword"@,
        Terminal::ReturnKeyword => "ReturnKeyword"@,
        Terminal::DeclareKeyword => "DeclareKeyword"@,
        Terminal::StructKeyword => "StructKeyword"@,
        Terminal::InstanceKeyword => "InstanceKeyword"@,
        Terminal::TrueKeyword => "TrueKeyword"@,
        Terminal::FalseKeyword => "FalseKeyword"@,
        Terminal::Assign => "Assign"@,
        Terminal::Equal => "Equal"@,
        Terminal::LParen => "LParen"@,
        Terminal::RParen => "RParen"@,
        Terminal::LBrace => "LBrace"@,
        Terminal::RBrace => "RBrace"@,
        Terminal::LBracket => "LBracket"@,
        Terminal::RBracket => "RBracket"@,
        Terminal::Minus => "Minus"@,
        Terminal::Plus => "Plus"@,
        Terminal::Times => "Times"@,
        Terminal::Slash => "Slash"@,
        Terminal::ExclamationMark => "ExclamationMark"@,
        Terminal::Colon => "Colon"@,
        Terminal::Comma => "Comma"@,
        Terminal::Dot => "Dot"@,
        Terminal::Semicolon => "Semicolon"@,
        Terminal::SmallRightArrow => "SmallRightArrow"@,
        Terminal::BigRightArrow => "BigRightArrow"@,
        Terminal::Backslash => "Backslash"@,
        Terminal::Ampersand => "Ampersand"@,
        Terminal::GreaterThan => "GreaterThan"@,
        Terminal::LessThan => "LessThan"@,
        Terminal::GreaterOrEqual => "GreaterOrEqual"@,
        Terminal::LessOrEqual => "LessOrEqual"@,
    }
}

/// The debug rendering of a terminal, for error messages.
pub(crate) fn debug_terminal(t: &Terminal) -> (s: String)
    ensures
        s@ == terminal_debug_text(*t),
{
    match t {
        Terminal::Let => String::from_str("Let"),
        Terminal::Const => String::from_str("Const"),
        Terminal::Mut => String::from_str("Mut"),
        Terminal::FnKeyword => String::from_str("FnKeyword"),
        Terminal::IfKeyword => String::from_str("IfKeyword"),
        Terminal::ElseKeyword => String::from_str("ElseKeyword"),
        Terminal::WhileKeyword => String::from_str("WhileKeyword"),
        Terminal::ReturnKeyword => String::from_str("ReturnKeyword"),
        Terminal::DeclareKeyword => String::from_str("DeclareKeyword"),
        Terminal::StructKeyword => String::from_str("StructKeyword"),
        Terminal::InstanceKeyword => String::from_str("InstanceKeyword"),
        Terminal::TrueKeyword => String::from_str("TrueKeyword"),
        Terminal::FalseKeyword => String::from_str("FalseKeyword"),
        Terminal::Assign => String::from_str("Assign"),
        Terminal::Equal => String::from_str("Equal"),
        Terminal::LParen => String::from_str("LParen"),
        Terminal::RParen => String::from_str("RParen"),
        Terminal::LBrace => String::from_str("LBrace"),
        Terminal::RBrace => String::from_str("RBrace"),
        Terminal::LBracket => String::from_str("LBracket"),
        Terminal::RBracket => String::from_str("RBracket"),
        Terminal::Minus => String::from_str("Minus"),
        Terminal::Plus => String::from_str("Plus"),
        Terminal::Times => String::from_str("Times"),
        Terminal::Slash => String::from_str("Slash"),
        Terminal::ExclamationMark => String::from_str("ExclamationMark"),
        Terminal::Colon => String::from_str("Colon"),
        Terminal::Comma => String::from_str("Comma"),
        Terminal::Dot => String::from_str("Dot"),
        Terminal::Semicolon => String::from_str("Semicolon"),
        Terminal::SmallRightArrow => String::from_str("SmallRightArrow"),
        Terminal::BigRightArrow => String::from_str("BigRightArrow"),
        Terminal::Backslash => String::from_str("Backslash"),
        Terminal::Ampersand => String::from_str("Ampersand"),
        Terminal::GreaterThan => String::from_str("GreaterThan"),
        Terminal::LessThan => String::from_str("LessThan"),
        Terminal::GreaterOrEqual => String::from_str("GreaterOrEqual"),
        Terminal::LessOrEqual => String::from_str("LessOrEqual"),
    }
}

/// The cursor stands on a token and the token is left in place or consumed as `ok` says.
pub open spec fn terminal_step(
    before: ParseState<Token>,
    after: ParseState<Token>,
    r: Result<(), ParseError>,
    matched: bool,
    description: Seq<char>,
) -> bool {
    &&& after.spec_tokens() == before.spec_tokens()
    &&& after.spec_errors() == before.spec_errors()
    &&& (r is Ok <==> matched)
    &&& r is Ok ==> after.spec_index() == before.spec_index() + 1
    &&& r is Err ==> after.spec_index() == before.spec_index()
    &&& r matches Err(e) ==> e.position == Some(
        before.spec_tokens()[before.spec_index()].spec_position(),
    )
    &&& r matches Err(e) ==> e.message@ == "Expected "@ + description + ", got "@ + token_debug_text(
        before.spec_tokens()[before.spec_index()],
    )
}

/// The cursor is at the end of its tokens: nothing is consumed and the error has no position.
pub open spec fn eof_step(
    before: ParseState<Token>,
    after: ParseState<Token>,
    r: Result<(), ParseError>,
    description: Seq<char>,
) -> bool {
    &&& after == before
    &&& r matches Err(e) && e.position is None && e.message@ == "Expected "@ + description + ", got EOF"@
}

/// The cursor stands on a token.
pub open spec fn on_token(ts: ParseState<Token>) -> bool {
    0 <= ts.spec_index() < ts.spec_tokens().len()
}

/// Consuming the terminal `t`: it is consumed when the token under the cursor is `t`.
pub open spec fn expect_step(
    before: ParseState<Token>,
    after: ParseState<Token>,
    r: Result<(), ParseError>,
    t: Terminal,
    description: Seq<char>,
) -> bool {
    &&& on_token(before) ==> terminal_step(
        before,
        after,
        r,
        before.spec_tokens()[before.spec_index()].lexeme() == Lexeme::Term(t),
        description,
    )
    &&& !on_token(before) ==> eof_step(before, after, r, description)
}

/// A call that moved the cursor forward, to a place inside the tokens, and kept `n` tokens.
pub open spec fn advances(before: ParseState<Token>, after: ParseState<Token>, n: int) -> bool {
    &&& before.spec_index() < after.spec_index() <= n
    &&& after.spec_tokens().len() == n
}

/// Call `parser` for as long as it succeeds and moves the cursor forward inside the `n` tokens;
/// the items it gave, in order.
fn repeat_items<T, F>(tokens: &mut ParseState<Token>, parser: &F, n: usize) -> (items: Vec<T>) where
    F: Fn(&mut ParseState<Token>) -> Result<T, ParseError>,
    requires
        forall|s: &mut ParseState<Token>| parser.requires((s,)),
    ensures
        exists|ms: Seq<&mut ParseState<Token>>|
            {
                &&& ms.len() == items@.len()
                &&& forall|j: int| 0 <= j < ms.len() ==> parser.ensures((#[trigger] ms[j],), Ok::<T, ParseError>(items@[j]))
                &&& ms.len() > 0 ==> *ms[0] == *old(tokens)
                &&& forall|j: int|
                    0 <= j < ms.len() - 1 ==> *ms[j + 1] == *final(#[trigger] ms[j]) && advances(*ms[j], *final(ms[j]), n as int)
                &&& ms.len() == 0 ==> exists|m: &mut ParseState<Token>, e: ParseError|
                    *m == *old(tokens) && *final(m) == *final(tokens) && parser.ensures((m,), Err::<T, ParseError>(e))
                &&& ms.len() > 0 ==> (*final(tokens) == *final(ms[ms.len() - 1]) && !advances(*ms[ms.len() - 1], *final(ms[ms.len() - 1]), n as int))
                    || (advances(*ms[ms.len() - 1], *final(ms[ms.len() - 1]), n as int) && exists|m: &mut ParseState<Token>, e: ParseError|
                    *m == *final(ms[ms.len() - 1]) && *final(m) == *final(tokens) && parser.ensures((m,), Err::<T, ParseError>(e)))
            },
    decreases (if old(tokens).spec_index() <= n {
        n - old(tokens).spec_index() + 1
    } else {
        0
    }),
{
    let before = tokens.get_index();
    let ghost s0 = *tokens;
    let res = parser(tokens);
    let ghost m0 = choose|m: &mut ParseState<Token>|
        *m == s0 && *final(m) == *tokens && parser.ensures((m,), res);
    match res {
        Err(_) => {
            let v: Vec<T> = Vec::new();
            proof {
                let ms = Seq::<&mut ParseState<Token>>::empty();
                assert({
                    &&& ms.len() == v@.len()
                    &&& forall|j: int| 0 <= j < ms.len() ==> parser.ensures((#[trigger] ms[j],), Ok::<T, ParseError>(v@[j]))
                    &&& ms.len() > 0 ==> *ms[0] == s0
                    &&& forall|j: int|
                        0 <= j < ms.len() - 1 ==> *ms[j + 1] == *final(#[trigger] ms[j]) && advances(*ms[j], *final(ms[j]), n as int)
                    &&& ms.len() == 0 ==> exists|m: &mut ParseState<Token>, e: ParseError|
                        *m == s0 && *final(m) == *tokens && parser.ensures((m,), Err::<T, ParseError>(e))
                    &&& ms.len() > 0 ==> (*tokens == *final(ms[ms.len() - 1]) && !advances(*ms[ms.len() - 1], *final(ms[ms.len() - 1]), n as int))
                        || (advances(*ms[ms.len() - 1], *final(ms[ms.len() - 1]), n as int) && exists|m: &mut ParseState<Token>, e: ParseError|
                        *m == *final(ms[ms.len() - 1]) && *final(m) == *tokens && parser.ensures((m,), Err::<T, ParseError>(e)))
                });
            }
            v
        },
        Ok(item) => {
            let after = tokens.get_index();
            if after <= before || after > n || tokens.token_count() != n {
                let mut v: Vec<T> = Vec::new();
                v.push(item);
                proof {
                    let ms = seq![m0];
                    assert(v@[0] == item);
                    assert({
                    &&& ms.len() == v@.len()
                    &&& forall|j: int| 0 <= j < ms.len() ==> parser.ensures((#[trigger] ms[j],), Ok::<T, ParseError>(v@[j]))
                    &&& ms.len() > 0 ==> *ms[0] == s0
                    &&& forall|j: int|
                        0 <= j < ms.len() - 1 ==> *ms[j + 1] == *final(#[trigger] ms[j]) && advances(*ms[j], *final(ms[j]), n as int)
                    &&& ms.len() == 0 ==> exists|m: &mut ParseState<Token>, e: ParseError|
                        *m == s0 && *final(m) == *tokens && parser.ensures((m,), Err::<T, ParseError>(e))
                    &&& ms.len() > 0 ==> (*tokens == *final(ms[ms.len() - 1]) && !advances(*ms[ms.len() - 1], *final(ms[ms.len() - 1]), n as int))
                        || (advances(*ms[ms.len() - 1], *final(ms[ms.len() - 1]), n as int) && exists|m: &mut ParseState<Token>, e: ParseError|
                        *m == *final(ms[ms.len() - 1]) && *final(m) == *tokens && parser.ensures((m,), Err::<T, ParseError>(e)))
                    });
                }
                v
            } else {
                let ghost s1 = *tokens;
                let mut rest = repeat_items(tokens, parser, n);
                let ghost ms2 = choose|ms2: Seq<&mut ParseState<Token>>|
                    {
                        &&& ms2.len() == rest@.len()
                        &&& forall|j: int| 0 <= j < ms2.len() ==> parser.ensures((#[trigger] ms2[j],), Ok::<T, ParseError>(rest@[j]))
                        &&& ms2.len() > 0 ==> *ms2[0] == s1
                        &&& forall|j: int|
                            0 <= j < ms2.len() - 1 ==> *ms2[j + 1] == *final(#[trigger] ms2[j]) && advances(*ms2[j], *final(ms2[j]), n as int)
                        &&& ms2.len() == 0 ==> exists|m: &mut ParseState<Token>, e: ParseError|
                            *m == s1 && *final(m) == *tokens && parser.ensures((m,), Err::<T, ParseError>(e))
                        &&& ms2.len() > 0 ==> (*tokens == *final(ms2[ms2.len() - 1]) && !advances(*ms2[ms2.len() - 1], *final(ms2[ms2.len() - 1]), n as int))
                            || (advances(*ms2[ms2.len() - 1], *final(ms2[ms2.len() - 1]), n as int) && exists|m: &mut ParseState<Token>, e: ParseError|
                            *m == *final(ms2[ms2.len() - 1]) && *final(m) == *tokens && parser.ensures((m,), Err::<T, ParseError>(e)))
                    };
                let ghost r2 = rest@;
                let mut v: Vec<T> = Vec::new();
                v.push(item);
                v.append(&mut rest);
                proof {
                    let ms = seq![m0] + ms2;
                    assert(v@ =~= seq![item] + r2);
                    assert forall|j: int| 0 <= j < ms.len() implies parser.ensures(
                        (#[trigger] ms[j],),
                        Ok::<T, ParseError>(v@[j]),
                    ) by {
                        if j > 0 {
                            assert(ms[j] == ms2[j - 1]);
                            assert(v@[j] == r2[j - 1]);
                        }
                    }
                    assert forall|j: int| 0 <= j < ms.len() - 1 implies *ms[j + 1] == *final(#[trigger] ms[j]) && advances(*ms[j], *final(ms[j]), n as int) by {
                        if j > 0 {
                            assert(ms[j] == ms2[j - 1]);
                            assert(ms[j + 1] == ms2[j]);
                        }
                    }
                    if ms2.len() > 0 {
                        assert(ms[ms.len() - 1] == ms2[ms2.len() - 1]);
                    }
                    assert({
                        &&& ms.len() == v@.len()
                        &&& forall|j: int| 0 <= j < ms.len() ==> parser.ensures((#[trigger] ms[j],), Ok::<T, ParseError>(v@[j]))
                        &&& ms.len() > 0 ==> *ms[0] == s0
                        &&& forall|j: int|
                            0 <= j < ms.len() - 1 ==> *ms[j + 1] == *final(#[trigger] ms[j]) && advances(*ms[j], *final(ms[j]), n as int)
                        &&& ms.len() == 0 ==> exists|m: &mut ParseState<Token>, e: ParseError|
                            *m == s0 && *final(m) == *tokens && parser.ensures((m,), Err::<T, ParseError>(e))
                        &&& ms.len() > 0 ==> (*tokens == *final(ms[ms.len() - 1]) && !advances(*ms[ms.len() - 1], *final(ms[ms.len() - 1]), n as int))
                            || (advances(*ms[ms.len() - 1], *final(ms[ms.len() - 1]), n as int) && exists|m: &mut ParseState<Token>, e: ParseError|
                            *m == *final(ms[ms.len() - 1]) && *final(m) == *tokens && parser.ensures((m,), Err::<T, ParseError>(e)))
                    });
                }
                v
            }
        },
    }
}

/// Call `separator` and then `parser`, for as long as both succeed and together move the
/// cursor forward inside the `n` tokens; the items `parser` gave, in order. A failing
/// `parser` after a successful `separator` is the error.
fn separated_items<T, F, S>(tokens: &mut ParseState<Token>, parser: &F, separator_parser: &S, n: usize) -> (r:
    Result<Vec<T>, ParseError>) where
    F: Fn(&mut ParseState<Token>) -> Result<T, ParseError>,
    S: Fn(&mut ParseState<Token>) -> Result<(), ParseError>,
    requires
        forall|s: &mut ParseState<Token>| parser.requires((s,)),
        forall|s: &mut ParseState<Token>| separator_parser.requires((s,)),
    ensures
        r matches Ok(v) ==> exists|rs: Seq<(&mut ParseState<Token>, &mut ParseState<Token>)>|
            #![trigger rs.len()]
            {
                &&& rs.len() == v@.len()
                &&& forall|j: int|
                    0 <= j < rs.len() ==> separator_parser.ensures(((#[trigger] rs[j]).0,), Ok::<(), ParseError>(())) && parser.ensures(
                        (rs[j].1,),
                        Ok::<T, ParseError>(v@[j]),
                    ) && *rs[j].1 == *final(rs[j].0)
                &&& rs.len() > 0 ==> *rs[0].0 == *old(tokens)
                &&& forall|j: int|
                    0 <= j < rs.len() - 1 ==> *rs[j + 1].0 == *final((#[trigger] rs[j]).1) && advances(*rs[j].0, *final(rs[j].1), n as int)
                &&& rs.len() == 0 ==> exists|m: &mut ParseState<Token>, e: ParseError|
                    *m == *old(tokens) && *final(m) == *final(tokens) && separator_parser.ensures((m,), Err::<(), ParseError>(e))
                &&& rs.len() > 0 ==> (*final(tokens) == *final(rs[rs.len() - 1].1) && !advances(*rs[rs.len() - 1].0, *final(rs[rs.len() - 1].1), n as int))
                    || (advances(*rs[rs.len() - 1].0, *final(rs[rs.len() - 1].1), n as int) && exists|m: &mut ParseState<Token>, e: ParseError|
                    *m == *final(rs[rs.len() - 1].1) && *final(m) == *final(tokens) && separator_parser.ensures((m,), Err::<(), ParseError>(e)))
            },
        r matches Err(e) ==> exists|ms: &mut ParseState<Token>, mi: &mut ParseState<Token>|
            separator_parser.ensures((ms,), Ok::<(), ParseError>(())) && *mi == *final(ms) && *final(mi)
                == *final(tokens) && parser.ensures((mi,), Err::<T, ParseError>(e)),
    decreases (if old(tokens).spec_index() <= n {
        n - old(tokens).spec_index() + 1
    } else {
        0
    }),
{
    let before = tokens.get_index();
    let ghost s0 = *tokens;
    let sres = separator_parser(tokens);
    let ghost m_s = choose|m: &mut ParseState<Token>|
        *m == s0 && *final(m) == *tokens && separator_parser.ensures((m,), sres);
    if let Err(e) = sres {
        let v: Vec<T> = Vec::new();
        proof {
            assert(separator_parser.ensures((m_s,), Err::<(), ParseError>(e)));
            let rs = Seq::<(&mut ParseState<Token>, &mut ParseState<Token>)>::empty();
            assert({
                &&& rs.len() == v@.len()
                &&& forall|j: int|
                    0 <= j < rs.len() ==> separator_parser.ensures(((#[trigger] rs[j]).0,), Ok::<(), ParseError>(())) && parser.ensures(
                        (rs[j].1,),
                        Ok::<T, ParseError>(v@[j]),
                    ) && *rs[j].1 == *final(rs[j].0)
                &&& rs.len() > 0 ==> *rs[0].0 == s0
                &&& forall|j: int|
                    0 <= j < rs.len() - 1 ==> *rs[j + 1].0 == *final((#[trigger] rs[j]).1) && advances(*rs[j].0, *final(rs[j].1), n as int)
                &&& rs.len() == 0 ==> exists|m: &mut ParseState<Token>, e: ParseError|
                    *m == s0 && *final(m) == *tokens && separator_parser.ensures((m,), Err::<(), ParseError>(e))
                &&& rs.len() > 0 ==> (*tokens == *final(rs[rs.len() - 1].1) && !advances(*rs[rs.len() - 1].0, *final(rs[rs.len() - 1].1), n as int))
                    || (advances(*rs[rs.len() - 1].0, *final(rs[rs.len() - 1].1), n as int) && exists|m: &mut ParseState<Token>, e: ParseError|
                    *m == *final(rs[rs.len() - 1].1) && *final(m) == *tokens && separator_parser.ensures((m,), Err::<(), ParseError>(e)))
            });
        }
        return Ok(v);
    }
    proof {
        let u = sres->Ok_0;
        assert(u == ());
        assert(sres == Ok::<(), ParseError>(()));
    }
    let ghost s1 = *tokens;
    let ires = parser(tokens);
    let ghost m_i = choose|m: &mut ParseState<Token>|
        *m == s1 && *final(m) == *tokens && parser.ensures((m,), ires);
    let item = match ires {
        Ok(item) => item,
        Err(e) => {
            return Err(e);
        },
    };
    let after = tokens.get_index();
    if after <= before || after > n || tokens.token_count() != n {
        let mut v: Vec<T> = Vec::new();
        v.push(item);
        proof {
            let rs = seq![(m_s, m_i)];
            assert(v@[0] == item);
            assert({
                &&& rs.len() == v@.len()
                &&& forall|j: int|
                    0 <= j < rs.len() ==> separator_parser.ensures(((#[trigger] rs[j]).0,), Ok::<(), ParseError>(())) && parser.ensures(
                        (rs[j].1,),
                        Ok::<T, ParseError>(v@[j]),
                    ) && *rs[j].1 == *final(rs[j].0)
                &&& rs.len() > 0 ==> *rs[0].0 == s0
                &&& forall|j: int|
                    0 <= j < rs.len() - 1 ==> *rs[j + 1].0 == *final((#[trigger] rs[j]).1) && advances(*rs[j].0, *final(rs[j].1), n as int)
                &&& rs.len() == 0 ==> exists|m: &mut ParseState<Token>, e: ParseError|
                    *m == s0 && *final(m) == *tokens && separator_parser.ensures((m,), Err::<(), ParseError>(e))
                &&& rs.len() > 0 ==> (*tokens == *final(rs[rs.len() - 1].1) && !advances(*rs[rs.len() - 1].0, *final(rs[rs.len() - 1].1), n as int))
                    || (advances(*rs[rs.len() - 1].0, *final(rs[rs.len() - 1].1), n as int) && exists|m: &mut ParseState<Token>, e: ParseError|
                    *m == *final(rs[rs.len() - 1].1) && *final(m) == *tokens && separator_parser.ensures((m,), Err::<(), ParseError>(e)))
            });
        }
        return Ok(v);
    }
    let ghost s2 = *tokens;
    let rest = separated_items(tokens, parser, separator_parser, n);
    match rest {
        Err(e) => Err(e),
        Ok(mut rest) => {
            let ghost r2 = rest@;
            let ghost rs2 = choose|rs2: Seq<(&mut ParseState<Token>, &mut ParseState<Token>)>|
                #![trigger rs2.len()]
                {
                    &&& rs2.len() == r2.len()
                    &&& forall|j: int|
                        0 <= j < rs2.len() ==> separator_parser.ensures(((#[trigger] rs2[j]).0,), Ok::<(), ParseError>(())) && parser.ensures(
                            (rs2[j].1,),
                            Ok::<T, ParseError>(r2[j]),
                        ) && *rs2[j].1 == *final(rs2[j].0)
                    &&& rs2.len() > 0 ==> *rs2[0].0 == s2
                    &&& forall|j: int|
                        0 <= j < rs2.len() - 1 ==> *rs2[j + 1].0 == *final((#[trigger] rs2[j]).1) && advances(*rs2[j].0, *final(rs2[j].1), n as int)
                    &&& rs2.len() == 0 ==> exists|m: &mut ParseState<Token>, e: ParseError|
                        *m == s2 && *final(m) == *tokens && separator_parser.ensures((m,), Err::<(), ParseError>(e))
                    &&& rs2.len() > 0 ==> (*tokens == *final(rs2[rs2.len() - 1].1) && !advances(*rs2[rs2.len() - 1].0, *final(rs2[rs2.len() - 1].1), n as int))
                        || (advances(*rs2[rs2.len() - 1].0, *final(rs2[rs2.len() - 1].1), n as int) && exists|m: &mut ParseState<Token>, e: ParseError|
                        *m == *final(rs2[rs2.len() - 1].1) && *final(m) == *tokens && separator_parser.ensures((m,), Err::<(), ParseError>(e)))
                };
            let mut v: Vec<T> = Vec::new();
            v.push(item);
            v.append(&mut rest);
            proof {
                let rs = seq![(m_s, m_i)] + rs2;
                assert(v@ =~= seq![item] + r2);
                assert forall|j: int| 0 <= j < rs.len() implies separator_parser.ensures(
                    ((#[trigger] rs[j]).0,),
                    Ok::<(), ParseError>(()),
                ) && parser.ensures((rs[j].1,), Ok::<T, ParseError>(v@[j])) && *rs[j].1 == *final(rs[j].0) by {
                    if j > 0 {
                        assert(rs[j] == rs2[j - 1]);
                        assert(v@[j] == r2[j - 1]);
                    }
                }
                assert forall|j: int| 0 <= j < rs.len() - 1 implies *rs[j + 1].0 == *final((#[trigger] rs[j]).1)
                    && advances(*rs[j].0, *final(rs[j].1), n as int) by {
                    if j > 0 {
                        assert(rs[j] == rs2[j - 1]);
                        assert(rs[j + 1] == rs2[j]);
                    } else if rs2.len() > 0 {
                        assert(rs[1] == rs2[0]);
                    }
                }
                if rs2.len() > 0 {
                    assert(rs[rs.len() - 1] == rs2[rs2.len() - 1]);
                }
                assert({
                    &&& rs.len() == v@.len()
                    &&& forall|j: int|
                        0 <= j < rs.len() ==> separator_parser.ensures(((#[trigger] rs[j]).0,), Ok::<(), ParseError>(())) && parser.ensures(
                            (rs[j].1,),
                            Ok::<T, ParseError>(v@[j]),
                        ) && *rs[j].1 == *final(rs[j].0)
                    &&& rs.len() > 0 ==> *rs[0].0 == s0
                    &&& forall|j: int|
                        0 <= j < rs.len() - 1 ==> *rs[j + 1].0 == *final((#[trigger] rs[j]).1) && advances(*rs[j].0, *final(rs[j].1), n as int)
                    &&& rs.len() == 0 ==> exists|m: &mut ParseState<Token>, e: ParseError|
                        *m == s0 && *final(m) == *tokens && separator_parser.ensures((m,), Err::<(), ParseError>(e))
                    &&& rs.len() > 0 ==> (*tokens == *final(rs[rs.len() - 1].1) && !advances(*rs[rs.len() - 1].0, *final(rs[rs.len() - 1].1), n as int))
                        || (advances(*rs[rs.len() - 1].0, *final(rs[rs.len() - 1].1), n as int) && exists|m: &mut ParseState<Token>, e: ParseError|
                        *m == *final(rs[rs.len() - 1].1) && *final(m) == *tokens && separator_parser.ensures((m,), Err::<(), ParseError>(e)))
                });
            }
            Ok(v)
        },
    }
}

impl DirectParser {
    /// Consume the token under the cursor if `predicate` holds of it.
    pub fn parse_terminal<F>(tokens: &mut ParseState<Token>, predicate: F, description: &str) -> (r:
        Result<(), ParseError>) where F: Fn(&Token) -> bool
        requires
            forall|t: &Token| predicate.requires((t,)),
            old(tokens).spec_index() >= 0,
        ensures
            on_token(*old(tokens)) ==> predicate.ensures(
                (&old(tokens).spec_tokens()[old(tokens).spec_index()],),
                r is Ok,
            ) && terminal_step(*old(tokens), *final(tokens), r, r is Ok, description@),
            !on_token(*old(tokens)) ==> eof_step(*old(tokens), *final(tokens), r, description@),
    {
        match tokens.peek() {
            Some(token) => {
                let b = predicate(&token);
                assert(predicate.ensures((&old(tokens).spec_tokens()[old(tokens).spec_index()],), b));
                if b {
                    tokens.next();
                    Ok(())
                } else {
                    let message = String::from_str("Expected ").concat(description).concat(
                        ", got ",
                    ).concat(debug_token(&token).as_str());
                    Err(ParseError { message, position: Some(token.position()) })
                }
            },
            None => {
                let message = String::from_str("Expected ").concat(description).concat(", got EOF");
                Err(ParseError { message, position: None })
            },
        }
    }

    /// Consume the terminal `t`.
    fn expect_terminal(tokens: &mut ParseState<Token>, t: Terminal, description: &str) -> (r: Result<
        (),
        ParseError,
    >)
        requires
            old(tokens).spec_index() >= 0,
        ensures
            expect_step(*old(tokens), *final(tokens), r, t, description@),
    {
        let predicate = |tok: &Token| -> (b: bool)
            ensures
                b == (tok.lexeme() == Lexeme::Term(t)),
            { tok.is_terminal(t) };
        Self::parse_terminal(tokens, predicate, description)
    }

    /// Parse an optional element: when `parser` fails, the cursor goes back to where it was
    /// and `None` is returned.
    pub fn parse_optional<T, F>(tokens: &mut ParseState<Token>, parser: F) -> (r: Result<
        Option<T>,
        ParseError,
    >) where F: Fn(&mut ParseState<Token>) -> Result<T, ParseError>
        requires
            forall|s: &mut ParseState<Token>| parser.requires((s,)),
        ensures
            r is Ok,
            r matches Ok(Some(v)) ==> exists|m: &mut ParseState<Token>|
                *m == *old(tokens) && *final(m) == *final(tokens) && parser.ensures(
                    (m,),
                    Ok::<T, ParseError>(v),
                ),
            r matches Ok(None) ==> final(tokens).spec_index() == old(tokens).spec_index() && exists|
                m: &mut ParseState<Token>,
                e: ParseError,
            |
                *m == *old(tokens) && parser.ensures((m,), Err::<T, ParseError>(e))
                    && final(tokens).spec_tokens() == final(m).spec_tokens()
                    && final(tokens).spec_errors() == final(m).spec_errors(),
    {
        let start_pos = tokens.get_index();
        match parser(tokens) {
            Ok(result) => Ok(Some(result)),
            Err(_) => {
                tokens.set_index(start_pos);
                Ok(None)
            },
        }
    }

    /// Parse items separated by separators. When the first item does not parse, the list
    /// is empty; once a separator has been parsed, the item after it must parse.
    ///
    /// Parsing also stops once a separator and the item after it leave the cursor where it
    /// was, move it past the end or change the number of tokens, so that the calls end on
    /// every input.
    pub fn parse_separated<T, F, S>(tokens: &mut ParseState<Token>, parser: F, separator_parser: S) -> (r:
        Result<Vec<T>, ParseError>) where
        F: Fn(&mut ParseState<Token>) -> Result<T, ParseError>,
        S: Fn(&mut ParseState<Token>) -> Result<(), ParseError>,

        requires
            forall|s: &mut ParseState<Token>| parser.requires((s,)),
            forall|s: &mut ParseState<Token>| separator_parser.requires((s,)),
        ensures
            r matches Ok(v) && v@.len() == 0 ==> exists|m: &mut ParseState<Token>, e: ParseError|
                *m == *old(tokens) && *final(m) == *final(tokens) && parser.ensures(
                    (m,),
                    Err::<T, ParseError>(e),
                ),
            exists|m: &mut ParseState<Token>, first: Result<T, ParseError>|
                {
                    &&& *m == *old(tokens)
                    &&& parser.ensures((m,), first)
                    &&& first is Err ==> (r matches Ok(v) && v@.len() == 0
                        && *final(m) == *final(tokens))
                    &&& first is Ok ==> (r matches Ok(v) ==> v@.len() > 0 && v@[0] == first->Ok_0)
                },
            r matches Err(e) ==> exists|ms: &mut ParseState<Token>, mi: &mut ParseState<Token>|
                separator_parser.ensures((ms,), Ok::<(), ParseError>(())) && *mi == *final(ms) && *final(mi)
                    == *final(tokens) && parser.ensures((mi,), Err::<T, ParseError>(e)),
            r matches Ok(v) ==> (v@.len() > 0 ==> exists|m0: &mut ParseState<Token>, rs: Seq<(&mut ParseState<Token>, &mut ParseState<Token>)>|
                #![trigger parser.ensures((m0,), Ok::<T, ParseError>(v@[0])), rs.len()]
                {
                    &&& *m0 == *old(tokens)
                    &&& parser.ensures((m0,), Ok::<T, ParseError>(v@[0]))
                    &&& rs.len() == v@.skip(1).len()
                    &&& forall|j: int|
                        0 <= j < rs.len() ==> separator_parser.ensures(((#[trigger] rs[j]).0,), Ok::<(), ParseError>(())) && parser.ensures(
                            (rs[j].1,),
                            Ok::<T, ParseError>(v@.skip(1)[j]),
                        ) && *rs[j].1 == *final(rs[j].0)
                    &&& rs.len() > 0 ==> *rs[0].0 == *final(m0)
                    &&& forall|j: int|
                        0 <= j < rs.len() - 1 ==> *rs[j + 1].0 == *final((#[trigger] rs[j]).1) && advances(*rs[j].0, *final(rs[j].1), (*final(m0)).spec_tokens().len() as int)
                    &&& rs.len() == 0 ==> exists|m: &mut ParseState<Token>, e: ParseError|
                        *m == *final(m0) && *final(m) == *final(tokens) && separator_parser.ensures((m,), Err::<(), ParseError>(e))
                    &&& rs.len() > 0 ==> (*final(tokens) == *final(rs[rs.len() - 1].1) && !advances(*rs[rs.len() - 1].0, *final(rs[rs.len() - 1].1), (*final(m0)).spec_tokens().len() as int))
                        || (advances(*rs[rs.len() - 1].0, *final(rs[rs.len() - 1].1), (*final(m0)).spec_tokens().len() as int) && exists|m: &mut ParseState<Token>, e: ParseError|
                        *m == *final(rs[rs.len() - 1].1) && *final(m) == *final(tokens) && separator_parser.ensures((m,), Err::<(), ParseError>(e)))
                }),
    {
        let first_result = parser(tokens);
        let ghost s0 = *old(tokens);
        let ghost m0 = choose|m: &mut ParseState<Token>|
            *m == s0 && *final(m) == *tokens && parser.ensures((m,), first_result);
        proof {
            assert(exists|m: &mut ParseState<Token>|
                *m == *old(tokens) && *final(m) == *tokens && parser.ensures((m,), first_result));
        }
        match first_result {
            Err(_) => Ok(Vec::new()),
            Ok(first) => {
                let ghost s1 = *tokens;
                let n = tokens.token_count();
                match separated_items(tokens, &parser, &separator_parser, n) {
                    Err(e) => Err(e),
                    Ok(mut rest) => {
                        let ghost r2 = rest@;
                        let ghost rs = choose|rs: Seq<(&mut ParseState<Token>, &mut ParseState<Token>)>|
                            #![trigger rs.len()]
                            {
                                &&& rs.len() == r2.len()
                                &&& forall|j: int|
                                    0 <= j < rs.len() ==> separator_parser.ensures(((#[trigger] rs[j]).0,), Ok::<(), ParseError>(())) && parser.ensures(
                                        (rs[j].1,),
                                        Ok::<T, ParseError>(r2[j]),
                                    ) && *rs[j].1 == *final(rs[j].0)
                                &&& rs.len() > 0 ==> *rs[0].0 == s1
                                &&& forall|j: int|
                                    0 <= j < rs.len() - 1 ==> *rs[j + 1].0 == *final((#[trigger] rs[j]).1) && advances(*rs[j].0, *final(rs[j].1), n as int)
                                &&& rs.len() == 0 ==> exists|m: &mut ParseState<Token>, e: ParseError|
                                    *m == s1 && *final(m) == *tokens && separator_parser.ensures((m,), Err::<(), ParseError>(e))
                                &&& rs.len() > 0 ==> (*tokens == *final(rs[rs.len() - 1].1) && !advances(*rs[rs.len() - 1].0, *final(rs[rs.len() - 1].1), n as int))
                                    || (advances(*rs[rs.len() - 1].0, *final(rs[rs.len() - 1].1), n as int) && exists|m: &mut ParseState<Token>, e: ParseError|
                                    *m == *final(rs[rs.len() - 1].1) && *final(m) == *tokens && separator_parser.ensures((m,), Err::<(), ParseError>(e)))
                            };
                        let mut items: Vec<T> = Vec::new();
                        items.push(first);
                        items.append(&mut rest);
                        proof {
                            assert(items@ =~= seq![first] + r2);
                            assert(items@.skip(1) =~= r2);
                            assert(parser.ensures((m0,), Ok::<T, ParseError>(items@[0])));
                        }
                        Ok(items)
                    },
                }
            },
        }
    }

    /// Parse items for as long as `parser` succeeds: the items are the results of the
    /// successive successful calls, in order; the first failing call ends the list and its
    /// error is dropped.
    ///
    /// Parsing also stops once an item leaves the cursor where it was, moves it past the end
    /// or changes the number of tokens, so that the calls end on every input.
    pub fn parse_repetition<T, F>(tokens: &mut ParseState<Token>, parser: F) -> (r: Result<
        Vec<T>,
        ParseError,
    >) where F: Fn(&mut ParseState<Token>) -> Result<T, ParseError>
        requires
            forall|s: &mut ParseState<Token>| parser.requires((s,)),
        ensures
            r is Ok,
            r matches Ok(v) ==> exists|ms: Seq<&mut ParseState<Token>>|
                #![trigger ms.len()]
                {
                    &&& ms.len() == v@.len()
                    &&& forall|j: int| 0 <= j < ms.len() ==> parser.ensures((#[trigger] ms[j],), Ok::<T, ParseError>(v@[j]))
                    &&& ms.len() > 0 ==> *ms[0] == *old(tokens)
                    &&& forall|j: int|
                        0 <= j < ms.len() - 1 ==> *ms[j + 1] == *final(#[trigger] ms[j]) && advances(*ms[j], *final(ms[j]), old(tokens).spec_tokens().len() as int)
                    &&& ms.len() == 0 ==> exists|m: &mut ParseState<Token>, e: ParseError|
                        *m == *old(tokens) && *final(m) == *final(tokens) && parser.ensures((m,), Err::<T, ParseError>(e))
                    &&& ms.len() > 0 ==> (*final(tokens) == *final(ms[ms.len() - 1]) && !advances(*ms[ms.len() - 1], *final(ms[ms.len() - 1]), old(tokens).spec_tokens().len() as int))
                        || (advances(*ms[ms.len() - 1], *final(ms[ms.len() - 1]), old(tokens).spec_tokens().len() as int) && exists|m: &mut ParseState<Token>, e: ParseError|
                        *m == *final(ms[ms.len() - 1]) && *final(m) == *final(tokens) && parser.ensures((m,), Err::<T, ParseError>(e)))
                },
    {
        let n = tokens.token_count();
        let items = repeat_items(tokens, &parser, n);
        proof {
            let ms = choose|ms: Seq<&mut ParseState<Token>>|
                {
                    &&& ms.len() == items@.len()
                    &&& forall|j: int| 0 <= j < ms.len() ==> parser.ensures((#[trigger] ms[j],), Ok::<T, ParseError>(items@[j]))
                    &&& ms.len() > 0 ==> *ms[0] == *old(tokens)
                    &&& forall|j: int|
                        0 <= j < ms.len() - 1 ==> *ms[j + 1] == *final(#[trigger] ms[j]) && advances(*ms[j], *final(ms[j]), n as int)
                    &&& ms.len() == 0 ==> exists|m: &mut ParseState<Token>, e: ParseError|
                        *m == *old(tokens) && *final(m) == *tokens && parser.ensures((m,), Err::<T, ParseError>(e))
                    &&& ms.len() > 0 ==> (*tokens == *final(ms[ms.len() - 1]) && !advances(*ms[ms.len() - 1], *final(ms[ms.len() - 1]), n as int))
                        || (advances(*ms[ms.len() - 1], *final(ms[ms.len() - 1]), n as int) && exists|m: &mut ParseState<Token>, e: ParseError|
                        *m == *final(ms[ms.len() - 1]) && *final(m) == *tokens && parser.ensures((m,), Err::<T, ParseError>(e)))
                };
            assert({
                &&& ms.len() == items@.len()
                &&& forall|j: int| 0 <= j < ms.len() ==> parser.ensures((#[trigger] ms[j],), Ok::<T, ParseError>(items@[j]))
                &&& ms.len() > 0 ==> *ms[0] == *old(tokens)
                &&& forall|j: int|
                    0 <= j < ms.len() - 1 ==> *ms[j + 1] == *final(#[trigger] ms[j]) && advances(*ms[j], *final(ms[j]), old(tokens).spec_tokens().len() as int)
                &&& ms.len() == 0 ==> exists|m: &mut ParseState<Token>, e: ParseError|
                    *m == *old(tokens) && *final(m) == *final(tokens) && parser.ensures((m,), Err::<T, ParseError>(e))
                &&& ms.len() > 0 ==> (*final(tokens) == *final(ms[ms.len() - 1]) && !advances(*ms[ms.len() - 1], *final(ms[ms.len() - 1]), old(tokens).spec_tokens().len() as int))
                    || (advances(*ms[ms.len() - 1], *final(ms[ms.len() - 1]), old(tokens).spec_tokens().len() as int) && exists|m: &mut ParseState<Token>, e: ParseError|
                    *m == *final(ms[ms.len() - 1]) && *final(m) == *final(tokens) && parser.ensures((m,), Err::<T, ParseError>(e)))
            });
        }
        Ok(items)
    }

    pub fn expect_semicolon(tokens: &mut ParseState<Token>) -> (r: Result<(), ParseError>)
        requires
            old(tokens).spec_index() >= 0,
        ensures
            expect_step(*old(tokens), *final(tokens), r, Terminal::Semicolon, "semicolon"@),
    {
        Self::expect_terminal(tokens, Terminal::Semicolon, "semicolon")
    }

    pub fn expect_lparen(tokens: &mut ParseState<Token>) -> (r: Result<(), ParseError>)
        requires
            old(tokens).spec_index() >= 0,
        ensures
            expect_step(*old(tokens), *final(tokens), r, Terminal::LParen, "left parenthesis"@),
    {
        Self::expect_terminal(tokens, Terminal::LParen, "left parenthesis")
    }

    pub fn expect_rparen(tokens: &mut ParseState<Token>) -> (r: Result<(), ParseError>)
        requires
            old(tokens).spec_index() >= 0,
        ensures
            expect_step(*old(tokens), *final(tokens), r, Terminal::RParen, "right parenthesis"@),
    {
        Self::expect_terminal(tokens, Terminal::RParen, "right parenthesis")
    }

    pub fn expect_lbrace(tokens: &mut ParseState<Token>) -> (r: Result<(), ParseError>)
        requires
            old(tokens).spec_index() >= 0,
        ensures
            expect_step(*old(tokens), *final(tokens), r, Terminal::LBrace, "left brace"@),
    {
        Self::expect_terminal(tokens, Terminal::LBrace, "left brace")
    }

    pub fn expect_rbrace(tokens: &mut ParseState<Token>) -> (r: Result<(), ParseError>)
        requires
            old(tokens).spec_index() >= 0,
        ensures
            expect_step(*old(tokens), *final(tokens), r, Terminal::RBrace, "right brace"@),
    {
        Self::expect_terminal(tokens, Terminal::RBrace, "right brace")
    }

    pub fn expect_assign(tokens: &mut ParseState<Token>) -> (r: Result<(), ParseError>)
        requires
            old(tokens).spec_index() >= 0,
        ensures
            expect_step(*old(tokens), *final(tokens), r, Terminal::Assign, "assignment operator"@),
    {
        Self::expect_terminal(tokens, Terminal::Assign, "assignment operator")
    }

    pub fn expect_colon(tokens: &mut ParseState<Token>) -> (r: Result<(), ParseError>)
        requires
            old(tokens).spec_index() >= 0,
        ensures
            expect_step(*old(tokens), *final(tokens), r, Terminal::Colon, "colon"@),
    {
        Self::expect_terminal(tokens, Terminal::Colon, "colon")
    }

    pub fn expect_comma(tokens: &mut ParseState<Token>) -> (r: Result<(), ParseError>)
        requires
            old(tokens).spec_index() >= 0,
        ensures
            expect_step(*old(tokens), *final(tokens), r, Terminal::Comma, "comma"@),
    {
        Self::expect_terminal(tokens, Terminal::Comma, "comma")
    }

    pub fn expect_let(tokens: &mut ParseState<Token>) -> (r: Result<(), ParseError>)
        requires
            old(tokens).spec_index() >= 0,
        ensures
            expect_step(*old(tokens), *final(tokens), r, Terminal::Let, "let keyword"@),
    {
        Self::expect_terminal(tokens, Terminal::Let, "let keyword")
    }

    pub fn expect_fn(tokens: &mut ParseState<Token>) -> (r: Result<(), ParseError>)
        requires
            old(tokens).spec_index() >= 0,
        ensures
            expect_step(*old(tokens), *final(tokens), r, Terminal::FnKeyword, "fn keyword"@),
    {
        Self::expect_terminal(tokens, Terminal::FnKeyword, "fn keyword")
    }

    pub fn expect_minus(tokens: &mut ParseState<Token>) -> (r: Result<(), ParseError>)
        requires
            old(tokens).spec_index() >= 0,
        ensures
            expect_step(*old(tokens), *final(tokens), r, Terminal::Minus, "minus operator"@),
    {
        Self::expect_terminal(tokens, Terminal::Minus, "minus operator")
    }

    pub fn expect_exclamation(tokens: &mut ParseState<Token>) -> (r: Result<(), ParseError>)
        requires
            old(tokens).spec_index() >= 0,
        ensures
            expect_step(*old(tokens), *final(tokens), r, Terminal::ExclamationMark, "exclamation mark"@),
    {
        Self::expect_terminal(tokens, Terminal::ExclamationMark, "exclamation mark")
    }

    pub fn expect_lbracket(tokens: &mut ParseState<Token>) -> (r: Result<(), ParseError>)
        requires
            old(tokens).spec_index() >= 0,
        ensures
            expect_step(*old(tokens), *final(tokens), r, Terminal::LBracket, "left bracket"@),
    {
        Self::expect_terminal(tokens, Terminal::LBracket, "left bracket")
    }

    pub fn expect_rbracket(tokens: &mut ParseState<Token>) -> (r: Result<(), ParseError>)
        requires
            old(tokens).spec_index() >= 0,
        ensures
            expect_step(*old(tokens), *final(tokens), r, Terminal::RBracket, "right bracket"@),
    {
        Self::expect_terminal(tokens, Terminal::RBracket, "right bracket")
    }

    pub fn expect_backslash(tokens: &mut ParseState<Token>) -> (r: Result<(), ParseError>)
        requires
            old(tokens).spec_index() >= 0,
        ensures
            expect_step(*old(tokens), *final(tokens), r, Terminal::Backslash, "backslash"@),
    {
        Self::expect_terminal(tokens, Terminal::Backslash, "backslash")
    }

    pub fn expect_big_right_arrow(tokens: &mut ParseState<Token>) -> (r: Result<(), ParseError>)
        requires
            old(tokens).spec_index() >= 0,
        ensures
            expect_step(*old(tokens), *final(tokens), r, Terminal::BigRightArrow, "big right arrow"@),
    {
        Self::expect_terminal(tokens, Terminal::BigRightArrow, "big right arrow")
    }
}

} // verus!
