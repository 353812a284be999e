use vstd::prelude::*;
use crate::ast::{Arith, Control, Decomposition, Lexeme, Scope, BOP, UOP};

verus! {

/// The lexemes that open a bracketed atom.
pub open spec fn opens_atom(l: Lexeme) -> bool {
    ||| l is OArgList
    ||| l is OScope
    ||| l is OMatrix
    ||| l is ORangeIn
    ||| l is ORangeEx
    ||| l is OUnit
    ||| l is OList
    ||| l is ONorm
    ||| l is ODeterminant
}

/// The lexemes that close a bracketed atom.
pub open spec fn closes_atom(l: Lexeme) -> bool {
    ||| l is CParen
    ||| l is CBraket
    ||| l is CBrace
    ||| l is CNorm
    ||| l is CDeterminant
}

/// The binary operators of precedence level `level`, from the loosest (`0`)
/// to the tightest (`7`).
pub open spec fn binds_at(level: int, op: BOP) -> bool {
    match op {
        BOP::Or | BOP::NOr => level == 0,
        BOP::XOr => level == 1,
        BOP::And | BOP::NAnd => level == 2,
        BOP::Is | BOP::Isnt => level == 3,
        BOP::Less | BOP::LessOrEqual | BOP::Greater | BOP::GreaterOrEqual => level == 4,
        BOP::Plus | BOP::Minus => level == 5,
        BOP::Times | BOP::ElemTimes | BOP::Divide | BOP::ElemDivide | BOP::Modulus => level == 6,
        BOP::Power | BOP::ElemPower => level == 7,
    }
}

fn is_opener(l: &Lexeme) -> (r: bool)
    ensures
        r == opens_atom(*l),
{
    match l {
        Lexeme::OArgList | Lexeme::OScope | Lexeme::OMatrix | Lexeme::ORangeIn
        | Lexeme::ORangeEx | Lexeme::OUnit | Lexeme::OList | Lexeme::ONorm
        | Lexeme::ODeterminant => true,
        _ => false,
    }
}

fn is_closer(l: &Lexeme) -> (r: bool)
    ensures
        r == closes_atom(*l),
{
    match l {
        Lexeme::CParen | Lexeme::CBraket | Lexeme::CBrace | Lexeme::CNorm
        | Lexeme::CDeterminant => true,
        _ => false,
    }
}

fn has_precedence(level: usize, op: &BOP) -> (r: bool)
    ensures
        r == binds_at(level as int, *op),
{
    match op {
        BOP::Or | BOP::NOr => level == 0,
        BOP::XOr => level == 1,
        BOP::And | BOP::NAnd => level == 2,
        BOP::Is | BOP::Isnt => level == 3,
        BOP::Less | BOP::LessOrEqual | BOP::Greater | BOP::GreaterOrEqual => level == 4,
        BOP::Plus | BOP::Minus => level == 5,
        BOP::Times | BOP::ElemTimes | BOP::Divide | BOP::ElemDivide | BOP::Modulus => level == 6,
        BOP::Power | BOP::ElemPower => level == 7,
    }
}

fn is_new_line(l: Option<&Lexeme>) -> (r: bool)
    ensures
        r == (l matches Some(x) && *x is NewLine),
{
    match l {
        Some(Lexeme::NewLine) => true,
        _ => false,
    }
}

/// The bracket depth inside an atom that starts at `s[0]`, after `s[1..=j]`:
/// it starts at one, each opener adds one and each closer takes one away.
pub open spec fn atom_depth(s: Seq<Lexeme>, j: int) -> int
    decreases j,
{
    if j <= 0 {
        1
    } else if opens_atom(s[j]) {
        atom_depth(s, j - 1) + 1
    } else if closes_atom(s[j]) {
        atom_depth(s, j - 1) - 1
    } else {
        atom_depth(s, j - 1)
    }
}

/// How the bracket depth inside an atom moves, lexeme by lexeme: each of the
/// nine openers (`(` of an argument list, scope, matrix, both kinds of range,
/// unit, list, norm and determinant) raises it by one, each of the five
/// closers (`)`, `]`, `}`, the norm bar and the determinant bar) lowers it by
/// one, and every other lexeme (names, literals, commas, operators, line
/// breaks, keywords) leaves it as it was.
pub proof fn lemma_atom_depth_step(s: Seq<Lexeme>, j: int)
    requires
        1 <= j < s.len(),
    ensures
        ({
            s[j] is OArgList
            || s[j] is OScope
            || s[j] is OMatrix
            || s[j] is ORangeIn
            || s[j] is ORangeEx
            || s[j] is OUnit
            || s[j] is OList
            || s[j] is ONorm
            || s[j] is ODeterminant
        }) ==> atom_depth(s, j) == atom_depth(s, j - 1) + 1,
        ({
            s[j] is CParen
            || s[j] is CBraket
            || s[j] is CBrace
            || s[j] is CNorm
            || s[j] is CDeterminant
        }) ==> atom_depth(s, j) == atom_depth(s, j - 1) - 1,
        !({
            s[j] is OArgList
            || s[j] is OScope
            || s[j] is OMatrix
            || s[j] is ORangeIn
            || s[j] is ORangeEx
            || s[j] is OUnit
            || s[j] is OList
            || s[j] is ONorm
            || s[j] is ODeterminant
        }) && !({
            s[j] is CParen
            || s[j] is CBraket
            || s[j] is CBrace
            || s[j] is CNorm
            || s[j] is CDeterminant
        }) ==> atom_depth(s, j) == atom_depth(s, j - 1),
{
}

/// Before the atom closes, the bracket depth stays at one or more.
proof fn lemma_atom_depth_positive(s: Seq<Lexeme>, k: int, j: int)
    requires
        0 <= j < k,
        forall|i: int| 1 <= i < k ==> atom_depth(s, i) != 0,
    ensures
        atom_depth(s, j) >= 1,
    decreases j,
{
    if j > 0 {
        lemma_atom_depth_positive(s, k, j - 1);
    }
}

/// An atom, as `traverse_atom` measures it, ends on one of the five closers:
/// the last lexeme that it spans is `)`, `]`, `}`, a norm bar or a
/// determinant bar, and the bracket depth is one or more at every position
/// before it.
pub proof fn lemma_atom_ends_at_closer(s: Seq<Lexeme>, k: int)
    requires
        2 <= k <= s.len(),
        atom_depth(s, k - 1) == 0,
        forall|j: int| 1 <= j < k - 1 ==> atom_depth(s, j) != 0,
    ensures
        s[k - 1] is CParen
        || s[k - 1] is CBraket
        || s[k - 1] is CBrace
        || s[k - 1] is CNorm
        || s[k - 1] is CDeterminant,
        forall|j: int| 0 <= j < k - 1 ==> atom_depth(s, j) >= 1,
{
    assert forall|j: int| 0 <= j < k - 1 implies atom_depth(s, j) >= 1 by {
        lemma_atom_depth_positive(s, k - 1, j);
    }
    lemma_atom_depth_positive(s, k - 1, k - 2);
    lemma_atom_depth_step(s, k - 1);
}

/// The bracketed atom at the start of `lexemes` (whose first lexeme opens it)
/// is closed within `lexemes`.
pub open spec fn atom_closed(s: Seq<Lexeme>) -> bool {
    exists|j: int| 1 <= j < s.len() && atom_depth(s, j) == 0
}

/// The length of the bracketed atom at the start of `lexemes`: one past the
/// first position after the start at which the bracket depth comes back to
/// zero. `None` when the atom is not closed within `lexemes`.
pub fn traverse_atom(lexemes: &[Lexeme]) -> (r: Option<usize>)
    ensures
        r is Some <==> atom_closed(lexemes@),
        r matches Some(k) ==> {
            &&& 2 <= k <= lexemes@.len()
            &&& atom_depth(lexemes@, k - 1) == 0
            &&& forall|j: int| 1 <= j < k - 1 ==> atom_depth(lexemes@, j) != 0
        },
{
    let n = lexemes.len();
    let mut i: usize = 0;
    let mut level: usize = 1;
    loop
        invariant
            n == lexemes@.len(),
            i < n || (i == 0 && n == 0),
            level as int == atom_depth(lexemes@, i as int),
            0 < level <= i + 1,
            forall|j: int| 1 <= j <= i ==> atom_depth(lexemes@, j) > 0,
        decreases n - i,
    {
        if i + 1 >= n {
            assert(!atom_closed(lexemes@)) by {
                assert forall|j: int| 1 <= j < lexemes@.len() implies atom_depth(lexemes@, j) != 0 by {
                    assert(j <= i);
                }
            }
            return None;
        }
        i += 1;
        let lexeme = &lexemes[i];
        if is_opener(lexeme) {
            level += 1;
        } else if is_closer(lexeme) {
            level -= 1;
            if level == 0 {
                assert(atom_depth(lexemes@, i as int) == 0);
                return Some(i + 1);
            }
        }
    }
}

/// Parses a stream of lexemes into a scope of statements.
///
/// Only the empty stream is accepted: a stream that holds anything but line
/// breaks reaches a statement that cannot be parsed (see `parse_control`),
/// and a stream of line breaks alone makes `parse_control` take no lexemes,
/// so the loop here would not advance.
pub fn parse(lexemes: Vec<Lexeme>) -> (scope: Box<Scope>)
    requires
        lexemes@.len() == 0,
    ensures
        scope.statements@.len() == 0,
{
    let mut statements: Vec<Box<Control>> = Vec::new();
    let l = lexemes.len();
    let mut i: usize = 0;
    while i < l
        invariant
            l == lexemes@.len(),
            l == 0,
            i <= l,
            statements@.len() == 0,
        decreases l - i,
    {
        match parse_control(&lexemes.as_slice()[i..l]) {
            Some((control, length)) => {
                statements.push(control);
                i += length;
            },
            None => {
                // a statement that cannot be parsed is refused by `requires`
                proof {
                    assert(false);
                }
                break;
            },
        }
    }
    Box::new(Scope { statements })
}

/// All of `s` is line breaks.
pub open spec fn blank(s: Seq<Lexeme>) -> bool {
    forall|k: int| 0 <= k < s.len() ==> s[k] is NewLine
}

/// Parses one statement at the start of `lexemes`, after any line breaks,
/// and gives it with the number of lexemes it took.
///
/// A stream of line breaks alone gives the empty statement, with a length of
/// zero (the skipped line breaks are not counted). Any other stream gives
/// `None`: the statement is an assignment, a function definition, a `for`
/// loop or a bare expression, each of which holds an expression, and no
/// expression can be parsed yet (see `parse_arith`); or it is an `if` or a
/// `while`, which are not part of the grammar yet.
#[verifier::loop_isolation(false)]
pub fn parse_control(lexemes: &[Lexeme]) -> (r: Option<(Box<Control>, usize)>)
    ensures
        r is Some <==> blank(lexemes@),
        r matches Some((c, m)) ==> *c == Control::Empty && m == 0,
{
    let n = lexemes.len();
    let mut i: usize = 0;
    let mut start = lexemes.get(i);
    while is_new_line(start)
        invariant
            n == lexemes@.len(),
            i <= n,
            i < n ==> start == Some(&lexemes@[i as int]),
            i >= n ==> start is None,
            forall|k: int| 0 <= k < i ==> lexemes@[k] is NewLine,
        decreases n - i,
    {
        i += 1;
        start = lexemes.get(i);
    }
    assert(i < n ==> !blank(lexemes@)) by {
        if i < n {
            assert(!(lexemes@[i as int] is NewLine));
        }
    }
    match start {
        Some(Lexeme::Handle(s)) => {
            let name = s.clone();
            let next = lexemes.get(i + 1);
            match next {
                Some(Lexeme::Assign) => {
                    i += 2;
                    let (e1, length) = parse_arith(&lexemes[i..n])?;
                    i += length;
                    Some((Box::new(Control::AssignVariable { name, e1 }), i))
                },
                Some(Lexeme::AssignOp(op)) => {
                    i += 2;
                    let (e1, length) = parse_arith(&lexemes[i..n])?;
                    i += length;
                    Some((Box::new(Control::AssignVariableBOP { name, op: *op, e1 }), i))
                },
                Some(Lexeme::Let) => {
                    i += 2;
                    let (e1, length) = parse_arith(&lexemes[i..n])?;
                    i += length;
                    Some((Box::new(Control::AssignConstant { name, e1 }), i))
                },
                Some(Lexeme::OArgList) => {
                    // `name(a, b, ...) -> body` defines a function; anything
                    // else that starts with `name(` is an expression.
                    let mut definition = false;
                    let mut cursor = i + 2;
                    let mut args: Vec<String> = Vec::new();
                    loop
                        invariant
                            cursor <= n,
                            i <= n,
                        decreases n - cursor,
                    {
                        let lexeme = lexemes.get(cursor);
                        match lexeme {
                            Some(Lexeme::Handle(s)) => {
                                args.push(s.clone());
                                let comma = lexemes.get(cursor + 1);
                                match comma {
                                    Some(Lexeme::Comma) => {
                                        cursor += 2;
                                    },
                                    Some(Lexeme::CParen) => {
                                        let arrow = lexemes.get(cursor + 2);
                                        match arrow {
                                            Some(Lexeme::RightArrow) => {
                                                definition = true;
                                                i = cursor + 3;
                                            },
                                            _ => {},
                                        }
                                        break;
                                    },
                                    _ => {
                                        break;
                                    },
                                }
                            },
                            Some(Lexeme::CParen) => {
                                let arrow = lexemes.get(cursor + 1);
                                match arrow {
                                    Some(Lexeme::RightArrow) => {
                                        definition = true;
                                        i = cursor + 2;
                                    },
                                    _ => {},
                                }
                                break;
                            },
                            _ => {
                                break;
                            },
                        }
                    }
                    if definition {
                        let (body, length) = parse_arith(&lexemes[i..n])?;
                        i += length;
                        Some((Box::new(Control::AssignFunction { name, args, body }), i))
                    } else {
                        let (e1, length) = parse_arith(&lexemes[i..n])?;
                        i += length;
                        Some((Box::new(Control::StateValue { e1 }), i))
                    }
                },
                Some(Lexeme::RightArrow) => {
                    i += 2;
                    let (body, length) = parse_arith(&lexemes[i..n])?;
                    i += length;
                    Some((Box::new(Control::AssignFunction { name, args: Vec::new(), body }), i))
                },
                _ => {
                    let (e1, length) = parse_arith(&lexemes[i..n])?;
                    i += length;
                    Some((Box::new(Control::StateValue { e1 }), i))
                },
            }
        },
        Some(Lexeme::For) => {
            i += 1;
            let (range, length) = parse_arith(&lexemes[i..n])?;
            i += length;
            let key1 = lexemes.get(i);
            match key1 {
                Some(Lexeme::As) => {
                    i += 1;
                    let (target, length) = parse_decomposition(&lexemes[i..n])?;
                    i += length;
                    let key2 = lexemes.get(i);
                    match key2 {
                        Some(Lexeme::At) => {
                            i += 1;
                            let (index, length) = parse_decomposition(&lexemes[i..n])?;
                            i += length;
                            let (body, length) = parse_arith(&lexemes[i..n])?;
                            i += length;
                            Some((Box::new(Control::ForAsAt { range, target, index, body }), i))
                        },
                        Some(_) => {
                            let (body, length) = parse_arith(&lexemes[i..n])?;
                            i += length;
                            Some((Box::new(Control::ForAs { range, target, body }), i))
                        },
                        // a `for` header cut off by the end of the input
                        None => None,
                    }
                },
                Some(Lexeme::At) => {
                    i += 1;
                    let (index, length) = parse_decomposition(&lexemes[i..n])?;
                    i += length;
                    let key2 = lexemes.get(i);
                    match key2 {
                        Some(Lexeme::As) => {
                            i += 1;
                            let (target, length) = parse_decomposition(&lexemes[i..n])?;
                            i += length;
                            let (body, length) = parse_arith(&lexemes[i..n])?;
                            i += length;
                            Some((Box::new(Control::ForAsAt { range, target, index, body }), i))
                        },
                        Some(_) => {
                            let (body, length) = parse_arith(&lexemes[i..n])?;
                            i += length;
                            Some((Box::new(Control::ForAt { range, index, body }), i))
                        },
                        // a `for` header cut off by the end of the input
                        None => None,
                    }
                },
                Some(_) => {
                    let (body, length) = parse_arith(&lexemes[i..n])?;
                    i += length;
                    Some((Box::new(Control::For { range, body }), i))
                },
                // a `for` header cut off by the end of the input
                None => None,
            }
        },
        // conditionals and `while` loops are not part of the grammar yet
        Some(Lexeme::If) | Some(Lexeme::While) => None,
        Some(_) => {
            let (e1, length) = parse_arith(&lexemes[i..n])?;
            i += length;
            Some((Box::new(Control::StateValue { e1 }), i))
        },
        None => Some((Box::new(Control::Empty), 0)),
    }
}

/// Parses the target of a `for ... as` or the index of a `for ... at`.
/// The grammar of decompositions is not defined yet, so no stream is
/// accepted.
pub fn parse_decomposition(lexemes: &[Lexeme]) -> (r: Option<(Box<Decomposition>, usize)>)
    ensures
        r is None,
{
    None
}

/// Parses the expression at the start of `lexemes` and gives it with the
/// number of lexemes it spans.
///
/// The expression ends at the first `;` or line break met when it is
/// complete, that is after an operand at bracket level zero or after a
/// closing bracket that brings the level back to zero, with no operator
/// pending; a stream that ends before that is refused, and so is one whose
/// bracket level leaves the range of `i32`. The tree is then built by
/// `parse_arith_contained`, which accepts no input yet; so the result is
/// always `None`.
pub fn parse_arith(lexemes: &[Lexeme]) -> (r: Option<(Box<Arith>, usize)>)
    ensures
        r is None,
{
    let n = lexemes.len();
    let mut complete = false;
    let mut level: i32 = 0;
    let mut i: usize = 0;
    loop
        invariant
            n == lexemes@.len(),
            i <= n,
        decreases n - i,
    {
        let lexeme = lexemes.get(i);
        match lexeme {
            Some(lex) if is_opener(lex) => {
                level = level.checked_add(1)?;
                complete = false;
            },
            Some(lex) if is_closer(lex) => {
                level = level.checked_sub(1)?;
                if level == 0 {
                    complete = true;
                }
            },
            Some(Lexeme::BinaryOp(_)) => {
                complete = false;
            },
            Some(Lexeme::UnaryOp(o)) if *o != UOP::Factorial => {
                complete = false;
            },
            Some(Lexeme::Handle(_)) | Some(Lexeme::Number(_)) | Some(Lexeme::StringLiteral(_)) => {
                if level == 0 {
                    complete = true;
                }
            },
            Some(Lexeme::Semicolon) | Some(Lexeme::NewLine) => {
                if complete {
                    break;
                }
            },
            Some(_) => {},
            None => {
                if complete {
                    break;
                } else {
                    // an expression cut off by the end of the input
                    return None;
                }
            },
        }
        i += 1;
    }
    let arith = parse_arith_contained(&lexemes[0..i], 0)?;
    Some((arith, i))
}

/// Builds the tree of the expression that spans all of `lexemes`, looking for
/// operators of precedence `level` and tighter.
///
/// At levels `0` to `7` the lexemes are scanned, skipping bracketed atoms
/// whole: the first binary operator met splits the expression when it has
/// precedence `level` (the left part at the next level, the right part at
/// this one); otherwise the scan stops and the next level is tried. An atom
/// that is not closed is refused. Level `8` takes leading unary operators, and
/// refuses an empty stream. Level `9` is that of atoms (names, literals,
/// bracketed forms), which are not part of the grammar yet; a lexeme that is
/// no atom is refused as well, as is any level above `9`. So the result is
/// always `None`.
pub fn parse_arith_contained(lexemes: &[Lexeme], level: usize) -> (r: Option<Box<Arith>>)
    ensures
        r is None,
    decreases lexemes@.len(), 10 - level,
{
    let l = lexemes.len();
    if level < 8 {
        let mut i: usize = 0;
        while i < l
            invariant
                l == lexemes@.len(),
                i <= l,
                level < 8,
            decreases l - i,
        {
            let lexeme = &lexemes[i];
            match lexeme {
                Lexeme::BinaryOp(bop) => {
                    if has_precedence(level, bop) {
                        let e1 = parse_arith_contained(&lexemes[0..i], level + 1)?;
                        let e2 = parse_arith_contained(&lexemes[i + 1..l], level)?;
                        return Some(Box::new(Arith::Binary { op: *bop, e1, e2 }));
                    }
                    break;
                },
                _ => {
                    if is_opener(lexeme) {
                        let width = traverse_atom(&lexemes[i..l])?;
                        i += width;
                    } else {
                        i += 1;
                    }
                },
            }
        }
        parse_arith_contained(lexemes, level + 1)
    } else if level == 8 {
        if l == 0 {
            return None;
        }
        match &lexemes[0] {
            Lexeme::UnaryOp(uop) => {
                let e1 = parse_arith_contained(&lexemes[1..l], level)?;
                Some(Box::new(Arith::Unary { op: *uop, e1 }))
            },
            _ => parse_arith_contained(lexemes, level + 1),
        }
    } else {
        // level 9 is that of atoms, and nothing lies above it
        None
    }
}

} // verus!
