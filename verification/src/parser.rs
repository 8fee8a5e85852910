//! Recursive-descent parser: consumes the token sequence through a single
//! forward cursor, no backtracking, and builds a syntax tree rooted at a
//! `File` node. Each production either consumes tokens and returns a
//! subtree or fails with a line-tagged `ParseError`.

use vstd::prelude::*;

verus! {

use crate::lexer::{Token, TokenType, TokenTypeV, TokenV};

/// The kind of a syntax-tree node.
#[derive(Debug)]
pub enum TreeType {
    /// the root: wraps the whole input file; children are the top-level
    /// declarations
    File,
    /// a block: zero or more statements in source order
    Body,
    /// wraps a single literal, identifier or type-keyword token; no children
    Leaf(TokenType),
    /// a variable declaration: qualifier leaf, name leaf, type leaf, and an
    /// optional initializer expression as the fourth child
    Assign,
    Expression,
    Enum,
    Struct,
    /// children, in fixed order: name leaf, `Parameters`, return-type leaf,
    /// `Body`
    Function,
    Parameters,
    /// one parameter: name leaf, type leaf
    Parameter,
    Return,
    If,
    While,
}

/// A syntax-tree node: the line it starts on, its kind, and its children.
#[derive(Debug)]
pub struct Tree {
    pub line: usize,
    pub value: TreeType,
    pub params: Vec<Tree>,
}

/// The mathematical value of a `TreeType`.
pub enum TreeTypeV {
    File,
    Body,
    Leaf(TokenTypeV),
    Assign,
    Expression,
    Enum,
    Struct,
    Function,
    Parameters,
    Parameter,
    Return,
    If,
    While,
}

/// The mathematical value of a `Tree`: kind, line, and children as a
/// sequence of tree values.
#[verifier::ext_equal]
pub struct TreeV {
    pub line: nat,
    pub value: TreeTypeV,
    pub params: Seq<TreeV>,
}

impl View for TreeType {
    type V = TreeTypeV;

    open spec fn view(&self) -> TreeTypeV {
        match self {
            TreeType::File => TreeTypeV::File,
            TreeType::Body => TreeTypeV::Body,
            TreeType::Leaf(t) => TreeTypeV::Leaf(t@),
            TreeType::Assign => TreeTypeV::Assign,
            TreeType::Expression => TreeTypeV::Expression,
            TreeType::Enum => TreeTypeV::Enum,
            TreeType::Struct => TreeTypeV::Struct,
            TreeType::Function => TreeTypeV::Function,
            TreeType::Parameters => TreeTypeV::Parameters,
            TreeType::Parameter => TreeTypeV::Parameter,
            TreeType::Return => TreeTypeV::Return,
            TreeType::If => TreeTypeV::If,
            TreeType::While => TreeTypeV::While,
        }
    }
}

/// A number distinguishing the kinds of tree nodes, the leaf's token
/// ignored: two node kinds are "the same shape" exactly when their codes
/// agree.
pub open spec fn tree_kind_code(t: TreeTypeV) -> int {
    match t {
        TreeTypeV::File => 0,
        TreeTypeV::Body => 1,
        TreeTypeV::Leaf(_) => 2,
        TreeTypeV::Assign => 3,
        TreeTypeV::Expression => 4,
        TreeTypeV::Enum => 5,
        TreeTypeV::Struct => 6,
        TreeTypeV::Function => 7,
        TreeTypeV::Parameters => 8,
        TreeTypeV::Parameter => 9,
        TreeTypeV::Return => 10,
        TreeTypeV::If => 11,
        TreeTypeV::While => 12,
    }
}

/// Same-shape for tree kinds: variant identity only.
pub open spec fn tree_kind_eq(a: TreeTypeV, b: TreeTypeV) -> bool {
    tree_kind_code(a) == tree_kind_code(b)
}

impl TreeType {
    /// The executable kind code.
    pub fn kind_code(&self) -> (r: u32)
        ensures
            r == tree_kind_code(self@),
    {
        match self {
            TreeType::File => 0,
            TreeType::Body => 1,
            TreeType::Leaf(_) => 2,
            TreeType::Assign => 3,
            TreeType::Expression => 4,
            TreeType::Enum => 5,
            TreeType::Struct => 6,
            TreeType::Function => 7,
            TreeType::Parameters => 8,
            TreeType::Parameter => 9,
            TreeType::Return => 10,
            TreeType::If => 11,
            TreeType::While => 12,
        }
    }
}

impl PartialEq for TreeType {
    /// Equality is variant identity only: a leaf's wrapped token does not
    /// take part.
    fn eq(&self, other: &Self) -> (r: bool) {
        self.kind_code() == other.kind_code()
    }
}

impl vstd::std_specs::cmp::PartialEqSpecImpl for TreeType {
    open spec fn obeys_eq_spec() -> bool {
        true
    }

    open spec fn eq_spec(&self, other: &Self) -> bool {
        tree_kind_eq(self@, other@)
    }
}

pub open spec fn tree_view(t: Tree) -> TreeV
    decreases t,
{
    TreeV { line: t.line as nat, value: t.value@, params: trees_view(t.params@) }
}

pub open spec fn trees_view(s: Seq<Tree>) -> Seq<TreeV>
    decreases s,
{
    if s.len() == 0 {
        Seq::empty()
    } else {
        seq![tree_view(s[0])] + trees_view(s.drop_first())
    }
}

impl View for Tree {
    type V = TreeV;

    open spec fn view(&self) -> TreeV {
        tree_view(*self)
    }
}

impl DeepView for Tree {
    type V = TreeV;

    open spec fn deep_view(&self) -> TreeV {
        self.view()
    }
}

pub broadcast proof fn lemma_trees_view_props(s: Seq<Tree>)
    ensures
        (#[trigger] trees_view(s)).len() == s.len(),
        forall|k: int| 0 <= k < s.len() ==> trees_view(s)[k] == tree_view(s[k]),
    decreases s.len(),
{
    if s.len() > 0 {
        lemma_trees_view_props(s.drop_first());
    }
}

pub broadcast proof fn lemma_deep_view_is_trees_view(v: Vec<Tree>)
    ensures
        #[trigger] v.deep_view() == trees_view(v@),
{
    lemma_trees_view_props(v@);
    assert(v.deep_view() =~= trees_view(v@));
}

/// What a node's view is, child by child.
pub proof fn lemma_tree_node(t: Tree)
    ensures
        t@.line == t.line as nat,
        t@.value == t.value@,
        t@.params.len() == t.params@.len(),
        forall|k: int| 0 <= k < t.params@.len() ==> t@.params[k] == tree_view(t.params@[k]),
{
    lemma_trees_view_props(t.params@);
}

// ---------------------------------------------------------------------------
// Parse errors
// ---------------------------------------------------------------------------

/// What a syntactic error expected to find, or found and could not accept.
#[derive(Debug)]
pub enum ParseErrorKind {
    /// end of input where a statement was expected
    ExpectedToken,
    /// a token that can start no statement (punctuation, an operator, a
    /// bare type keyword) where a statement was expected
    UnexpectedToken(TokenType),
    /// end of input where a function name was expected
    ExpectedFunctionName,
    /// the named token stood where a function name was expected
    NotAFunctionName(TokenType),
    /// `(` missing after the function name
    ExpectedParamsOpen,
    /// `,` missing between parameters
    ExpectedParamsComma,
    ExpectedParameterName,
    /// `:` missing between a parameter's name and type
    ExpectedParamColon,
    ExpectedParameterType,
    /// neither `->` nor `{` after the parameter list
    ExpectedBodyOrArrow,
    ExpectedReturnType,
    /// `{` missing after the return type
    ExpectedFunctionBody,
    /// end of input before the `}` closing a block
    ExpectedBodyClose,
    ExpectedVariableName,
    /// `:` missing between a variable's name and type
    ExpectedAssignColon,
    ExpectedVariableType,
    /// neither `=` nor `;` after a variable's type
    ExpectedAssignOrSemicolon,
    /// `;` missing after an initializer or a return statement
    ExpectedSemicolon,
    ExpectedExpression,
    /// `)` missing after a parenthesized expression
    ExpectedCloseParen,
    /// neither `,` nor `)` between call arguments
    ExpectedArgsCommaOrClose,
    /// `{` missing after an `if` condition
    ExpectedIfBody,
    /// neither `{` nor `if` after `else`
    ExpectedElseBody,
    /// `{` missing after a `while` condition
    ExpectedWhileBody,
    ExpectedEnumName,
    /// `{` missing after an enum's name
    ExpectedEnumBody,
    ExpectedVariantName,
    /// `,` missing between enum variants
    ExpectedEnumComma,
    ExpectedStructName,
    /// `{` missing after a struct's name
    ExpectedStructBody,
    ExpectedFieldName,
    /// `:` missing between a field's name and type
    ExpectedFieldColon,
    ExpectedFieldType,
    /// `,` missing between struct fields
    ExpectedStructComma,
}

/// A fatal syntactic condition: the line of the token that triggered it
/// and what was expected there. Parsing stops at the first one.
#[derive(Debug)]
pub struct ParseError {
    pub line: usize,
    pub kind: ParseErrorKind,
}

/// The mathematical value of a `ParseErrorKind`.
pub enum ParseErrorKindV {
    ExpectedToken,
    UnexpectedToken(TokenTypeV),
    ExpectedFunctionName,
    NotAFunctionName(TokenTypeV),
    ExpectedParamsOpen,
    ExpectedParamsComma,
    ExpectedParameterName,
    ExpectedParamColon,
    ExpectedParameterType,
    ExpectedBodyOrArrow,
    ExpectedReturnType,
    ExpectedFunctionBody,
    ExpectedBodyClose,
    ExpectedVariableName,
    ExpectedAssignColon,
    ExpectedVariableType,
    ExpectedAssignOrSemicolon,
    ExpectedSemicolon,
    ExpectedExpression,
    ExpectedCloseParen,
    ExpectedArgsCommaOrClose,
    ExpectedIfBody,
    ExpectedElseBody,
    ExpectedWhileBody,
    ExpectedEnumName,
    ExpectedEnumBody,
    ExpectedVariantName,
    ExpectedEnumComma,
    ExpectedStructName,
    ExpectedStructBody,
    ExpectedFieldName,
    ExpectedFieldColon,
    ExpectedFieldType,
    ExpectedStructComma,
}

/// The mathematical value of a `ParseError`.
pub struct ParseErrorV {
    pub line: nat,
    pub kind: ParseErrorKindV,
}

impl View for ParseErrorKind {
    type V = ParseErrorKindV;

    open spec fn view(&self) -> ParseErrorKindV {
        match self {
            ParseErrorKind::ExpectedToken => ParseErrorKindV::ExpectedToken,
            ParseErrorKind::UnexpectedToken(t) => ParseErrorKindV::UnexpectedToken(t@),
            ParseErrorKind::ExpectedFunctionName => ParseErrorKindV::ExpectedFunctionName,
            ParseErrorKind::NotAFunctionName(t) => ParseErrorKindV::NotAFunctionName(t@),
            ParseErrorKind::ExpectedParamsOpen => ParseErrorKindV::ExpectedParamsOpen,
            ParseErrorKind::ExpectedParamsComma => ParseErrorKindV::ExpectedParamsComma,
            ParseErrorKind::ExpectedParameterName => ParseErrorKindV::ExpectedParameterName,
            ParseErrorKind::ExpectedParamColon => ParseErrorKindV::ExpectedParamColon,
            ParseErrorKind::ExpectedParameterType => ParseErrorKindV::ExpectedParameterType,
            ParseErrorKind::ExpectedBodyOrArrow => ParseErrorKindV::ExpectedBodyOrArrow,
            ParseErrorKind::ExpectedReturnType => ParseErrorKindV::ExpectedReturnType,
            ParseErrorKind::ExpectedFunctionBody => ParseErrorKindV::ExpectedFunctionBody,
            ParseErrorKind::ExpectedBodyClose => ParseErrorKindV::ExpectedBodyClose,
            ParseErrorKind::ExpectedVariableName => ParseErrorKindV::ExpectedVariableName,
            ParseErrorKind::ExpectedAssignColon => ParseErrorKindV::ExpectedAssignColon,
            ParseErrorKind::ExpectedVariableType => ParseErrorKindV::ExpectedVariableType,
            ParseErrorKind::ExpectedAssignOrSemicolon => ParseErrorKindV::ExpectedAssignOrSemicolon,
            ParseErrorKind::ExpectedSemicolon => ParseErrorKindV::ExpectedSemicolon,
            ParseErrorKind::ExpectedExpression => ParseErrorKindV::ExpectedExpression,
            ParseErrorKind::ExpectedCloseParen => ParseErrorKindV::ExpectedCloseParen,
            ParseErrorKind::ExpectedArgsCommaOrClose => ParseErrorKindV::ExpectedArgsCommaOrClose,
            ParseErrorKind::ExpectedIfBody => ParseErrorKindV::ExpectedIfBody,
            ParseErrorKind::ExpectedElseBody => ParseErrorKindV::ExpectedElseBody,
            ParseErrorKind::ExpectedWhileBody => ParseErrorKindV::ExpectedWhileBody,
            ParseErrorKind::ExpectedEnumName => ParseErrorKindV::ExpectedEnumName,
            ParseErrorKind::ExpectedEnumBody => ParseErrorKindV::ExpectedEnumBody,
            ParseErrorKind::ExpectedVariantName => ParseErrorKindV::ExpectedVariantName,
            ParseErrorKind::ExpectedEnumComma => ParseErrorKindV::ExpectedEnumComma,
            ParseErrorKind::ExpectedStructName => ParseErrorKindV::ExpectedStructName,
            ParseErrorKind::ExpectedStructBody => ParseErrorKindV::ExpectedStructBody,
            ParseErrorKind::ExpectedFieldName => ParseErrorKindV::ExpectedFieldName,
            ParseErrorKind::ExpectedFieldColon => ParseErrorKindV::ExpectedFieldColon,
            ParseErrorKind::ExpectedFieldType => ParseErrorKindV::ExpectedFieldType,
            ParseErrorKind::ExpectedStructComma => ParseErrorKindV::ExpectedStructComma,
        }
    }
}

impl View for ParseError {
    type V = ParseErrorV;

    open spec fn view(&self) -> ParseErrorV {
        ParseErrorV { line: self.line as nat, kind: self.kind@ }
    }
}

// ---------------------------------------------------------------------------
// The parser's mathematical definition
//
// One spec function per production, each over the token sequence, a cursor
// and the line of the last consumed token, returning the subtree, the
// cursor after it and the new line — or the first error. The executable
// parser below is proved to return exactly what these say.
// ---------------------------------------------------------------------------

/// A leaf wrapping one token kind.
pub open spec fn leaf_v(t: TokenTypeV, line: nat) -> TreeV {
    TreeV { line, value: TreeTypeV::Leaf(t), params: Seq::empty() }
}

/// The cursor after a sub-parse that started at `p`, clamped into `(p, n]`.
/// A successful sub-parse always consumes at least one token, so on every
/// reachable path this is the sub-parse's own result; the clamp only
/// witnesses that for the termination measure.
pub open spec fn next_at(j: int, p: int, n: int) -> int {
    let a = if j > p {
        j
    } else {
        p + 1
    };
    if a <= n {
        a
    } else {
        n
    }
}

/// A token that names a type: a primitive type keyword or an identifier
/// (a named/struct type).
pub open spec fn is_type_token(t: TokenTypeV) -> bool {
    t is Int || t is Float || t is Bool || t is String || t is Identifier
}

/// A token that parses to a bare leaf where a statement is expected.
pub open spec fn is_leaf_token(t: TokenTypeV) -> bool {
    t is IntLit || t is FloatLit || t is BoolLit || t is StringLit || t is Identifier
}

/// The binary operators of each precedence tier, lowest first: logical,
/// equality, relational, additive, multiplicative. All left-associative.
pub open spec fn level_op(level: int, t: TokenTypeV) -> bool {
    if level == 0 {
        t is Or || t is And || t is Xor
    } else if level == 1 {
        t is Eq || t is Neq
    } else if level == 2 {
        t is Lt || t is Lte || t is Gt || t is Gte
    } else if level == 3 {
        t is Plus || t is Minus
    } else {
        t is Star || t is Slash || t is Mod
    }
}

/// A primary expression: a literal leaf, an identifier (or a call when `(`
/// follows it), or a parenthesized sub-expression.
pub open spec fn parse_primary(toks: Seq<TokenV>, i: int, line: nat) -> Result<
    (TreeV, int, nat),
    ParseErrorV,
>
    decreases toks.len() - i, 13int,
    when 0 <= i <= toks.len()
{
    let n = toks.len() as int;
    if i == n {
        Err(ParseErrorV { line, kind: ParseErrorKindV::ExpectedExpression })
    } else {
        let tv = toks[i];
        if tv.value is IntLit || tv.value is FloatLit || tv.value is BoolLit
            || tv.value is StringLit {
            Ok((leaf_v(tv.value, tv.line), i + 1, tv.line))
        } else if tv.value is Identifier {
            if i + 1 < n && toks[i + 1].value is LeftParen {
                match parse_args(toks, i + 2, toks[i + 1].line, true, Seq::empty()) {
                    Ok((args, j, l)) => Ok(
                        (
                            TreeV {
                                line: tv.line,
                                value: TreeTypeV::Expression,
                                params: seq![
                                    leaf_v(tv.value, tv.line),
                                    TreeV {
                                        line: toks[i + 1].line,
                                        value: TreeTypeV::Parameters,
                                        params: args,
                                    },
                                ],
                            },
                            j,
                            l,
                        ),
                    ),
                    Err(e) => Err(e),
                }
            } else {
                Ok((leaf_v(tv.value, tv.line), i + 1, tv.line))
            }
        } else if tv.value is LeftParen {
            match parse_bin(toks, 0, i + 1, tv.line) {
                Ok((t, j, l)) => {
                    let jc = next_at(j, i + 1, n);
                    if jc < n && toks[jc].value is RightParen {
                        Ok((t, jc + 1, toks[jc].line))
                    } else if jc == n {
                        Err(ParseErrorV { line: l, kind: ParseErrorKindV::ExpectedCloseParen })
                    } else {
                        Err(
                            ParseErrorV {
                                line: toks[jc].line,
                                kind: ParseErrorKindV::ExpectedCloseParen,
                            },
                        )
                    }
                },
                Err(e) => Err(e),
            }
        } else {
            Err(ParseErrorV { line: tv.line, kind: ParseErrorKindV::ExpectedExpression })
        }
    }
}

/// The arguments of a call, the cursor just after the `(`: expressions
/// separated by commas, closed by `)`. An empty list is valid; a trailing
/// comma is not.
pub open spec fn parse_args(
    toks: Seq<TokenV>,
    i: int,
    line: nat,
    first: bool,
    acc: Seq<TreeV>,
) -> Result<(Seq<TreeV>, int, nat), ParseErrorV>
    decreases toks.len() - i, 50int,
    when 0 <= i <= toks.len()
{
    let n = toks.len() as int;
    if i == n {
        Err(
            ParseErrorV {
                line,
                kind: if first {
                    ParseErrorKindV::ExpectedExpression
                } else {
                    ParseErrorKindV::ExpectedArgsCommaOrClose
                },
            },
        )
    } else {
        let tv = toks[i];
        if tv.value is RightParen {
            Ok((acc, i + 1, tv.line))
        } else if !first && !(tv.value is Comma) {
            Err(ParseErrorV { line: tv.line, kind: ParseErrorKindV::ExpectedArgsCommaOrClose })
        } else {
            let p = if first {
                i
            } else {
                i + 1
            };
            let pline = if first {
                line
            } else {
                tv.line
            };
            match parse_bin(toks, 0, p, pline) {
                Ok((t, j, l)) => parse_args(toks, next_at(j, p, n), l, false, acc.push(t)),
                Err(e) => Err(e),
            }
        }
    }
}

/// A unary-prefix expression: `!`, `~` or `-` applied to a unary
/// expression, or a primary expression.
pub open spec fn parse_unary(toks: Seq<TokenV>, i: int, line: nat) -> Result<
    (TreeV, int, nat),
    ParseErrorV,
>
    decreases toks.len() - i, 14int,
    when 0 <= i <= toks.len()
{
    let n = toks.len() as int;
    if i == n {
        Err(ParseErrorV { line, kind: ParseErrorKindV::ExpectedExpression })
    } else {
        let tv = toks[i];
        if tv.value is Not || tv.value is BwNot || tv.value is Minus {
            match parse_unary(toks, i + 1, tv.line) {
                Ok((u, j, l)) => Ok(
                    (
                        TreeV {
                            line: tv.line,
                            value: TreeTypeV::Expression,
                            params: seq![leaf_v(tv.value, tv.line), u],
                        },
                        j,
                        l,
                    ),
                ),
                Err(e) => Err(e),
            }
        } else {
            parse_primary(toks, i, line)
        }
    }
}

/// A binary expression of the given tier: one operand of the next tier,
/// then operator-operand pairs folded left-associatively.
pub open spec fn parse_bin(toks: Seq<TokenV>, level: int, i: int, line: nat) -> Result<
    (TreeV, int, nat),
    ParseErrorV,
>
    decreases toks.len() - i, 20int - level,
    when 0 <= i <= toks.len() && 0 <= level <= 4
{
    let n = toks.len() as int;
    let sub = if level == 4 {
        parse_unary(toks, i, line)
    } else {
        parse_bin(toks, level + 1, i, line)
    };
    match sub {
        Ok((t, j, l)) => parse_bin_rest(toks, level, next_at(j, i, n), l, t),
        Err(e) => Err(e),
    }
}

/// The left-associative fold: while the next token is an operator of this
/// tier, parse one more operand of the next tier and attach it.
pub open spec fn parse_bin_rest(
    toks: Seq<TokenV>,
    level: int,
    i: int,
    line: nat,
    lhs: TreeV,
) -> Result<(TreeV, int, nat), ParseErrorV>
    decreases toks.len() - i, 0int,
    when 0 <= i <= toks.len() && 0 <= level <= 4
{
    let n = toks.len() as int;
    if i == n {
        Ok((lhs, i, line))
    } else {
        let tv = toks[i];
        if level_op(level, tv.value) {
            let sub = if level == 4 {
                parse_unary(toks, i + 1, tv.line)
            } else {
                parse_bin(toks, level + 1, i + 1, tv.line)
            };
            match sub {
                Ok((u, j, l)) => parse_bin_rest(
                    toks,
                    level,
                    next_at(j, i + 1, n),
                    l,
                    TreeV {
                        line: tv.line,
                        value: TreeTypeV::Expression,
                        params: seq![lhs, leaf_v(tv.value, tv.line), u],
                    },
                ),
                Err(e) => Err(e),
            }
        } else {
            Ok((lhs, i, line))
        }
    }
}

/// An expression: the lowest binary tier.
pub open spec fn parse_expression_v(toks: Seq<TokenV>, i: int, line: nat) -> Result<
    (TreeV, int, nat),
    ParseErrorV,
> {
    parse_bin(toks, 0, i, line)
}

/// The parameter list of a function declaration, the cursor just after
/// the `(`: zero or more `name : type` pairs separated by commas, closed
/// by `)`. Each pair becomes a `Parameter` node.
pub open spec fn parse_params(
    toks: Seq<TokenV>,
    i: int,
    line: nat,
    first: bool,
    acc: Seq<TreeV>,
) -> Result<(Seq<TreeV>, int, nat), ParseErrorV>
    decreases toks.len() - i,
    when 0 <= i <= toks.len()
{
    let n = toks.len() as int;
    if i == n {
        Err(
            ParseErrorV {
                line,
                kind: if first {
                    ParseErrorKindV::ExpectedParameterName
                } else {
                    ParseErrorKindV::ExpectedParamsComma
                },
            },
        )
    } else {
        let tv = toks[i];
        if tv.value is RightParen {
            Ok((acc, i + 1, tv.line))
        } else if !first && !(tv.value is Comma) {
            Err(ParseErrorV { line: tv.line, kind: ParseErrorKindV::ExpectedParamsComma })
        } else {
            let p = if first {
                i
            } else {
                i + 1
            };
            if p == n {
                Err(ParseErrorV { line: tv.line, kind: ParseErrorKindV::ExpectedParameterName })
            } else if !(toks[p].value is Identifier) {
                Err(
                    ParseErrorV {
                        line: toks[p].line,
                        kind: ParseErrorKindV::ExpectedParameterName,
                    },
                )
            } else if p + 1 == n {
                Err(ParseErrorV { line: toks[p].line, kind: ParseErrorKindV::ExpectedParamColon })
            } else if !(toks[p + 1].value is Colon) {
                Err(
                    ParseErrorV {
                        line: toks[p + 1].line,
                        kind: ParseErrorKindV::ExpectedParamColon,
                    },
                )
            } else if p + 2 == n {
                Err(
                    ParseErrorV {
                        line: toks[p + 1].line,
                        kind: ParseErrorKindV::ExpectedParameterType,
                    },
                )
            } else if !is_type_token(toks[p + 2].value) {
                Err(
                    ParseErrorV {
                        line: toks[p + 2].line,
                        kind: ParseErrorKindV::ExpectedParameterType,
                    },
                )
            } else {
                let param = TreeV {
                    line: toks[p].line,
                    value: TreeTypeV::Parameter,
                    params: seq![
                        leaf_v(toks[p].value, toks[p].line),
                        leaf_v(toks[p + 2].value, toks[p + 2].line),
                    ],
                };
                parse_params(toks, p + 3, toks[p + 2].line, false, acc.push(param))
            }
        }
    }
}

/// The variants of an enum declaration, the cursor just after the `{`:
/// identifiers separated by commas, closed by `}`. Each becomes a leaf.
pub open spec fn parse_variants(
    toks: Seq<TokenV>,
    i: int,
    line: nat,
    first: bool,
    acc: Seq<TreeV>,
) -> Result<(Seq<TreeV>, int, nat), ParseErrorV>
    decreases toks.len() - i,
    when 0 <= i <= toks.len()
{
    let n = toks.len() as int;
    if i == n {
        Err(
            ParseErrorV {
                line,
                kind: if first {
                    ParseErrorKindV::ExpectedVariantName
                } else {
                    ParseErrorKindV::ExpectedEnumComma
                },
            },
        )
    } else {
        let tv = toks[i];
        if tv.value is RightCurly {
            Ok((acc, i + 1, tv.line))
        } else if !first && !(tv.value is Comma) {
            Err(ParseErrorV { line: tv.line, kind: ParseErrorKindV::ExpectedEnumComma })
        } else {
            let p = if first {
                i
            } else {
                i + 1
            };
            if p == n {
                Err(ParseErrorV { line: tv.line, kind: ParseErrorKindV::ExpectedVariantName })
            } else if !(toks[p].value is Identifier) {
                Err(ParseErrorV { line: toks[p].line, kind: ParseErrorKindV::ExpectedVariantName })
            } else {
                parse_variants(
                    toks,
                    p + 1,
                    toks[p].line,
                    false,
                    acc.push(leaf_v(toks[p].value, toks[p].line)),
                )
            }
        }
    }
}

/// The fields of a struct declaration, the cursor just after the `{`:
/// `name : type` pairs separated by commas, closed by `}`. Each pair
/// becomes a `Parameter` node, as in a function's parameter list.
pub open spec fn parse_fields(
    toks: Seq<TokenV>,
    i: int,
    line: nat,
    first: bool,
    acc: Seq<TreeV>,
) -> Result<(Seq<TreeV>, int, nat), ParseErrorV>
    decreases toks.len() - i,
    when 0 <= i <= toks.len()
{
    let n = toks.len() as int;
    if i == n {
        Err(
            ParseErrorV {
                line,
                kind: if first {
                    ParseErrorKindV::ExpectedFieldName
                } else {
                    ParseErrorKindV::ExpectedStructComma
                },
            },
        )
    } else {
        let tv = toks[i];
        if tv.value is RightCurly {
            Ok((acc, i + 1, tv.line))
        } else if !first && !(tv.value is Comma) {
            Err(ParseErrorV { line: tv.line, kind: ParseErrorKindV::ExpectedStructComma })
        } else {
            let p = if first {
                i
            } else {
                i + 1
            };
            if p == n {
                Err(ParseErrorV { line: tv.line, kind: ParseErrorKindV::ExpectedFieldName })
            } else if !(toks[p].value is Identifier) {
                Err(ParseErrorV { line: toks[p].line, kind: ParseErrorKindV::ExpectedFieldName })
            } else if p + 1 == n {
                Err(ParseErrorV { line: toks[p].line, kind: ParseErrorKindV::ExpectedFieldColon })
            } else if !(toks[p + 1].value is Colon) {
                Err(
                    ParseErrorV {
                        line: toks[p + 1].line,
                        kind: ParseErrorKindV::ExpectedFieldColon,
                    },
                )
            } else if p + 2 == n {
                Err(ParseErrorV { line: toks[p + 1].line, kind: ParseErrorKindV::ExpectedFieldType })
            } else if !is_type_token(toks[p + 2].value) {
                Err(ParseErrorV { line: toks[p + 2].line, kind: ParseErrorKindV::ExpectedFieldType })
            } else {
                let field = TreeV {
                    line: toks[p].line,
                    value: TreeTypeV::Parameter,
                    params: seq![
                        leaf_v(toks[p].value, toks[p].line),
                        leaf_v(toks[p + 2].value, toks[p + 2].line),
                    ],
                };
                parse_fields(toks, p + 3, toks[p + 2].line, false, acc.push(field))
            }
        }
    }
}

/// One statement or declaration: the dispatch on a single token of
/// lookahead. `fn` starts a function, `const`/`var` a variable
/// declaration, `if`/`while`/`return`/`enum`/`struct` their constructs; a
/// literal or identifier resolves to a bare leaf; anything else is fatal.
pub open spec fn parse_stmt(toks: Seq<TokenV>, i: int, line: nat) -> Result<
    (TreeV, int, nat),
    ParseErrorV,
>
    decreases toks.len() - i, 0int,
    when 0 <= i <= toks.len()
{
    let n = toks.len() as int;
    if i == n {
        Err(ParseErrorV { line, kind: ParseErrorKindV::ExpectedToken })
    } else {
        let tv = toks[i];
        match tv.value {
            TokenTypeV::Function => parse_function(toks, i + 1, tv.line),
            TokenTypeV::Const => parse_assign(toks, i + 1, tv.line, TokenTypeV::Const),
            TokenTypeV::Var => parse_assign(toks, i + 1, tv.line, TokenTypeV::Var),
            TokenTypeV::If => parse_if(toks, i + 1, tv.line),
            TokenTypeV::While => parse_while(toks, i + 1, tv.line),
            TokenTypeV::Return => parse_return(toks, i + 1, tv.line),
            TokenTypeV::Enum => parse_enum(toks, i + 1, tv.line),
            TokenTypeV::Struct => parse_struct(toks, i + 1, tv.line),
            _ => if is_leaf_token(tv.value) {
                Ok((leaf_v(tv.value, tv.line), i + 1, tv.line))
            } else {
                Err(ParseErrorV { line: tv.line, kind: ParseErrorKindV::UnexpectedToken(tv.value) })
            },
        }
    }
}

/// The statements of a block, the cursor just after the `{`: statements
/// until the closing `}`, which is consumed. End of input first is fatal.
pub open spec fn parse_body(toks: Seq<TokenV>, i: int, line: nat, acc: Seq<TreeV>) -> Result<
    (Seq<TreeV>, int, nat),
    ParseErrorV,
>
    decreases toks.len() - i, 1int,
    when 0 <= i <= toks.len()
{
    let n = toks.len() as int;
    if i == n {
        Err(ParseErrorV { line, kind: ParseErrorKindV::ExpectedBodyClose })
    } else if toks[i].value is RightCurly {
        Ok((acc, i + 1, toks[i].line))
    } else {
        match parse_stmt(toks, i, toks[i].line) {
            Ok((t, j, l)) => parse_body(toks, next_at(j, i, n), l, acc.push(t)),
            Err(e) => Err(e),
        }
    }
}

/// A function declaration, the `fn` already consumed:
/// `IDENT ( params ) [-> TYPE] { body }`. The children stand in fixed
/// order: name leaf, `Parameters`, return-type leaf, `Body`. Without `->`
/// the return-type child is the synthetic `void` leaf.
pub open spec fn parse_function(toks: Seq<TokenV>, i: int, line: nat) -> Result<
    (TreeV, int, nat),
    ParseErrorV,
>
    decreases toks.len() - i, 0int,
    when 0 <= i <= toks.len()
{
    let n = toks.len() as int;
    if i == n {
        Err(ParseErrorV { line, kind: ParseErrorKindV::ExpectedFunctionName })
    } else if !(toks[i].value is Identifier) {
        Err(
            ParseErrorV {
                line: toks[i].line,
                kind: ParseErrorKindV::NotAFunctionName(toks[i].value),
            },
        )
    } else {
        let name = leaf_v(toks[i].value, toks[i].line);
        if i + 1 == n {
            Err(ParseErrorV { line: toks[i].line, kind: ParseErrorKindV::ExpectedParamsOpen })
        } else if !(toks[i + 1].value is LeftParen) {
            Err(ParseErrorV { line: toks[i + 1].line, kind: ParseErrorKindV::ExpectedParamsOpen })
        } else {
            match parse_params(toks, i + 2, toks[i + 1].line, true, Seq::empty()) {
                Ok((ps, jr, l1)) => {
                    let pnode = TreeV {
                        line: toks[i + 1].line,
                        value: TreeTypeV::Parameters,
                        params: ps,
                    };
                    let j = next_at(jr, i + 2, n);
                    if j == n {
                        Err(ParseErrorV { line: l1, kind: ParseErrorKindV::ExpectedBodyOrArrow })
                    } else if toks[j].value is Arrow {
                        if j + 1 == n {
                            Err(
                                ParseErrorV {
                                    line: toks[j].line,
                                    kind: ParseErrorKindV::ExpectedReturnType,
                                },
                            )
                        } else if !is_type_token(toks[j + 1].value) {
                            Err(
                                ParseErrorV {
                                    line: toks[j + 1].line,
                                    kind: ParseErrorKindV::ExpectedReturnType,
                                },
                            )
                        } else if j + 2 == n {
                            Err(
                                ParseErrorV {
                                    line: toks[j + 1].line,
                                    kind: ParseErrorKindV::ExpectedFunctionBody,
                                },
                            )
                        } else if !(toks[j + 2].value is LeftCurly) {
                            Err(
                                ParseErrorV {
                                    line: toks[j + 2].line,
                                    kind: ParseErrorKindV::ExpectedFunctionBody,
                                },
                            )
                        } else {
                            let ret = leaf_v(toks[j + 1].value, toks[j + 2].line);
                            match parse_body(toks, j + 3, toks[j + 2].line, Seq::empty()) {
                                Ok((bs, k, l2)) => Ok(
                                    (
                                        TreeV {
                                            line,
                                            value: TreeTypeV::Function,
                                            params: seq![
                                                name,
                                                pnode,
                                                ret,
                                                TreeV {
                                                    line: toks[j + 2].line,
                                                    value: TreeTypeV::Body,
                                                    params: bs,
                                                },
                                            ],
                                        },
                                        k,
                                        l2,
                                    ),
                                ),
                                Err(e) => Err(e),
                            }
                        }
                    } else if toks[j].value is LeftCurly {
                        let ret = leaf_v(TokenTypeV::Void, toks[j].line);
                        match parse_body(toks, j + 1, toks[j].line, Seq::empty()) {
                            Ok((bs, k, l2)) => Ok(
                                (
                                    TreeV {
                                        line,
                                        value: TreeTypeV::Function,
                                        params: seq![
                                            name,
                                            pnode,
                                            ret,
                                            TreeV {
                                                line: toks[j].line,
                                                value: TreeTypeV::Body,
                                                params: bs,
                                            },
                                        ],
                                    },
                                    k,
                                    l2,
                                ),
                            ),
                            Err(e) => Err(e),
                        }
                    } else {
                        Err(
                            ParseErrorV {
                                line: toks[j].line,
                                kind: ParseErrorKindV::ExpectedBodyOrArrow,
                            },
                        )
                    }
                },
                Err(e) => Err(e),
            }
        }
    }
}

/// A variable declaration, the `const`/`var` already consumed:
/// `IDENT : TYPE (';' | '=' expression ';')`. Children: qualifier leaf,
/// name leaf, type leaf, and the initializer expression when present.
pub open spec fn parse_assign(toks: Seq<TokenV>, i: int, line: nat, qual: TokenTypeV) -> Result<
    (TreeV, int, nat),
    ParseErrorV,
>
    decreases toks.len() - i, 0int,
    when 0 <= i <= toks.len()
{
    let n = toks.len() as int;
    let qleaf = leaf_v(qual, line);
    if i == n {
        Err(ParseErrorV { line, kind: ParseErrorKindV::ExpectedVariableName })
    } else if !(toks[i].value is Identifier) {
        Err(ParseErrorV { line: toks[i].line, kind: ParseErrorKindV::ExpectedVariableName })
    } else {
        let name = leaf_v(toks[i].value, toks[i].line);
        if i + 1 == n {
            Err(ParseErrorV { line: toks[i].line, kind: ParseErrorKindV::ExpectedAssignColon })
        } else if !(toks[i + 1].value is Colon) {
            Err(ParseErrorV { line: toks[i + 1].line, kind: ParseErrorKindV::ExpectedAssignColon })
        } else if i + 2 == n {
            Err(ParseErrorV { line: toks[i + 1].line, kind: ParseErrorKindV::ExpectedVariableType })
        } else if !is_type_token(toks[i + 2].value) {
            Err(ParseErrorV { line: toks[i + 2].line, kind: ParseErrorKindV::ExpectedVariableType })
        } else {
            let ty = leaf_v(toks[i + 2].value, toks[i + 2].line);
            if i + 3 == n {
                Err(
                    ParseErrorV {
                        line: toks[i + 2].line,
                        kind: ParseErrorKindV::ExpectedAssignOrSemicolon,
                    },
                )
            } else if toks[i + 3].value is Semicolon {
                Ok(
                    (
                        TreeV { line, value: TreeTypeV::Assign, params: seq![qleaf, name, ty] },
                        i + 4,
                        toks[i + 3].line,
                    ),
                )
            } else if toks[i + 3].value is Assign {
                match parse_expression_v(toks, i + 4, toks[i + 3].line) {
                    Ok((e, j, l)) => {
                        let jc = next_at(j, i + 4, n);
                        if jc < n && toks[jc].value is Semicolon {
                            Ok(
                                (
                                    TreeV {
                                        line,
                                        value: TreeTypeV::Assign,
                                        params: seq![qleaf, name, ty, e],
                                    },
                                    jc + 1,
                                    toks[jc].line,
                                ),
                            )
                        } else if jc == n {
                            Err(ParseErrorV { line: l, kind: ParseErrorKindV::ExpectedSemicolon })
                        } else {
                            Err(
                                ParseErrorV {
                                    line: toks[jc].line,
                                    kind: ParseErrorKindV::ExpectedSemicolon,
                                },
                            )
                        }
                    },
                    Err(e) => Err(e),
                }
            } else {
                Err(
                    ParseErrorV {
                        line: toks[i + 3].line,
                        kind: ParseErrorKindV::ExpectedAssignOrSemicolon,
                    },
                )
            }
        }
    }
}

/// A return statement, the `return` already consumed: `;` alone, or an
/// expression followed by `;`. The expression is the only child.
pub open spec fn parse_return(toks: Seq<TokenV>, i: int, line: nat) -> Result<
    (TreeV, int, nat),
    ParseErrorV,
>
    decreases toks.len() - i, 0int,
    when 0 <= i <= toks.len()
{
    let n = toks.len() as int;
    if i < n && toks[i].value is Semicolon {
        Ok(
            (
                TreeV { line, value: TreeTypeV::Return, params: Seq::empty() },
                i + 1,
                toks[i].line,
            ),
        )
    } else {
        match parse_expression_v(toks, i, line) {
            Ok((e, j, l)) => {
                let jc = next_at(j, i, n);
                if jc < n && toks[jc].value is Semicolon {
                    Ok(
                        (
                            TreeV { line, value: TreeTypeV::Return, params: seq![e] },
                            jc + 1,
                            toks[jc].line,
                        ),
                    )
                } else if jc == n {
                    Err(ParseErrorV { line: l, kind: ParseErrorKindV::ExpectedSemicolon })
                } else {
                    Err(ParseErrorV { line: toks[jc].line, kind: ParseErrorKindV::ExpectedSemicolon })
                }
            },
            Err(e) => Err(e),
        }
    }
}

/// A while statement, the `while` already consumed:
/// `expression { body }`. Children: condition, `Body`.
pub open spec fn parse_while(toks: Seq<TokenV>, i: int, line: nat) -> Result<
    (TreeV, int, nat),
    ParseErrorV,
>
    decreases toks.len() - i, 0int,
    when 0 <= i <= toks.len()
{
    let n = toks.len() as int;
    match parse_expression_v(toks, i, line) {
        Ok((c, j, l)) => {
            let jc = next_at(j, i, n);
            if jc < n && toks[jc].value is LeftCurly {
                match parse_body(toks, jc + 1, toks[jc].line, Seq::empty()) {
                    Ok((bs, k, l2)) => Ok(
                        (
                            TreeV {
                                line,
                                value: TreeTypeV::While,
                                params: seq![
                                    c,
                                    TreeV {
                                        line: toks[jc].line,
                                        value: TreeTypeV::Body,
                                        params: bs,
                                    },
                                ],
                            },
                            k,
                            l2,
                        ),
                    ),
                    Err(e) => Err(e),
                }
            } else if jc == n {
                Err(ParseErrorV { line: l, kind: ParseErrorKindV::ExpectedWhileBody })
            } else {
                Err(ParseErrorV { line: toks[jc].line, kind: ParseErrorKindV::ExpectedWhileBody })
            }
        },
        Err(e) => Err(e),
    }
}

/// An if statement, the `if` already consumed:
/// `expression { body } [else ({ body } | if ...)]`. Children: condition,
/// `Body`, and when `else` follows, its `Body` or the chained `If`.
pub open spec fn parse_if(toks: Seq<TokenV>, i: int, line: nat) -> Result<
    (TreeV, int, nat),
    ParseErrorV,
>
    decreases toks.len() - i, 0int,
    when 0 <= i <= toks.len()
{
    let n = toks.len() as int;
    match parse_expression_v(toks, i, line) {
        Ok((c, j, l)) => {
            let jc = next_at(j, i, n);
            if jc < n && toks[jc].value is LeftCurly {
                match parse_body(toks, jc + 1, toks[jc].line, Seq::empty()) {
                    Ok((bs, kr, l2)) => {
                        let body = TreeV {
                            line: toks[jc].line,
                            value: TreeTypeV::Body,
                            params: bs,
                        };
                        let k = next_at(kr, jc + 1, n);
                        if k < n && toks[k].value is Else {
                            if k + 1 < n && toks[k + 1].value is LeftCurly {
                                match parse_body(toks, k + 2, toks[k + 1].line, Seq::empty()) {
                                    Ok((es, m, l3)) => Ok(
                                        (
                                            TreeV {
                                                line,
                                                value: TreeTypeV::If,
                                                params: seq![
                                                    c,
                                                    body,
                                                    TreeV {
                                                        line: toks[k + 1].line,
                                                        value: TreeTypeV::Body,
                                                        params: es,
                                                    },
                                                ],
                                            },
                                            m,
                                            l3,
                                        ),
                                    ),
                                    Err(e) => Err(e),
                                }
                            } else if k + 1 < n && toks[k + 1].value is If {
                                match parse_if(toks, k + 2, toks[k + 1].line) {
                                    Ok((et, m, l3)) => Ok(
                                        (
                                            TreeV {
                                                line,
                                                value: TreeTypeV::If,
                                                params: seq![c, body, et],
                                            },
                                            m,
                                            l3,
                                        ),
                                    ),
                                    Err(e) => Err(e),
                                }
                            } else if k + 1 == n {
                                Err(
                                    ParseErrorV {
                                        line: toks[k].line,
                                        kind: ParseErrorKindV::ExpectedElseBody,
                                    },
                                )
                            } else {
                                Err(
                                    ParseErrorV {
                                        line: toks[k + 1].line,
                                        kind: ParseErrorKindV::ExpectedElseBody,
                                    },
                                )
                            }
                        } else {
                            Ok(
                                (
                                    TreeV { line, value: TreeTypeV::If, params: seq![c, body] },
                                    k,
                                    l2,
                                ),
                            )
                        }
                    },
                    Err(e) => Err(e),
                }
            } else if jc == n {
                Err(ParseErrorV { line: l, kind: ParseErrorKindV::ExpectedIfBody })
            } else {
                Err(ParseErrorV { line: toks[jc].line, kind: ParseErrorKindV::ExpectedIfBody })
            }
        },
        Err(e) => Err(e),
    }
}

/// An enum declaration, the `enum` already consumed:
/// `IDENT { IDENT, ... }`. Children: name leaf, then one leaf per variant.
pub open spec fn parse_enum(toks: Seq<TokenV>, i: int, line: nat) -> Result<
    (TreeV, int, nat),
    ParseErrorV,
>
    decreases toks.len() - i, 0int,
    when 0 <= i <= toks.len()
{
    let n = toks.len() as int;
    if i == n {
        Err(ParseErrorV { line, kind: ParseErrorKindV::ExpectedEnumName })
    } else if !(toks[i].value is Identifier) {
        Err(ParseErrorV { line: toks[i].line, kind: ParseErrorKindV::ExpectedEnumName })
    } else if i + 1 == n {
        Err(ParseErrorV { line: toks[i].line, kind: ParseErrorKindV::ExpectedEnumBody })
    } else if !(toks[i + 1].value is LeftCurly) {
        Err(ParseErrorV { line: toks[i + 1].line, kind: ParseErrorKindV::ExpectedEnumBody })
    } else {
        match parse_variants(toks, i + 2, toks[i + 1].line, true, Seq::empty()) {
            Ok((vs, j, l)) => Ok(
                (
                    TreeV {
                        line,
                        value: TreeTypeV::Enum,
                        params: seq![leaf_v(toks[i].value, toks[i].line)] + vs,
                    },
                    j,
                    l,
                ),
            ),
            Err(e) => Err(e),
        }
    }
}

/// A struct declaration, the `struct` already consumed:
/// `IDENT { IDENT : TYPE, ... }`. Children: name leaf, then one
/// `Parameter` node per field.
pub open spec fn parse_struct(toks: Seq<TokenV>, i: int, line: nat) -> Result<
    (TreeV, int, nat),
    ParseErrorV,
>
    decreases toks.len() - i, 0int,
    when 0 <= i <= toks.len()
{
    let n = toks.len() as int;
    if i == n {
        Err(ParseErrorV { line, kind: ParseErrorKindV::ExpectedStructName })
    } else if !(toks[i].value is Identifier) {
        Err(ParseErrorV { line: toks[i].line, kind: ParseErrorKindV::ExpectedStructName })
    } else if i + 1 == n {
        Err(ParseErrorV { line: toks[i].line, kind: ParseErrorKindV::ExpectedStructBody })
    } else if !(toks[i + 1].value is LeftCurly) {
        Err(ParseErrorV { line: toks[i + 1].line, kind: ParseErrorKindV::ExpectedStructBody })
    } else {
        match parse_fields(toks, i + 2, toks[i + 1].line, true, Seq::empty()) {
            Ok((fs, j, l)) => Ok(
                (
                    TreeV {
                        line,
                        value: TreeTypeV::Struct,
                        params: seq![leaf_v(toks[i].value, toks[i].line)] + fs,
                    },
                    j,
                    l,
                ),
            ),
            Err(e) => Err(e),
        }
    }
}

/// The top level: declarations until the token sequence is exhausted.
pub open spec fn parse_file(toks: Seq<TokenV>, i: int, line: nat, acc: Seq<TreeV>) -> Result<
    (Seq<TreeV>, nat),
    ParseErrorV,
>
    decreases toks.len() - i,
    when 0 <= i <= toks.len()
{
    let n = toks.len() as int;
    if i == n {
        Ok((acc, line))
    } else {
        match parse_stmt(toks, i, line) {
            Ok((t, j, l)) => parse_file(toks, next_at(j, i, n), l, acc.push(t)),
            Err(e) => Err(e),
        }
    }
}

/// The meaning of parsing: the whole token sequence into a `File` node on
/// line 1 whose children are the top-level declarations in source order.
pub open spec fn spec_parse(toks: Seq<TokenV>) -> Result<TreeV, ParseErrorV> {
    match parse_file(toks, 0, 1, Seq::empty()) {
        Ok((cs, _)) => Ok(TreeV { line: 1, value: TreeTypeV::File, params: cs }),
        Err(e) => Err(e),
    }
}

// ---------------------------------------------------------------------------
// The executable parser
// ---------------------------------------------------------------------------

impl Tree {
    /// A leaf node wrapping one token kind.
    pub fn leaf(token_type: TokenType, line: usize) -> (r: Tree)
        ensures
            r@ == leaf_v(token_type@, line as nat),
    {
        let r = Tree { line, value: TreeType::Leaf(token_type), params: Vec::new() };
        proof {
            assert(r@ =~= leaf_v(r.value@->Leaf_0, line as nat));
        }
        r
    }

    /// A leaf node wrapping one token, on that token's line.
    pub fn token_to_leaf(token: &Token) -> (r: Tree)
        ensures
            r@ == leaf_v(token.value@, token.line as nat),
    {
        Tree::leaf(token.value.clone(), token.line)
    }
}

/// The executable counterpart of `next_at`: the cursor after a sub-parse
/// that started at `p`. On every reachable path this is `j` itself.
fn advance(j: usize, p: usize, n: usize) -> (r: usize)
    requires
        p <= n,
    ensures
        r as int == next_at(j as int, p as int, n as int),
        r <= n,
    {
    let a = if j > p {
        j
    } else if p < n {
        p + 1
    } else {
        n
    };
    if a <= n {
        a
    } else {
        n
    }
}

/// Whether `t` is a binary operator of the given precedence tier.
fn level_op_exec(level: usize, t: &TokenType) -> (r: bool)
    ensures
        r == level_op(level as int, t@),
{
    if level == 0 {
        matches!(t, TokenType::Or | TokenType::And | TokenType::Xor)
    } else if level == 1 {
        matches!(t, TokenType::Eq | TokenType::Neq)
    } else if level == 2 {
        matches!(t, TokenType::Lt | TokenType::Lte | TokenType::Gt | TokenType::Gte)
    } else if level == 3 {
        matches!(t, TokenType::Plus | TokenType::Minus)
    } else {
        matches!(t, TokenType::Star | TokenType::Slash | TokenType::Mod)
    }
}

/// A primary expression.
fn get_primary(toks: &Vec<Token>, i: usize, line: usize) -> (r: Result<
    (Tree, usize, usize),
    ParseError,
>)
    requires
        i <= toks@.len(),
    ensures
        match parse_primary(toks.deep_view(), i as int, line as nat) {
            Ok(res) => r matches Ok(x) && x.0@ == res.0 && x.1 as int == res.1 && x.2 as nat
                == res.2,
            Err(e) => r matches Err(pe) && pe@ == e,
        },
    decreases toks@.len() - i, 13int,
{
    broadcast use lemma_trees_view_props, lemma_deep_view_is_trees_view;
    let n = toks.len();
    if i == n {
        return Err(ParseError { line, kind: ParseErrorKind::ExpectedExpression });
    }
    let tline = toks[i].line;
    match &toks[i].value {
        TokenType::IntLit(_) | TokenType::FloatLit(_) | TokenType::BoolLit(_)
            | TokenType::StringLit(_) => Ok((Tree::token_to_leaf(&toks[i]), i + 1, tline)),
        TokenType::Identifier(_) => {
            if i + 1 < n && matches!(toks[i + 1].value, TokenType::LeftParen) {
                match get_args(toks, i + 2, toks[i + 1].line, true, Vec::new()) {
                    Ok((args, j, l)) => {
                        let ghost argsv = args.deep_view();
                        let pnode = Tree {
                            line: toks[i + 1].line,
                            value: TreeType::Parameters,
                            params: args,
                        };
                        let nameleaf = Tree::token_to_leaf(&toks[i]);
                        let ghost nv = nameleaf@;
                        let ghost pv = pnode@;
                        let mut kids: Vec<Tree> = Vec::new();
                        kids.push(nameleaf);
                        kids.push(pnode);
                        let node = Tree { line: tline, value: TreeType::Expression, params: kids };
                        proof {
                            lemma_tree_node(node);
                            assert(node@ == tree_view(node));
                            assert(node@.params =~= seq![nv, pv]);
                        }
                        Ok((node, j, l))
                    },
                    Err(e) => Err(e),
                }
            } else {
                Ok((Tree::token_to_leaf(&toks[i]), i + 1, tline))
            }
        },
        TokenType::LeftParen => {
            match get_bin(toks, 0, i + 1, tline) {
                Ok((t, j, l)) => {
                    let jc = advance(j, i + 1, n);
                    if jc < n && matches!(toks[jc].value, TokenType::RightParen) {
                        Ok((t, jc + 1, toks[jc].line))
                    } else if jc == n {
                        Err(ParseError { line: l, kind: ParseErrorKind::ExpectedCloseParen })
                    } else {
                        Err(
                            ParseError {
                                line: toks[jc].line,
                                kind: ParseErrorKind::ExpectedCloseParen,
                            },
                        )
                    }
                },
                Err(e) => Err(e),
            }
        },
        _ => Err(ParseError { line: tline, kind: ParseErrorKind::ExpectedExpression }),
    }
}

/// The arguments of a call, the cursor just after the `(`.
fn get_args(toks: &Vec<Token>, i: usize, line: usize, first: bool, acc: Vec<Tree>) -> (r: Result<
    (Vec<Tree>, usize, usize),
    ParseError,
>)
    requires
        i <= toks@.len(),
    ensures
        match parse_args(toks.deep_view(), i as int, line as nat, first, acc.deep_view()) {
            Ok(res) => r matches Ok(x) && x.0.deep_view() == res.0 && x.1 as int == res.1 && x.2
                as nat == res.2,
            Err(e) => r matches Err(pe) && pe@ == e,
        },
    decreases toks@.len() - i, 50int,
{
    broadcast use lemma_trees_view_props, lemma_deep_view_is_trees_view;
    let n = toks.len();
    if i == n {
        let kind = if first {
            ParseErrorKind::ExpectedExpression
        } else {
            ParseErrorKind::ExpectedArgsCommaOrClose
        };
        return Err(ParseError { line, kind });
    }
    let tline = toks[i].line;
    if matches!(toks[i].value, TokenType::RightParen) {
        return Ok((acc, i + 1, tline));
    }
    if !first && !matches!(toks[i].value, TokenType::Comma) {
        return Err(ParseError { line: tline, kind: ParseErrorKind::ExpectedArgsCommaOrClose });
    }
    let p = if first {
        i
    } else {
        i + 1
    };
    let pline = if first {
        line
    } else {
        tline
    };
    match get_bin(toks, 0, p, pline) {
        Ok((t, j, l)) => {
            let ghost accv = acc.deep_view();
            let ghost tv = t@;
            let mut acc2 = acc;
            acc2.push(t);
            proof {
                assert(acc2.deep_view() =~= accv.push(tv));
            }
            get_args(toks, advance(j, p, n), l, false, acc2)
        },
        Err(e) => Err(e),
    }
}

/// A unary-prefix expression.
fn get_unary(toks: &Vec<Token>, i: usize, line: usize) -> (r: Result<
    (Tree, usize, usize),
    ParseError,
>)
    requires
        i <= toks@.len(),
    ensures
        match parse_unary(toks.deep_view(), i as int, line as nat) {
            Ok(res) => r matches Ok(x) && x.0@ == res.0 && x.1 as int == res.1 && x.2 as nat
                == res.2,
            Err(e) => r matches Err(pe) && pe@ == e,
        },
    decreases toks@.len() - i, 14int,
{
    broadcast use lemma_trees_view_props, lemma_deep_view_is_trees_view;
    let n = toks.len();
    if i == n {
        return Err(ParseError { line, kind: ParseErrorKind::ExpectedExpression });
    }
    let tline = toks[i].line;
    if matches!(toks[i].value, TokenType::Not | TokenType::BwNot | TokenType::Minus) {
        match get_unary(toks, i + 1, tline) {
            Ok((u, j, l)) => {
                let opleaf = Tree::token_to_leaf(&toks[i]);
                let ghost ov = opleaf@;
                let ghost uv = u@;
                let mut kids: Vec<Tree> = Vec::new();
                kids.push(opleaf);
                kids.push(u);
                let node = Tree { line: tline, value: TreeType::Expression, params: kids };
                proof {
                    lemma_tree_node(node);
                    assert(node@ == tree_view(node));
                    assert(node@.params =~= seq![ov, uv]);
                }
                Ok((node, j, l))
            },
            Err(e) => Err(e),
        }
    } else {
        get_primary(toks, i, line)
    }
}

/// A binary expression of the given tier.
fn get_bin(toks: &Vec<Token>, level: usize, i: usize, line: usize) -> (r: Result<
    (Tree, usize, usize),
    ParseError,
>)
    requires
        i <= toks@.len(),
        level <= 4,
    ensures
        match parse_bin(toks.deep_view(), level as int, i as int, line as nat) {
            Ok(res) => r matches Ok(x) && x.0@ == res.0 && x.1 as int == res.1 && x.2 as nat
                == res.2,
            Err(e) => r matches Err(pe) && pe@ == e,
        },
    decreases toks@.len() - i, 20int - level,
{
    broadcast use lemma_trees_view_props, lemma_deep_view_is_trees_view;
    let n = toks.len();
    let r1 = if level == 4 {
        get_unary(toks, i, line)
    } else {
        get_bin(toks, level + 1, i, line)
    };
    match r1 {
        Ok((t, j, l)) => get_bin_rest(toks, level, advance(j, i, n), l, t),
        Err(e) => Err(e),
    }
}

/// The left-associative fold of one tier.
fn get_bin_rest(toks: &Vec<Token>, level: usize, i: usize, line: usize, lhs: Tree) -> (r: Result<
    (Tree, usize, usize),
    ParseError,
>)
    requires
        i <= toks@.len(),
        level <= 4,
    ensures
        match parse_bin_rest(toks.deep_view(), level as int, i as int, line as nat, lhs@) {
            Ok(res) => r matches Ok(x) && x.0@ == res.0 && x.1 as int == res.1 && x.2 as nat
                == res.2,
            Err(e) => r matches Err(pe) && pe@ == e,
        },
    decreases toks@.len() - i, 0int,
{
    broadcast use lemma_trees_view_props, lemma_deep_view_is_trees_view;
    let n = toks.len();
    if i == n {
        return Ok((lhs, i, line));
    }
    let tline = toks[i].line;
    if level_op_exec(level, &toks[i].value) {
        let r1 = if level == 4 {
            get_unary(toks, i + 1, tline)
        } else {
            get_bin(toks, level + 1, i + 1, tline)
        };
        match r1 {
            Ok((u, j, l)) => {
                let opleaf = Tree::token_to_leaf(&toks[i]);
                let ghost lv = lhs@;
                let ghost ov = opleaf@;
                let ghost uv = u@;
                let mut kids: Vec<Tree> = Vec::new();
                kids.push(lhs);
                kids.push(opleaf);
                kids.push(u);
                let node = Tree { line: tline, value: TreeType::Expression, params: kids };
                proof {
                    lemma_tree_node(node);
                    assert(node@ == tree_view(node));
                    assert(node@.params =~= seq![lv, ov, uv]);
                }
                get_bin_rest(toks, level, advance(j, i + 1, n), l, node)
            },
            Err(e) => Err(e),
        }
    } else {
        Ok((lhs, i, line))
    }
}

/// An expression, lowest tier first. Returns the expression subtree, the
/// cursor after it and the line of its last token.
fn get_expression(toks: &Vec<Token>, i: usize, line: usize) -> (r: Result<
    (Tree, usize, usize),
    ParseError,
>)
    requires
        i <= toks@.len(),
    ensures
        match parse_expression_v(toks.deep_view(), i as int, line as nat) {
            Ok(res) => r matches Ok(x) && x.0@ == res.0 && x.1 as int == res.1 && x.2 as nat
                == res.2,
            Err(e) => r matches Err(pe) && pe@ == e,
        },
{
    get_bin(toks, 0, i, line)
}

/// Whether `t` names a type.
fn is_type_token_exec(t: &TokenType) -> (r: bool)
    ensures
        r == is_type_token(t@),
{
    matches!(
        t,
        TokenType::Int | TokenType::Float | TokenType::Bool | TokenType::String
            | TokenType::Identifier(_)
    )
}

/// The parameter list of a function declaration, the cursor just after `(`.
fn get_params(toks: &Vec<Token>, i: usize, line: usize, first: bool, acc: Vec<Tree>) -> (r: Result<
    (Vec<Tree>, usize, usize),
    ParseError,
>)
    requires
        i <= toks@.len(),
    ensures
        match parse_params(toks.deep_view(), i as int, line as nat, first, acc.deep_view()) {
            Ok(res) => r matches Ok(x) && x.0.deep_view() == res.0 && x.1 as int == res.1 && x.2
                as nat == res.2,
            Err(e) => r matches Err(pe) && pe@ == e,
        },
    decreases toks@.len() - i,
{
    broadcast use lemma_trees_view_props, lemma_deep_view_is_trees_view;

    let n = toks.len();
    if i == n {
        let kind = if first {
            ParseErrorKind::ExpectedParameterName
        } else {
            ParseErrorKind::ExpectedParamsComma
        };
        return Err(ParseError { line, kind });
    }
    let tline = toks[i].line;
    if matches!(toks[i].value, TokenType::RightParen) {
        return Ok((acc, i + 1, tline));
    }
    if !first && !matches!(toks[i].value, TokenType::Comma) {
        return Err(ParseError { line: tline, kind: ParseErrorKind::ExpectedParamsComma });
    }
    let p = if first {
        i
    } else {
        i + 1
    };
    if p == n {
        return Err(ParseError { line: tline, kind: ParseErrorKind::ExpectedParameterName });
    }
    if !matches!(toks[p].value, TokenType::Identifier(_)) {
        return Err(ParseError { line: toks[p].line, kind: ParseErrorKind::ExpectedParameterName });
    }
    if p + 1 == n {
        return Err(ParseError { line: toks[p].line, kind: ParseErrorKind::ExpectedParamColon });
    }
    if !matches!(toks[p + 1].value, TokenType::Colon) {
        return Err(ParseError { line: toks[p + 1].line, kind: ParseErrorKind::ExpectedParamColon });
    }
    if p + 2 == n {
        return Err(
            ParseError { line: toks[p + 1].line, kind: ParseErrorKind::ExpectedParameterType },
        );
    }
    if !is_type_token_exec(&toks[p + 2].value) {
        return Err(
            ParseError { line: toks[p + 2].line, kind: ParseErrorKind::ExpectedParameterType },
        );
    }
    let nameleaf = Tree::token_to_leaf(&toks[p]);
    let typeleaf = Tree::token_to_leaf(&toks[p + 2]);
    let ghost nv = nameleaf@;
    let ghost tv2 = typeleaf@;
    let mut kids: Vec<Tree> = Vec::new();
    kids.push(nameleaf);
    kids.push(typeleaf);
    let param = Tree { line: toks[p].line, value: TreeType::Parameter, params: kids };
    proof {
        lemma_tree_node(param);
        assert(param@ == tree_view(param));
        assert(param@.params =~= seq![nv, tv2]);
    }
    let ghost accv = acc.deep_view();
    let ghost pv = param@;
    let mut acc2 = acc;
    acc2.push(param);
    proof {
        assert(acc2.deep_view() =~= accv.push(pv));
    }
    get_params(toks, p + 3, toks[p + 2].line, false, acc2)
}

/// The variants of an enum declaration, the cursor just after `{`.
fn get_variants(toks: &Vec<Token>, i: usize, line: usize, first: bool, acc: Vec<Tree>) -> (r:
    Result<(Vec<Tree>, usize, usize), ParseError>)
    requires
        i <= toks@.len(),
    ensures
        match parse_variants(toks.deep_view(), i as int, line as nat, first, acc.deep_view()) {
            Ok(res) => r matches Ok(x) && x.0.deep_view() == res.0 && x.1 as int == res.1 && x.2
                as nat == res.2,
            Err(e) => r matches Err(pe) && pe@ == e,
        },
    decreases toks@.len() - i,
{
    broadcast use lemma_trees_view_props, lemma_deep_view_is_trees_view;

    let n = toks.len();
    if i == n {
        let kind = if first {
            ParseErrorKind::ExpectedVariantName
        } else {
            ParseErrorKind::ExpectedEnumComma
        };
        return Err(ParseError { line, kind });
    }
    let tline = toks[i].line;
    if matches!(toks[i].value, TokenType::RightCurly) {
        return Ok((acc, i + 1, tline));
    }
    if !first && !matches!(toks[i].value, TokenType::Comma) {
        return Err(ParseError { line: tline, kind: ParseErrorKind::ExpectedEnumComma });
    }
    let p = if first {
        i
    } else {
        i + 1
    };
    if p == n {
        return Err(ParseError { line: tline, kind: ParseErrorKind::ExpectedVariantName });
    }
    if !matches!(toks[p].value, TokenType::Identifier(_)) {
        return Err(ParseError { line: toks[p].line, kind: ParseErrorKind::ExpectedVariantName });
    }
    let vleaf = Tree::token_to_leaf(&toks[p]);
    let ghost accv = acc.deep_view();
    let ghost vv = vleaf@;
    let mut acc2 = acc;
    acc2.push(vleaf);
    proof {
        assert(acc2.deep_view() =~= accv.push(vv));
    }
    get_variants(toks, p + 1, toks[p].line, false, acc2)
}

/// The fields of a struct declaration, the cursor just after `{`.
fn get_fields(toks: &Vec<Token>, i: usize, line: usize, first: bool, acc: Vec<Tree>) -> (r: Result<
    (Vec<Tree>, usize, usize),
    ParseError,
>)
    requires
        i <= toks@.len(),
    ensures
        match parse_fields(toks.deep_view(), i as int, line as nat, first, acc.deep_view()) {
            Ok(res) => r matches Ok(x) && x.0.deep_view() == res.0 && x.1 as int == res.1 && x.2
                as nat == res.2,
            Err(e) => r matches Err(pe) && pe@ == e,
        },
    decreases toks@.len() - i,
{
    broadcast use lemma_trees_view_props, lemma_deep_view_is_trees_view;

    let n = toks.len();
    if i == n {
        let kind = if first {
            ParseErrorKind::ExpectedFieldName
        } else {
            ParseErrorKind::ExpectedStructComma
        };
        return Err(ParseError { line, kind });
    }
    let tline = toks[i].line;
    if matches!(toks[i].value, TokenType::RightCurly) {
        return Ok((acc, i + 1, tline));
    }
    if !first && !matches!(toks[i].value, TokenType::Comma) {
        return Err(ParseError { line: tline, kind: ParseErrorKind::ExpectedStructComma });
    }
    let p = if first {
        i
    } else {
        i + 1
    };
    if p == n {
        return Err(ParseError { line: tline, kind: ParseErrorKind::ExpectedFieldName });
    }
    if !matches!(toks[p].value, TokenType::Identifier(_)) {
        return Err(ParseError { line: toks[p].line, kind: ParseErrorKind::ExpectedFieldName });
    }
    if p + 1 == n {
        return Err(ParseError { line: toks[p].line, kind: ParseErrorKind::ExpectedFieldColon });
    }
    if !matches!(toks[p + 1].value, TokenType::Colon) {
        return Err(ParseError { line: toks[p + 1].line, kind: ParseErrorKind::ExpectedFieldColon });
    }
    if p + 2 == n {
        return Err(ParseError { line: toks[p + 1].line, kind: ParseErrorKind::ExpectedFieldType });
    }
    if !is_type_token_exec(&toks[p + 2].value) {
        return Err(ParseError { line: toks[p + 2].line, kind: ParseErrorKind::ExpectedFieldType });
    }
    let nameleaf = Tree::token_to_leaf(&toks[p]);
    let typeleaf = Tree::token_to_leaf(&toks[p + 2]);
    let ghost nv = nameleaf@;
    let ghost tv2 = typeleaf@;
    let mut kids: Vec<Tree> = Vec::new();
    kids.push(nameleaf);
    kids.push(typeleaf);
    let field = Tree { line: toks[p].line, value: TreeType::Parameter, params: kids };
    proof {
        lemma_tree_node(field);
        assert(field@ == tree_view(field));
        assert(field@.params =~= seq![nv, tv2]);
    }
    let ghost accv = acc.deep_view();
    let ghost fv = field@;
    let mut acc2 = acc;
    acc2.push(field);
    proof {
        assert(acc2.deep_view() =~= accv.push(fv));
    }
    get_fields(toks, p + 3, toks[p + 2].line, false, acc2)
}

/// One statement or declaration, dispatched on one token of lookahead.
fn get_tree(toks: &Vec<Token>, i: usize, line: usize) -> (r: Result<
    (Tree, usize, usize),
    ParseError,
>)
    requires
        i <= toks@.len(),
    ensures
        match parse_stmt(toks.deep_view(), i as int, line as nat) {
            Ok(res) => r matches Ok(x) && x.0@ == res.0 && x.1 as int == res.1 && x.2 as nat
                == res.2,
            Err(e) => r matches Err(pe) && pe@ == e,
        },
    decreases toks@.len() - i, 0int,
{
    let n = toks.len();
    if i == n {
        return Err(ParseError { line, kind: ParseErrorKind::ExpectedToken });
    }
    let tline = toks[i].line;
    match &toks[i].value {
        TokenType::Function => get_function(toks, i + 1, tline),
        TokenType::Const => get_assign(toks, i + 1, tline, TokenType::Const),
        TokenType::Var => get_assign(toks, i + 1, tline, TokenType::Var),
        TokenType::If => get_if(toks, i + 1, tline),
        TokenType::While => get_while(toks, i + 1, tline),
        TokenType::Return => get_return(toks, i + 1, tline),
        TokenType::Enum => get_enum(toks, i + 1, tline),
        TokenType::Struct => get_struct(toks, i + 1, tline),
        TokenType::IntLit(_) | TokenType::FloatLit(_) | TokenType::BoolLit(_)
            | TokenType::StringLit(_) | TokenType::Identifier(_) => Ok(
            (Tree::token_to_leaf(&toks[i]), i + 1, tline),
        ),
        _ => Err(
            ParseError {
                line: tline,
                kind: ParseErrorKind::UnexpectedToken(toks[i].value.clone()),
            },
        ),
    }
}

/// The statements of a block, the cursor just after `{`; consumes the
/// closing `}`.
fn get_body(toks: &Vec<Token>, i: usize, line: usize, acc: Vec<Tree>) -> (r: Result<
    (Vec<Tree>, usize, usize),
    ParseError,
>)
    requires
        i <= toks@.len(),
    ensures
        match parse_body(toks.deep_view(), i as int, line as nat, acc.deep_view()) {
            Ok(res) => r matches Ok(x) && x.0.deep_view() == res.0 && x.1 as int == res.1 && x.2
                as nat == res.2,
            Err(e) => r matches Err(pe) && pe@ == e,
        },
    decreases toks@.len() - i, 1int,
{
    broadcast use lemma_trees_view_props, lemma_deep_view_is_trees_view;

    let n = toks.len();
    if i == n {
        return Err(ParseError { line, kind: ParseErrorKind::ExpectedBodyClose });
    }
    if matches!(toks[i].value, TokenType::RightCurly) {
        return Ok((acc, i + 1, toks[i].line));
    }
    match get_tree(toks, i, toks[i].line) {
        Ok((t, j, l)) => {
            let ghost accv = acc.deep_view();
            let ghost tv = t@;
            let mut acc2 = acc;
            acc2.push(t);
            proof {
                assert(acc2.deep_view() =~= accv.push(tv));
            }
            get_body(toks, advance(j, i, n), l, acc2)
        },
        Err(e) => Err(e),
    }
}

/// A function declaration, the `fn` already consumed.
fn get_function(toks: &Vec<Token>, i: usize, line: usize) -> (r: Result<
    (Tree, usize, usize),
    ParseError,
>)
    requires
        i <= toks@.len(),
    ensures
        match parse_function(toks.deep_view(), i as int, line as nat) {
            Ok(res) => r matches Ok(x) && x.0@ == res.0 && x.1 as int == res.1 && x.2 as nat
                == res.2,
            Err(e) => r matches Err(pe) && pe@ == e,
        },
    decreases toks@.len() - i, 0int,
{
    broadcast use lemma_trees_view_props, lemma_deep_view_is_trees_view;

    let n = toks.len();
    if i == n {
        return Err(ParseError { line, kind: ParseErrorKind::ExpectedFunctionName });
    }
    if !matches!(toks[i].value, TokenType::Identifier(_)) {
        return Err(
            ParseError {
                line: toks[i].line,
                kind: ParseErrorKind::NotAFunctionName(toks[i].value.clone()),
            },
        );
    }
    if i + 1 == n {
        return Err(ParseError { line: toks[i].line, kind: ParseErrorKind::ExpectedParamsOpen });
    }
    if !matches!(toks[i + 1].value, TokenType::LeftParen) {
        return Err(ParseError { line: toks[i + 1].line, kind: ParseErrorKind::ExpectedParamsOpen });
    }
    let nameleaf = Tree::token_to_leaf(&toks[i]);
    match get_params(toks, i + 2, toks[i + 1].line, true, Vec::new()) {
        Ok((ps, jr, l1)) => {
            let ghost psv = ps.deep_view();
            let pnode = Tree { line: toks[i + 1].line, value: TreeType::Parameters, params: ps };
            proof {
                lemma_tree_node(pnode);
                assert(pnode@ == tree_view(pnode));
                assert(pnode@.params =~= psv);
            }
            let j = advance(jr, i + 2, n);
            if j == n {
                return Err(ParseError { line: l1, kind: ParseErrorKind::ExpectedBodyOrArrow });
            }
            if matches!(toks[j].value, TokenType::Arrow) {
                if j + 1 == n {
                    return Err(
                        ParseError { line: toks[j].line, kind: ParseErrorKind::ExpectedReturnType },
                    );
                }
                if !is_type_token_exec(&toks[j + 1].value) {
                    return Err(
                        ParseError {
                            line: toks[j + 1].line,
                            kind: ParseErrorKind::ExpectedReturnType,
                        },
                    );
                }
                if j + 2 == n {
                    return Err(
                        ParseError {
                            line: toks[j + 1].line,
                            kind: ParseErrorKind::ExpectedFunctionBody,
                        },
                    );
                }
                if !matches!(toks[j + 2].value, TokenType::LeftCurly) {
                    return Err(
                        ParseError {
                            line: toks[j + 2].line,
                            kind: ParseErrorKind::ExpectedFunctionBody,
                        },
                    );
                }
                let ret = Tree::leaf(toks[j + 1].value.clone(), toks[j + 2].line);
                match get_body(toks, j + 3, toks[j + 2].line, Vec::new()) {
                    Ok((bs, k, l2)) => {
                        let ghost bsv = bs.deep_view();
                        let body = Tree {
                            line: toks[j + 2].line,
                            value: TreeType::Body,
                            params: bs,
                        };
                        proof {
                            lemma_tree_node(body);
                            assert(body@ == tree_view(body));
                            assert(body@.params =~= bsv);
                        }
                        let ghost nv = nameleaf@;
                        let ghost pv = pnode@;
                        let ghost rv = ret@;
                        let ghost bv = body@;
                        let mut kids: Vec<Tree> = Vec::new();
                        kids.push(nameleaf);
                        kids.push(pnode);
                        kids.push(ret);
                        kids.push(body);
                        let node = Tree { line, value: TreeType::Function, params: kids };
                        proof {
                            lemma_tree_node(node);
                            assert(node@ == tree_view(node));
                            assert(node@.params =~= seq![nv, pv, rv, bv]);
                        }
                        Ok((node, k, l2))
                    },
                    Err(e) => Err(e),
                }
            } else if matches!(toks[j].value, TokenType::LeftCurly) {
                let ret = Tree::leaf(TokenType::Void, toks[j].line);
                match get_body(toks, j + 1, toks[j].line, Vec::new()) {
                    Ok((bs, k, l2)) => {
                        let ghost bsv = bs.deep_view();
                        let body = Tree { line: toks[j].line, value: TreeType::Body, params: bs };
                        proof {
                            lemma_tree_node(body);
                            assert(body@ == tree_view(body));
                            assert(body@.params =~= bsv);
                        }
                        let ghost nv = nameleaf@;
                        let ghost pv = pnode@;
                        let ghost rv = ret@;
                        let ghost bv = body@;
                        let mut kids: Vec<Tree> = Vec::new();
                        kids.push(nameleaf);
                        kids.push(pnode);
                        kids.push(ret);
                        kids.push(body);
                        let node = Tree { line, value: TreeType::Function, params: kids };
                        proof {
                            lemma_tree_node(node);
                            assert(node@ == tree_view(node));
                            assert(node@.params =~= seq![nv, pv, rv, bv]);
                        }
                        Ok((node, k, l2))
                    },
                    Err(e) => Err(e),
                }
            } else {
                Err(ParseError { line: toks[j].line, kind: ParseErrorKind::ExpectedBodyOrArrow })
            }
        },
        Err(e) => Err(e),
    }
}

/// A variable declaration, the `const`/`var` already consumed.
fn get_assign(toks: &Vec<Token>, i: usize, line: usize, variable_type: TokenType) -> (r: Result<
    (Tree, usize, usize),
    ParseError,
>)
    requires
        i <= toks@.len(),
    ensures
        match parse_assign(toks.deep_view(), i as int, line as nat, variable_type@) {
            Ok(res) => r matches Ok(x) && x.0@ == res.0 && x.1 as int == res.1 && x.2 as nat
                == res.2,
            Err(e) => r matches Err(pe) && pe@ == e,
        },
    decreases toks@.len() - i, 0int,
{
    broadcast use lemma_trees_view_props, lemma_deep_view_is_trees_view;

    let n = toks.len();
    if i == n {
        return Err(ParseError { line, kind: ParseErrorKind::ExpectedVariableName });
    }
    if !matches!(toks[i].value, TokenType::Identifier(_)) {
        return Err(ParseError { line: toks[i].line, kind: ParseErrorKind::ExpectedVariableName });
    }
    if i + 1 == n {
        return Err(ParseError { line: toks[i].line, kind: ParseErrorKind::ExpectedAssignColon });
    }
    if !matches!(toks[i + 1].value, TokenType::Colon) {
        return Err(
            ParseError { line: toks[i + 1].line, kind: ParseErrorKind::ExpectedAssignColon },
        );
    }
    if i + 2 == n {
        return Err(
            ParseError { line: toks[i + 1].line, kind: ParseErrorKind::ExpectedVariableType },
        );
    }
    if !is_type_token_exec(&toks[i + 2].value) {
        return Err(
            ParseError { line: toks[i + 2].line, kind: ParseErrorKind::ExpectedVariableType },
        );
    }
    if i + 3 == n {
        return Err(
            ParseError { line: toks[i + 2].line, kind: ParseErrorKind::ExpectedAssignOrSemicolon },
        );
    }
    let qleaf = Tree::leaf(variable_type, line);
    let nameleaf = Tree::token_to_leaf(&toks[i]);
    let typeleaf = Tree::token_to_leaf(&toks[i + 2]);
    let ghost qv = qleaf@;
    let ghost nv = nameleaf@;
    let ghost tv2 = typeleaf@;
    if matches!(toks[i + 3].value, TokenType::Semicolon) {
        let mut kids: Vec<Tree> = Vec::new();
        kids.push(qleaf);
        kids.push(nameleaf);
        kids.push(typeleaf);
        let node = Tree { line, value: TreeType::Assign, params: kids };
        proof {
            lemma_tree_node(node);
            assert(node@ == tree_view(node));
            assert(node@.params =~= seq![qv, nv, tv2]);
        }
        Ok((node, i + 4, toks[i + 3].line))
    } else if matches!(toks[i + 3].value, TokenType::Assign) {
        match get_expression(toks, i + 4, toks[i + 3].line) {
            Ok((e, j, l)) => {
                let jc = advance(j, i + 4, n);
                if jc < n && matches!(toks[jc].value, TokenType::Semicolon) {
                    let ghost ev = e@;
                    let mut kids: Vec<Tree> = Vec::new();
                    kids.push(qleaf);
                    kids.push(nameleaf);
                    kids.push(typeleaf);
                    kids.push(e);
                    let node = Tree { line, value: TreeType::Assign, params: kids };
                    proof {
                        lemma_tree_node(node);
                        assert(node@ == tree_view(node));
                        assert(node@.params =~= seq![qv, nv, tv2, ev]);
                    }
                    Ok((node, jc + 1, toks[jc].line))
                } else if jc == n {
                    Err(ParseError { line: l, kind: ParseErrorKind::ExpectedSemicolon })
                } else {
                    Err(ParseError { line: toks[jc].line, kind: ParseErrorKind::ExpectedSemicolon })
                }
            },
            Err(e) => Err(e),
        }
    } else {
        Err(ParseError { line: toks[i + 3].line, kind: ParseErrorKind::ExpectedAssignOrSemicolon })
    }
}

/// A return statement, the `return` already consumed.
fn get_return(toks: &Vec<Token>, i: usize, line: usize) -> (r: Result<
    (Tree, usize, usize),
    ParseError,
>)
    requires
        i <= toks@.len(),
    ensures
        match parse_return(toks.deep_view(), i as int, line as nat) {
            Ok(res) => r matches Ok(x) && x.0@ == res.0 && x.1 as int == res.1 && x.2 as nat
                == res.2,
            Err(e) => r matches Err(pe) && pe@ == e,
        },
    decreases toks@.len() - i, 0int,
{
    broadcast use lemma_trees_view_props, lemma_deep_view_is_trees_view;

    let n = toks.len();
    if i < n && matches!(toks[i].value, TokenType::Semicolon) {
        let node = Tree { line, value: TreeType::Return, params: Vec::new() };
        proof {
            lemma_tree_node(node);
            assert(node@ == tree_view(node));
            assert(node@.params =~= Seq::<TreeV>::empty());
        }
        return Ok((node, i + 1, toks[i].line));
    }
    match get_expression(toks, i, line) {
        Ok((e, j, l)) => {
            let jc = advance(j, i, n);
            if jc < n && matches!(toks[jc].value, TokenType::Semicolon) {
                let ghost ev = e@;
                let mut kids: Vec<Tree> = Vec::new();
                kids.push(e);
                let node = Tree { line, value: TreeType::Return, params: kids };
                proof {
                    lemma_tree_node(node);
                    assert(node@ == tree_view(node));
                    assert(node@.params =~= seq![ev]);
                }
                Ok((node, jc + 1, toks[jc].line))
            } else if jc == n {
                Err(ParseError { line: l, kind: ParseErrorKind::ExpectedSemicolon })
            } else {
                Err(ParseError { line: toks[jc].line, kind: ParseErrorKind::ExpectedSemicolon })
            }
        },
        Err(e) => Err(e),
    }
}

/// A while statement, the `while` already consumed.
fn get_while(toks: &Vec<Token>, i: usize, line: usize) -> (r: Result<
    (Tree, usize, usize),
    ParseError,
>)
    requires
        i <= toks@.len(),
    ensures
        match parse_while(toks.deep_view(), i as int, line as nat) {
            Ok(res) => r matches Ok(x) && x.0@ == res.0 && x.1 as int == res.1 && x.2 as nat
                == res.2,
            Err(e) => r matches Err(pe) && pe@ == e,
        },
    decreases toks@.len() - i, 0int,
{
    broadcast use lemma_trees_view_props, lemma_deep_view_is_trees_view;

    let n = toks.len();
    match get_expression(toks, i, line) {
        Ok((c, j, l)) => {
            let jc = advance(j, i, n);
            if jc < n && matches!(toks[jc].value, TokenType::LeftCurly) {
                match get_body(toks, jc + 1, toks[jc].line, Vec::new()) {
                    Ok((bs, k, l2)) => {
                        let ghost bsv = bs.deep_view();
                        let body = Tree { line: toks[jc].line, value: TreeType::Body, params: bs };
                        proof {
                            lemma_tree_node(body);
                            assert(body@ == tree_view(body));
                            assert(body@.params =~= bsv);
                        }
                        let ghost cv = c@;
                        let ghost bv = body@;
                        let mut kids: Vec<Tree> = Vec::new();
                        kids.push(c);
                        kids.push(body);
                        let node = Tree { line, value: TreeType::While, params: kids };
                        proof {
                            lemma_tree_node(node);
                            assert(node@ == tree_view(node));
                            assert(node@.params =~= seq![cv, bv]);
                        }
                        Ok((node, k, l2))
                    },
                    Err(e) => Err(e),
                }
            } else if jc == n {
                Err(ParseError { line: l, kind: ParseErrorKind::ExpectedWhileBody })
            } else {
                Err(ParseError { line: toks[jc].line, kind: ParseErrorKind::ExpectedWhileBody })
            }
        },
        Err(e) => Err(e),
    }
}

/// An if statement, the `if` already consumed.
fn get_if(toks: &Vec<Token>, i: usize, line: usize) -> (r: Result<
    (Tree, usize, usize),
    ParseError,
>)
    requires
        i <= toks@.len(),
    ensures
        match parse_if(toks.deep_view(), i as int, line as nat) {
            Ok(res) => r matches Ok(x) && x.0@ == res.0 && x.1 as int == res.1 && x.2 as nat
                == res.2,
            Err(e) => r matches Err(pe) && pe@ == e,
        },
    decreases toks@.len() - i, 0int,
{
    broadcast use lemma_trees_view_props, lemma_deep_view_is_trees_view;

    let n = toks.len();
    match get_expression(toks, i, line) {
        Ok((c, j, l)) => {
            let jc = advance(j, i, n);
            if jc < n && matches!(toks[jc].value, TokenType::LeftCurly) {
                match get_body(toks, jc + 1, toks[jc].line, Vec::new()) {
                    Ok((bs, kr, l2)) => {
                        let ghost bsv = bs.deep_view();
                        let body = Tree { line: toks[jc].line, value: TreeType::Body, params: bs };
                        proof {
                            lemma_tree_node(body);
                            assert(body@ == tree_view(body));
                            assert(body@.params =~= bsv);
                        }
                        let ghost cv = c@;
                        let ghost bv = body@;
                        let k = advance(kr, jc + 1, n);
                        if k < n && matches!(toks[k].value, TokenType::Else) {
                            if k + 1 < n && matches!(toks[k + 1].value, TokenType::LeftCurly) {
                                match get_body(toks, k + 2, toks[k + 1].line, Vec::new()) {
                                    Ok((es, m, l3)) => {
                                        let ghost esv = es.deep_view();
                                        let ebody = Tree {
                                            line: toks[k + 1].line,
                                            value: TreeType::Body,
                                            params: es,
                                        };
                                        proof {
                                            lemma_tree_node(ebody);
                                            assert(ebody@ == tree_view(ebody));
                                            assert(ebody@.params =~= esv);
                                        }
                                        let ghost ev = ebody@;
                                        let mut kids: Vec<Tree> = Vec::new();
                                        kids.push(c);
                                        kids.push(body);
                                        kids.push(ebody);
                                        let node = Tree { line, value: TreeType::If, params: kids };
                                        proof {
                                            lemma_tree_node(node);
                                            assert(node@ == tree_view(node));
                                            assert(node@.params =~= seq![cv, bv, ev]);
                                        }
                                        Ok((node, m, l3))
                                    },
                                    Err(e) => Err(e),
                                }
                            } else if k + 1 < n && matches!(toks[k + 1].value, TokenType::If) {
                                match get_if(toks, k + 2, toks[k + 1].line) {
                                    Ok((et, m, l3)) => {
                                        let ghost ev = et@;
                                        let mut kids: Vec<Tree> = Vec::new();
                                        kids.push(c);
                                        kids.push(body);
                                        kids.push(et);
                                        let node = Tree { line, value: TreeType::If, params: kids };
                                        proof {
                                            lemma_tree_node(node);
                                            assert(node@ == tree_view(node));
                                            assert(node@.params =~= seq![cv, bv, ev]);
                                        }
                                        Ok((node, m, l3))
                                    },
                                    Err(e) => Err(e),
                                }
                            } else if k + 1 == n {
                                Err(
                                    ParseError {
                                        line: toks[k].line,
                                        kind: ParseErrorKind::ExpectedElseBody,
                                    },
                                )
                            } else {
                                Err(
                                    ParseError {
                                        line: toks[k + 1].line,
                                        kind: ParseErrorKind::ExpectedElseBody,
                                    },
                                )
                            }
                        } else {
                            let mut kids: Vec<Tree> = Vec::new();
                            kids.push(c);
                            kids.push(body);
                            let node = Tree { line, value: TreeType::If, params: kids };
                            proof {
                                lemma_tree_node(node);
                                assert(node@ == tree_view(node));
                                assert(node@.params =~= seq![cv, bv]);
                            }
                            Ok((node, k, l2))
                        }
                    },
                    Err(e) => Err(e),
                }
            } else if jc == n {
                Err(ParseError { line: l, kind: ParseErrorKind::ExpectedIfBody })
            } else {
                Err(ParseError { line: toks[jc].line, kind: ParseErrorKind::ExpectedIfBody })
            }
        },
        Err(e) => Err(e),
    }
}

/// An enum declaration, the `enum` already consumed.
fn get_enum(toks: &Vec<Token>, i: usize, line: usize) -> (r: Result<
    (Tree, usize, usize),
    ParseError,
>)
    requires
        i <= toks@.len(),
    ensures
        match parse_enum(toks.deep_view(), i as int, line as nat) {
            Ok(res) => r matches Ok(x) && x.0@ == res.0 && x.1 as int == res.1 && x.2 as nat
                == res.2,
            Err(e) => r matches Err(pe) && pe@ == e,
        },
    decreases toks@.len() - i, 0int,
{
    broadcast use lemma_trees_view_props, lemma_deep_view_is_trees_view;

    let n = toks.len();
    if i == n {
        return Err(ParseError { line, kind: ParseErrorKind::ExpectedEnumName });
    }
    if !matches!(toks[i].value, TokenType::Identifier(_)) {
        return Err(ParseError { line: toks[i].line, kind: ParseErrorKind::ExpectedEnumName });
    }
    if i + 1 == n {
        return Err(ParseError { line: toks[i].line, kind: ParseErrorKind::ExpectedEnumBody });
    }
    if !matches!(toks[i + 1].value, TokenType::LeftCurly) {
        return Err(ParseError { line: toks[i + 1].line, kind: ParseErrorKind::ExpectedEnumBody });
    }
    let nameleaf = Tree::token_to_leaf(&toks[i]);
    let ghost nv = nameleaf@;
    match get_variants(toks, i + 2, toks[i + 1].line, true, Vec::new()) {
        Ok((vs, j, l)) => {
            let ghost vsv = vs.deep_view();
            let mut kids: Vec<Tree> = Vec::new();
            kids.push(nameleaf);
            let mut rest = vs;
            kids.append(&mut rest);
            let node = Tree { line, value: TreeType::Enum, params: kids };
            proof {
                lemma_tree_node(node);
                assert(node@ == tree_view(node));
                assert(node@.params =~= seq![nv] + vsv);
            }
            Ok((node, j, l))
        },
        Err(e) => Err(e),
    }
}

/// A struct declaration, the `struct` already consumed.
fn get_struct(toks: &Vec<Token>, i: usize, line: usize) -> (r: Result<
    (Tree, usize, usize),
    ParseError,
>)
    requires
        i <= toks@.len(),
    ensures
        match parse_struct(toks.deep_view(), i as int, line as nat) {
            Ok(res) => r matches Ok(x) && x.0@ == res.0 && x.1 as int == res.1 && x.2 as nat
                == res.2,
            Err(e) => r matches Err(pe) && pe@ == e,
        },
    decreases toks@.len() - i, 0int,
{
    broadcast use lemma_trees_view_props, lemma_deep_view_is_trees_view;

    let n = toks.len();
    if i == n {
        return Err(ParseError { line, kind: ParseErrorKind::ExpectedStructName });
    }
    if !matches!(toks[i].value, TokenType::Identifier(_)) {
        return Err(ParseError { line: toks[i].line, kind: ParseErrorKind::ExpectedStructName });
    }
    if i + 1 == n {
        return Err(ParseError { line: toks[i].line, kind: ParseErrorKind::ExpectedStructBody });
    }
    if !matches!(toks[i + 1].value, TokenType::LeftCurly) {
        return Err(ParseError { line: toks[i + 1].line, kind: ParseErrorKind::ExpectedStructBody });
    }
    let nameleaf = Tree::token_to_leaf(&toks[i]);
    let ghost nv = nameleaf@;
    match get_fields(toks, i + 2, toks[i + 1].line, true, Vec::new()) {
        Ok((fs, j, l)) => {
            let ghost fsv = fs.deep_view();
            let mut kids: Vec<Tree> = Vec::new();
            kids.push(nameleaf);
            let mut rest = fs;
            kids.append(&mut rest);
            let node = Tree { line, value: TreeType::Struct, params: kids };
            proof {
                lemma_tree_node(node);
                assert(node@ == tree_view(node));
                assert(node@.params =~= seq![nv] + fsv);
            }
            Ok((node, j, l))
        },
        Err(e) => Err(e),
    }
}

/// Parses the whole token sequence into a tree rooted at a `File` node, or
/// reports the first syntactic error. Returns exactly what `spec_parse`
/// assigns to the tokens' values.
pub fn parse(tokens: Vec<Token>) -> (r: Result<Tree, ParseError>)
    ensures
        match spec_parse(tokens.deep_view()) {
            Ok(tv) => r matches Ok(t) && t@ == tv,
            Err(e) => r matches Err(pe) && pe@ == e,
        },
{
    broadcast use lemma_trees_view_props, lemma_deep_view_is_trees_view;

    let n = tokens.len();
    let mut children: Vec<Tree> = Vec::new();
    let mut i: usize = 0;
    let mut line: usize = 1;
    while i < n
        invariant
            i <= n,
            n == tokens@.len(),
            match parse_file(tokens.deep_view(), i as int, line as nat, children.deep_view()) {
                Ok(res) => parse_file(tokens.deep_view(), 0, 1, Seq::empty()) == Ok::<
                    (Seq<TreeV>, nat),
                    ParseErrorV,
                >(res),
                Err(e) => parse_file(tokens.deep_view(), 0, 1, Seq::empty()) == Err::<
                    (Seq<TreeV>, nat),
                    ParseErrorV,
                >(e),
            },
        decreases n - i,
    {
        broadcast use lemma_trees_view_props, lemma_deep_view_is_trees_view;

        match get_tree(&tokens, i, line) {
            Ok((t, j, l)) => {
                let ghost chv = children.deep_view();
                let ghost tv = t@;
                children.push(t);
                proof {
                    assert(children.deep_view() =~= chv.push(tv));
                }
                i = advance(j, i, n);
                line = l;
            },
            Err(e) => {
                return Err(e);
            },
        }
    }
    let ghost chv = children.deep_view();
    let t = Tree { line: 1, value: TreeType::File, params: children };
    proof {
        lemma_tree_node(t);
        assert(t@ == tree_view(t));
        assert(t@.params =~= chv);
    }
    Ok(t)
}

} // verus!
