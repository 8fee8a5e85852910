//! Laws: properties of the tokenizer and parser that hold for all inputs,
//! stated over the mathematical definitions (`spec_lex`, `parse_function`,
//! ...) and proved here once and for all.

use vstd::prelude::*;

verus! {

use crate::lexer::{
    all_digits, ascii_digit, digits_val, good_char, keyword_token, lex_step, punct_step,
    scan_string, spec_lex, word_end, LexStepV, StrScanV, TokenTypeV, TokenV,
};
use crate::parser::{leaf_v, next_at, parse_function, parse_params, ParseErrorV, TreeV};

/// `word_end` lands exactly where the word characters stop.
pub proof fn lemma_word_end_span(s: Seq<char>, i: int, m: int)
    requires
        0 <= i <= m <= s.len(),
        forall|k: int| i <= k < m ==> good_char(s[k]),
        m == s.len() || !good_char(s[m]),
    ensures
        word_end(s, i) == m,
    decreases m - i,
{
    if i < m {
        lemma_word_end_span(s, i + 1, m);
    }
}

/// A run of digits is never a keyword.
proof fn lemma_digits_no_keyword(w: Seq<char>)
    requires
        all_digits(w),
    ensures
        keyword_token(w) is None,
{
    reveal_strlit("const");
    reveal_strlit("var");
    reveal_strlit("true");
    reveal_strlit("false");
    reveal_strlit("int");
    reveal_strlit("float");
    reveal_strlit("bool");
    reveal_strlit("string");
    reveal_strlit("enum");
    reveal_strlit("struct");
    reveal_strlit("fn");
    reveal_strlit("if");
    reveal_strlit("else");
    reveal_strlit("while");
    reveal_strlit("return");
    if w == "const"@ {
        assert(w[0] == 'c');
        assert(false);
    }
    if w == "var"@ {
        assert(w[0] == 'v');
        assert(false);
    }
    if w == "true"@ {
        assert(w[0] == 't');
        assert(false);
    }
    if w == "false"@ {
        assert(w[0] == 'f');
        assert(false);
    }
    if w == "int"@ {
        assert(w[0] == 'i');
        assert(false);
    }
    if w == "float"@ {
        assert(w[0] == 'f');
        assert(false);
    }
    if w == "bool"@ {
        assert(w[0] == 'b');
        assert(false);
    }
    if w == "string"@ {
        assert(w[0] == 's');
        assert(false);
    }
    if w == "enum"@ {
        assert(w[0] == 'e');
        assert(false);
    }
    if w == "struct"@ {
        assert(w[0] == 's');
        assert(false);
    }
    if w == "fn"@ {
        assert(w[0] == 'f');
        assert(false);
    }
    if w == "if"@ {
        assert(w[0] == 'i');
        assert(false);
    }
    if w == "else"@ {
        assert(w[0] == 'e');
        assert(false);
    }
    if w == "while"@ {
        assert(w[0] == 'w');
        assert(false);
    }
    if w == "return"@ {
        assert(w[0] == 'r');
        assert(false);
    }
}

/// Law: a nonempty run of ASCII digits whose value fits the 64-bit signed
/// range tokenizes to exactly one integer-literal token, on line 1,
/// carrying exactly the run's numeric value.
pub proof fn lemma_lex_int_literal(s: Seq<char>)
    requires
        s.len() > 0,
        all_digits(s),
        digits_val(s) <= i64::MAX as int,
    ensures
        spec_lex(s) matches Ok(toks) && toks.len() == 1 && toks[0] == (TokenV {
            line: 1,
            value: TokenTypeV::IntLit(digits_val(s) as i64),
        }),
{
    assert forall|k: int| 0 <= k < s.len() implies good_char(s[k]) by {
        assert(ascii_digit(s[k]));
    }
    lemma_word_end_span(s, 0, s.len() as int);
    assert(s.subrange(0, s.len() as int) =~= s);
    lemma_digits_no_keyword(s.subrange(0, s.len() as int));
    crate::lexer::lemma_digits_val_nonneg(s);
    let tok = TokenV { line: 1, value: TokenTypeV::IntLit(digits_val(s) as i64) };
    assert(lex_step(s, 0, 1) == LexStepV::Tok { tok, next: s.len() as int, line: 1 });
    assert(crate::lexer::lex_from(s, s.len() as int, 1) == Ok::<Seq<TokenV>, crate::lexer::LexErrorV>(
        Seq::empty(),
    ));
    assert(seq![tok] + Seq::<TokenV>::empty() =~= seq![tok]);
}

/// Law: a nonempty run of ASCII digits, then `.`, then a (possibly empty)
/// run of ASCII digits tokenizes to exactly one float-literal token, on
/// line 1, carrying exactly that text.
pub proof fn lemma_lex_float_literal(s: Seq<char>, k: int)
    requires
        1 <= k < s.len(),
        s[k] == '.',
        all_digits(s.subrange(0, k)),
        all_digits(s.subrange(k + 1, s.len() as int)),
    ensures
        spec_lex(s) matches Ok(toks) && toks.len() == 1 && toks[0] == (TokenV {
            line: 1,
            value: TokenTypeV::FloatLit(s),
        }),
{
    let n = s.len() as int;
    let w1 = s.subrange(0, k);
    let w2 = s.subrange(k + 1, n);
    assert forall|m: int| 0 <= m < k implies good_char(s[m]) by {
        assert(ascii_digit(w1[m]));
    }
    assert(!good_char(s[k]));
    lemma_word_end_span(s, 0, k);
    assert forall|m: int| k + 1 <= m < n implies good_char(s[m]) by {
        assert(ascii_digit(w2[m - (k + 1)]));
    }
    lemma_word_end_span(s, k + 1, n);
    lemma_digits_no_keyword(w1);
    assert(ascii_digit(s[0])) by {
        assert(ascii_digit(w1[0]));
    }
    assert(s.subrange(0, n) =~= s);
    let tok = TokenV { line: 1, value: TokenTypeV::FloatLit(s) };
    assert(lex_step(s, 0, 1) == LexStepV::Tok { tok, next: n, line: 1 });
    assert(crate::lexer::lex_from(s, n, 1) == Ok::<Seq<TokenV>, crate::lexer::LexErrorV>(
        Seq::empty(),
    ));
    assert(seq![tok] + Seq::<TokenV>::empty() =~= seq![tok]);
}

/// The manually-unescaped expectation for the body of a string literal:
/// ordinary characters stand for themselves, the four escape pairs for
/// their decoded characters; a bare `"` or `\`, or any other escape pair,
/// has no decoding.
pub open spec fn unescaped(raw: Seq<char>) -> Option<Seq<char>>
    decreases raw.len(),
{
    if raw.len() == 0 {
        Some(Seq::empty())
    } else if raw[0] == '"' {
        None
    } else if raw[0] == '\\' {
        if raw.len() < 2 {
            None
        } else {
            let e = raw[1];
            let dec = if e == 't' {
                Some('\t')
            } else if e == 'n' {
                Some('\n')
            } else if e == '\\' {
                Some('\\')
            } else if e == '"' {
                Some('"')
            } else {
                None
            };
            match dec {
                Some(c) => match unescaped(raw.subrange(2, raw.len() as int)) {
                    Some(rest) => Some(seq![c] + rest),
                    None => None,
                },
                None => None,
            }
        }
    } else {
        match unescaped(raw.drop_first()) {
            Some(rest) => Some(seq![raw[0]] + rest),
            None => None,
        }
    }
}

/// The scanner consumes a decodable body and the closing quote, and
/// returns the accumulator extended by exactly the decoded body.
proof fn lemma_scan_unescaped(
    s: Seq<char>,
    i: int,
    line: nat,
    acc: Seq<char>,
    raw: Seq<char>,
    d: Seq<char>,
)
    requires
        0 <= i,
        i + raw.len() < s.len(),
        s.subrange(i, i + raw.len()) == raw,
        s[i + raw.len()] == '"',
        unescaped(raw) == Some(d),
    ensures
        scan_string(s, i, line, acc) matches StrScanV::Done { text, next, .. } && text == acc + d
            && next == i + raw.len() + 1,
    decreases raw.len(),
{
    if raw.len() == 0 {
        assert(s[i] == '"');
        assert(acc + d =~= acc);
    } else {
        assert(s[i] == raw[0]) by {
            assert(s.subrange(i, i + raw.len())[0] == s[i]);
        }
        if raw[0] == '\\' {
            let e = raw[1];
            assert(s[i + 1] == raw[1]) by {
                assert(s.subrange(i, i + raw.len())[1] == s[i + 1]);
            }
            let rest = raw.subrange(2, raw.len() as int);
            assert(s.subrange(i + 2, i + 2 + rest.len()) =~= rest) by {
                assert forall|m: int| 0 <= m < rest.len() implies s.subrange(
                    i + 2,
                    i + 2 + rest.len(),
                )[m] == rest[m] by {
                    assert(s.subrange(i, i + raw.len())[m + 2] == s[i + m + 2]);
                }
            }
            let c = if e == 't' {
                '\t'
            } else if e == 'n' {
                '\n'
            } else if e == '\\' {
                '\\'
            } else {
                '"'
            };
            let dr = unescaped(rest)->Some_0;
            lemma_scan_unescaped(s, i + 2, line, acc.push(c), rest, dr);
            assert(acc.push(c) + dr =~= acc + (seq![c] + dr));
        } else {
            let rest = raw.drop_first();
            assert(s.subrange(i + 1, i + 1 + rest.len()) =~= rest) by {
                assert forall|m: int| 0 <= m < rest.len() implies s.subrange(
                    i + 1,
                    i + 1 + rest.len(),
                )[m] == rest[m] by {
                    assert(s.subrange(i, i + raw.len())[m + 1] == s[i + m + 1]);
                }
            }
            let l2: nat = if raw[0] == '\n' {
                line + 1
            } else {
                line
            };
            let dr = unescaped(rest)->Some_0;
            lemma_scan_unescaped(s, i + 1, l2, acc.push(raw[0]), rest, dr);
            assert(acc.push(raw[0]) + dr =~= acc + (seq![raw[0]] + dr));
        }
    }
}

/// Law: a string literal whose body holds only ordinary characters and
/// the four supported escape pairs tokenizes to exactly one string
/// token carrying the decoded body, on the opening quote's line.
pub proof fn lemma_lex_string_literal(raw: Seq<char>, d: Seq<char>)
    requires
        unescaped(raw) == Some(d),
    ensures
        ({
            let s = seq!['"'] + raw + seq!['"'];
            spec_lex(s) matches Ok(toks) && toks.len() == 1 && toks[0].line == 1
                && toks[0].value == TokenTypeV::StringLit(d)
        }),
{
    let s = seq!['"'] + raw + seq!['"'];
    assert(s.len() == raw.len() + 2);
    assert(s[0] == '"');
    assert(s.subrange(1, 1 + raw.len() as int) =~= raw);
    assert(s[1 + raw.len() as int] == '"');
    lemma_scan_unescaped(s, 1, 1, Seq::empty(), raw, d);
    match scan_string(s, 1, 1, Seq::empty()) {
        StrScanV::Done { text, next, line } => {
            assert(Seq::empty() + d =~= d);
            assert(next == s.len());
            let tok = TokenV { line: 1, value: TokenTypeV::StringLit(d) };
            assert(punct_step(s, 0, 1) == LexStepV::Tok { tok, next: s.len() as int, line });
            assert(crate::lexer::lex_from(s, s.len() as int, line) == Ok::<
                Seq<TokenV>,
                crate::lexer::LexErrorV,
            >(Seq::empty()));
            assert(seq![tok] + Seq::<TokenV>::empty() =~= seq![tok]);
        },
        StrScanV::Fail { .. } => {
            assert(false);
        },
    }
}

/// Law: any escape pair outside the table of four stops the scanner with
/// an invalid-escape error naming the offending character.
pub proof fn lemma_invalid_escape_rejected(s: Seq<char>, i: int, line: nat, acc: Seq<char>)
    requires
        0 <= i,
        i + 1 < s.len(),
        s[i] == '\\',
        s[i + 1] != 't' && s[i + 1] != 'n' && s[i + 1] != '\\' && s[i + 1] != '"',
    ensures
        scan_string(s, i, line, acc) == (StrScanV::Fail {
            err: crate::lexer::LexErrorV::InvalidEscape { line, found: s[i + 1] },
        }),
{
}

/// Law: two-character operators are greedy. `->` never lexes as `-` then
/// `>`; `==` never lexes as two `=` tokens; and `=` not followed by `=`
/// lexes as the single assignment token.
pub proof fn lemma_greedy_two_char_ops(s: Seq<char>, i: int, line: nat)
    requires
        0 <= i < s.len(),
    ensures
        s[i] == '-' && i + 1 < s.len() && s[i + 1] == '>' ==> lex_step(s, i, line)
            == (LexStepV::Tok {
            tok: TokenV { line, value: TokenTypeV::Arrow },
            next: i + 2,
            line,
        }),
        s[i] == '=' && i + 1 < s.len() && s[i + 1] == '=' ==> lex_step(s, i, line)
            == (LexStepV::Tok {
            tok: TokenV { line, value: TokenTypeV::Eq },
            next: i + 2,
            line,
        }),
        s[i] == '=' && (i + 1 == s.len() || s[i + 1] != '=') ==> lex_step(s, i, line)
            == (LexStepV::Tok {
            tok: TokenV { line, value: TokenTypeV::Assign },
            next: i + 1,
            line,
        }),
{
}

/// Law: whatever a function declaration parses to, the node is a
/// `Function` with exactly four children in the fixed order: a name leaf
/// wrapping the identifier, a `Parameters` node, a return-type leaf, and
/// a `Body` — and it keeps the line it started on.
pub proof fn lemma_function_node_shape(toks: Seq<TokenV>, i: int, line: nat)
    requires
        0 <= i <= toks.len(),
    ensures
        parse_function(toks, i, line) matches Ok(res) ==> ({
            let t = res.0;
            &&& t.value is Function
            &&& t.line == line
            &&& t.params.len() == 4
            &&& t.params[0] == leaf_v(toks[i].value, toks[i].line)
            &&& toks[i].value is Identifier
            &&& t.params[1].value is Parameters
            &&& t.params[2].value is Leaf
            &&& t.params[3].value is Body
        }),
{
}

/// Law: a function declaration whose parameter list is followed directly
/// by `{` — no `->` — parses with the synthetic `void` return-type leaf
/// as its third child.
pub proof fn lemma_function_without_arrow_void(toks: Seq<TokenV>, i: int, line: nat)
    requires
        0 <= i <= toks.len(),
    ensures
        ({
            let n = toks.len() as int;
            match parse_params(toks, i + 2, toks[i + 1].line, true, Seq::empty()) {
                Ok(p) => {
                    let j = next_at(p.1, i + 2, n);
                    toks[j].value is LeftCurly ==> (parse_function(toks, i, line) matches Ok(res)
                        ==> res.0.params[2] == leaf_v(TokenTypeV::Void, toks[j].line))
                },
                Err(_) => true,
            }
        }),
{
}

/// Law: a complete function with zero parameters and no explicit return
/// type — name, `(`, `)`, `{` — parses, when it parses at all, to a
/// `Function` node whose return-type child is the synthetic `void` leaf.
pub proof fn lemma_function_zero_params_void(toks: Seq<TokenV>, i: int, line: nat)
    requires
        0 <= i,
        i + 3 < toks.len(),
        toks[i].value is Identifier,
        toks[i + 1].value is LeftParen,
        toks[i + 2].value is RightParen,
        toks[i + 3].value is LeftCurly,
    ensures
        parse_function(toks, i, line) matches Ok(res) ==> res.0.value is Function
            && res.0.params.len() == 4 && res.0.params[2] == leaf_v(
            TokenTypeV::Void,
            toks[i + 3].line,
        ),
{
    let n = toks.len() as int;
    assert(parse_params(toks, i + 2, toks[i + 1].line, true, Seq::empty()) == Ok::<
        (Seq<TreeV>, int, nat),
        ParseErrorV,
    >((Seq::empty(), i + 3, toks[i + 2].line)));
    assert(next_at(i + 3, i + 2, n) == i + 3);
}

} // verus!