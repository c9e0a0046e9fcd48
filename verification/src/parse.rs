//! The schema parser: validator DSL text to the type model.
//!
//! The grammar is a root identifier followed by a braced field list; each
//! field is an identifier, a colon and a validator call `v.method(...)`.
//! Structural validation happens here: unions need at least two branches,
//! a union branch may not itself be a union or an optional, `id` takes a
//! string literal and `literal` takes a string, boolean or integer
//! literal.  The whole text-to-model mapping is stated by the
//! `spec_tokenize` and `spec_parse_*` functions, and the executable
//! parser returns exactly what they say; on top of that, every parsed
//! schema satisfies the model's well-formedness and naming invariants,
//! which the decoder's laws build on.

use vstd::prelude::*;
use crate::model::{ConvexField, ConvexName, ConvexType, FieldModel, NameModel, TypeModel};
use crate::model::{rooted_schema, rooted_type, wf_branch, wf_field_seq, wf_schema, wf_type};
use crate::model::{lemma_view_branches_index, lemma_view_fields_index, view_branches, view_fields};
use crate::names::push_char;

verus! {

/// One token of the DSL text.
#[derive(Debug, PartialEq)]
pub enum Token {
    Ident(String),
    LitStr(String),
    LitInt(i64),
    LBrace,
    RBrace,
    LParen,
    RParen,
    Comma,
    Colon,
    Dot,
}

/// Mathematical model of a [`Token`].
pub enum TokenModel {
    Ident(Seq<char>),
    LitStr(Seq<char>),
    LitInt(i64),
    LBrace,
    RBrace,
    LParen,
    RParen,
    Comma,
    Colon,
    Dot,
}

impl View for Token {
    type V = TokenModel;

    open spec fn view(&self) -> TokenModel {
        match self {
            Token::Ident(s) => TokenModel::Ident(s@),
            Token::LitStr(s) => TokenModel::LitStr(s@),
            Token::LitInt(i) => TokenModel::LitInt(*i),
            Token::LBrace => TokenModel::LBrace,
            Token::RBrace => TokenModel::RBrace,
            Token::LParen => TokenModel::LParen,
            Token::RParen => TokenModel::RParen,
            Token::Comma => TokenModel::Comma,
            Token::Colon => TokenModel::Colon,
            Token::Dot => TokenModel::Dot,
        }
    }
}

/// Why a schema failed to parse.
#[derive(Debug, PartialEq, Eq, Clone, Copy)]
pub enum ParseErrorKind {
    /// A character no token may start with.
    BadChar,
    /// A string literal with no closing quote.
    UnterminatedString,
    /// A backslash followed by a character that names no escape.
    BadEscape,
    /// An integer literal beyond the 64-bit signed range.
    IntOutOfRange,
    /// Input ended where a token was required.
    UnexpectedEnd,
    ExpectedIdent,
    ExpectedColon,
    ExpectedDot,
    ExpectedLBrace,
    ExpectedRBrace,
    ExpectedLParen,
    ExpectedRParen,
    ExpectedComma,
    /// A validator call must start with `v`.
    ExpectedV,
    /// An unsupported validator method name.
    UnknownMethod,
    /// `id` takes a string literal.
    ExpectedStringLit,
    /// `literal` takes a string, boolean or integer literal.
    UnsupportedLiteral,
    /// Unions must have two or more branches.
    UnionArity,
    /// A union branch may not itself be a union or an optional.
    BadUnionBranch,
    /// Tokens were left over after the schema's closing brace.
    TrailingInput,
}

/// A parse failure, anchored to the offending position: a character
/// offset for a tokenizer error, a token index otherwise.
#[derive(Debug, PartialEq)]
pub struct ParseError {
    pub pos: usize,
    pub kind: ParseErrorKind,
}

/// Mathematical model of a [`ParseError`].
pub struct ParseErrModel {
    pub pos: int,
    pub kind: ParseErrorKind,
}

impl View for ParseError {
    type V = ParseErrModel;

    open spec fn view(&self) -> ParseErrModel {
        ParseErrModel { pos: self.pos as int, kind: self.kind }
    }
}

pub open spec fn perr(pos: int, kind: ParseErrorKind) -> ParseErrModel {
    ParseErrModel { pos, kind }
}

/// Whether `char::is_alphabetic` holds of a character.
pub uninterp spec fn alphabetic_of(c: char) -> bool;

/// Whether `char::is_alphanumeric` holds of a character.
pub uninterp spec fn alphanumeric_of(c: char) -> bool;

/// Relies on `char::is_alphabetic`: whether the character has the
/// Unicode `Alphabetic` property, from the character alone.
#[verifier::external_body]
fn char_is_alphabetic(c: char) -> (r: bool)
    ensures
        r == alphabetic_of(c),
{
    c.is_alphabetic()
}

/// Relies on `char::is_alphanumeric`: whether the character satisfies
/// `is_alphabetic` or `is_numeric`, from the character alone.
#[verifier::external_body]
fn char_is_alphanumeric(c: char) -> (r: bool)
    ensures
        r == alphanumeric_of(c),
{
    c.is_alphanumeric()
}

pub open spec fn is_space_char(c: char) -> bool {
    c == ' ' || c == '\t' || c == '\n' || c == '\r'
}

pub open spec fn is_digit_char(c: char) -> bool {
    '0' <= c && c <= '9'
}

/// An identifier starts with a letter or an underscore.
pub open spec fn spec_is_ident_start(c: char) -> bool {
    c == '_' || alphabetic_of(c)
}

/// An identifier continues with letters, digits or underscores.
pub open spec fn spec_is_ident_char(c: char) -> bool {
    c == '_' || alphanumeric_of(c)
}

fn is_digit(c: char) -> (r: bool)
    ensures
        r == is_digit_char(c),
{
    '0' <= c && c <= '9'
}

fn is_ident_start(c: char) -> (r: bool)
    ensures
        r == spec_is_ident_start(c),
{
    c == '_' || char_is_alphabetic(c)
}

fn is_ident_char(c: char) -> (r: bool)
    ensures
        r == spec_is_ident_char(c),
{
    c == '_' || char_is_alphanumeric(c)
}

/// The character an escape sequence `\c` stands for, if any.
pub open spec fn esc_char(c: char) -> Option<char> {
    if c == '"' {
        Option::Some('"')
    } else if c == '\\' {
        Option::Some('\\')
    } else if c == 'n' {
        Option::Some('\n')
    } else if c == 't' {
        Option::Some('\t')
    } else if c == 'r' {
        Option::Some('\r')
    } else if c == '0' {
        Option::Some('\0')
    } else {
        Option::None
    }
}

/// Scan of a string literal's body from position `j` (`start` is the
/// opening quote, for anchoring errors): the decoded content so far is
/// `acc`; on success, the content and the closing quote's position.
pub open spec fn spec_str_scan(cs: Seq<char>, j: int, start: int, acc: Seq<char>) -> Result<
    (Seq<char>, int),
    ParseErrModel,
>
    decreases cs.len() - j,
    when 0 <= j <= cs.len()
{
    if j == cs.len() {
        Result::Err(perr(start, ParseErrorKind::UnterminatedString))
    } else if cs[j] == '"' {
        Result::Ok((acc, j))
    } else if cs[j] == '\\' {
        if j + 1 == cs.len() {
            Result::Err(perr(start, ParseErrorKind::UnterminatedString))
        } else {
            match esc_char(cs[j + 1]) {
                Option::Some(c) => spec_str_scan(cs, j + 2, start, acc.push(c)),
                Option::None => Result::Err(perr(j + 1, ParseErrorKind::BadEscape)),
            }
        }
    } else {
        spec_str_scan(cs, j + 1, start, acc.push(cs[j]))
    }
}

/// Scan of an integer literal from position `j` with value `acc` so far
/// (`start` anchors the overflow error): fails as soon as another digit
/// would overflow a 64-bit signed integer.
pub open spec fn spec_int_scan(cs: Seq<char>, j: int, start: int, acc: i64) -> Result<
    (i64, int),
    ParseErrModel,
>
    decreases cs.len() - j,
    when 0 <= j <= cs.len()
{
    if j == cs.len() || !is_digit_char(cs[j]) {
        Result::Ok((acc, j))
    } else {
        let d = ((cs[j] as u8) - 48) as i64;
        if acc > (i64::MAX - d) / 10 {
            Result::Err(perr(start, ParseErrorKind::IntOutOfRange))
        } else {
            spec_int_scan(cs, j + 1, start, (acc * 10 + d) as i64)
        }
    }
}

/// Scan of an identifier from position `j`, with `acc` collected so far.
pub open spec fn spec_ident_scan(cs: Seq<char>, j: int, acc: Seq<char>) -> (Seq<char>, int)
    decreases cs.len() - j,
    when 0 <= j <= cs.len()
{
    if j == cs.len() || !spec_is_ident_char(cs[j]) {
        (acc, j)
    } else {
        spec_ident_scan(cs, j + 1, acc.push(cs[j]))
    }
}

/// Clamps a scanner's continuation point into range.  A scan always ends
/// past its start and within the input, so this never changes the value;
/// it only makes the tokenizer's progress structural.
pub open spec fn advance(pos: int, next: int, len: int) -> int {
    if next <= pos {
        pos + 1
    } else if next > len {
        len
    } else {
        next
    }
}

/// The token at the head of the remaining input, prepended to the rest:
/// the whole tokenization of `cs` from position `i`, with `acc` already
/// produced.
pub open spec fn spec_tokenize_from(cs: Seq<char>, i: int, acc: Seq<TokenModel>) -> Result<
    Seq<TokenModel>,
    ParseErrModel,
>
    decreases cs.len() - i,
    when 0 <= i <= cs.len()
{
    if i == cs.len() {
        Result::Ok(acc)
    } else {
        let c = cs[i];
        if is_space_char(c) {
            spec_tokenize_from(cs, i + 1, acc)
        } else if c == '{' {
            spec_tokenize_from(cs, i + 1, acc.push(TokenModel::LBrace))
        } else if c == '}' {
            spec_tokenize_from(cs, i + 1, acc.push(TokenModel::RBrace))
        } else if c == '(' {
            spec_tokenize_from(cs, i + 1, acc.push(TokenModel::LParen))
        } else if c == ')' {
            spec_tokenize_from(cs, i + 1, acc.push(TokenModel::RParen))
        } else if c == ',' {
            spec_tokenize_from(cs, i + 1, acc.push(TokenModel::Comma))
        } else if c == ':' {
            spec_tokenize_from(cs, i + 1, acc.push(TokenModel::Colon))
        } else if c == '.' {
            spec_tokenize_from(cs, i + 1, acc.push(TokenModel::Dot))
        } else if c == '"' {
            match spec_str_scan(cs, i + 1, i, Seq::empty()) {
                Result::Ok(se) => spec_tokenize_from(
                    cs,
                    advance(i, se.1 + 1, cs.len() as int),
                    acc.push(TokenModel::LitStr(se.0)),
                ),
                Result::Err(e) => Result::Err(e),
            }
        } else if is_digit_char(c) {
            match spec_int_scan(cs, i, i, 0) {
                Result::Ok(ve) => spec_tokenize_from(
                    cs,
                    advance(i, ve.1, cs.len() as int),
                    acc.push(TokenModel::LitInt(ve.0)),
                ),
                Result::Err(e) => Result::Err(e),
            }
        } else if spec_is_ident_start(c) {
            let ir = spec_ident_scan(cs, i + 1, seq![c]);
            spec_tokenize_from(
                cs,
                advance(i, ir.1, cs.len() as int),
                acc.push(TokenModel::Ident(ir.0)),
            )
        } else {
            Result::Err(perr(i, ParseErrorKind::BadChar))
        }
    }
}

/// The tokens of the DSL text, or the first lexical error.
pub open spec fn spec_tokenize(cs: Seq<char>) -> Result<Seq<TokenModel>, ParseErrModel> {
    spec_tokenize_from(cs, 0, Seq::empty())
}

/// The model of a token vector.
pub open spec fn view_token_vec(toks: Vec<Token>) -> Seq<TokenModel> {
    Seq::new(toks@.len(), |k: int| toks@[k]@)
}

/// The model of a tokenizer result.
pub open spec fn view_tokens_res(r: Result<Vec<Token>, ParseError>) -> Result<
    Seq<TokenModel>,
    ParseErrModel,
> {
    match r {
        Result::Ok(v) => Result::Ok(view_token_vec(v)),
        Result::Err(e) => Result::Err(e@),
    }
}

/// The characters of a string slice, in order.
fn str_chars(s: &str) -> (r: Vec<char>)
    ensures
        r@ == s@,
{
    let n = s.unicode_len();
    let mut v: Vec<char> = Vec::new();
    let mut i: usize = 0;
    while i < n
        invariant
            i <= n,
            n == s@.len(),
            v@.len() == i,
            forall|k: int| 0 <= k < i ==> v@[k] == s@[k],
        decreases n - i,
    {
        v.push(s.get_char(i));
        i = i + 1;
    }
    assert(v@ =~= s@);
    v
}

/// Scans a string literal's body, decoding escapes, up to the closing
/// quote; `start` is the opening quote's position.
fn scan_string(chars: &Vec<char>, start: usize) -> (r: Result<(String, usize), ParseError>)
    requires
        start < chars@.len(),
    ensures
        (match r {
            Result::Ok(le) => spec_str_scan(chars@, start + 1, start as int, Seq::empty())
                == Result::<(Seq<char>, int), ParseErrModel>::Ok((le.0@, le.1 as int)) && start
                < le.1 < chars@.len(),
            Result::Err(e) => spec_str_scan(chars@, start + 1, start as int, Seq::empty())
                == Result::<(Seq<char>, int), ParseErrModel>::Err(e@),
        }),
{
    let n = chars.len();
    let mut j = start + 1;
    let mut lit = String::new();
    loop
        invariant
            start < j <= n,
            n == chars@.len(),
            spec_str_scan(chars@, start + 1, start as int, Seq::empty()) == spec_str_scan(
                chars@,
                j as int,
                start as int,
                lit@,
            ),
        decreases n - j,
    {
        if j == n {
            return Result::Err(ParseError { pos: start, kind: ParseErrorKind::UnterminatedString });
        }
        let cj = chars[j];
        if cj == '"' {
            return Result::Ok((lit, j));
        }
        if cj == '\\' {
            if j + 1 == n {
                return Result::Err(
                    ParseError { pos: start, kind: ParseErrorKind::UnterminatedString },
                );
            }
            let e = chars[j + 1];
            let dec: char = if e == '"' {
                '"'
            } else if e == '\\' {
                '\\'
            } else if e == 'n' {
                '\n'
            } else if e == 't' {
                '\t'
            } else if e == 'r' {
                '\r'
            } else if e == '0' {
                '\0'
            } else {
                return Result::Err(ParseError { pos: j + 1, kind: ParseErrorKind::BadEscape });
            };
            push_char(&mut lit, dec);
            j = j + 2;
        } else {
            push_char(&mut lit, cj);
            j = j + 1;
        }
    }
}

/// Scans an integer literal starting at a digit.
fn scan_int(chars: &Vec<char>, start: usize) -> (r: Result<(i64, usize), ParseError>)
    requires
        start < chars@.len(),
        is_digit_char(chars@[start as int]),
    ensures
        (match r {
            Result::Ok(ve) => spec_int_scan(chars@, start as int, start as int, 0) == Result::<
                (i64, int),
                ParseErrModel,
            >::Ok((ve.0, ve.1 as int)) && start < ve.1 <= chars@.len(),
            Result::Err(e) => spec_int_scan(chars@, start as int, start as int, 0) == Result::<
                (i64, int),
                ParseErrModel,
            >::Err(e@),
        }),
{
    let n = chars.len();
    let mut j = start;
    let mut val: i64 = 0;
    while j < n && is_digit(chars[j])
        invariant
            start <= j <= n,
            n == chars@.len(),
            is_digit_char(chars@[start as int]),
            0 <= val,
            spec_int_scan(chars@, start as int, start as int, 0) == spec_int_scan(
                chars@,
                j as int,
                start as int,
                val,
            ),
        decreases n - j,
    {
        let d: i64 = ((chars[j] as u8) - 48) as i64;
        if val > (i64::MAX - d) / 10 {
            return Result::Err(ParseError { pos: start, kind: ParseErrorKind::IntOutOfRange });
        }
        assert(val * 10 + d <= i64::MAX) by (nonlinear_arith)
            requires
                0 <= val,
                0 <= d,
                val <= (i64::MAX - d) / 10,
        ;
        val = val * 10 + d;
        j = j + 1;
    }
    Result::Ok((val, j))
}

/// Scans an identifier; the character at `start` is taken unconditionally.
fn scan_ident(chars: &Vec<char>, start: usize) -> (r: (String, usize))
    requires
        start < chars@.len(),
    ensures
        spec_ident_scan(chars@, start + 1, seq![chars@[start as int]]) == (r.0@, r.1 as int),
        start < r.1 <= chars@.len(),
{
    let n = chars.len();
    let mut j = start + 1;
    let mut lit = String::new();
    push_char(&mut lit, chars[start]);
    proof {
        assert(lit@ =~= seq![chars@[start as int]]);
    }
    while j < n && is_ident_char(chars[j])
        invariant
            start < j <= n,
            n == chars@.len(),
            spec_ident_scan(chars@, start + 1, seq![chars@[start as int]]) == spec_ident_scan(
                chars@,
                j as int,
                lit@,
            ),
        decreases n - j,
    {
        push_char(&mut lit, chars[j]);
        j = j + 1;
    }
    (lit, j)
}

/// Splits the DSL text into tokens, per [`spec_tokenize`].  A string
/// literal runs to the next unescaped double quote; the escapes
/// `\"`, `\\`, `\n`, `\t`, `\r` and `\0` are decoded.
#[verifier::loop_isolation(false)]
fn tokenize(s: &str) -> (r: Result<Vec<Token>, ParseError>)
    ensures
        view_tokens_res(r) == spec_tokenize(s@),
{
    let chars = str_chars(s);
    let n = chars.len();
    let mut toks: Vec<Token> = Vec::new();
    let mut i: usize = 0;
    proof {
        assert(view_token_vec(toks) =~= Seq::<TokenModel>::empty());
    }
    while i < n
        invariant
            i <= n,
            n == chars@.len(),
            chars@ == s@,
            spec_tokenize(s@) == spec_tokenize_from(s@, i as int, view_token_vec(toks)),
        decreases n - i,
    {
        let ghost prev = view_token_vec(toks);
        let c = chars[i];
        if c == ' ' || c == '\t' || c == '\n' || c == '\r' {
            i = i + 1;
        } else if c == '{' {
            toks.push(Token::LBrace);
            proof {
                assert(view_token_vec(toks) =~= prev.push(TokenModel::LBrace));
            }
            i = i + 1;
        } else if c == '}' {
            toks.push(Token::RBrace);
            proof {
                assert(view_token_vec(toks) =~= prev.push(TokenModel::RBrace));
            }
            i = i + 1;
        } else if c == '(' {
            toks.push(Token::LParen);
            proof {
                assert(view_token_vec(toks) =~= prev.push(TokenModel::LParen));
            }
            i = i + 1;
        } else if c == ')' {
            toks.push(Token::RParen);
            proof {
                assert(view_token_vec(toks) =~= prev.push(TokenModel::RParen));
            }
            i = i + 1;
        } else if c == ',' {
            toks.push(Token::Comma);
            proof {
                assert(view_token_vec(toks) =~= prev.push(TokenModel::Comma));
            }
            i = i + 1;
        } else if c == ':' {
            toks.push(Token::Colon);
            proof {
                assert(view_token_vec(toks) =~= prev.push(TokenModel::Colon));
            }
            i = i + 1;
        } else if c == '.' {
            toks.push(Token::Dot);
            proof {
                assert(view_token_vec(toks) =~= prev.push(TokenModel::Dot));
            }
            i = i + 1;
        } else if c == '"' {
            match scan_string(&chars, i) {
                Result::Err(e) => {
                    return Result::Err(e);
                },
                Result::Ok((lit, end)) => {
                    let ghost litv = lit@;
                    toks.push(Token::LitStr(lit));
                    proof {
                        assert(view_token_vec(toks) =~= prev.push(TokenModel::LitStr(litv)));
                        assert(advance(i as int, end + 1, n as int) == end + 1);
                    }
                    i = end + 1;
                },
            }
        } else if is_digit(c) {
            match scan_int(&chars, i) {
                Result::Err(e) => {
                    return Result::Err(e);
                },
                Result::Ok((val, end)) => {
                    toks.push(Token::LitInt(val));
                    proof {
                        assert(view_token_vec(toks) =~= prev.push(TokenModel::LitInt(val)));
                        assert(advance(i as int, end as int, n as int) == end as int);
                    }
                    i = end;
                },
            }
        } else if is_ident_start(c) {
            let (lit, end) = scan_ident(&chars, i);
            let ghost litv = lit@;
            toks.push(Token::Ident(lit));
            proof {
                assert(view_token_vec(toks) =~= prev.push(TokenModel::Ident(litv)));
                assert(advance(i as int, end as int, n as int) == end as int);
            }
            i = end;
        } else {
            return Result::Err(ParseError { pos: i, kind: ParseErrorKind::BadChar });
        }
    }
    Result::Ok(toks)
}

/// The closing parenthesis of a validator call, consumed.
pub open spec fn spec_close(toks: Seq<TokenModel>, pos: int, t: TypeModel) -> Result<
    (TypeModel, int),
    ParseErrModel,
> {
    if pos >= toks.len() {
        Result::Err(perr(pos, ParseErrorKind::UnexpectedEnd))
    } else if toks[pos] is RParen {
        Result::Ok((t, pos + 1))
    } else {
        Result::Err(perr(pos, ParseErrorKind::ExpectedRParen))
    }
}

/// A validator call `v.method(...)` for the field named `name`, parsed
/// from position `pos`: the type it denotes and the position after it.
pub open spec fn spec_parse_validator(toks: Seq<TokenModel>, name: NameModel, pos: int) -> Result<
    (TypeModel, int),
    ParseErrModel,
>
    decreases toks.len() - pos, 0int,
    when 0 <= pos <= toks.len()
{
    if pos == toks.len() {
        Result::Err(perr(pos, ParseErrorKind::UnexpectedEnd))
    } else if !(toks[pos] is Ident) {
        Result::Err(perr(pos, ParseErrorKind::ExpectedIdent))
    } else if toks[pos]->Ident_0 != "v"@ {
        Result::Err(perr(pos, ParseErrorKind::ExpectedV))
    } else if pos + 1 >= toks.len() {
        Result::Err(perr(pos + 1, ParseErrorKind::UnexpectedEnd))
    } else if !(toks[pos + 1] is Dot) {
        Result::Err(perr(pos + 1, ParseErrorKind::ExpectedDot))
    } else if pos + 2 >= toks.len() {
        Result::Err(perr(pos + 2, ParseErrorKind::UnexpectedEnd))
    } else if !(toks[pos + 2] is Ident) {
        Result::Err(perr(pos + 2, ParseErrorKind::ExpectedIdent))
    } else if pos + 3 >= toks.len() {
        Result::Err(perr(pos + 3, ParseErrorKind::UnexpectedEnd))
    } else if !(toks[pos + 3] is LParen) {
        Result::Err(perr(pos + 3, ParseErrorKind::ExpectedLParen))
    } else {
        let m = toks[pos + 2]->Ident_0;
        let p = pos + 4;
        if m == "null"@ {
            spec_close(toks, p, TypeModel::Null)
        } else if m == "int64"@ {
            spec_close(toks, p, TypeModel::Int64)
        } else if m == "number"@ {
            spec_close(toks, p, TypeModel::Number)
        } else if m == "boolean"@ {
            spec_close(toks, p, TypeModel::Bool)
        } else if m == "string"@ {
            spec_close(toks, p, TypeModel::Str)
        } else if m == "id"@ {
            if p >= toks.len() {
                Result::Err(perr(p, ParseErrorKind::UnexpectedEnd))
            } else {
                match toks[p] {
                    TokenModel::LitStr(table) => spec_close(toks, p + 1, TypeModel::Id(table)),
                    _ => Result::Err(perr(p, ParseErrorKind::ExpectedStringLit)),
                }
            }
        } else if m == "literal"@ {
            if p >= toks.len() {
                Result::Err(perr(p, ParseErrorKind::UnexpectedEnd))
            } else {
                match toks[p] {
                    TokenModel::LitStr(s) => spec_close(toks, p + 1, TypeModel::StrLiteral(s)),
                    TokenModel::LitInt(i) => spec_close(toks, p + 1, TypeModel::IntLiteral(i)),
                    TokenModel::Ident(w) => if w == "true"@ {
                        spec_close(toks, p + 1, TypeModel::BoolLiteral(true))
                    } else if w == "false"@ {
                        spec_close(toks, p + 1, TypeModel::BoolLiteral(false))
                    } else {
                        Result::Err(perr(p, ParseErrorKind::UnsupportedLiteral))
                    },
                    _ => Result::Err(perr(p, ParseErrorKind::UnsupportedLiteral)),
                }
            }
        } else if m == "optional"@ {
            match spec_parse_validator(toks, name, p) {
                Result::Ok(tp) => spec_close(
                    toks,
                    tp.1,
                    TypeModel::Optional(Box::new(FieldModel { name, t: tp.0 })),
                ),
                Result::Err(e) => Result::Err(e),
            }
        } else if m == "object"@ {
            if p >= toks.len() {
                Result::Err(perr(p, ParseErrorKind::UnexpectedEnd))
            } else if !(toks[p] is LBrace) {
                Result::Err(perr(p, ParseErrorKind::ExpectedLBrace))
            } else {
                match spec_parse_field_list(toks, name, p + 1, true, Seq::empty()) {
                    Result::Err(e) => Result::Err(e),
                    Result::Ok(fp) => if fp.1 >= toks.len() {
                        Result::Err(perr(fp.1, ParseErrorKind::UnexpectedEnd))
                    } else if !(toks[fp.1] is RBrace) {
                        Result::Err(perr(fp.1, ParseErrorKind::ExpectedRBrace))
                    } else {
                        spec_close(toks, fp.1 + 1, TypeModel::Object(fp.0))
                    },
                }
            }
        } else if m == "union"@ {
            spec_parse_union_list(toks, name, p, true, Seq::empty(), pos)
        } else {
            Result::Err(perr(pos + 2, ParseErrorKind::UnknownMethod))
        }
    }
}

/// One declared field, `ident : validator`, from position `pos` under
/// the parent name.
pub open spec fn spec_parse_child(toks: Seq<TokenModel>, parent: NameModel, pos: int) -> Result<
    (FieldModel, int),
    ParseErrModel,
>
    decreases toks.len() - pos, 1int,
    when 0 <= pos <= toks.len()
{
    if pos == toks.len() {
        Result::Err(perr(pos, ParseErrorKind::UnexpectedEnd))
    } else if !(toks[pos] is Ident) {
        Result::Err(perr(pos, ParseErrorKind::ExpectedIdent))
    } else if pos + 1 >= toks.len() {
        Result::Err(perr(pos + 1, ParseErrorKind::UnexpectedEnd))
    } else if !(toks[pos + 1] is Colon) {
        Result::Err(perr(pos + 1, ParseErrorKind::ExpectedColon))
    } else {
        let nm = NameModel { path: parent.full_path(), id: toks[pos]->Ident_0 };
        match spec_parse_validator(toks, nm, pos + 2) {
            Result::Ok(tp) => Result::Ok((FieldModel { name: nm, t: tp.0 }, tp.1)),
            Result::Err(e) => Result::Err(e),
        }
    }
}

/// A comma-separated field list up to, but not consuming, the closing
/// brace; `acc` holds the fields already parsed and `expect_more` whether
/// a comma licenses another one.
pub open spec fn spec_parse_field_list(
    toks: Seq<TokenModel>,
    base: NameModel,
    pos: int,
    expect_more: bool,
    acc: Seq<FieldModel>,
) -> Result<(Seq<FieldModel>, int), ParseErrModel>
    decreases toks.len() - pos, 2int,
    when 0 <= pos <= toks.len()
{
    if pos == toks.len() {
        Result::Err(perr(pos, ParseErrorKind::UnexpectedEnd))
    } else if toks[pos] is RBrace {
        Result::Ok((acc, pos))
    } else if !expect_more {
        Result::Err(perr(pos, ParseErrorKind::ExpectedComma))
    } else {
        match spec_parse_child(toks, base, pos) {
            Result::Err(e) => Result::Err(e),
            Result::Ok(fp) => {
                let p2 = advance(pos, fp.1, toks.len() as int);
                if p2 < toks.len() && toks[p2] is Comma {
                    spec_parse_field_list(toks, base, p2 + 1, true, acc.push(fp.0))
                } else {
                    spec_parse_field_list(toks, base, p2, false, acc.push(fp.0))
                }
            },
        }
    }
}

/// A comma-separated union branch list up to and including the closing
/// parenthesis; `start` anchors the arity error at the validator call.
pub open spec fn spec_parse_union_list(
    toks: Seq<TokenModel>,
    name: NameModel,
    pos: int,
    expect_more: bool,
    acc: Seq<TypeModel>,
    start: int,
) -> Result<(TypeModel, int), ParseErrModel>
    decreases toks.len() - pos, 2int,
    when 0 <= pos <= toks.len()
{
    if pos == toks.len() {
        Result::Err(perr(pos, ParseErrorKind::UnexpectedEnd))
    } else if toks[pos] is RParen {
        if acc.len() < 2 {
            Result::Err(perr(start, ParseErrorKind::UnionArity))
        } else {
            Result::Ok((TypeModel::Union(acc), pos + 1))
        }
    } else if !expect_more {
        Result::Err(perr(pos, ParseErrorKind::ExpectedComma))
    } else {
        match spec_parse_validator(toks, name, pos) {
            Result::Err(e) => Result::Err(e),
            Result::Ok(tp) => if tp.0 is Union || tp.0 is Optional {
                Result::Err(perr(pos, ParseErrorKind::BadUnionBranch))
            } else {
                let p2 = advance(pos, tp.1, toks.len() as int);
                if p2 < toks.len() && toks[p2] is Comma {
                    spec_parse_union_list(toks, name, p2 + 1, true, acc.push(tp.0), start)
                } else {
                    spec_parse_union_list(toks, name, p2, false, acc.push(tp.0), start)
                }
            },
        }
    }
}

/// A whole schema: a root identifier, a braced field list, nothing after.
pub open spec fn spec_parse_schema(toks: Seq<TokenModel>) -> Result<FieldModel, ParseErrModel> {
    if toks.len() == 0 {
        Result::Err(perr(0, ParseErrorKind::UnexpectedEnd))
    } else {
        match toks[0] {
            TokenModel::Ident(id) => {
                let nm = NameModel { path: Seq::empty(), id };
                if toks.len() < 2 {
                    Result::Err(perr(1, ParseErrorKind::UnexpectedEnd))
                } else if !(toks[1] is LBrace) {
                    Result::Err(perr(1, ParseErrorKind::ExpectedLBrace))
                } else {
                    match spec_parse_field_list(toks, nm, 2, true, Seq::empty()) {
                        Result::Err(e) => Result::Err(e),
                        Result::Ok(fp) => if fp.1 >= toks.len() {
                            Result::Err(perr(fp.1, ParseErrorKind::UnexpectedEnd))
                        } else if !(toks[fp.1] is RBrace) {
                            Result::Err(perr(fp.1, ParseErrorKind::ExpectedRBrace))
                        } else if fp.1 + 1 != toks.len() {
                            Result::Err(perr(fp.1 + 1, ParseErrorKind::TrailingInput))
                        } else {
                            Result::Ok(FieldModel { name: nm, t: TypeModel::Object(fp.0) })
                        },
                    }
                }
            },
            _ => Result::Err(perr(0, ParseErrorKind::ExpectedIdent)),
        }
    }
}

/// The whole text-to-model mapping: tokenize, then parse the schema.
pub open spec fn spec_parse(cs: Seq<char>) -> Result<FieldModel, ParseErrModel> {
    match spec_tokenize(cs) {
        Result::Ok(toks) => spec_parse_schema(toks),
        Result::Err(e) => Result::Err(e),
    }
}

/// The model of a parsed-validator result.
pub open spec fn view_vres(r: Result<(ConvexType, usize), ParseError>) -> Result<
    (TypeModel, int),
    ParseErrModel,
> {
    match r {
        Result::Ok(tp) => Result::Ok((tp.0@, tp.1 as int)),
        Result::Err(e) => Result::Err(e@),
    }
}

/// The model of a parsed-field result.
pub open spec fn view_cres(r: Result<(ConvexField, usize), ParseError>) -> Result<
    (FieldModel, int),
    ParseErrModel,
> {
    match r {
        Result::Ok(fp) => Result::Ok((fp.0@, fp.1 as int)),
        Result::Err(e) => Result::Err(e@),
    }
}

/// The model of a parsed field list's result.
pub open spec fn view_flres(r: Result<(Vec<ConvexField>, usize), ParseError>) -> Result<
    (Seq<FieldModel>, int),
    ParseErrModel,
> {
    match r {
        Result::Ok(fp) => Result::Ok((view_fields(fp.0, 0), fp.1 as int)),
        Result::Err(e) => Result::Err(e@),
    }
}

/// The model of a parsed schema result.
pub open spec fn view_parse_res(r: Result<ConvexField, ParseError>) -> Result<
    FieldModel,
    ParseErrModel,
> {
    match r {
        Result::Ok(f) => Result::Ok(f@),
        Result::Err(e) => Result::Err(e@),
    }
}

/// The identifier at `pos`, or an error there.
fn expect_ident(toks: &Vec<Token>, pos: usize) -> (r: Result<String, ParseError>)
    ensures
        (match r {
            Result::Ok(s) => pos < toks@.len() && view_token_vec(*toks)[pos as int]
                == TokenModel::Ident(s@),
            Result::Err(e) => if pos >= toks@.len() {
                e@ == perr(pos as int, ParseErrorKind::UnexpectedEnd)
            } else {
                !(view_token_vec(*toks)[pos as int] is Ident) && e@ == perr(
                    pos as int,
                    ParseErrorKind::ExpectedIdent,
                )
            },
        }),
{
    if pos < toks.len() {
        match &toks[pos] {
            Token::Ident(s) => Result::Ok(s.clone()),
            _ => Result::Err(ParseError { pos, kind: ParseErrorKind::ExpectedIdent }),
        }
    } else {
        Result::Err(ParseError { pos, kind: ParseErrorKind::UnexpectedEnd })
    }
}

/// Checks whether the token at `pos` closes a delimited list.
fn at_rbrace(toks: &Vec<Token>, pos: usize) -> (r: bool)
    requires
        pos < toks@.len(),
    ensures
        r == (view_token_vec(*toks)[pos as int] is RBrace),
{
    match &toks[pos] {
        Token::RBrace => true,
        _ => false,
    }
}

fn at_rparen(toks: &Vec<Token>, pos: usize) -> (r: bool)
    requires
        pos < toks@.len(),
    ensures
        r == (view_token_vec(*toks)[pos as int] is RParen),
{
    match &toks[pos] {
        Token::RParen => true,
        _ => false,
    }
}

fn at_comma(toks: &Vec<Token>, pos: usize) -> (r: bool)
    requires
        pos < toks@.len(),
    ensures
        r == (view_token_vec(*toks)[pos as int] is Comma),
{
    match &toks[pos] {
        Token::Comma => true,
        _ => false,
    }
}

/// Compares an identifier with a keyword of the grammar.
fn is_kw(s: &String, kw: &str) -> (r: bool)
    ensures
        r == (s@ == kw@),
{
    s.eq(&String::from_str(kw))
}

/// Consumes the closing parenthesis of a validator call.
fn close_simple(toks: &Vec<Token>, pos: usize, t: ConvexType) -> (r: Result<
    (ConvexType, usize),
    ParseError,
>)
    requires
        pos <= toks@.len(),
    ensures
        view_vres(r) == spec_close(view_token_vec(*toks), pos as int, t@),
        r matches Result::Ok(tp) ==> pos < tp.1 <= toks@.len() && tp.0 == t,
{
    if pos >= toks.len() {
        return Result::Err(ParseError { pos, kind: ParseErrorKind::UnexpectedEnd });
    }
    match &toks[pos] {
        Token::RParen => Result::Ok((t, pos + 1)),
        _ => Result::Err(ParseError { pos, kind: ParseErrorKind::ExpectedRParen }),
    }
}

/// Parses a validator call `v.method(...)`, the type of the field named
/// `name`; returns the type and the position after it, exactly as
/// [`spec_parse_validator`] says.
#[verifier::loop_isolation(false)]
fn parse_validator(toks: &Vec<Token>, pos: usize, name: &ConvexName) -> (r: Result<
    (ConvexType, usize),
    ParseError,
>)
    requires
        pos <= toks@.len(),
    ensures
        view_vres(r) == spec_parse_validator(view_token_vec(*toks), name@, pos as int),
        r matches Result::Ok(tp) ==> pos < tp.1 <= toks@.len() && wf_type(tp.0@) && rooted_type(
            tp.0@,
            name@.full_path(),
        ),
    decreases toks@.len() - pos, 0int,
{
    let ghost tm = view_token_vec(*toks);
    let ntoks: usize = toks.len();
    let v = match expect_ident(toks, pos) {
        Result::Ok(v) => v,
        Result::Err(e) => {
            return Result::Err(e);
        },
    };
    if !is_kw(&v, "v") {
        return Result::Err(ParseError { pos, kind: ParseErrorKind::ExpectedV });
    }
    if pos + 1 >= ntoks {
        return Result::Err(ParseError { pos: pos + 1, kind: ParseErrorKind::UnexpectedEnd });
    }
    match &toks[pos + 1] {
        Token::Dot => {},
        _ => {
            return Result::Err(ParseError { pos: pos + 1, kind: ParseErrorKind::ExpectedDot });
        },
    }
    let method = match expect_ident(toks, pos + 2) {
        Result::Ok(m) => m,
        Result::Err(e) => {
            return Result::Err(e);
        },
    };
    if pos + 3 >= ntoks {
        return Result::Err(ParseError { pos: pos + 3, kind: ParseErrorKind::UnexpectedEnd });
    }
    match &toks[pos + 3] {
        Token::LParen => {},
        _ => {
            return Result::Err(ParseError { pos: pos + 3, kind: ParseErrorKind::ExpectedLParen });
        },
    }
    let p = pos + 4;
    if is_kw(&method, "null") {
        close_simple(toks, p, ConvexType::Null)
    } else if is_kw(&method, "int64") {
        close_simple(toks, p, ConvexType::Int64)
    } else if is_kw(&method, "number") {
        close_simple(toks, p, ConvexType::Number)
    } else if is_kw(&method, "boolean") {
        close_simple(toks, p, ConvexType::Bool)
    } else if is_kw(&method, "string") {
        close_simple(toks, p, ConvexType::String)
    } else if is_kw(&method, "id") {
        if p >= ntoks {
            return Result::Err(ParseError { pos: p, kind: ParseErrorKind::UnexpectedEnd });
        }
        match &toks[p] {
            Token::LitStr(table) => close_simple(toks, p + 1, ConvexType::Id(table.clone())),
            _ => Result::Err(ParseError { pos: p, kind: ParseErrorKind::ExpectedStringLit }),
        }
    } else if is_kw(&method, "literal") {
        if p >= ntoks {
            return Result::Err(ParseError { pos: p, kind: ParseErrorKind::UnexpectedEnd });
        }
        match &toks[p] {
            Token::LitStr(s) => close_simple(toks, p + 1, ConvexType::StringLiteral(s.clone())),
            Token::LitInt(i) => close_simple(toks, p + 1, ConvexType::IntLiteral(*i)),
            Token::Ident(w) => if is_kw(w, "true") {
                close_simple(toks, p + 1, ConvexType::BoolLiteral(true))
            } else if is_kw(w, "false") {
                close_simple(toks, p + 1, ConvexType::BoolLiteral(false))
            } else {
                Result::Err(ParseError { pos: p, kind: ParseErrorKind::UnsupportedLiteral })
            },
            _ => Result::Err(ParseError { pos: p, kind: ParseErrorKind::UnsupportedLiteral }),
        }
    } else if is_kw(&method, "optional") {
        let (t, p2) = match parse_validator(toks, p, name) {
            Result::Ok(tp) => tp,
            Result::Err(e) => {
                return Result::Err(e);
            },
        };
        let inner = ConvexField { name: name.duplicate(), t };
        close_simple(toks, p2, ConvexType::Optional(Box::new(inner)))
    } else if is_kw(&method, "object") {
        if p >= ntoks {
            return Result::Err(ParseError { pos: p, kind: ParseErrorKind::UnexpectedEnd });
        }
        match &toks[p] {
            Token::LBrace => {},
            _ => {
                return Result::Err(ParseError { pos: p, kind: ParseErrorKind::ExpectedLBrace });
            },
        }
        let (fields, p2) = match parse_field_list(toks, p + 1, name) {
            Result::Ok(fp) => fp,
            Result::Err(e) => {
                return Result::Err(e);
            },
        };
        if p2 >= ntoks {
            return Result::Err(ParseError { pos: p2, kind: ParseErrorKind::UnexpectedEnd });
        }
        match &toks[p2] {
            Token::RBrace => {},
            _ => {
                return Result::Err(ParseError { pos: p2, kind: ParseErrorKind::ExpectedRBrace });
            },
        }
        proof {
            lemma_view_fields_index(fields, 0);
        }
        close_simple(toks, p2 + 1, ConvexType::Object(fields))
    } else if is_kw(&method, "union") {
        let mut branches: Vec<ConvexType> = Vec::new();
        let mut p2 = p;
        let mut expect_more = true;
        proof {
            assert(view_branches(branches, 0) =~= Seq::<TypeModel>::empty());
        }
        loop
            invariant
                pos + 4 <= p2 <= toks@.len(),
                forall|k: int|
                    0 <= k < branches@.len() ==> wf_branch(#[trigger] branches@[k]@) && rooted_type(
                        branches@[k]@,
                        name@.full_path(),
                    ),
                spec_parse_union_list(tm, name@, p as int, true, Seq::empty(), pos as int)
                    == spec_parse_union_list(
                    tm,
                    name@,
                    p2 as int,
                    expect_more,
                    view_branches(branches, 0),
                    pos as int,
                ),
            decreases toks@.len() - p2, (if expect_more {
                1int
            } else {
                0int
            }),
        {
            if p2 >= toks.len() {
                return Result::Err(ParseError { pos: p2, kind: ParseErrorKind::UnexpectedEnd });
            }
            if at_rparen(toks, p2) {
                break;
            }
            if !expect_more {
                return Result::Err(ParseError { pos: p2, kind: ParseErrorKind::ExpectedComma });
            }
            let (t, p3) = match parse_validator(toks, p2, name) {
                Result::Ok(tp) => tp,
                Result::Err(e) => {
                    return Result::Err(e);
                },
            };
            match &t {
                ConvexType::Union(_) => {
                    return Result::Err(
                        ParseError { pos: p2, kind: ParseErrorKind::BadUnionBranch },
                    );
                },
                ConvexType::Optional(_) => {
                    return Result::Err(
                        ParseError { pos: p2, kind: ParseErrorKind::BadUnionBranch },
                    );
                },
                _ => {},
            }
            proof {
                assert(advance(p2 as int, p3 as int, toks@.len() as int) == p3 as int);
            }
            let ghost prevb = branches;
            branches.push(t);
            proof {
                lemma_view_branches_index(prevb, 0);
                lemma_view_branches_index(branches, 0);
                assert(view_branches(branches, 0) =~= view_branches(prevb, 0).push(
                    branches@[branches@.len() - 1]@,
                ));
            }
            p2 = p3;
            if p2 < toks.len() && at_comma(toks, p2) {
                expect_more = true;
                p2 = p2 + 1;
            } else {
                expect_more = false;
            }
        }
        proof {
            lemma_view_branches_index(branches, 0);
        }
        if branches.len() < 2 {
            return Result::Err(ParseError { pos, kind: ParseErrorKind::UnionArity });
        }
        Result::Ok((ConvexType::Union(branches), p2 + 1))
    } else {
        Result::Err(ParseError { pos: pos + 2, kind: ParseErrorKind::UnknownMethod })
    }
}

/// Parses one declared field: an identifier, a colon and a validator,
/// exactly as [`spec_parse_child`] says.
fn parse_child(toks: &Vec<Token>, pos: usize, parent: &ConvexName) -> (r: Result<
    (ConvexField, usize),
    ParseError,
>)
    requires
        pos <= toks@.len(),
    ensures
        view_cres(r) == spec_parse_child(view_token_vec(*toks), parent@, pos as int),
        r matches Result::Ok(fp) ==> pos < fp.1 <= toks@.len() && wf_type(fp.0@.t) && fp.0@.name.path
            == parent@.full_path() && rooted_type(fp.0@.t, fp.0@.name.full_path()),
    decreases toks@.len() - pos, 1int,
{
    let ntoks: usize = toks.len();
    let id = match expect_ident(toks, pos) {
        Result::Ok(id) => id,
        Result::Err(e) => {
            return Result::Err(e);
        },
    };
    if pos + 1 >= ntoks {
        return Result::Err(ParseError { pos: pos + 1, kind: ParseErrorKind::UnexpectedEnd });
    }
    match &toks[pos + 1] {
        Token::Colon => {},
        _ => {
            return Result::Err(ParseError { pos: pos + 1, kind: ParseErrorKind::ExpectedColon });
        },
    }
    let name = ConvexName { path: parent.full_path(), id };
    let (t, p) = match parse_validator(toks, pos + 2, &name) {
        Result::Ok(tp) => tp,
        Result::Err(e) => {
            return Result::Err(e);
        },
    };
    Result::Ok((ConvexField { name, t }, p))
}

/// Parses a comma-separated field list up to, but not consuming, the
/// closing brace, exactly as [`spec_parse_field_list`] says.
#[verifier::loop_isolation(false)]
fn parse_field_list(toks: &Vec<Token>, pos: usize, base: &ConvexName) -> (r: Result<
    (Vec<ConvexField>, usize),
    ParseError,
>)
    requires
        pos <= toks@.len(),
    ensures
        view_flres(r) == spec_parse_field_list(
            view_token_vec(*toks),
            base@,
            pos as int,
            true,
            Seq::empty(),
        ),
        r matches Result::Ok(fp) ==> pos <= fp.1 <= toks@.len() && wf_field_seq(
            view_fields(fp.0, 0),
        ) && rooted_type(TypeModel::Object(view_fields(fp.0, 0)), base@.full_path()),
    decreases toks@.len() - pos, 2int,
{
    let ghost tm = view_token_vec(*toks);
    let mut fields: Vec<ConvexField> = Vec::new();
    let mut p: usize = pos;
    let mut expect_more = true;
    proof {
        assert(view_fields(fields, 0) =~= Seq::<FieldModel>::empty());
    }
    loop
        invariant
            pos <= p <= toks@.len(),
            forall|k: int|
                0 <= k < fields@.len() ==> wf_type((#[trigger] fields@[k])@.t) && fields@[k]@.name.path
                    == base@.full_path() && rooted_type(fields@[k]@.t, fields@[k]@.name.full_path()),
            spec_parse_field_list(tm, base@, pos as int, true, Seq::empty())
                == spec_parse_field_list(tm, base@, p as int, expect_more, view_fields(fields, 0)),
        decreases toks@.len() - p, (if expect_more {
            1int
        } else {
            0int
        }),
    {
        if p >= toks.len() {
            return Result::Err(ParseError { pos: p, kind: ParseErrorKind::UnexpectedEnd });
        }
        if at_rbrace(toks, p) {
            break;
        }
        if !expect_more {
            return Result::Err(ParseError { pos: p, kind: ParseErrorKind::ExpectedComma });
        }
        let (fld, p2) = match parse_child(toks, p, base) {
            Result::Ok(fp) => fp,
            Result::Err(e) => {
                return Result::Err(e);
            },
        };
        proof {
            assert(advance(p as int, p2 as int, toks@.len() as int) == p2 as int);
        }
        let ghost prevf = fields;
        fields.push(fld);
        proof {
            lemma_view_fields_index(prevf, 0);
            lemma_view_fields_index(fields, 0);
            assert(view_fields(fields, 0) =~= view_fields(prevf, 0).push(
                fields@[fields@.len() - 1]@,
            ));
        }
        p = p2;
        if p < toks.len() && at_comma(toks, p) {
            expect_more = true;
            p = p + 1;
        } else {
            expect_more = false;
        }
    }
    proof {
        lemma_view_fields_index(fields, 0);
    }
    Result::Ok((fields, p))
}

impl ConvexField {
    /// Parses a whole schema: a root identifier and a braced field list,
    /// exactly as [`spec_parse`] says.  A parsed schema is a well-formed
    /// object whose nested names are fully qualified from the root.
    pub fn parse(input: &str) -> (r: Result<ConvexField, ParseError>)
        ensures
            view_parse_res(r) == spec_parse(input@),
            r matches Result::Ok(f) ==> wf_schema(f@) && rooted_schema(f@),
    {
        let toks = match tokenize(input) {
            Result::Ok(toks) => toks,
            Result::Err(e) => {
                return Result::Err(e);
            },
        };
        let id = match expect_ident(&toks, 0) {
            Result::Ok(id) => id,
            Result::Err(e) => {
                return Result::Err(e);
            },
        };
        let name = ConvexName { path: Vec::new(), id };
        proof {
            assert(name@.path =~= Seq::<Seq<char>>::empty());
        }
        if toks.len() < 2 {
            return Result::Err(ParseError { pos: 1, kind: ParseErrorKind::UnexpectedEnd });
        }
        match &toks[1] {
            Token::LBrace => {},
            _ => {
                return Result::Err(ParseError { pos: 1, kind: ParseErrorKind::ExpectedLBrace });
            },
        }
        let (fields, p) = match parse_field_list(&toks, 2, &name) {
            Result::Ok(fp) => fp,
            Result::Err(e) => {
                return Result::Err(e);
            },
        };
        if p >= toks.len() {
            return Result::Err(ParseError { pos: p, kind: ParseErrorKind::UnexpectedEnd });
        }
        match &toks[p] {
            Token::RBrace => {},
            _ => {
                return Result::Err(ParseError { pos: p, kind: ParseErrorKind::ExpectedRBrace });
            },
        }
        if p + 1 != toks.len() {
            return Result::Err(ParseError { pos: p + 1, kind: ParseErrorKind::TrailingInput });
        }
        Result::Ok(ConvexField { name, t: ConvexType::Object(fields) })
    }
}

} // verus!
