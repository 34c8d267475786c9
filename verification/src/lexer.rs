//! The lexer: a character-level scanner with one-token lookahead that turns
//! source text into a token stream ending in exactly one end-of-input token.
//!
//! The mathematical model is `spec_tokenize`: a recursive description of the
//! whole token stream. The executable scanner is proved to produce exactly
//! that stream.

use vstd::prelude::*;

use crate::text::string_from_chars;
use crate::token::{LexicalError, Numeric, Token, TokenType, TokenTypeV, TokenV};

verus! {

/// Line numbers are 1-based and count `\n` characters consumed.
pub type LineNum = u64;

/// Decimal digit.
pub open spec fn is_digit_c(c: char) -> bool {
    48 <= c as u32 && c as u32 <= 57
}

/// ASCII letter or underscore: what may start an identifier.
pub open spec fn is_alpha_c(c: char) -> bool {
    (97 <= c as u32 && c as u32 <= 122) || (65 <= c as u32 && c as u32 <= 90) || c as u32 == 95
}

/// What may continue an identifier.
pub open spec fn is_alnum_c(c: char) -> bool {
    is_alpha_c(c) || is_digit_c(c)
}

/// ASCII whitespace skipped between tokens: space, tab, carriage return.
/// The newline is handled separately since it advances the line counter.
pub open spec fn is_blank_c(c: char) -> bool {
    c == ' ' || c == '\t' || c == '\r'
}

/// First position at or after `i` that does not hold a digit, or the end.
pub open spec fn digits_end(cs: Seq<char>, i: int) -> int
    decreases cs.len() - i,
{
    if i < cs.len() && is_digit_c(cs[i]) {
        digits_end(cs, i + 1)
    } else {
        i
    }
}

/// First position at or after `i` that cannot continue an identifier.
pub open spec fn ident_end(cs: Seq<char>, i: int) -> int
    decreases cs.len() - i,
{
    if i < cs.len() && is_alnum_c(cs[i]) {
        ident_end(cs, i + 1)
    } else {
        i
    }
}

/// First newline at or after `i`, or the end: where a line comment stops.
pub open spec fn comment_end(cs: Seq<char>, i: int) -> int
    decreases cs.len() - i,
{
    if i < cs.len() && cs[i] != '\n' {
        comment_end(cs, i + 1)
    } else {
        i
    }
}

/// First double quote at or after `i`, or the end: where a string literal
/// body stops.
pub open spec fn string_end(cs: Seq<char>, i: int) -> int
    decreases cs.len() - i,
{
    if i < cs.len() && cs[i] != '"' {
        string_end(cs, i + 1)
    } else {
        i
    }
}

/// What `digits_end` returns: a position between `i` and the end, digits
/// strictly before it, no digit at it unless it is the end.
pub proof fn digits_end_props(cs: Seq<char>, i: int)
    requires
        0 <= i <= cs.len(),
    ensures
        i <= digits_end(cs, i) <= cs.len(),
        forall|j: int| i <= j < digits_end(cs, i) ==> is_digit_c(#[trigger] cs[j]),
        digits_end(cs, i) < cs.len() ==> !is_digit_c(cs[digits_end(cs, i)]),
    decreases cs.len() - i,
{
    if i < cs.len() && is_digit_c(cs[i]) {
        digits_end_props(cs, i + 1);
    }
}

/// What `ident_end` returns, in the same shape as `digits_end_props`.
pub proof fn ident_end_props(cs: Seq<char>, i: int)
    requires
        0 <= i <= cs.len(),
    ensures
        i <= ident_end(cs, i) <= cs.len(),
        forall|j: int| i <= j < ident_end(cs, i) ==> is_alnum_c(#[trigger] cs[j]),
        ident_end(cs, i) < cs.len() ==> !is_alnum_c(cs[ident_end(cs, i)]),
    decreases cs.len() - i,
{
    if i < cs.len() && is_alnum_c(cs[i]) {
        ident_end_props(cs, i + 1);
    }
}

/// What `comment_end` returns, in the same shape as `digits_end_props`.
pub proof fn comment_end_props(cs: Seq<char>, i: int)
    requires
        0 <= i <= cs.len(),
    ensures
        i <= comment_end(cs, i) <= cs.len(),
        forall|j: int| i <= j < comment_end(cs, i) ==> #[trigger] cs[j] != '\n',
        comment_end(cs, i) < cs.len() ==> cs[comment_end(cs, i)] == '\n',
    decreases cs.len() - i,
{
    if i < cs.len() && cs[i] != '\n' {
        comment_end_props(cs, i + 1);
    }
}

/// What `string_end` returns, in the same shape as `digits_end_props`.
pub proof fn string_end_props(cs: Seq<char>, i: int)
    requires
        0 <= i <= cs.len(),
    ensures
        i <= string_end(cs, i) <= cs.len(),
        forall|j: int| i <= j < string_end(cs, i) ==> #[trigger] cs[j] != '"',
        string_end(cs, i) < cs.len() ==> cs[string_end(cs, i)] == '"',
    decreases cs.len() - i,
{
    if i < cs.len() && cs[i] != '"' {
        string_end_props(cs, i + 1);
    }
}

/// The line counter advanced by `n` newlines; it saturates at the largest
/// representable line number, a machine limit no source text reaches.
pub open spec fn bump_by(line: LineNum, n: nat) -> LineNum {
    if line + n <= u64::MAX {
        (line + n) as LineNum
    } else {
        u64::MAX
    }
}

/// The number of newline characters in `s`.
pub open spec fn count_nl(s: Seq<char>) -> nat
    decreases s.len(),
{
    if s.len() == 0 {
        0
    } else {
        count_nl(s.drop_last()) + (if s.last() == '\n' {
            1nat
        } else {
            0nat
        })
    }
}

/// Leading zeros removed, keeping at least one digit.
pub open spec fn trim_lead(s: Seq<char>) -> Seq<char>
    decreases s.len(),
{
    if s.len() > 1 && s[0] == '0' {
        trim_lead(s.subrange(1, s.len() as int))
    } else {
        s
    }
}

/// Trailing zeros removed, possibly leaving nothing.
pub open spec fn trim_trail(s: Seq<char>) -> Seq<char>
    decreases s.len(),
{
    if s.len() > 0 && s.last() == '0' {
        trim_trail(s.drop_last())
    } else {
        s
    }
}

/// The canonical value rendering of a number literal with integer part `ip`
/// and fraction part `fp` (empty when the literal had no fraction): leading
/// zeros dropped, trailing fraction zeros dropped, at least one digit on
/// each side of the dot.
pub open spec fn num_value(ip: Seq<char>, fp: Seq<char>) -> Seq<char> {
    trim_lead(ip) + seq!['.'] + (if trim_trail(fp).len() == 0 {
        seq!['0']
    } else {
        trim_trail(fp)
    })
}

/// The reserved word for `s`, if `s` spells one.
pub open spec fn spec_reserved(s: Seq<char>) -> Option<TokenTypeV> {
    if s == "and"@ {
        Some(TokenTypeV::And)
    } else if s == "class"@ {
        Some(TokenTypeV::Class)
    } else if s == "else"@ {
        Some(TokenTypeV::Else)
    } else if s == "false"@ {
        Some(TokenTypeV::False)
    } else if s == "for"@ {
        Some(TokenTypeV::For)
    } else if s == "fun"@ {
        Some(TokenTypeV::Fun)
    } else if s == "if"@ {
        Some(TokenTypeV::If)
    } else if s == "nil"@ {
        Some(TokenTypeV::Nil)
    } else if s == "or"@ {
        Some(TokenTypeV::Or)
    } else if s == "print"@ {
        Some(TokenTypeV::Print)
    } else if s == "return"@ {
        Some(TokenTypeV::Return)
    } else if s == "super"@ {
        Some(TokenTypeV::Super)
    } else if s == "this"@ {
        Some(TokenTypeV::This)
    } else if s == "true"@ {
        Some(TokenTypeV::True)
    } else if s == "var"@ {
        Some(TokenTypeV::Var)
    } else if s == "while"@ {
        Some(TokenTypeV::While)
    } else {
        None
    }
}

/// One move of the scanner: skip a character or two, emit a token, or reach
/// the end of the text.
pub ghost enum LexStep {
    Skip { i: int, line: LineNum },
    Tok { t: TokenV, i: int, line: LineNum },
    End,
}

/// The single scanner step at position `i` on line `line`.
pub open spec fn lex_step(cs: Seq<char>, i: int, line: LineNum) -> LexStep {
    if i >= cs.len() {
        LexStep::End
    } else {
        let c = cs[i];
        if c == '(' {
            LexStep::Tok { t: tok1(TokenTypeV::LeftParen, line, c), i: i + 1, line }
        } else if c == ')' {
            LexStep::Tok { t: tok1(TokenTypeV::RightParen, line, c), i: i + 1, line }
        } else if c == '{' {
            LexStep::Tok { t: tok1(TokenTypeV::LeftBrace, line, c), i: i + 1, line }
        } else if c == '}' {
            LexStep::Tok { t: tok1(TokenTypeV::RightBrace, line, c), i: i + 1, line }
        } else if c == '*' {
            LexStep::Tok { t: tok1(TokenTypeV::Star, line, c), i: i + 1, line }
        } else if c == '+' {
            LexStep::Tok { t: tok1(TokenTypeV::Plus, line, c), i: i + 1, line }
        } else if c == '-' {
            LexStep::Tok { t: tok1(TokenTypeV::Minus, line, c), i: i + 1, line }
        } else if c == '.' {
            LexStep::Tok { t: tok1(TokenTypeV::Dot, line, c), i: i + 1, line }
        } else if c == ',' {
            LexStep::Tok { t: tok1(TokenTypeV::Comma, line, c), i: i + 1, line }
        } else if c == ';' {
            LexStep::Tok { t: tok1(TokenTypeV::Semicolon, line, c), i: i + 1, line }
        } else if c == '=' {
            two_char_step(cs, i, line, TokenTypeV::EqualEqual, TokenTypeV::Equal)
        } else if c == '>' {
            two_char_step(cs, i, line, TokenTypeV::GreaterEqual, TokenTypeV::Greater)
        } else if c == '<' {
            two_char_step(cs, i, line, TokenTypeV::LessEqual, TokenTypeV::Less)
        } else if c == '!' {
            two_char_step(cs, i, line, TokenTypeV::BangEqual, TokenTypeV::Bang)
        } else if c == '/' {
            if i + 1 < cs.len() && cs[i + 1] == '/' {
                let j = comment_end(cs, i + 2);
                if j < cs.len() {
                    LexStep::Skip { i: j + 1, line: bump_by(line, 1) }
                } else {
                    LexStep::Skip { i: cs.len() as int, line }
                }
            } else {
                LexStep::Tok { t: tok1(TokenTypeV::Slash, line, c), i: i + 1, line }
            }
        } else if c == '"' {
            let j = string_end(cs, i + 1);
            let body = cs.subrange(i + 1, j);
            let nl = count_nl(body);
            if j < cs.len() {
                LexStep::Tok {
                    t: TokenV { typ: TokenTypeV::StringLiteral, ln: line, s: body },
                    i: j + 1,
                    line: bump_by(line, nl),
                }
            } else {
                LexStep::Tok {
                    t: TokenV {
                        typ: TokenTypeV::Unknown(LexicalError::UnterminatedString),
                        ln: bump_by(line, nl),
                        s: body,
                    },
                    i: j,
                    line: bump_by(line, nl),
                }
            }
        } else if c == '\n' {
            LexStep::Skip { i: i + 1, line: bump_by(line, 1) }
        } else if is_blank_c(c) {
            LexStep::Skip { i: i + 1, line }
        } else if is_digit_c(c) {
            number_step(cs, i, line)
        } else if is_alpha_c(c) {
            let j = ident_end(cs, i + 1);
            let lexeme = cs.subrange(i, j);
            let typ = match spec_reserved(lexeme) {
                Some(tt) => tt,
                None => TokenTypeV::Identifier,
            };
            LexStep::Tok { t: TokenV { typ, ln: line, s: lexeme }, i: j, line }
        } else {
            LexStep::Tok {
                t: TokenV {
                    typ: TokenTypeV::Unknown(LexicalError::UnknownToken(c)),
                    ln: line,
                    s: seq![c],
                },
                i: i + 1,
                line,
            }
        }
    }
}

/// A single-character token at line `line`.
pub open spec fn tok1(typ: TokenTypeV, line: LineNum, c: char) -> TokenV {
    TokenV { typ, ln: line, s: seq![c] }
}

/// The step for `= > < !`: the compound kind when `=` follows, else the
/// single kind.
pub open spec fn two_char_step(
    cs: Seq<char>,
    i: int,
    line: LineNum,
    compound: TokenTypeV,
    single: TokenTypeV,
) -> LexStep {
    if i + 1 < cs.len() && cs[i + 1] == '=' {
        LexStep::Tok {
            t: TokenV { typ: compound, ln: line, s: cs.subrange(i, i + 2) },
            i: i + 2,
            line,
        }
    } else {
        LexStep::Tok { t: tok1(single, line, cs[i]), i: i + 1, line }
    }
}

/// The step for a digit-led number literal at `i`: one or more digits,
/// optionally a dot followed by one or more digits. A dot not followed by a
/// digit is left for the next step; a second dot inside the candidate makes
/// an invalid-number token of what was consumed so far.
pub open spec fn number_step(cs: Seq<char>, i: int, line: LineNum) -> LexStep {
    let j1 = digits_end(cs, i);
    if j1 < cs.len() && cs[j1] == '.' && j1 + 1 < cs.len() && is_digit_c(cs[j1 + 1]) {
        let j2 = digits_end(cs, j1 + 1);
        let lexeme = cs.subrange(i, j2);
        if j2 < cs.len() && cs[j2] == '.' {
            LexStep::Tok {
                t: TokenV {
                    typ: TokenTypeV::Unknown(LexicalError::InvalidNumber),
                    ln: line,
                    s: lexeme,
                },
                i: j2,
                line,
            }
        } else {
            LexStep::Tok {
                t: TokenV {
                    typ: TokenTypeV::Number(
                        num_value(cs.subrange(i, j1), cs.subrange(j1 + 1, j2)),
                    ),
                    ln: line,
                    s: lexeme,
                },
                i: j2,
                line,
            }
        }
    } else {
        LexStep::Tok {
            t: TokenV {
                typ: TokenTypeV::Number(num_value(cs.subrange(i, j1), Seq::empty())),
                ln: line,
                s: cs.subrange(i, j1),
            },
            i: j1,
            line,
        }
    }
}

/// Every step made at a valid position stays in bounds and makes progress.
pub proof fn lex_step_props(cs: Seq<char>, i: int, line: LineNum)
    requires
        0 <= i <= cs.len(),
    ensures
        match lex_step(cs, i, line) {
            LexStep::Skip { i: i2, line: _ } => i < i2 <= cs.len(),
            LexStep::Tok { t: _, i: i2, line: _ } => i < i2 <= cs.len(),
            LexStep::End => i == cs.len(),
        },
{
    if i < cs.len() {
        let c = cs[i];
        if c == '/' && i + 1 < cs.len() && cs[i + 1] == '/' {
            comment_end_props(cs, i + 2);
        } else if c == '"' {
            string_end_props(cs, i + 1);
        } else if !(c == '(' || c == ')' || c == '{' || c == '}' || c == '*' || c == '+' || c
            == '-' || c == '.' || c == ',' || c == ';' || c == '=' || c == '>' || c == '<' || c
            == '!' || c == '/' || c == '\n' || is_blank_c(c)) {
            if is_digit_c(c) {
                let j1 = digits_end(cs, i);
                digits_end_props(cs, i);
                assert(j1 > i);
                if j1 < cs.len() && cs[j1] == '.' && j1 + 1 < cs.len() && is_digit_c(cs[j1 + 1]) {
                    digits_end_props(cs, j1 + 1);
                }
            } else if is_alpha_c(c) {
                ident_end_props(cs, i + 1);
            }
        }
    }
}

/// The token stream from position `i` on line `line` to the end of text:
/// the remaining tokens followed by exactly one end-of-input token.
pub open spec fn spec_tokens_from(cs: Seq<char>, i: int, line: LineNum) -> Seq<TokenV>
    decreases cs.len() - i, 1int,
    when 0 <= i <= cs.len()
    via spec_tokens_from_decreases
{
    match lex_step(cs, i, line) {
        LexStep::Skip { i: i2, line: l2 } => spec_tokens_from(cs, i2, l2),
        LexStep::Tok { t, i: i2, line: l2 } => seq![t] + spec_tokens_from(cs, i2, l2),
        LexStep::End => seq![TokenV { typ: TokenTypeV::Eof, ln: line, s: Seq::empty() }],
    }
}

#[via_fn]
proof fn spec_tokens_from_decreases(cs: Seq<char>, i: int, line: LineNum) {
    lex_step_props(cs, i, line);
}

/// The whole token stream of a source text.
pub open spec fn spec_tokenize(cs: Seq<char>) -> Seq<TokenV> {
    spec_tokens_from(cs, 0, 1)
}

/// Decimal digit (executable form).
pub fn is_digit(c: char) -> (r: bool)
    ensures
        r == is_digit_c(c),
{
    let u = c as u32;
    48 <= u && u <= 57
}

/// ASCII letter or underscore (executable form).
pub fn is_alpha(c: char) -> (r: bool)
    ensures
        r == is_alpha_c(c),
{
    let u = c as u32;
    (97 <= u && u <= 122) || (65 <= u && u <= 90) || u == 95
}

/// Identifier continuation character (executable form).
pub fn is_alnum(c: char) -> (r: bool)
    ensures
        r == is_alnum_c(c),
{
    is_alpha(c) || is_digit(c)
}

/// The line counter advanced by `n`, saturating (executable form).
pub fn bump_by_exec(line: LineNum, n: u64) -> (r: LineNum)
    ensures
        r == bump_by(line, n as nat),
{
    if line <= u64::MAX - n {
        line + n
    } else {
        u64::MAX
    }
}

/// The canonical value rendering of a number literal, from its integer part
/// and its (possibly empty) fraction part.
pub fn number_value(ip: &Vec<char>, fp: &Vec<char>) -> (r: Vec<char>)
    ensures
        r@ == num_value(ip@, fp@),
{
    proof {
        assert(ip@.subrange(0, ip@.len() as int) =~= ip@);
    }
    let mut li: usize = 0;
    while li + 1 < ip.len() && ip[li] == '0'
        invariant
            li <= ip.len(),
            li == 0 || li < ip.len(),
            trim_lead(ip@) == trim_lead(ip@.subrange(li as int, ip@.len() as int)),
        decreases ip.len() - li,
    {
        proof {
            let cur = ip@.subrange(li as int, ip@.len() as int);
            assert(cur.subrange(1, cur.len() as int) =~= ip@.subrange(
                li + 1,
                ip@.len() as int,
            ));
        }
        li = li + 1;
    }
    proof {
        let cur = ip@.subrange(li as int, ip@.len() as int);
        assert(trim_lead(cur) == cur);
    }
    proof {
        assert(fp@.subrange(0, fp@.len() as int) =~= fp@);
    }
    let mut fe: usize = fp.len();
    while fe > 0 && fp[fe - 1] == '0'
        invariant
            fe <= fp.len(),
            trim_trail(fp@) == trim_trail(fp@.subrange(0, fe as int)),
        decreases fe,
    {
        proof {
            let cur = fp@.subrange(0, fe as int);
            assert(cur.drop_last() =~= fp@.subrange(0, fe - 1));
        }
        fe = fe - 1;
    }
    proof {
        let cur = fp@.subrange(0, fe as int);
        assert(trim_trail(cur) == cur);
    }
    let mut r: Vec<char> = Vec::new();
    let mut i: usize = li;
    while i < ip.len()
        invariant
            li <= i <= ip.len(),
            r@ == ip@.subrange(li as int, i as int),
        decreases ip.len() - i,
    {
        r.push(ip[i]);
        proof {
            assert(ip@.subrange(li as int, i as int).push(ip@[i as int]) =~= ip@.subrange(
                li as int,
                i + 1,
            ));
        }
        i = i + 1;
    }
    r.push('.');
    if fe == 0 {
        r.push('0');
        proof {
            assert(r@ =~= num_value(ip@, fp@));
        }
    } else {
        let mut k: usize = 0;
        while k < fe
            invariant
                k <= fe <= fp.len(),
                r@ == ip@.subrange(li as int, ip@.len() as int) + seq!['.'] + fp@.subrange(
                    0,
                    k as int,
                ),
            decreases fe - k,
        {
            r.push(fp[k]);
            proof {
                assert((ip@.subrange(li as int, ip@.len() as int) + seq!['.'] + fp@.subrange(
                    0,
                    k as int,
                )).push(fp@[k as int]) =~= ip@.subrange(li as int, ip@.len() as int)
                    + seq!['.'] + fp@.subrange(0, k + 1));
            }
            k = k + 1;
        }
        proof {
            assert(r@ =~= num_value(ip@, fp@));
        }
    }
    r
}

/// The scanner. It owns the characters of the source text, the position of
/// the next character to look at, the current 1-based line, and whether the
/// end-of-input token has already been handed out.
pub struct Lexer {
    chars: Vec<char>,
    pos: usize,
    line: LineNum,
    at_end: bool,
}

impl Lexer {
    /// The characters being scanned.
    pub closed spec fn cs(&self) -> Seq<char> {
        self.chars@
    }

    /// The position of the next character to look at.
    pub closed spec fn at(&self) -> int {
        self.pos as int
    }

    /// The current line.
    pub closed spec fn line_no(&self) -> LineNum {
        self.line
    }

    /// Whether the end-of-input token has been handed out.
    pub closed spec fn done(&self) -> bool {
        self.at_end
    }

    /// The position never passes the end of the text.
    pub closed spec fn wf(&self) -> bool {
        self.pos <= self.chars@.len()
    }

    /// A scanner over `s`, at its start.
    pub fn new(s: &str) -> (r: Lexer)
        ensures
            r.wf(),
            r.cs() == s@,
            r.at() == 0,
            r.line_no() == 1,
            !r.done(),
    {
        Lexer { chars: crate::text::chars_of_str(s), pos: 0, line: 1, at_end: false }
    }

    /// Characters `a` to `b` of the text.
    fn copy_range(&self, a: usize, b: usize) -> (r: Vec<char>)
        requires
            a <= b <= self.cs().len(),
        ensures
            r@ == self.cs().subrange(a as int, b as int),
    {
        let mut r: Vec<char> = Vec::new();
        let mut i: usize = a;
        while i < b
            invariant
                a <= i <= b <= self.cs().len(),
                r@ == self.cs().subrange(a as int, i as int),
        decreases b - i,
        {
            r.push(self.chars[i]);
            proof {
                assert(self.cs().subrange(a as int, i as int).push(self.cs()[i as int])
                    =~= self.cs().subrange(a as int, i + 1));
            }
            i = i + 1;
        }
        r
    }

    /// The end of the run of digits starting at `from`.
    fn scan_digits(&self, from: usize) -> (j: usize)
        requires
            from <= self.cs().len(),
        ensures
            j == digits_end(self.cs(), from as int),
            from <= j <= self.cs().len(),
    {
        let mut j = from;
        while j < self.chars.len() && is_digit(self.chars[j])
            invariant
                from <= j <= self.cs().len(),
                digits_end(self.cs(), from as int) == digits_end(self.cs(), j as int),
            decreases self.cs().len() - j,
        {
            j = j + 1;
        }
        j
    }

    /// The reserved-word token kind spelled by `s`, if any.
    fn reserved_from_str(&self, s: &String) -> (r: Option<TokenType>)
        ensures
            match r {
                Some(tt) => spec_reserved(s@) == Some(tt@),
                None => spec_reserved(s@) is None,
            },
    {
        if *s == String::from_str("and") {
            Some(TokenType::And)
        } else if *s == String::from_str("class") {
            Some(TokenType::Class)
        } else if *s == String::from_str("else") {
            Some(TokenType::Else)
        } else if *s == String::from_str("false") {
            Some(TokenType::False)
        } else if *s == String::from_str("for") {
            Some(TokenType::For)
        } else if *s == String::from_str("fun") {
            Some(TokenType::Fun)
        } else if *s == String::from_str("if") {
            Some(TokenType::If)
        } else if *s == String::from_str("nil") {
            Some(TokenType::Nil)
        } else if *s == String::from_str("or") {
            Some(TokenType::Or)
        } else if *s == String::from_str("print") {
            Some(TokenType::Print)
        } else if *s == String::from_str("return") {
            Some(TokenType::Return)
        } else if *s == String::from_str("super") {
            Some(TokenType::Super)
        } else if *s == String::from_str("this") {
            Some(TokenType::This)
        } else if *s == String::from_str("true") {
            Some(TokenType::True)
        } else if *s == String::from_str("var") {
            Some(TokenType::Var)
        } else if *s == String::from_str("while") {
            Some(TokenType::While)
        } else {
            None
        }
    }

    /// A token whose lexeme is the single character `c`.
    fn one_char(&mut self, typ: TokenType, c: char) -> (t: Token)
        requires
            old(self).wf(),
            old(self).at() < old(self).cs().len(),
        ensures
            final(self).wf(),
            final(self).cs() == old(self).cs(),
            final(self).at() == old(self).at() + 1,
            final(self).line_no() == old(self).line_no(),
            final(self).done() == old(self).done(),
            t@ == tok1(typ@, old(self).line_no(), c),
    {
        proof {
        assert(self.pos < self.chars.len());
        }
        let mut s = String::new();
        crate::text::char_push(&mut s, c);
        self.pos = self.pos + 1;
        Token::new(typ, self.line, s)
    }

    /// The next token of the stream. After the end-of-input token has been
    /// returned the scanner is done and must not be asked again.
    pub fn next_token(&mut self) -> (t: Token)
        requires
            old(self).wf(),
            !old(self).done(),
        ensures
            final(self).wf(),
            final(self).cs() == old(self).cs(),
            spec_tokens_from(old(self).cs(), old(self).at(), old(self).line_no()) == seq![t@]
                + if final(self).done() {
                Seq::<TokenV>::empty()
            } else {
                spec_tokens_from(final(self).cs(), final(self).at(), final(self).line_no())
            },
            final(self).done() <==> t@.typ is Eof,
    {
        let ghost cs0 = self.chars@;
        let ghost p0 = self.pos as int;
        let ghost l0 = self.line;
        let n = self.chars.len();
        loop
            invariant
                self.wf(),
                !self.at_end,
                self.chars@ == cs0,
                n == cs0.len(),
                cs0 == old(self).cs(),
                p0 == old(self).at(),
                l0 == old(self).line_no(),
                spec_tokens_from(cs0, self.pos as int, self.line) == spec_tokens_from(
                    cs0,
                    p0,
                    l0,
                ),
            decreases cs0.len() - self.pos,
        {
            if self.pos == n {
                self.at_end = true;
                let t = Token::new(TokenType::Eof, self.line, String::new());
                assert(spec_tokens_from(cs0, p0, l0) =~= seq![t@]);
                return t;
            }
            let c = self.chars[self.pos];
            let ghost i = self.pos as int;
            let ghost line = self.line;
            if c == '(' {
                let t = self.one_char(TokenType::LeftParen, c);
                assert(spec_tokens_from(cs0, p0, l0) == seq![t@] + spec_tokens_from(
                    cs0, self.pos as int, self.line));
                return t;
            } else if c == ')' {
                let t = self.one_char(TokenType::RightParen, c);
                assert(spec_tokens_from(cs0, p0, l0) == seq![t@] + spec_tokens_from(
                    cs0, self.pos as int, self.line));
                return t;
            } else if c == '{' {
                let t = self.one_char(TokenType::LeftBrace, c);
                assert(spec_tokens_from(cs0, p0, l0) == seq![t@] + spec_tokens_from(
                    cs0, self.pos as int, self.line));
                return t;
            } else if c == '}' {
                let t = self.one_char(TokenType::RightBrace, c);
                assert(spec_tokens_from(cs0, p0, l0) == seq![t@] + spec_tokens_from(
                    cs0, self.pos as int, self.line));
                return t;
            } else if c == '*' {
                let t = self.one_char(TokenType::Star, c);
                assert(spec_tokens_from(cs0, p0, l0) == seq![t@] + spec_tokens_from(
                    cs0, self.pos as int, self.line));
                return t;
            } else if c == '+' {
                let t = self.one_char(TokenType::Plus, c);
                assert(spec_tokens_from(cs0, p0, l0) == seq![t@] + spec_tokens_from(
                    cs0, self.pos as int, self.line));
                return t;
            } else if c == '-' {
                let t = self.one_char(TokenType::Minus, c);
                assert(spec_tokens_from(cs0, p0, l0) == seq![t@] + spec_tokens_from(
                    cs0, self.pos as int, self.line));
                return t;
            } else if c == '.' {
                let t = self.one_char(TokenType::Dot, c);
                assert(spec_tokens_from(cs0, p0, l0) == seq![t@] + spec_tokens_from(
                    cs0, self.pos as int, self.line));
                return t;
            } else if c == ',' {
                let t = self.one_char(TokenType::Comma, c);
                assert(spec_tokens_from(cs0, p0, l0) == seq![t@] + spec_tokens_from(
                    cs0, self.pos as int, self.line));
                return t;
            } else if c == ';' {
                let t = self.one_char(TokenType::Semicolon, c);
                assert(spec_tokens_from(cs0, p0, l0) == seq![t@] + spec_tokens_from(
                    cs0, self.pos as int, self.line));
                return t;
            } else if c == '=' {
                let t = self.match_next(TokenType::EqualEqual, TokenType::Equal, c);
                assert(spec_tokens_from(cs0, p0, l0) == seq![t@] + spec_tokens_from(
                    cs0, self.pos as int, self.line));
                return t;
            } else if c == '>' {
                let t = self.match_next(TokenType::GreaterEqual, TokenType::Greater, c);
                assert(spec_tokens_from(cs0, p0, l0) == seq![t@] + spec_tokens_from(
                    cs0, self.pos as int, self.line));
                return t;
            } else if c == '<' {
                let t = self.match_next(TokenType::LessEqual, TokenType::Less, c);
                assert(spec_tokens_from(cs0, p0, l0) == seq![t@] + spec_tokens_from(
                    cs0, self.pos as int, self.line));
                return t;
            } else if c == '!' {
                let t = self.match_next(TokenType::BangEqual, TokenType::Bang, c);
                assert(spec_tokens_from(cs0, p0, l0) == seq![t@] + spec_tokens_from(
                    cs0, self.pos as int, self.line));
                return t;
            } else if c == '/' {
                if self.pos + 1 < n && self.chars[self.pos + 1] == '/' {
                    // A line comment: discard up to and including the newline.
                    let mut j = self.pos + 2;
                    while j < n && self.chars[j] != '\n'
                        invariant
                            self.pos + 2 <= j <= n,
                            n == cs0.len(),
                            self.chars@ == cs0,
                            comment_end(cs0, self.pos + 2) == comment_end(cs0, j as int),
                        decreases n - j,
                    {
                        j = j + 1;
                    }
                    assert(comment_end(cs0, self.pos + 2) == j);
                    if j < n {
                        self.pos = j + 1;
                        self.line = bump_by_exec(self.line, 1);
                    } else {
                        self.pos = n;
                    }
                    assert(lex_step(cs0, i, line) == (LexStep::Skip {
                        i: self.pos as int,
                        line: self.line,
                    }));
                } else {
                    let t = self.one_char(TokenType::Slash, c);
                    assert(spec_tokens_from(cs0, p0, l0) == seq![t@] + spec_tokens_from(
                        cs0, self.pos as int, self.line));
                    return t;
                }
            } else if c == '"' {
                let t = self.parse_string();
                assert(spec_tokens_from(cs0, p0, l0) == seq![t@] + spec_tokens_from(
                    cs0, self.pos as int, self.line));
                return t;
            } else if c == '\n' {
                self.pos = self.pos + 1;
                self.line = bump_by_exec(self.line, 1);
            } else if c == ' ' || c == '\t' || c == '\r' {
                self.pos = self.pos + 1;
            } else if is_digit(c) {
                let t = self.parse_number();
                assert(spec_tokens_from(cs0, p0, l0) == seq![t@] + spec_tokens_from(
                    cs0, self.pos as int, self.line));
                return t;
            } else if is_alpha(c) {
                let t = self.parse_ident();
                assert(spec_tokens_from(cs0, p0, l0) == seq![t@] + spec_tokens_from(
                    cs0, self.pos as int, self.line));
                return t;
            } else {
                let mut s = String::new();
                crate::text::char_push(&mut s, c);
                self.pos = self.pos + 1;
                let t = Token::new(
                    TokenType::Unknown(LexicalError::UnknownToken(c)),
                    self.line,
                    s,
                );
                assert(spec_tokens_from(cs0, p0, l0) == seq![t@] + spec_tokens_from(
                    cs0, self.pos as int, self.line));
                return t;
            }
        }
    }

    /// For `= > < !`: the compound token when the next character is `=`,
    /// else the single one.
    fn match_next(&mut self, matching: TokenType, single: TokenType, c: char) -> (t: Token)
        requires
            old(self).wf(),
            old(self).at() < old(self).cs().len(),
            old(self).cs()[old(self).at()] == c,
        ensures
            final(self).wf(),
            final(self).cs() == old(self).cs(),
            final(self).line_no() == old(self).line_no(),
            final(self).done() == old(self).done(),
            lex_step(old(self).cs(), old(self).at(), old(self).line_no()) == two_char_step(
                old(self).cs(), old(self).at(), old(self).line_no(), matching@, single@)
                ==> lex_step(old(self).cs(), old(self).at(), old(self).line_no())
                == (LexStep::Tok { t: t@, i: final(self).at(), line: final(self).line_no() }),
    {
        proof {
        assert(self.pos < self.chars.len());
        }
        if self.pos + 1 < self.chars.len() && self.chars[self.pos + 1] == '=' {
            let lexeme = self.copy_range(self.pos, self.pos + 2);
            let s = string_from_chars(&lexeme);
            self.pos = self.pos + 2;
            Token::new(matching, self.line, s)
        } else {
            self.one_char(single, c)
        }
    }

    /// A string literal: everything up to the closing quote, newlines kept
    /// and counted; the end of input before the closing quote yields an
    /// unterminated-string error token carrying the line of the end.
    fn parse_string(&mut self) -> (t: Token)
        requires
            old(self).wf(),
            old(self).at() < old(self).cs().len(),
            old(self).cs()[old(self).at()] == '"',
        ensures
            final(self).wf(),
            final(self).cs() == old(self).cs(),
            final(self).done() == old(self).done(),
            lex_step(old(self).cs(), old(self).at(), old(self).line_no()) == (LexStep::Tok {
                t: t@,
                i: final(self).at(),
                line: final(self).line_no(),
            }),
    {
        let ghost cs0 = self.chars@;
        let n = self.chars.len();
        let start = self.pos + 1;
        let mut j = start;
        let mut body: Vec<char> = Vec::new();
        let mut nl: u64 = 0;
        while j < n && self.chars[j] != '"'
            invariant
                start <= j <= n,
                n == cs0.len(),
                self.chars@ == cs0,
                start <= cs0.len(),
                body@ == cs0.subrange(start as int, j as int),
                string_end(cs0, start as int) == string_end(cs0, j as int),
                nl <= j - start,
                nl as nat == count_nl(body@),
            decreases n - j,
        {
            let d = self.chars[j];
            body.push(d);
            proof {
                assert(cs0.subrange(start as int, j as int).push(cs0[j as int])
                    =~= cs0.subrange(start as int, j + 1));
                assert(body@.drop_last() =~= cs0.subrange(start as int, j as int));
            }
            if d == '\n' {
                nl = nl + 1;
            }
            j = j + 1;
        }
        assert(string_end(cs0, start as int) == j);
        let line0 = self.line;
        let s = string_from_chars(&body);
        if j < n {
            self.pos = j + 1;
            self.line = bump_by_exec(self.line, nl);
            Token::new(TokenType::StringLiteral, line0, s)
        } else {
            self.pos = n;
            self.line = bump_by_exec(self.line, nl);
            Token::new(TokenType::Unknown(LexicalError::UnterminatedString), self.line, s)
        }
    }

    /// A digit-led number literal: digits, optionally a dot followed by
    /// digits. A dot not followed by a digit is left unconsumed; a second
    /// dot in the candidate yields an invalid-number error token.
    fn parse_number(&mut self) -> (t: Token)
        requires
            old(self).wf(),
            old(self).at() < old(self).cs().len(),
            is_digit_c(old(self).cs()[old(self).at()]),
        ensures
            final(self).wf(),
            final(self).cs() == old(self).cs(),
            final(self).line_no() == old(self).line_no(),
            final(self).done() == old(self).done(),
            lex_step(old(self).cs(), old(self).at(), old(self).line_no()) == (LexStep::Tok {
                t: t@,
                i: final(self).at(),
                line: final(self).line_no(),
            }),
    {
        let ghost cs0 = self.chars@;
        let n = self.chars.len();
        let i0 = self.pos;
        let j1 = self.scan_digits(i0);
        if j1 < n && self.chars[j1] == '.' && j1 + 1 < n && is_digit(self.chars[j1 + 1]) {
            let j2 = self.scan_digits(j1 + 1);
            proof {
                digits_end_props(cs0, j1 + 1);
            }
            let lexeme = self.copy_range(i0, j2);
            let s = string_from_chars(&lexeme);
            if j2 < n && self.chars[j2] == '.' {
                self.pos = j2;
                Token::new(TokenType::Unknown(LexicalError::InvalidNumber), self.line, s)
            } else {
                let ip = self.copy_range(i0, j1);
                let fp = self.copy_range(j1 + 1, j2);
                let val = number_value(&ip, &fp);
                self.pos = j2;
                Token::new(
                    TokenType::Number(Numeric(string_from_chars(&val))),
                    self.line,
                    s,
                )
            }
        } else {
            let lexeme = self.copy_range(i0, j1);
            let s = string_from_chars(&lexeme);
            let empty_frac: Vec<char> = Vec::new();
            let val = number_value(&lexeme, &empty_frac);
            self.pos = j1;
            assert(empty_frac@ =~= Seq::<char>::empty());
            Token::new(TokenType::Number(Numeric(string_from_chars(&val))), self.line, s)
        }
    }

    /// An identifier or reserved word.
    fn parse_ident(&mut self) -> (t: Token)
        requires
            old(self).wf(),
            old(self).at() < old(self).cs().len(),
            is_alpha_c(old(self).cs()[old(self).at()]),
        ensures
            final(self).wf(),
            final(self).cs() == old(self).cs(),
            final(self).line_no() == old(self).line_no(),
            final(self).done() == old(self).done(),
            lex_step(old(self).cs(), old(self).at(), old(self).line_no()) == (LexStep::Tok {
                t: t@,
                i: final(self).at(),
                line: final(self).line_no(),
            }),
    {
        let ghost cs0 = self.chars@;
        let n = self.chars.len();
        let i0 = self.pos;
        let mut j = i0 + 1;
        while j < n && is_alnum(self.chars[j])
            invariant
                i0 + 1 <= j <= n,
                n == cs0.len(),
                self.chars@ == cs0,
                ident_end(cs0, i0 + 1) == ident_end(cs0, j as int),
            decreases n - j,
        {
            j = j + 1;
        }
        assert(ident_end(cs0, i0 + 1) == j);
        let lexeme = self.copy_range(i0, j);
        let s = string_from_chars(&lexeme);
        self.pos = j;
        match self.reserved_from_str(&s) {
            Some(tt) => Token::new(tt, self.line, s),
            None => Token::new(TokenType::Identifier, self.line, s),
        }
    }
}

/// The token stream always holds at least one token: it ends with exactly
/// one end-of-input token, and no token before the end is one.
pub proof fn lemma_stream_shape(cs: Seq<char>, i: int, line: LineNum)
    requires
        0 <= i <= cs.len(),
    ensures
        spec_tokens_from(cs, i, line).len() >= 1,
        spec_tokens_from(cs, i, line).last().typ is Eof,
        forall|k: int|
            0 <= k < spec_tokens_from(cs, i, line).len() - 1 ==> !(#[trigger] spec_tokens_from(
                cs,
                i,
                line,
            )[k].typ is Eof),
    decreases cs.len() - i,
{
    lex_step_props(cs, i, line);
    match lex_step(cs, i, line) {
        LexStep::Skip { i: i2, line: l2 } => {
            lemma_stream_shape(cs, i2, l2);
        },
        LexStep::Tok { t, i: i2, line: l2 } => {
            lemma_stream_shape(cs, i2, l2);
            assert(!(t.typ is Eof));
            let s0 = spec_tokens_from(cs, i, line);
            let s1 = spec_tokens_from(cs, i2, l2);
            assert(s0 == seq![t] + s1);
            assert(s0.last() == s1.last());
            assert forall|k: int| 0 <= k < s0.len() - 1 implies !(#[trigger] s0[k].typ
                is Eof) by {
                if k >= 1 {
                    assert(s0[k] == s1[k - 1]);
                }
            }
        },
        LexStep::End => {},
    }
}

/// Line numbers never decrease along the token stream, and never fall below
/// the line the scan started on.
pub proof fn lemma_lines_monotone(cs: Seq<char>, i: int, line: LineNum)
    requires
        0 <= i <= cs.len(),
    ensures
        forall|k: int|
            0 <= k < spec_tokens_from(cs, i, line).len() ==> #[trigger] spec_tokens_from(
                cs,
                i,
                line,
            )[k].ln >= line,
        forall|k1: int, k2: int|
            0 <= k1 <= k2 < spec_tokens_from(cs, i, line).len() ==> #[trigger] spec_tokens_from(
                cs,
                i,
                line,
            )[k1].ln <= #[trigger] spec_tokens_from(cs, i, line)[k2].ln,
    decreases cs.len() - i,
{
    lex_step_props(cs, i, line);
    match lex_step(cs, i, line) {
        LexStep::Skip { i: i2, line: l2 } => {
            lemma_lines_monotone(cs, i2, l2);
            assert(l2 >= line);
        },
        LexStep::Tok { t, i: i2, line: l2 } => {
            lemma_lines_monotone(cs, i2, l2);
            let s0 = spec_tokens_from(cs, i, line);
            let s1 = spec_tokens_from(cs, i2, l2);
            assert(s0 == seq![t] + s1);
            assert(t.ln >= line);
            assert(l2 >= t.ln);
            assert forall|k: int| 0 <= k < s0.len() implies #[trigger] s0[k].ln >= line by {
                if k >= 1 {
                    assert(s0[k] == s1[k - 1]);
                }
            }
            assert forall|k1: int, k2: int| 0 <= k1 <= k2 < s0.len() implies #[trigger] s0[k1].ln
                <= #[trigger] s0[k2].ln by {
                if k1 >= 1 {
                    assert(s0[k1] == s1[k1 - 1]);
                }
                if k2 >= 1 {
                    assert(s0[k2] == s1[k2 - 1]);
                    assert(s1[k2 - 1].ln >= l2);
                }
            }
        },
        LexStep::End => {},
    }
}

/// The token stream of a whole source text ends with exactly one
/// end-of-input token and holds no other one.
pub proof fn lemma_tokenize_single_eof(cs: Seq<char>)
    ensures
        spec_tokenize(cs).len() >= 1,
        spec_tokenize(cs).last().typ is Eof,
        forall|k: int|
            0 <= k < spec_tokenize(cs).len() - 1 ==> !(#[trigger] spec_tokenize(cs)[k].typ
                is Eof),
{
    lemma_stream_shape(cs, 0, 1);
}

/// Token line numbers are monotonically non-decreasing across the stream,
/// starting at one.
pub proof fn lemma_tokenize_lines_monotone(cs: Seq<char>)
    ensures
        forall|k: int|
            0 <= k < spec_tokenize(cs).len() ==> #[trigger] spec_tokenize(cs)[k].ln >= 1,
        forall|k1: int, k2: int|
            0 <= k1 <= k2 < spec_tokenize(cs).len() ==> #[trigger] spec_tokenize(cs)[k1].ln
                <= #[trigger] spec_tokenize(cs)[k2].ln,
{
    lemma_lines_monotone(cs, 0, 1);
}

impl Lexer {
    /// All remaining tokens, ending with the end-of-input token.
    pub fn tokens(&mut self) -> (r: Vec<Token>)
        requires
            old(self).wf(),
            !old(self).done(),
        ensures
            r@.map_values(|t: Token| t@) == spec_tokens_from(
                old(self).cs(),
                old(self).at(),
                old(self).line_no(),
            ),
            final(self).done(),
    {
        let ghost stream = spec_tokens_from(old(self).cs(), old(self).at(), old(self).line_no());
        proof {
            lemma_stream_shape(old(self).cs(), old(self).at(), old(self).line_no());
        }
        let mut r: Vec<Token> = Vec::new();
        loop
            invariant
                self.wf(),
                self.cs() == old(self).cs(),
                stream == spec_tokens_from(old(self).cs(), old(self).at(), old(self).line_no()),
                !self.done() ==> r@.map_values(|t: Token| t@) + spec_tokens_from(
                    self.cs(),
                    self.at(),
                    self.line_no(),
                ) == stream,
                !self.done() ==> r@.len() < stream.len(),
                self.done() ==> r@.map_values(|t: Token| t@) == stream,
            decreases stream.len() - r@.len(),
        {
            if self.at_end {
                return r;
            }
            let ghost rest = spec_tokens_from(self.cs(), self.at(), self.line_no());
            proof {
                lemma_stream_shape(self.cs(), self.at(), self.line_no());
            }
            let t = self.next_token();
            proof {
                assert(r@.map_values(|t: Token| t@) + rest == stream);
            }
            r.push(t);
            proof {
                assert(r@.map_values(|t: Token| t@) =~= r@.drop_last().map_values(
                    |t: Token| t@,
                ).push(t@));
                if !self.done() {
                    let rest2 = spec_tokens_from(self.cs(), self.at(), self.line_no());
                    assert(rest == seq![t@] + rest2);
                    assert(r@.map_values(|t: Token| t@) + rest2 =~= stream);
                    lemma_stream_shape(self.cs(), self.at(), self.line_no());
                    assert(rest2.len() >= 1);
                } else {
                    assert(rest == seq![t@] + Seq::<TokenV>::empty());
                    assert(rest =~= seq![t@]);
                    assert(r@.map_values(|t: Token| t@) =~= stream);
                }
            }
        }
    }
}

/// The whole token stream of a source text.
pub fn tokenize(s: &str) -> (r: Vec<Token>)
    ensures
        r@.map_values(|t: Token| t@) == spec_tokenize(s@),
{
    let mut lexer = Lexer::new(s);
    lexer.tokens()
}

} // verus!
