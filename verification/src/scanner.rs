use vstd::prelude::*;
use vstd::hash_map::StringHashMap;
use vstd::string::*;
use crate::error_hadling::{error, report_text};
use crate::text::{characters, text_of};
use crate::token::{LiteralModel, LiteralPossibleValues, Token, TokenModel};
use crate::token_type::TokenType;

verus! {

/// A decimal digit.
pub open spec fn is_digit(c: char) -> bool {
    '0' <= c <= '9'
}

/// A letter of the Latin alphabet, or an underscore.
pub open spec fn is_alpha(c: char) -> bool {
    ('a' <= c <= 'z') || ('A' <= c <= 'Z') || c == '_'
}

/// A character that may stand in a word.
pub open spec fn is_alpha_numeric(c: char) -> bool {
    is_alpha(c) || is_digit(c)
}

/// The reserved words and their token kinds.
pub open spec fn keyword_table() -> Map<Seq<char>, TokenType> {
    Map::<Seq<char>, TokenType>::empty().insert("and"@, TokenType::And).insert(
        "class"@,
        TokenType::Class,
    ).insert("else"@, TokenType::Else).insert("false"@, TokenType::False).insert(
        "for"@,
        TokenType::For,
    ).insert("fun"@, TokenType::Fun).insert("if"@, TokenType::If).insert(
        "nil"@,
        TokenType::Nil,
    ).insert("or"@, TokenType::Or).insert("print"@, TokenType::Print).insert(
        "return"@,
        TokenType::Return,
    ).insert("super"@, TokenType::Super).insert("this"@, TokenType::This).insert(
        "true"@,
        TokenType::True,
    ).insert("var"@, TokenType::Var).insert("while"@, TokenType::While)
}

/// The kind of a word: its keyword, or `Identifier`.
pub open spec fn word_kind(text: Seq<char>) -> TokenType {
    if keyword_table().contains_key(text) {
        keyword_table()[text]
    } else {
        TokenType::Identifier
    }
}

/// The line number after a line break. It stops growing at the largest `i32`.
pub open spec fn bump(line: int) -> int {
    if line < i32::MAX {
        line + 1
    } else {
        line
    }
}

/// The line number after passing `s[from..to]`, starting at `line`.
pub open spec fn line_after(s: Seq<char>, from: int, to: int, line: int) -> int
    decreases to - from,
{
    if from >= to {
        line
    } else {
        line_after(
            s,
            from + 1,
            to,
            if s[from] == '\n' {
                bump(line)
            } else {
                line
            },
        )
    }
}

/// The end of the run of digits that starts at `pos`.
pub open spec fn digits_end(s: Seq<char>, pos: int) -> int
    decreases s.len() - pos,
{
    if 0 <= pos < s.len() && is_digit(s[pos]) {
        digits_end(s, pos + 1)
    } else {
        pos
    }
}

/// The end of the run of letters, digits and underscores that starts at `pos`.
pub open spec fn word_end(s: Seq<char>, pos: int) -> int
    decreases s.len() - pos,
{
    if 0 <= pos < s.len() && is_alpha_numeric(s[pos]) {
        word_end(s, pos + 1)
    } else {
        pos
    }
}

/// The first position at or after `pos` that holds `c`; the length where
/// none does.
pub open spec fn find(s: Seq<char>, pos: int, c: char) -> int
    decreases s.len() - pos,
{
    if 0 <= pos < s.len() && s[pos] != c {
        find(s, pos + 1, c)
    } else {
        pos
    }
}

/// The position after the first `*/` at or after `pos`; the length where
/// there is none.
pub open spec fn comment_end(s: Seq<char>, pos: int) -> int
    decreases s.len() - pos,
{
    if 0 <= pos < s.len() {
        if s[pos] == '*' && pos + 1 < s.len() && s[pos + 1] == '/' {
            pos + 2
        } else {
            comment_end(s, pos + 1)
        }
    } else {
        pos
    }
}

/// The end of the numeral that starts with the digit at `start`: digits,
/// then a `.` and more digits where a digit follows the `.`.
pub open spec fn number_end(s: Seq<char>, start: int) -> int {
    let whole = digits_end(s, start + 1);
    if whole + 1 < s.len() && s[whole] == '.' && is_digit(s[whole + 1]) {
        digits_end(s, whole + 1)
    } else {
        whole
    }
}

/// What scanning makes of the text that starts at one position.
pub struct Lexed {
    /// Where the next token starts.
    pub next: int,
    /// The line number there.
    pub line: int,
    /// The token, unless the text was blank, a comment or an error.
    pub token: Option<TokenModel>,
    /// The report, where the text was in error.
    pub error: Option<Seq<char>>,
}

/// The text was skipped.
pub open spec fn skipped(next: int, line: int) -> Lexed {
    Lexed { next, line, token: None, error: None }
}

/// A token without a payload, made of `s[start..end]`.
pub open spec fn plain(kind: TokenType, s: Seq<char>, start: int, end: int, line: int) -> Lexed {
    Lexed {
        next: end,
        line,
        token: Some(TokenModel { kind, lexeme: s.subrange(start, end), literal: None, line }),
        error: None,
    }
}

/// An operator of one character, or of two where `=` follows.
pub open spec fn operator(
    s: Seq<char>,
    start: int,
    line: int,
    alone: TokenType,
    with_equal: TokenType,
) -> Lexed {
    if start + 1 < s.len() && s[start + 1] == '=' {
        plain(with_equal, s, start, start + 2, line)
    } else {
        plain(alone, s, start, start + 1, line)
    }
}

/// A `/`: a comment to the end of the line, a comment to the next `*/`, or
/// the division operator.
pub open spec fn slash(s: Seq<char>, start: int, line: int) -> Lexed {
    if start + 1 < s.len() && s[start + 1] == '/' {
        skipped(find(s, start + 2, '\n'), line)
    } else if start + 1 < s.len() && s[start + 1] == '*' {
        let end = comment_end(s, start + 2);
        skipped(end, line_after(s, start + 2, end, line))
    } else {
        plain(TokenType::Slash, s, start, start + 1, line)
    }
}

/// The text that reports a string without its closing quote.
pub open spec fn unterminated_message() -> Seq<char> {
    "Unterminated string."@
}

/// A string literal, which may run over several lines. Where the closing
/// quote is missing, the rest of the input is the string, and an error is
/// reported.
pub open spec fn string(s: Seq<char>, start: int, line: int) -> Lexed {
    let close = find(s, start + 1, '"');
    let last_line = line_after(s, start + 1, close, line);
    if close < s.len() {
        Lexed {
            next: close + 1,
            line: last_line,
            token: Some(
                TokenModel {
                    kind: TokenType::String,
                    lexeme: s.subrange(start, close + 1),
                    literal: Some(LiteralModel::Text(s.subrange(start + 1, close))),
                    line: last_line,
                },
            ),
            error: None,
        }
    } else {
        Lexed {
            next: close,
            line: last_line,
            token: Some(
                TokenModel {
                    kind: TokenType::String,
                    lexeme: s.subrange(start, close),
                    literal: Some(LiteralModel::Text(s.subrange(start + 1, close))),
                    line: last_line,
                },
            ),
            error: Some(report_text(last_line, Seq::empty(), unterminated_message())),
        }
    }
}

/// A number literal. Its payload is the numeral as written.
pub open spec fn number(s: Seq<char>, start: int, line: int) -> Lexed {
    let end = number_end(s, start);
    Lexed {
        next: end,
        line,
        token: Some(
            TokenModel {
                kind: TokenType::Number,
                lexeme: s.subrange(start, end),
                literal: Some(LiteralModel::Number(s.subrange(start, end))),
                line,
            },
        ),
        error: None,
    }
}

/// A keyword or an identifier.
pub open spec fn identifier(s: Seq<char>, start: int, line: int) -> Lexed {
    let end = word_end(s, start + 1);
    plain(word_kind(s.subrange(start, end)), s, start, end, line)
}

/// The text that reports a character that starts no token.
pub open spec fn unexpected_message(c: char) -> Seq<char> {
    "Unexpected character: "@.push(c)
}

/// What scanning makes of the text at `start`, which is inside the source.
pub open spec fn scan_token(s: Seq<char>, start: int, line: int) -> Lexed {
    let c = s[start];
    if c == '(' {
        plain(TokenType::LeftParen, s, start, start + 1, line)
    } else if c == ')' {
        plain(TokenType::RightParen, s, start, start + 1, line)
    } else if c == '{' {
        plain(TokenType::LeftBrace, s, start, start + 1, line)
    } else if c == '}' {
        plain(TokenType::RightBrace, s, start, start + 1, line)
    } else if c == ',' {
        plain(TokenType::Comma, s, start, start + 1, line)
    } else if c == '.' {
        plain(TokenType::Dot, s, start, start + 1, line)
    } else if c == '-' {
        plain(TokenType::Minus, s, start, start + 1, line)
    } else if c == '+' {
        plain(TokenType::Plus, s, start, start + 1, line)
    } else if c == ';' {
        plain(TokenType::Semicolon, s, start, start + 1, line)
    } else if c == '*' {
        plain(TokenType::Star, s, start, start + 1, line)
    } else if c == '!' {
        operator(s, start, line, TokenType::Bang, TokenType::BangEqual)
    } else if c == '=' {
        operator(s, start, line, TokenType::Equal, TokenType::EqualEqual)
    } else if c == '<' {
        operator(s, start, line, TokenType::Less, TokenType::LessEqual)
    } else if c == '>' {
        operator(s, start, line, TokenType::Greater, TokenType::GreaterEqual)
    } else if c == '/' {
        slash(s, start, line)
    } else if c == '"' {
        string(s, start, line)
    } else if c == ' ' || c == '\t' || c == '\r' {
        skipped(start + 1, line)
    } else if c == '\n' {
        skipped(start + 1, bump(line))
    } else if is_digit(c) {
        number(s, start, line)
    } else if is_alpha(c) {
        identifier(s, start, line)
    } else {
        Lexed {
            next: start + 1,
            line,
            token: None,
            error: Some(report_text(line, Seq::empty(), unexpected_message(c))),
        }
    }
}

/// The tokens and the error reports of a stretch of source text.
pub struct Scanned {
    pub tokens: Seq<TokenModel>,
    pub errors: Seq<Seq<char>>,
    /// The line number at the end of the text.
    pub line: int,
}

/// The one element of `Some`, nothing of `None`.
pub open spec fn listed<T>(item: Option<T>) -> Seq<T> {
    match item {
        Some(t) => seq![t],
        None => Seq::empty(),
    }
}

/// What scanning makes of the source from `pos` to its end.
pub open spec fn scan_from(s: Seq<char>, pos: int, line: int) -> Scanned
    decreases s.len() - pos,
{
    if 0 <= pos < s.len() {
        let lexed = scan_token(s, pos, line);
        if pos < lexed.next <= s.len() {
            let rest = scan_from(s, lexed.next, lexed.line);
            Scanned {
                tokens: listed(lexed.token) + rest.tokens,
                errors: listed(lexed.error) + rest.errors,
                line: rest.line,
            }
        } else {
            Scanned { tokens: Seq::empty(), errors: Seq::empty(), line }
        }
    } else {
        Scanned { tokens: Seq::empty(), errors: Seq::empty(), line }
    }
}

/// The token that ends every token sequence.
pub open spec fn end_of_file(line: int) -> TokenModel {
    TokenModel { kind: TokenType::Eof, lexeme: Seq::empty(), literal: None, line }
}

/// The tokens of a whole source text: those of its text, then the end
/// marker.
pub open spec fn scan(s: Seq<char>) -> Scanned {
    let body = scan_from(s, 0, 1);
    Scanned {
        tokens: body.tokens.push(end_of_file(body.line)),
        errors: body.errors,
        line: body.line,
    }
}

/// The models of the tokens, in order.
pub open spec fn token_models(tokens: Seq<Token>) -> Seq<TokenModel> {
    Seq::new(tokens.len(), |i: int| tokens[i]@)
}

/// The texts of the strings, in order.
pub open spec fn texts(strings: Seq<String>) -> Seq<Seq<char>> {
    Seq::new(strings.len(), |i: int| strings[i]@)
}

/// `find` stays inside the text and stops at the character it looks for.
proof fn lemma_find_bounds(s: Seq<char>, pos: int, c: char)
    requires
        0 <= pos <= s.len(),
    ensures
        pos <= find(s, pos, c) <= s.len(),
        find(s, pos, c) < s.len() ==> s[find(s, pos, c)] == c,
    decreases s.len() - pos,
{
    if pos < s.len() && s[pos] != c {
        lemma_find_bounds(s, pos + 1, c);
    }
}

/// A run of digits ends inside the text.
proof fn lemma_digits_end_bounds(s: Seq<char>, pos: int)
    requires
        0 <= pos <= s.len(),
    ensures
        pos <= digits_end(s, pos) <= s.len(),
    decreases s.len() - pos,
{
    if pos < s.len() && is_digit(s[pos]) {
        lemma_digits_end_bounds(s, pos + 1);
    }
}

/// A word ends inside the text.
proof fn lemma_word_end_bounds(s: Seq<char>, pos: int)
    requires
        0 <= pos <= s.len(),
    ensures
        pos <= word_end(s, pos) <= s.len(),
    decreases s.len() - pos,
{
    if pos < s.len() && is_alpha_numeric(s[pos]) {
        lemma_word_end_bounds(s, pos + 1);
    }
}

/// A comment ends inside the text.
proof fn lemma_comment_end_bounds(s: Seq<char>, pos: int)
    requires
        0 <= pos <= s.len(),
    ensures
        pos <= comment_end(s, pos) <= s.len(),
    decreases s.len() - pos,
{
    if pos < s.len() {
        if s[pos] == '*' && pos + 1 < s.len() && s[pos + 1] == '/' {
        } else {
            lemma_comment_end_bounds(s, pos + 1);
        }
    }
}

/// Every scanning step consumes at least one character and stays inside the
/// text.
pub proof fn lemma_scan_token_advances(s: Seq<char>, start: int, line: int)
    requires
        0 <= start < s.len(),
    ensures
        start < scan_token(s, start, line).next <= s.len(),
{
    lemma_find_bounds(s, start + 1, '"');
    if start + 2 <= s.len() {
        lemma_find_bounds(s, start + 2, '\n');
        lemma_comment_end_bounds(s, start + 2);
    }
    lemma_digits_end_bounds(s, start + 1);
    let whole = digits_end(s, start + 1);
    if whole + 1 < s.len() {
        lemma_digits_end_bounds(s, whole + 1);
    }
    lemma_word_end_bounds(s, start + 1);
}

/// Whether every character of `s[from..to]` is a digit.
pub open spec fn all_digits(s: Seq<char>, from: int, to: int) -> bool {
    forall|i: int| from <= i < to ==> is_digit(#[trigger] s[i])
}

/// Whether the first `whole` characters of `n` are its digits before the
/// point: they are digits, and either nothing follows, or a `.` and at least
/// one digit and nothing but digits.
pub open spec fn numeral_with(n: Seq<char>, whole: int) -> bool {
    &&& 0 < whole <= n.len()
    &&& all_digits(n, 0, whole)
    &&& whole == n.len() || (n[whole] == '.' && whole + 1 < n.len() && all_digits(
        n,
        whole + 1,
        n.len() as int,
    ))
}

/// A numeral: one or more digits, then optionally a `.` and one or more
/// digits.
pub open spec fn is_numeral(n: Seq<char>) -> bool {
    exists|whole: int| numeral_with(n, whole)
}

/// A run of digits that is followed by no digit ends where it ends.
proof fn lemma_digits_end_of_run(s: Seq<char>, from: int, to: int)
    requires
        0 <= from <= to <= s.len(),
        all_digits(s, from, to),
        to == s.len() || !is_digit(s[to]),
    ensures
        digits_end(s, from) == to,
    decreases to - from,
{
    if from < to {
        assert(is_digit(s[from]));
        lemma_digits_end_of_run(s, from + 1, to);
    }
}

/// Scanning a numeral gives one number token, whose lexeme and whose payload
/// are the numeral as it was written, and then the end marker. So the number
/// that the payload stands for is the number that the lexeme stands for.
pub proof fn lemma_numeral_scans_to_itself(n: Seq<char>)
    requires
        is_numeral(n),
    ensures
        scan(n).tokens == seq![
            TokenModel {
                kind: TokenType::Number,
                lexeme: n,
                literal: Some(LiteralModel::Number(n)),
                line: 1,
            },
            end_of_file(1),
        ],
        scan(n).errors == Seq::<Seq<char>>::empty(),
{
    let whole = choose|whole: int| numeral_with(n, whole);
    let length = n.len() as int;
    assert(is_digit(n[0]));
    if whole == length {
        lemma_digits_end_of_run(n, 1, length);
    } else {
        assert(!is_digit(n[whole]));
        lemma_digits_end_of_run(n, 1, whole);
        assert(is_digit(n[whole + 1]));
        lemma_digits_end_of_run(n, whole + 1, length);
    }
    assert(number_end(n, 0) == length);
    assert(n.subrange(0, length) =~= n);
    let lexed = scan_token(n, 0, 1);
    assert(lexed == number(n, 0, 1));
    let rest = scan_from(n, length, 1);
    assert(rest.tokens =~= Seq::<TokenModel>::empty());
    assert(scan_from(n, 0, 1).tokens =~= seq![lexed.token->0]);
    assert(scan_from(n, 0, 1).errors =~= Seq::<Seq<char>>::empty());
    assert(scan(n).tokens =~= seq![lexed.token->0, end_of_file(1)]);
}

/// The end marker is the last token of every scan, and no token before it
/// is one.
pub proof fn lemma_scan_ends_with_one_end_marker(s: Seq<char>)
    ensures
        scan(s).tokens.len() > 0,
        scan(s).tokens.last().kind == TokenType::Eof,
        forall|i: int|
            0 <= i < scan(s).tokens.len() - 1 ==> (#[trigger] scan(s).tokens[i]).kind
                != TokenType::Eof,
{
    lemma_no_end_marker_within(s, 0, 1);
}

/// Scanning text produces no end marker.
pub proof fn lemma_no_end_marker_within(s: Seq<char>, pos: int, line: int)
    ensures
        forall|i: int|
            0 <= i < scan_from(s, pos, line).tokens.len() ==> (#[trigger] scan_from(
                s,
                pos,
                line,
            ).tokens[i]).kind != TokenType::Eof,
    decreases s.len() - pos,
{
    if 0 <= pos < s.len() {
        let lexed = scan_token(s, pos, line);
        if pos < lexed.next <= s.len() {
            lemma_no_end_marker_within(s, lexed.next, lexed.line);
            assert(lexed.token is Some ==> lexed.token->0.kind != TokenType::Eof);
        }
    }
}

/// Turns source text into tokens in one pass from left to right.
pub struct Scanner {
    source: Vec<char>,
    tokens: Vec<Token>,
    errors: Vec<String>,
    start: usize,
    current: usize,
    line: i32,
    keywords: StringHashMap<TokenType>,
}

impl Scanner {
    /// The keyword table is the fixed one.
    pub closed spec fn wf(&self) -> bool {
        self.keywords@ == keyword_table()
    }

    /// The characters of the source text.
    pub closed spec fn text(&self) -> Seq<char> {
        self.source@
    }

    /// Where the next token starts.
    pub closed spec fn position(&self) -> int {
        self.current as int
    }

    /// The line number at that position.
    pub closed spec fn line_number(&self) -> int {
        self.line as int
    }

    /// The tokens produced so far.
    pub closed spec fn produced(&self) -> Seq<TokenModel> {
        token_models(self.tokens@)
    }

    /// The error reports made so far.
    pub closed spec fn reported(&self) -> Seq<Seq<char>> {
        texts(self.errors@)
    }

    /// A scanner at the start of `source`, on line 1.
    pub fn new(source: String) -> (r: Self)
        ensures
            r.wf(),
            r.text() == source@,
            r.position() == 0,
            r.line_number() == 1,
            r.produced() == Seq::<TokenModel>::empty(),
            r.reported() == Seq::<Seq<char>>::empty(),
    {
        let mut keywords = StringHashMap::<TokenType>::new();
        keywords.insert(String::from_str("and"), TokenType::And);
        keywords.insert(String::from_str("class"), TokenType::Class);
        keywords.insert(String::from_str("else"), TokenType::Else);
        keywords.insert(String::from_str("false"), TokenType::False);
        keywords.insert(String::from_str("for"), TokenType::For);
        keywords.insert(String::from_str("fun"), TokenType::Fun);
        keywords.insert(String::from_str("if"), TokenType::If);
        keywords.insert(String::from_str("nil"), TokenType::Nil);
        keywords.insert(String::from_str("or"), TokenType::Or);
        keywords.insert(String::from_str("print"), TokenType::Print);
        keywords.insert(String::from_str("return"), TokenType::Return);
        keywords.insert(String::from_str("super"), TokenType::Super);
        keywords.insert(String::from_str("this"), TokenType::This);
        keywords.insert(String::from_str("true"), TokenType::True);
        keywords.insert(String::from_str("var"), TokenType::Var);
        keywords.insert(String::from_str("while"), TokenType::While);
        let r = Scanner {
            source: characters(source.as_str()),
            tokens: Vec::new(),
            errors: Vec::new(),
            start: 0,
            current: 0,
            line: 1,
            keywords,
        };
        assert(token_models(r.tokens@) =~= Seq::<TokenModel>::empty());
        assert(texts(r.errors@) =~= Seq::<Seq<char>>::empty());
        r
    }

    /// Whether the whole source has been consumed.
    fn is_at_end(&self) -> (r: bool)
        ensures
            r == (self.current >= self.source@.len()),
    {
        self.current >= self.source.len()
    }

    fn is_digit(character: char) -> (r: bool)
        ensures
            r == is_digit(character),
    {
        character >= '0' && character <= '9'
    }

    fn is_alpha(character: char) -> (r: bool)
        ensures
            r == is_alpha(character),
    {
        (character >= 'a' && character <= 'z') || (character >= 'A' && character <= 'Z')
            || character == '_'
    }

    fn is_alpha_numeric(character: char) -> (r: bool)
        ensures
            r == is_alpha_numeric(character),
    {
        Self::is_alpha(character) || Self::is_digit(character)
    }

    /// The character at the current position; `'\0'` at the end.
    fn peek(&self) -> (r: char)
        ensures
            self.current < self.source@.len() ==> r == self.source@[self.current as int],
            self.current >= self.source@.len() ==> r == '\0',
    {
        if self.current < self.source.len() {
            self.source[self.current]
        } else {
            '\0'
        }
    }

    /// The character after the current position; `'\0'` past the end.
    fn peek_next(&self) -> (r: char)
        ensures
            self.current + 1 < self.source@.len() ==> r == self.source@[self.current + 1],
            self.current + 1 >= self.source@.len() ==> r == '\0',
    {
        if self.current < self.source.len() && self.current + 1 < self.source.len() {
            self.source[self.current + 1]
        } else {
            '\0'
        }
    }

    /// Steps over one character.
    fn advance(&mut self) -> (r: char)
        requires
            old(self).current < old(self).source@.len(),
        ensures
            r == old(self).source@[old(self).current as int],
            final(self).current == old(self).current + 1,
            final(self).source == old(self).source,
            final(self).tokens == old(self).tokens,
            final(self).errors == old(self).errors,
            final(self).start == old(self).start,
            final(self).line == old(self).line,
            final(self).keywords == old(self).keywords,
    {
        let character = self.source[self.current];
        assert(self.current < self.source.len());
        self.current += 1;
        character
    }

    /// Steps over the current character where it is `expected`.
    fn match_next(&mut self, expected: char) -> (r: bool)
        ensures
            r == (old(self).current < old(self).source@.len() && old(self).source@[old(
                self,
            ).current as int] == expected),
            final(self).current == if r {
                old(self).current + 1
            } else {
                old(self).current as int
            },
            final(self).source == old(self).source,
            final(self).tokens == old(self).tokens,
            final(self).errors == old(self).errors,
            final(self).start == old(self).start,
            final(self).line == old(self).line,
            final(self).keywords == old(self).keywords,
    {
        if self.is_at_end() {
            return false;
        }
        if self.source[self.current] != expected {
            return false;
        }
        assert(self.current < self.source.len());
        self.current += 1;
        true
    }

    /// Whether this state is what scanning made of `before` by `lexed`.
    spec fn follows(&self, before: Scanner, lexed: Lexed) -> bool {
        &&& self.source == before.source
        &&& self.keywords == before.keywords
        &&& self.start == before.start
        &&& self.current == lexed.next
        &&& self.line == lexed.line
        &&& token_models(self.tokens@) == token_models(before.tokens@) + listed(lexed.token)
        &&& texts(self.errors@) == texts(before.errors@) + listed(lexed.error)
    }

    /// Adds a token without a payload, made of the text from `start` to the
    /// current position.
    fn add_token(&mut self, token: TokenType)
        requires
            old(self).start <= old(self).current <= old(self).source@.len(),
        ensures
            final(self).follows(
                *old(self),
                plain(
                    token,
                    old(self).source@,
                    old(self).start as int,
                    old(self).current as int,
                    old(self).line as int,
                ),
            ),
    {
        self.add_token_in_list(token, None);
    }

    /// Adds a token made of the text from `start` to the current position.
    fn add_token_in_list(&mut self, token_type: TokenType, literal: Option<LiteralPossibleValues>)
        requires
            old(self).start <= old(self).current <= old(self).source@.len(),
        ensures
            final(self).follows(
                *old(self),
                Lexed {
                    next: old(self).current as int,
                    line: old(self).line as int,
                    token: Some(
                        TokenModel {
                            kind: token_type,
                            lexeme: old(self).source@.subrange(
                                old(self).start as int,
                                old(self).current as int,
                            ),
                            literal: match literal {
                                Some(l) => Some(l@),
                                None => None,
                            },
                            line: old(self).line as int,
                        },
                    ),
                    error: None,
                },
            ),
    {
        let sub_string = text_of(&self.source, self.start, self.current);
        let token = Token::new(token_type, sub_string, literal, self.line);
        self.tokens.push(token);
        assert(token_models(self.tokens@) =~= token_models(old(self).tokens@) + seq![token@]);
        assert(texts(self.errors@) =~= texts(old(self).errors@) + Seq::<Seq<char>>::empty());
    }

    /// Records the report of a lexical error on the current line.
    fn add_error(&mut self, message: &str)
        ensures
            final(self).follows(
                *old(self),
                Lexed {
                    next: old(self).current as int,
                    line: old(self).line as int,
                    token: None,
                    error: Some(report_text(old(self).line as int, Seq::empty(), message@)),
                },
            ),
    {
        let text = error(self.line, message);
        self.errors.push(text);
        assert(texts(self.errors@) =~= texts(old(self).errors@) + seq![text@]);
        assert(token_models(self.tokens@) =~= token_models(old(self).tokens@) + Seq::<
            TokenModel,
        >::empty());
    }

    /// Moves to the next line number.
    fn next_line(&mut self)
        ensures
            final(self).line == bump(old(self).line as int),
            final(self).current == old(self).current,
            final(self).source == old(self).source,
            final(self).tokens == old(self).tokens,
            final(self).errors == old(self).errors,
            final(self).start == old(self).start,
            final(self).keywords == old(self).keywords,
    {
        if self.line < i32::MAX {
            self.line += 1;
        }
    }

    /// Scans the rest of a keyword or an identifier.
    fn identifier(&mut self)
        requires
            old(self).wf(),
            old(self).start + 1 == old(self).current,
            old(self).current <= old(self).source@.len(),
        ensures
            final(self).follows(
                *old(self),
                identifier(old(self).source@, old(self).start as int, old(self).line as int),
            ),
    {
        while Self::is_alpha_numeric(self.peek()) && !self.is_at_end()
            invariant
                self.source == old(self).source,
                self.keywords == old(self).keywords,
                self.tokens == old(self).tokens,
                self.errors == old(self).errors,
                self.start == old(self).start,
                self.line == old(self).line,
                self.start < self.current <= self.source@.len(),
                word_end(self.source@, self.current as int) == word_end(
                    self.source@,
                    self.start + 1,
                ),
            decreases self.source@.len() - self.current,
        {
            self.advance();
        }
        let sub_string = text_of(&self.source, self.start, self.current);
        let value = match self.keywords.get(sub_string.as_str()) {
            Some(kind) => Some(*kind),
            None => None,
        };
        if let Some(val) = value {
            self.add_token(val);
        } else {
            self.add_token(TokenType::Identifier);
        }
    }

    /// Scans the rest of a number literal.
    fn number(&mut self)
        requires
            old(self).start + 1 == old(self).current,
            old(self).current <= old(self).source@.len(),
        ensures
            final(self).follows(
                *old(self),
                number(old(self).source@, old(self).start as int, old(self).line as int),
            ),
    {
        while Self::is_digit(self.peek()) && !self.is_at_end()
            invariant
                self.source == old(self).source,
                self.keywords == old(self).keywords,
                self.tokens == old(self).tokens,
                self.errors == old(self).errors,
                self.start == old(self).start,
                self.line == old(self).line,
                self.start < self.current <= self.source@.len(),
                digits_end(self.source@, self.current as int) == digits_end(
                    self.source@,
                    self.start + 1,
                ),
            decreases self.source@.len() - self.current,
        {
            self.advance();
        }
        if self.peek() == '.' && Self::is_digit(self.peek_next()) && !self.is_at_end() {
            self.advance();
            let ghost whole = self.current as int;
            while Self::is_digit(self.peek()) && !self.is_at_end()
                invariant
                    self.source == old(self).source,
                    self.keywords == old(self).keywords,
                    self.tokens == old(self).tokens,
                    self.errors == old(self).errors,
                    self.start == old(self).start,
                    self.line == old(self).line,
                    self.start < self.current <= self.source@.len(),
                    digits_end(self.source@, self.current as int) == digits_end(
                        self.source@,
                        whole,
                    ),
                decreases self.source@.len() - self.current,
            {
                self.advance();
            }
        }
        let numeral = text_of(&self.source, self.start, self.current);
        self.add_token_in_list(TokenType::Number, Some(LiteralPossibleValues::NumberValue(numeral)));
    }

    /// Scans the rest of a string literal.
    fn string(&mut self)
        requires
            old(self).start + 1 == old(self).current,
            old(self).current <= old(self).source@.len(),
        ensures
            final(self).follows(
                *old(self),
                string(old(self).source@, old(self).start as int, old(self).line as int),
            ),
    {
        proof {
            lemma_find_bounds(self.source@, self.start + 1, '"');
        }
        let ghost close = find(self.source@, self.start + 1, '"');
        while self.peek() != '"' && !self.is_at_end()
            invariant
                self.source == old(self).source,
                self.keywords == old(self).keywords,
                self.tokens == old(self).tokens,
                self.errors == old(self).errors,
                self.start == old(self).start,
                self.start < self.current <= close <= self.source@.len(),
                find(self.source@, self.current as int, '"') == close,
                line_after(self.source@, self.current as int, close, self.line as int)
                    == line_after(self.source@, self.start + 1, close, old(self).line as int),
            decreases self.source@.len() - self.current,
        {
            proof {
                lemma_find_bounds(self.source@, self.current + 1, '"');
            }
            if self.peek() == '\n' {
                self.next_line();
            }
            self.advance();
        }
        if self.is_at_end() {
            self.add_error("Unterminated string.");
            let value = text_of(&self.source, self.start + 1, self.current);
            self.add_token_in_list(
                TokenType::String,
                Some(LiteralPossibleValues::StringValue(value)),
            );
            proof {
                let lexed = string(old(self).source@, old(self).start as int, old(self).line as int);
                assert(token_models(self.tokens@) =~= token_models(old(self).tokens@) + listed(
                    lexed.token,
                ));
                assert(texts(self.errors@) =~= texts(old(self).errors@) + listed(lexed.error));
            }
        } else {
            self.advance();
            let value = text_of(&self.source, self.start + 1, self.current - 1);
            self.add_token_in_list(
                TokenType::String,
                Some(LiteralPossibleValues::StringValue(value)),
            );
        }
    }

    /// Skips the rest of a comment that runs to the end of the line.
    fn line_comment(&mut self)
        requires
            old(self).start + 2 == old(self).current,
            old(self).current <= old(self).source@.len(),
        ensures
            final(self).follows(
                *old(self),
                skipped(find(old(self).source@, old(self).start + 2, '\n'), old(self).line as int),
            ),
    {
        while self.peek() != '\n' && !self.is_at_end()
            invariant
                self.source == old(self).source,
                self.keywords == old(self).keywords,
                self.tokens == old(self).tokens,
                self.errors == old(self).errors,
                self.start == old(self).start,
                self.line == old(self).line,
                self.current <= self.source@.len(),
                find(self.source@, self.current as int, '\n') == find(
                    self.source@,
                    self.start + 2,
                    '\n',
                ),
            decreases self.source@.len() - self.current,
        {
            self.advance();
        }
        proof {
            assert(token_models(self.tokens@) =~= token_models(old(self).tokens@) + Seq::<
                TokenModel,
            >::empty());
            assert(texts(self.errors@) =~= texts(old(self).errors@) + Seq::<Seq<char>>::empty());
        }
    }

    /// Skips the rest of a comment that runs to the next `*/`.
    fn block_comment(&mut self)
        requires
            old(self).start + 2 == old(self).current,
            old(self).current <= old(self).source@.len(),
        ensures
            final(self).follows(
                *old(self),
                skipped(
                    comment_end(old(self).source@, old(self).start + 2),
                    line_after(
                        old(self).source@,
                        old(self).start + 2,
                        comment_end(old(self).source@, old(self).start + 2),
                        old(self).line as int,
                    ),
                ),
            ),
    {
        proof {
            lemma_comment_end_bounds(self.source@, self.start + 2);
        }
        let ghost end = comment_end(self.source@, self.start + 2);
        let mut open = true;
        while open && !self.is_at_end()
            invariant
                self.source == old(self).source,
                self.keywords == old(self).keywords,
                self.tokens == old(self).tokens,
                self.errors == old(self).errors,
                self.start == old(self).start,
                end == comment_end(self.source@, self.start + 2),
                self.current <= end <= self.source@.len(),
                open ==> comment_end(self.source@, self.current as int) == end,
                !open ==> self.current == end,
                line_after(self.source@, self.current as int, end, self.line as int) == line_after(
                    self.source@,
                    self.start + 2,
                    end,
                    old(self).line as int,
                ),
            decreases self.source@.len() - self.current, open as int,
        {
            proof {
                lemma_comment_end_bounds(self.source@, self.current + 1);
            }
            if self.peek() == '*' && self.peek_next() == '/' {
                proof {
                    reveal_with_fuel(line_after, 3);
                }
                self.advance();
                self.advance();
                open = false;
            } else {
                if self.peek() == '\n' {
                    self.next_line();
                }
                self.advance();
            }
        }
        proof {
            assert(token_models(self.tokens@) =~= token_models(old(self).tokens@) + Seq::<
                TokenModel,
            >::empty());
            assert(texts(self.errors@) =~= texts(old(self).errors@) + Seq::<Seq<char>>::empty());
        }
    }

    /// Scans one token, comment or blank from the current position.
    fn scan_token(&mut self)
        requires
            old(self).wf(),
            old(self).start == old(self).current,
            old(self).current < old(self).source@.len(),
        ensures
            final(self).follows(
                *old(self),
                scan_token(old(self).source@, old(self).current as int, old(self).line as int),
            ),
    {
        let character = self.advance();
        if character == '(' {
            self.add_token(TokenType::LeftParen);
        } else if character == ')' {
            self.add_token(TokenType::RightParen);
        } else if character == '{' {
            self.add_token(TokenType::LeftBrace);
        } else if character == '}' {
            self.add_token(TokenType::RightBrace);
        } else if character == ',' {
            self.add_token(TokenType::Comma);
        } else if character == '.' {
            self.add_token(TokenType::Dot);
        } else if character == '-' {
            self.add_token(TokenType::Minus);
        } else if character == '+' {
            self.add_token(TokenType::Plus);
        } else if character == ';' {
            self.add_token(TokenType::Semicolon);
        } else if character == '*' {
            self.add_token(TokenType::Star);
        } else if character == '!' {
            if self.match_next('=') {
                self.add_token(TokenType::BangEqual);
            } else {
                self.add_token(TokenType::Bang);
            }
        } else if character == '=' {
            if self.match_next('=') {
                self.add_token(TokenType::EqualEqual);
            } else {
                self.add_token(TokenType::Equal);
            }
        } else if character == '<' {
            if self.match_next('=') {
                self.add_token(TokenType::LessEqual);
            } else {
                self.add_token(TokenType::Less);
            }
        } else if character == '>' {
            if self.match_next('=') {
                self.add_token(TokenType::GreaterEqual);
            } else {
                self.add_token(TokenType::Greater);
            }
        } else if character == '/' {
            if self.match_next('/') {
                self.line_comment();
            } else if self.match_next('*') {
                self.block_comment();
            } else {
                self.add_token(TokenType::Slash);
            }
        } else if character == '"' {
            self.string();
        } else if character == ' ' || character == '\t' || character == '\r' {
            proof {
                self.lemma_nothing_added(*old(self));
            }
        } else if character == '\n' {
            self.next_line();
            proof {
                self.lemma_nothing_added(*old(self));
            }
        } else if Self::is_digit(character) {
            self.number();
        } else if Self::is_alpha(character) {
            self.identifier();
        } else {
            let mut message = String::from_str("Unexpected character: ");
            message.push(character);
            self.add_error(message.as_str());
        }
    }

    /// Without a new token or report, the lists are what they were.
    proof fn lemma_nothing_added(&self, before: Scanner)
        requires
            self.tokens == before.tokens,
            self.errors == before.errors,
        ensures
            token_models(self.tokens@) == token_models(before.tokens@) + listed(
                None::<TokenModel>,
            ),
            texts(self.errors@) == texts(before.errors@) + listed(None::<Seq<char>>),
    {
        assert(token_models(self.tokens@) =~= token_models(before.tokens@) + Seq::<
            TokenModel,
        >::empty());
        assert(texts(self.errors@) =~= texts(before.errors@) + Seq::<Seq<char>>::empty());
    }

    /// Scans the source from the current position to its end, and adds the
    /// end marker. Returns all tokens produced so far.
    pub fn scan_tokens(&mut self) -> (r: &Vec<Token>)
        requires
            old(self).wf(),
        ensures
            final(self).wf(),
            final(self).text() == old(self).text(),
            final(self).produced() == old(self).produced() + scan_from(
                old(self).text(),
                old(self).position(),
                old(self).line_number(),
            ).tokens.push(
                end_of_file(
                    scan_from(old(self).text(), old(self).position(), old(self).line_number()).line,
                ),
            ),
            final(self).reported() == old(self).reported() + scan_from(
                old(self).text(),
                old(self).position(),
                old(self).line_number(),
            ).errors,
            final(self).line_number() == scan_from(
                old(self).text(),
                old(self).position(),
                old(self).line_number(),
            ).line,
            final(self).position() >= final(self).text().len(),
            token_models(r@) == final(self).produced(),
    {
        let ghost whole = scan_from(self.source@, self.current as int, self.line as int);
        let ghost tokens_before = token_models(self.tokens@);
        let ghost errors_before = texts(self.errors@);
        while !self.is_at_end()
            invariant
                self.wf(),
                self.source == old(self).source,
                tokens_before + whole.tokens == token_models(self.tokens@) + scan_from(
                    self.source@,
                    self.current as int,
                    self.line as int,
                ).tokens,
                errors_before + whole.errors == texts(self.errors@) + scan_from(
                    self.source@,
                    self.current as int,
                    self.line as int,
                ).errors,
                whole.line == scan_from(self.source@, self.current as int, self.line as int).line,
            decreases self.source@.len() - self.current,
        {
            let ghost here = *self;
            proof {
                lemma_scan_token_advances(self.source@, self.current as int, self.line as int);
            }
            self.start = self.current;
            self.scan_token();
            proof {
                let lexed = scan_token(here.source@, here.current as int, here.line as int);
                let rest = scan_from(self.source@, self.current as int, self.line as int);
                assert(token_models(self.tokens@) + rest.tokens =~= token_models(here.tokens@) + (
                listed(lexed.token) + rest.tokens));
                assert(texts(self.errors@) + rest.errors =~= texts(here.errors@) + (listed(
                    lexed.error,
                ) + rest.errors));
            }
        }
        let ghost tokens_scanned = token_models(self.tokens@);
        proof {
            assert(tokens_scanned =~= tokens_before + whole.tokens);
            assert(texts(self.errors@) =~= errors_before + whole.errors);
        }
        let token: Token = Token::new(TokenType::Eof, String::new(), None, self.line);
        self.tokens.push(token);
        proof {
            assert(token_models(self.tokens@) =~= tokens_scanned.push(end_of_file(whole.line)));
            assert(token_models(self.tokens@) =~= tokens_before + whole.tokens.push(
                end_of_file(whole.line),
            ));
            assert(texts(self.errors@) =~= errors_before + whole.errors);
        }
        &self.tokens
    }

    /// Gives up the scanner for the tokens and the error reports it made.
    pub fn into_parts(self) -> (r: (Vec<Token>, Vec<String>))
        ensures
            token_models(r.0@) == self.produced(),
            texts(r.1@) == self.reported(),
    {
        (self.tokens, self.errors)
    }

    /// The error reports made so far, oldest first.
    pub fn get_errors(&self) -> (r: &Vec<String>)
        ensures
            texts(r@) == self.reported(),
    {
        &self.errors
    }
}

} // verus!
