//! The scanner: source text in, tokens out, one at a time.
use vstd::prelude::*;
use crate::token::{Token, TokenType, TokenView};

verus! {

/// Whether a character is alphanumeric, as `char::is_alphanumeric` tells it.
pub uninterp spec fn is_alphanumeric(c: char) -> bool;

/// `char::is_alphanumeric` of std: whether the character has the Unicode
/// property Alphabetic or is in one of the number categories. Nothing is
/// claimed here of which characters those are.
pub assume_specification[ char::is_alphanumeric ](c: char) -> (yes: bool)
    ensures
        yes == is_alphanumeric(c),
;

/// `String::push` of std: appends the character to the end of the string.
pub assume_specification[ std::string::String::push ](text: &mut std::string::String, c: char)
    ensures
        final(text)@ == old(text)@.push(c),
;

/// Whether a character is a decimal digit.
pub open spec fn is_digit(c: char) -> bool {
    '0' <= c <= '9'
}

/// Whether a character can start an identifier: a letter of the English
/// alphabet or an underscore.
pub open spec fn is_identifier_start(c: char) -> bool {
    'a' <= c <= 'z' || 'A' <= c <= 'Z' || c == '_'
}

/// A set of characters that the scanner consumes a run of.
#[derive(PartialEq, Eq, Clone, Copy, Debug, Structural)]
pub enum CharClass {
    /// The decimal digits.
    Digit,
    /// What `char::is_alphanumeric` accepts.
    Alphanumeric,
    /// Everything but a line break.
    NotNewline,
}

impl CharClass {
    /// Whether `c` belongs to the class.
    pub open spec fn holds(self, c: char) -> bool {
        match self {
            CharClass::Digit => is_digit(c),
            CharClass::Alphanumeric => is_alphanumeric(c),
            CharClass::NotNewline => c != '\n',
        }
    }

    /// Whether `c` belongs to the class.
    pub fn contains(self, c: char) -> (yes: bool)
        ensures
            yes == self.holds(c),
    {
        match self {
            CharClass::Digit => '0' <= c && c <= '9',
            CharClass::Alphanumeric => c.is_alphanumeric(),
            CharClass::NotNewline => c != '\n',
        }
    }
}

/// The kind of the token that a single character makes by itself.
pub open spec fn single_kind(c: char) -> Option<TokenType> {
    if c == '(' {
        Some(TokenType::LeftParen)
    } else if c == ')' {
        Some(TokenType::RightParen)
    } else if c == '{' {
        Some(TokenType::LeftBrace)
    } else if c == '}' {
        Some(TokenType::RightBrace)
    } else if c == ';' {
        Some(TokenType::Semicolon)
    } else if c == ',' {
        Some(TokenType::Comma)
    } else if c == '.' {
        Some(TokenType::Dot)
    } else if c == '-' {
        Some(TokenType::Minus)
    } else if c == '+' {
        Some(TokenType::Plus)
    } else if c == '/' {
        Some(TokenType::Slash)
    } else if c == '*' {
        Some(TokenType::Star)
    } else {
        None
    }
}

/// For a character that makes one token alone and another with `=` after
/// it: the kind alone, and the kind with `=`.
pub open spec fn paired_kinds(c: char) -> Option<(TokenType, TokenType)> {
    if c == '!' {
        Some((TokenType::Bang, TokenType::BangEqual))
    } else if c == '=' {
        Some((TokenType::Equal, TokenType::EqualEqual))
    } else if c == '<' {
        Some((TokenType::Less, TokenType::LessEqual))
    } else if c == '>' {
        Some((TokenType::Greater, TokenType::GreaterEqual))
    } else {
        None
    }
}

/// The kind of an identifier-shaped word: that of the reserved word it
/// is, else `Identifier`.
pub open spec fn keyword_kind(word: Seq<char>) -> TokenType {
    if word == "and"@ {
        TokenType::And
    } else if word == "class"@ {
        TokenType::Class
    } else if word == "else"@ {
        TokenType::Else
    } else if word == "false"@ {
        TokenType::False
    } else if word == "fn"@ {
        TokenType::Fn
    } else if word == "for"@ {
        TokenType::For
    } else if word == "if"@ {
        TokenType::If
    } else if word == "nil"@ {
        TokenType::Nil
    } else if word == "or"@ {
        TokenType::Or
    } else if word == "print"@ {
        TokenType::Print
    } else if word == "return"@ {
        TokenType::Return
    } else if word == "super"@ {
        TokenType::Super
    } else if word == "this"@ {
        TokenType::This
    } else if word == "true"@ {
        TokenType::True
    } else if word == "var"@ {
        TokenType::Var
    } else if word == "while"@ {
        TokenType::While
    } else {
        TokenType::Identifier
    }
}

/// The message of the error token for a string that is never closed.
pub open spec fn unterminated_message() -> Seq<char> {
    "Unterminated string."@
}

/// The message of the error token for a character that starts no token.
pub open spec fn unexpected_message() -> Seq<char> {
    "Unexpected character."@
}

/// The state of a scanner: the text, where the token being scanned starts,
/// how far the text is consumed, and the line that point is on.
#[verifier::ext_equal]
pub struct ScannerView {
    pub source: Seq<char>,
    pub start: nat,
    pub current: nat,
    pub line: usize,
}

impl ScannerView {
    /// A scanner at the start of `source`, on line 1.
    pub open spec fn new(source: Seq<char>) -> ScannerView {
        ScannerView { source, start: 0, current: 0, line: 1 }
    }

    /// The positions lie in the text in order, the text is shorter than
    /// `usize::MAX`, and a line break at each character still to come would
    /// not take the line counter past `usize`.
    pub open spec fn well_formed(self) -> bool {
        &&& self.start <= self.current <= self.source.len() < usize::MAX
        &&& self.line + (self.source.len() - self.current) <= usize::MAX
    }

    /// The characters still to come.
    pub open spec fn remaining(self) -> nat {
        if self.current <= self.source.len() {
            (self.source.len() - self.current) as nat
        } else {
            0
        }
    }

    /// Whether the text is consumed.
    pub open spec fn at_end(self) -> bool {
        self.current >= self.source.len()
    }

    /// The next character, or NUL at the end.
    pub open spec fn peek(self) -> char {
        if self.current < self.source.len() {
            self.source[self.current as int]
        } else {
            '\0'
        }
    }

    /// The character after the next, or NUL where there is none.
    pub open spec fn peek_next(self) -> char {
        if self.current + 1 < self.source.len() {
            self.source[(self.current + 1) as int]
        } else {
            '\0'
        }
    }

    /// The scanner past one more character.
    pub open spec fn advance(self) -> ScannerView {
        ScannerView { current: self.current + 1, ..self }
    }

    /// The scanner on the next line.
    pub open spec fn next_line(self) -> ScannerView {
        ScannerView { line: (self.line + 1) as usize, ..self }
    }

    /// The scanner past the longest run of characters of `class`.
    pub open spec fn advance_while(self, class: CharClass) -> ScannerView
        decreases self.remaining(),
    {
        if !self.at_end() && class.holds(self.peek()) {
            self.advance().advance_while(class)
        } else {
            self
        }
    }

    /// The scanner past blanks, line breaks and `//` comments, each line
    /// break counted.
    pub open spec fn skip_whitespace(self) -> ScannerView
        decreases self.remaining(),
    {
        if self.at_end() {
            self
        } else if self.peek() == ' ' || self.peek() == '\r' || self.peek() == '\t' {
            self.advance().skip_whitespace()
        } else if self.peek() == '\n' {
            self.next_line().advance().skip_whitespace()
        } else if self.peek() == '/' && self.peek_next() == '/' {
            proof {
                self.advance().lemma_advance_while(CharClass::NotNewline);
            }
            self.advance().advance_while(CharClass::NotNewline).skip_whitespace()
        } else {
            self
        }
    }

    /// The scanner, inside a string literal, at the closing quote or at the
    /// end of the text, each line break counted.
    pub open spec fn string_body(self) -> ScannerView
        decreases self.remaining(),
    {
        if self.at_end() || self.peek() == '"' {
            self
        } else if self.peek() == '\n' {
            self.next_line().advance().string_body()
        } else {
            self.advance().string_body()
        }
    }

    /// The scanner past the rest of a number literal whose first digit is
    /// consumed: the digits, then a `.` and digits where a digit follows
    /// the `.`.
    pub open spec fn number_rest(self) -> ScannerView {
        let whole = self.advance_while(CharClass::Digit);
        if whole.peek() == '.' && is_digit(whole.peek_next()) {
            whole.advance().advance_while(CharClass::Digit)
        } else {
            whole
        }
    }

    /// The text of the token being scanned.
    pub open spec fn lexeme(self) -> Seq<char> {
        self.source.subrange(self.start as int, self.current as int)
    }

    /// The token of kind `kind` that ends here.
    pub open spec fn make_token(self, kind: TokenType) -> TokenView {
        TokenView { kind, lexeme: self.lexeme(), line: self.line }
    }

    /// The error token that reports `message` here.
    pub open spec fn make_error(self, message: Seq<char>) -> TokenView {
        TokenView { kind: TokenType::Error, lexeme: message, line: self.line }
    }

    /// The scanner and its token, once the token's first character `c` is
    /// consumed.
    pub open spec fn scan_after(self, c: char) -> (ScannerView, TokenView) {
        if let Some(kind) = single_kind(c) {
            (self, self.make_token(kind))
        } else if let Some((alone, with_equal)) = paired_kinds(c) {
            if !self.at_end() && self.peek() == '=' {
                (self.advance(), self.advance().make_token(with_equal))
            } else {
                (self, self.make_token(alone))
            }
        } else if c == '"' {
            let body = self.string_body();
            if body.at_end() {
                (body, body.make_error(unterminated_message()))
            } else {
                (body.advance(), body.advance().make_token(TokenType::String))
            }
        } else if is_digit(c) {
            (self.number_rest(), self.number_rest().make_token(TokenType::Number))
        } else if is_identifier_start(c) {
            let word = self.advance_while(CharClass::Alphanumeric);
            (word, word.make_token(keyword_kind(word.lexeme())))
        } else {
            (self, self.make_error(unexpected_message()))
        }
    }

    /// The scanner after the next token, and that token. At the end of the
    /// text the token is `EOF`, again and again.
    pub open spec fn scan_token(self) -> (ScannerView, TokenView) {
        let skipped = self.skip_whitespace();
        let begun = ScannerView { start: skipped.current, ..skipped };
        if begun.at_end() {
            (begun, begun.make_token(TokenType::EOF))
        } else {
            begun.advance().scan_after(begun.peek())
        }
    }

    /// The texts of the number literals from here to the end of the text,
    /// in order.
    pub open spec fn number_lexemes(self) -> Seq<Seq<char>>
        decreases self.remaining(),
    {
        let (next, token) = self.scan_token();
        if token.kind == TokenType::EOF {
            Seq::empty()
        } else {
            proof {
                self.lemma_scan_progress();
            }
            if token.kind == TokenType::Number {
                seq![token.lexeme] + next.number_lexemes()
            } else {
                next.number_lexemes()
            }
        }
    }

    /// A run of characters only moves forward, and stays in the text.
    pub proof fn lemma_advance_while(self, class: CharClass)
        ensures
            self.advance_while(class).source == self.source,
            self.advance_while(class).start == self.start,
            self.advance_while(class).line == self.line,
            self.advance_while(class).current >= self.current,
            self.current <= self.source.len() ==> self.advance_while(class).current
                <= self.source.len(),
        decreases self.remaining(),
    {
        if !self.at_end() && class.holds(self.peek()) {
            self.advance().lemma_advance_while(class);
        }
    }

    /// Skipping whitespace only moves forward, and keeps a scanner well formed.
    pub proof fn lemma_skip_whitespace(self)
        requires
            self.well_formed(),
        ensures
            self.skip_whitespace().well_formed(),
            self.skip_whitespace().source == self.source,
            self.skip_whitespace().start == self.start,
            self.skip_whitespace().current >= self.current,
        decreases self.remaining(),
    {
        if self.at_end() {
        } else if self.peek() == ' ' || self.peek() == '\r' || self.peek() == '\t' {
            self.advance().lemma_skip_whitespace();
        } else if self.peek() == '\n' {
            self.next_line().advance().lemma_skip_whitespace();
        } else if self.peek() == '/' && self.peek_next() == '/' {
            self.advance().lemma_advance_while(CharClass::NotNewline);
            self.advance().advance_while(CharClass::NotNewline).lemma_skip_whitespace();
        }
    }

    /// The body of a string only moves forward, and keeps a scanner well formed.
    pub proof fn lemma_string_body(self)
        requires
            self.well_formed(),
        ensures
            self.string_body().well_formed(),
            self.string_body().source == self.source,
            self.string_body().start == self.start,
            self.string_body().current >= self.current,
        decreases self.remaining(),
    {
        if self.at_end() || self.peek() == '"' {
        } else if self.peek() == '\n' {
            self.next_line().advance().lemma_string_body();
        } else {
            self.advance().lemma_string_body();
        }
    }

    /// At the end of the text every scan returns `EOF` and leaves the
    /// scanner at the end, on the same line.
    pub proof fn lemma_eof_repeats(self)
        requires
            self.at_end(),
        ensures
            self.scan_token().1.kind == TokenType::EOF,
            self.scan_token().0.at_end(),
            self.scan_token().0.current == self.current,
            self.scan_token().0.line == self.line,
            self.scan_token().1.line == self.line,
    {
    }

    /// A token that is not `EOF` takes at least one of the characters that
    /// were still to come.
    pub proof fn lemma_scan_progress(self)
        ensures
            self.scan_token().1.kind != TokenType::EOF ==> self.scan_token().0.remaining()
                < self.remaining(),
            self.scan_token().0.remaining() <= self.remaining(),
    {
        self.lemma_skip_progress();
        let skipped = self.skip_whitespace();
        let begun = ScannerView { start: skipped.current, ..skipped };
        if !begun.at_end() {
            let first = begun.advance();
            first.lemma_advance_while(CharClass::Digit);
            first.lemma_advance_while(CharClass::Alphanumeric);
            first.lemma_string_progress();
            let whole = first.advance_while(CharClass::Digit);
            whole.advance().lemma_advance_while(CharClass::Digit);
            lemma_keyword_kind(first.advance_while(CharClass::Alphanumeric).lexeme());
        }
    }

    /// Skipping whitespace never brings characters back.
    pub proof fn lemma_skip_progress(self)
        ensures
            self.skip_whitespace().remaining() <= self.remaining(),
            self.skip_whitespace().source == self.source,
        decreases self.remaining(),
    {
        if self.at_end() {
        } else if self.peek() == ' ' || self.peek() == '\r' || self.peek() == '\t' {
            self.advance().lemma_skip_progress();
        } else if self.peek() == '\n' {
            self.next_line().advance().lemma_skip_progress();
        } else if self.peek() == '/' && self.peek_next() == '/' {
            self.advance().lemma_advance_while(CharClass::NotNewline);
            self.advance().advance_while(CharClass::NotNewline).lemma_skip_progress();
        }
    }

    /// The body of a string never brings characters back.
    pub proof fn lemma_string_progress(self)
        ensures
            self.string_body().remaining() <= self.remaining(),
            self.string_body().source == self.source,
        decreases self.remaining(),
    {
        if self.at_end() || self.peek() == '"' {
        } else if self.peek() == '\n' {
            self.next_line().advance().lemma_string_progress();
        } else {
            self.advance().lemma_string_progress();
        }
    }

    /// Scanning keeps a scanner well formed and never moves back. Every
    /// token but `EOF` consumes at least one character, and `EOF` is
    /// returned only at the end of the text.
    pub proof fn lemma_scan_token(self)
        requires
            self.well_formed(),
        ensures
            self.scan_token().0.well_formed(),
            self.scan_token().0.source == self.source,
            self.scan_token().0.current >= self.current,
            self.scan_token().1.kind != TokenType::EOF ==> self.scan_token().0.current
                > self.current,
            self.scan_token().1.kind == TokenType::EOF ==> self.scan_token().0.at_end(),
            self.scan_token().1.kind != TokenType::Undefined,
    {
        self.lemma_skip_whitespace();
        let skipped = self.skip_whitespace();
        let begun = ScannerView { start: skipped.current, ..skipped };
        if !begun.at_end() {
            let first = begun.advance();
            first.lemma_advance_while(CharClass::Digit);
            first.lemma_advance_while(CharClass::Alphanumeric);
            first.lemma_string_body();
            let whole = first.advance_while(CharClass::Digit);
            whole.advance().lemma_advance_while(CharClass::Digit);
            lemma_keyword_kind(first.advance_while(CharClass::Alphanumeric).lexeme());
        }
    }
}

/// A word is never classified as `EOF`, `Error` or `Undefined`.
pub proof fn lemma_keyword_kind(word: Seq<char>)
    ensures
        keyword_kind(word) != TokenType::EOF,
        keyword_kind(word) != TokenType::Error,
        keyword_kind(word) != TokenType::Undefined,
{
}

/// The scanner. It walks the text once, from the start; nothing is scanned
/// before a token is asked for.
pub struct Scanner {
    chars: Vec<char>,
    start: usize,
    current: usize,
    line: usize,
}

impl View for Scanner {
    type V = ScannerView;

    closed spec fn view(&self) -> ScannerView {
        ScannerView {
            source: self.chars@,
            start: self.start as nat,
            current: self.current as nat,
            line: self.line,
        }
    }
}

/// The characters of `text`, in order.
fn characters(text: &str) -> (chars: Vec<char>)
    ensures
        chars@ == text@,
{
    let mut chars: Vec<char> = Vec::new();
    for c in it: text.chars()
        invariant
            chars@ == it.seq().take(it.index()),
            it.seq() == text@,
    {
        chars.push(c);
        assert(chars@ =~= it.seq().take(it.index() + 1));
    }
    assert(chars@ =~= text@);
    chars
}

/// The text made of the characters `chars[start..end]`.
fn text_of(chars: &Vec<char>, start: usize, end: usize) -> (text: String)
    requires
        start <= end <= chars@.len(),
    ensures
        text@ == chars@.subrange(start as int, end as int),
{
    let mut text = String::new();
    let mut index: usize = start;
    while index < end
        invariant
            start <= index <= end <= chars@.len(),
            text@ == chars@.subrange(start as int, index as int),
        decreases end - index,
    {
        text.push(chars[index]);
        index += 1;
        assert(text@ =~= chars@.subrange(start as int, index as int));
    }
    text
}

impl Scanner {
    /// Whether the scanner's parts fit together: its positions lie in the
    /// text, and its line counter has room for the line breaks to come.
    pub closed spec fn wf(&self) -> bool {
        self@.well_formed()
    }

    /// A scanner at the start of `source`.
    pub fn new(source: String) -> (scanner: Self)
        requires
            source@.len() < usize::MAX,
        ensures
            scanner.wf(),
            scanner@ == ScannerView::new(source@),
    {
        Scanner { chars: characters(source.as_str()), start: 0, current: 0, line: 1 }
    }

    /// The line the scanner is on.
    pub fn line(&self) -> (line: usize)
        ensures
            line == self@.line,
    {
        self.line
    }

    /// Scans the next token. At the end of the text it returns an `EOF`
    /// token, as often as it is asked.
    pub fn scan_token(&mut self) -> (token: Token)
        requires
            old(self).wf(),
        ensures
            final(self).wf(),
            final(self)@ == old(self)@.scan_token().0,
            token@ == old(self)@.scan_token().1,
    {
        proof {
            self@.lemma_scan_token();
        }
        self.skip_whitespace();
        self.start = self.current;
        if self.is_at_end() {
            return self.make_token(TokenType::EOF);
        }
        let c = self.advance();
        match c {
            '(' => self.make_token(TokenType::LeftParen),
            ')' => self.make_token(TokenType::RightParen),
            '{' => self.make_token(TokenType::LeftBrace),
            '}' => self.make_token(TokenType::RightBrace),
            ';' => self.make_token(TokenType::Semicolon),
            ',' => self.make_token(TokenType::Comma),
            '.' => self.make_token(TokenType::Dot),
            '-' => self.make_token(TokenType::Minus),
            '+' => self.make_token(TokenType::Plus),
            '/' => self.make_token(TokenType::Slash),
            '*' => self.make_token(TokenType::Star),
            '!' => {
                if self.match_char('=') {
                    self.make_token(TokenType::BangEqual)
                } else {
                    self.make_token(TokenType::Bang)
                }
            },
            '=' => {
                if self.match_char('=') {
                    self.make_token(TokenType::EqualEqual)
                } else {
                    self.make_token(TokenType::Equal)
                }
            },
            '<' => {
                if self.match_char('=') {
                    self.make_token(TokenType::LessEqual)
                } else {
                    self.make_token(TokenType::Less)
                }
            },
            '>' => {
                if self.match_char('=') {
                    self.make_token(TokenType::GreaterEqual)
                } else {
                    self.make_token(TokenType::Greater)
                }
            },
            '"' => self.string(),
            '0'..='9' => self.number(),
            'a'..='z' | 'A'..='Z' | '_' => {
                proof {
                    self@.lemma_advance_while(CharClass::Alphanumeric);
                }
                self.advance_while(CharClass::Alphanumeric);
                self.make_token(self.identifier_type())
            },
            _ => self.make_error("Unexpected character."),
        }
    }

    /// Consumes the rest of a string literal whose opening quote is
    /// consumed, and returns its token.
    fn string(&mut self) -> (token: Token)
        requires
            old(self).wf(),
        ensures
            final(self).wf(),
            final(self)@ == old(self)@.scan_after('"').0,
            token@ == old(self)@.scan_after('"').1,
    {
        proof {
            self@.lemma_string_body();
        }
        while !self.is_at_end() && self.peek() != '"'
            invariant
                self.wf(),
                self@.string_body() == old(self)@.string_body(),
            decreases self@.remaining(),
        {
            let c = self.advance();
            if c == '\n' {
                self.line += 1;
            }
        }
        if self.is_at_end() {
            return self.make_error("Unterminated string.");
        }
        self.advance();
        self.make_token(TokenType::String)
    }

    /// Consumes the rest of a number literal whose first digit is consumed,
    /// and returns its token.
    fn number(&mut self) -> (token: Token)
        requires
            old(self).wf(),
        ensures
            final(self).wf(),
            final(self)@ == old(self)@.number_rest(),
            token@ == old(self)@.number_rest().make_token(TokenType::Number),
    {
        self.advance_while(CharClass::Digit);
        if self.peek() == '.' && CharClass::Digit.contains(self.peek_next()) {
            self.advance();
            self.advance_while(CharClass::Digit);
        }
        self.make_token(TokenType::Number)
    }

    /// Consumes the longest run of characters of `class`.
    fn advance_while(&mut self, class: CharClass)
        requires
            old(self).wf(),
        ensures
            final(self).wf(),
            final(self)@ == old(self)@.advance_while(class),
    {
        while !self.is_at_end() && class.contains(self.peek())
            invariant
                self.wf(),
                self@.advance_while(class) == old(self)@.advance_while(class),
            decreases self@.remaining(),
        {
            self.advance();
        }
    }

    /// Consumes the next character and returns it.
    pub fn advance(&mut self) -> (c: char)
        requires
            old(self).wf(),
            !old(self)@.at_end(),
        ensures
            final(self).wf(),
            final(self)@ == old(self)@.advance(),
            c == old(self)@.peek(),
    {
        let c = self.chars[self.current];
        self.current += 1;
        c
    }

    /// Whether the text is consumed.
    fn is_at_end(&self) -> (yes: bool)
        requires
            self.wf(),
        ensures
            yes == self@.at_end(),
    {
        self.current >= self.chars.len()
    }

    /// Consumes the next character if it is `expected`.
    fn match_char(&mut self, expected: char) -> (matched: bool)
        requires
            old(self).wf(),
        ensures
            final(self).wf(),
            matched == (!old(self)@.at_end() && old(self)@.peek() == expected),
            final(self)@ == if matched {
                old(self)@.advance()
            } else {
                old(self)@
            },
    {
        if self.is_at_end() || self.chars[self.current] != expected {
            return false;
        }
        self.current += 1;
        true
    }

    /// Consumes blanks, line breaks and comments.
    fn skip_whitespace(&mut self)
        requires
            old(self).wf(),
        ensures
            final(self).wf(),
            final(self)@ == old(self)@.skip_whitespace(),
    {
        loop
            invariant
                self.wf(),
                self@.skip_whitespace() == old(self)@.skip_whitespace(),
            decreases self@.remaining(),
        {
            let c = self.peek();
            match c {
                ' ' | '\r' | '\t' => {
                    self.advance();
                },
                '\n' => {
                    self.advance();
                    self.line += 1;
                },
                '/' => {
                    if self.peek_next() == '/' {
                        proof {
                            self@.advance().lemma_advance_while(CharClass::NotNewline);
                        }
                        self.advance();
                        self.advance_while(CharClass::NotNewline);
                    } else {
                        return ;
                    }
                },
                _ => {
                    return ;
                },
            }
        }
    }

    /// The character after the next, or NUL where there is none.
    fn peek_next(&self) -> (c: char)
        requires
            self.wf(),
        ensures
            c == self@.peek_next(),
    {
        let len = self.chars.len();
        if self.current + 1 >= len {
            return '\0';
        }
        self.chars[self.current + 1]
    }

    /// The next character, or NUL at the end.
    fn peek(&self) -> (c: char)
        requires
            self.wf(),
        ensures
            c == self@.peek(),
    {
        if self.current >= self.chars.len() {
            return '\0';
        }
        self.chars[self.current]
    }

    /// The kind of the word being scanned: a reserved word's, or `Identifier`.
    fn identifier_type(&self) -> (kind: TokenType)
        requires
            self.wf(),
        ensures
            kind == keyword_kind(self@.lexeme()),
    {
        word_type(&self.chars, self.start, self.current)
    }

    /// The token of kind `token_type` for the text scanned since the
    /// token's start.
    fn make_token(&self, token_type: TokenType) -> (token: Token)
        requires
            self.wf(),
        ensures
            token@ == self@.make_token(token_type),
    {
        Token { token_type, lexeme: text_of(&self.chars, self.start, self.current), line: self.line }
    }

    /// The error token that reports `message`.
    fn make_error(&self, message: &str) -> (token: Token)
        ensures
            token@ == self@.make_error(message@),
    {
        Token { token_type: TokenType::Error, lexeme: message.to_owned(), line: self.line }
    }
}

/// The kind of the word `chars[start..end]`: that of the reserved word it
/// is, else `Identifier`. The word's first characters select the one
/// reserved word it can be; the rest is compared with that word's.
pub fn word_type(chars: &Vec<char>, start: usize, end: usize) -> (kind: TokenType)
    requires
        start <= end <= chars@.len(),
    ensures
        kind == keyword_kind(chars@.subrange(start as int, end as int)),
{
    proof {
        lemma_keyword_texts();
    }
    if start == end {
        assert(chars@.subrange(start as int, end as int).len() == 0);
        return TokenType::Identifier;
    }
    let kind = match chars[start] {
        'a' => check_keyword(chars, start, end, 1, 2, "nd", TokenType::And),
        'c' => check_keyword(chars, start, end, 1, 4, "lass", TokenType::Class),
        'e' => check_keyword(chars, start, end, 1, 3, "lse", TokenType::Else),
        'f' => {
            if end - start > 1 {
                match chars[start + 1] {
                    'a' => check_keyword(chars, start, end, 2, 3, "lse", TokenType::False),
                    'n' => check_keyword(chars, start, end, 2, 0, "", TokenType::Fn),
                    'o' => check_keyword(chars, start, end, 2, 1, "r", TokenType::For),
                    _ => TokenType::Identifier,
                }
            } else {
                TokenType::Identifier
            }
        },
        'i' => check_keyword(chars, start, end, 1, 1, "f", TokenType::If),
        'n' => check_keyword(chars, start, end, 1, 2, "il", TokenType::Nil),
        'o' => check_keyword(chars, start, end, 1, 1, "r", TokenType::Or),
        'p' => check_keyword(chars, start, end, 1, 4, "rint", TokenType::Print),
        'r' => check_keyword(chars, start, end, 1, 5, "eturn", TokenType::Return),
        's' => check_keyword(chars, start, end, 1, 4, "uper", TokenType::Super),
        't' => {
            if end - start > 1 {
                match chars[start + 1] {
                    'h' => check_keyword(chars, start, end, 2, 2, "is", TokenType::This),
                    'r' => check_keyword(chars, start, end, 2, 2, "ue", TokenType::True),
                    _ => TokenType::Identifier,
                }
            } else {
                TokenType::Identifier
            }
        },
        'v' => check_keyword(chars, start, end, 1, 2, "ar", TokenType::Var),
        'w' => check_keyword(chars, start, end, 1, 4, "hile", TokenType::While),
        _ => TokenType::Identifier,
    };
    proof {
        let word = chars@.subrange(start as int, end as int);
        assert(word[0] == chars@[start as int]);
        if word.len() > 1 {
            assert(word[1] == chars@[start + 1]);
        }
        lemma_keyword_tails();
        lemma_rebuild(word, "and"@, 1);
        lemma_rebuild(word, "class"@, 1);
        lemma_rebuild(word, "else"@, 1);
        lemma_rebuild(word, "false"@, 2);
        lemma_rebuild(word, "fn"@, 2);
        lemma_rebuild(word, "for"@, 2);
        lemma_rebuild(word, "if"@, 1);
        lemma_rebuild(word, "nil"@, 1);
        lemma_rebuild(word, "or"@, 1);
        lemma_rebuild(word, "print"@, 1);
        lemma_rebuild(word, "return"@, 1);
        lemma_rebuild(word, "super"@, 1);
        lemma_rebuild(word, "this"@, 2);
        lemma_rebuild(word, "true"@, 2);
        lemma_rebuild(word, "var"@, 1);
        lemma_rebuild(word, "while"@, 1);
    }
    kind
}

/// `token_type` if the word `chars[begin..end]` has `start + length`
/// characters and `rest` is its part from `start` on, else `Identifier`.
fn check_keyword(
    chars: &Vec<char>,
    begin: usize,
    end: usize,
    start: usize,
    length: usize,
    rest: &str,
    token_type: TokenType,
) -> (kind: TokenType)
    requires
        begin <= end <= chars@.len(),
        rest@.len() == length,
        start + length <= usize::MAX,
    ensures
        kind == if end - begin == start + length && chars@.subrange(begin as int, end as int).skip(
            start as int,
        ) == rest@ {
            token_type
        } else {
            TokenType::Identifier
        },
{
    if end - begin != start + length {
        return TokenType::Identifier;
    }
    let ghost word = chars@.subrange(begin as int, end as int);
    let mut index: usize = 0;
    while index < length
        invariant
            begin <= end <= chars@.len(),
            word == chars@.subrange(begin as int, end as int),
            rest@.len() == length,
            index <= length,
            end - begin == start + length,
            forall|k: int| 0 <= k < index ==> word[start + k] == #[trigger] rest@[k],
        decreases length - index,
    {
        if chars[begin + start + index] != rest.get_char(index) {
            assert(word.skip(start as int)[index as int] != rest@[index as int]);
            return TokenType::Identifier;
        }
        index += 1;
    }
    assert(word.skip(start as int) =~= rest@);
    token_type
}

/// The characters of the reserved words and of their tails.
proof fn lemma_keyword_texts()
    ensures
        "and"@ == seq!['a', 'n', 'd'],
        "class"@ == seq!['c', 'l', 'a', 's', 's'],
        "else"@ == seq!['e', 'l', 's', 'e'],
        "false"@ == seq!['f', 'a', 'l', 's', 'e'],
        "fn"@ == seq!['f', 'n'],
        "for"@ == seq!['f', 'o', 'r'],
        "if"@ == seq!['i', 'f'],
        "nil"@ == seq!['n', 'i', 'l'],
        "or"@ == seq!['o', 'r'],
        "print"@ == seq!['p', 'r', 'i', 'n', 't'],
        "return"@ == seq!['r', 'e', 't', 'u', 'r', 'n'],
        "super"@ == seq!['s', 'u', 'p', 'e', 'r'],
        "this"@ == seq!['t', 'h', 'i', 's'],
        "true"@ == seq!['t', 'r', 'u', 'e'],
        "var"@ == seq!['v', 'a', 'r'],
        "while"@ == seq!['w', 'h', 'i', 'l', 'e'],
        "nd"@ == seq!['n', 'd'],
        "lass"@ == seq!['l', 'a', 's', 's'],
        "lse"@ == seq!['l', 's', 'e'],
        ""@ == Seq::<char>::empty(),
        "r"@ == seq!['r'],
        "f"@ == seq!['f'],
        "il"@ == seq!['i', 'l'],
        "rint"@ == seq!['r', 'i', 'n', 't'],
        "eturn"@ == seq!['e', 't', 'u', 'r', 'n'],
        "uper"@ == seq!['u', 'p', 'e', 'r'],
        "is"@ == seq!['i', 's'],
        "ue"@ == seq!['u', 'e'],
        "ar"@ == seq!['a', 'r'],
        "hile"@ == seq!['h', 'i', 'l', 'e'],
{
    reveal_strlit("and");
    reveal_strlit("class");
    reveal_strlit("else");
    reveal_strlit("false");
    reveal_strlit("fn");
    reveal_strlit("for");
    reveal_strlit("if");
    reveal_strlit("nil");
    reveal_strlit("or");
    reveal_strlit("print");
    reveal_strlit("return");
    reveal_strlit("super");
    reveal_strlit("this");
    reveal_strlit("true");
    reveal_strlit("var");
    reveal_strlit("while");
    reveal_strlit("nd");
    reveal_strlit("lass");
    reveal_strlit("lse");
    reveal_strlit("");
    reveal_strlit("r");
    reveal_strlit("f");
    reveal_strlit("il");
    reveal_strlit("rint");
    reveal_strlit("eturn");
    reveal_strlit("uper");
    reveal_strlit("is");
    reveal_strlit("ue");
    reveal_strlit("ar");
    reveal_strlit("hile");
    assert("and"@ =~= seq!['a', 'n', 'd']);
    assert("class"@ =~= seq!['c', 'l', 'a', 's', 's']);
    assert("else"@ =~= seq!['e', 'l', 's', 'e']);
    assert("false"@ =~= seq!['f', 'a', 'l', 's', 'e']);
    assert("fn"@ =~= seq!['f', 'n']);
    assert("for"@ =~= seq!['f', 'o', 'r']);
    assert("if"@ =~= seq!['i', 'f']);
    assert("nil"@ =~= seq!['n', 'i', 'l']);
    assert("or"@ =~= seq!['o', 'r']);
    assert("print"@ =~= seq!['p', 'r', 'i', 'n', 't']);
    assert("return"@ =~= seq!['r', 'e', 't', 'u', 'r', 'n']);
    assert("super"@ =~= seq!['s', 'u', 'p', 'e', 'r']);
    assert("this"@ =~= seq!['t', 'h', 'i', 's']);
    assert("true"@ =~= seq!['t', 'r', 'u', 'e']);
    assert("var"@ =~= seq!['v', 'a', 'r']);
    assert("while"@ =~= seq!['w', 'h', 'i', 'l', 'e']);
    assert("nd"@ =~= seq!['n', 'd']);
    assert("lass"@ =~= seq!['l', 'a', 's', 's']);
    assert("lse"@ =~= seq!['l', 's', 'e']);
    assert(""@ =~= Seq::<char>::empty());
    assert("r"@ =~= seq!['r']);
    assert("f"@ =~= seq!['f']);
    assert("il"@ =~= seq!['i', 'l']);
    assert("rint"@ =~= seq!['r', 'i', 'n', 't']);
    assert("eturn"@ =~= seq!['e', 't', 'u', 'r', 'n']);
    assert("uper"@ =~= seq!['u', 'p', 'e', 'r']);
    assert("is"@ =~= seq!['i', 's']);
    assert("ue"@ =~= seq!['u', 'e']);
    assert("ar"@ =~= seq!['a', 'r']);
    assert("hile"@ =~= seq!['h', 'i', 'l', 'e']);
}

/// What is left of each reserved word once the characters that the
/// lookup has tested are taken off.
proof fn lemma_keyword_tails()
    ensures
        "and"@.skip(1) == "nd"@,
        "class"@.skip(1) == "lass"@,
        "else"@.skip(1) == "lse"@,
        "false"@.skip(2) == "lse"@,
        "fn"@.skip(2) == ""@,
        "for"@.skip(2) == "r"@,
        "if"@.skip(1) == "f"@,
        "nil"@.skip(1) == "il"@,
        "or"@.skip(1) == "r"@,
        "print"@.skip(1) == "rint"@,
        "return"@.skip(1) == "eturn"@,
        "super"@.skip(1) == "uper"@,
        "this"@.skip(2) == "is"@,
        "true"@.skip(2) == "ue"@,
        "var"@.skip(1) == "ar"@,
        "while"@.skip(1) == "hile"@,
{
    lemma_keyword_texts();
    assert("and"@.skip(1) =~= "nd"@);
    assert("class"@.skip(1) =~= "lass"@);
    assert("else"@.skip(1) =~= "lse"@);
    assert("false"@.skip(2) =~= "lse"@);
    assert("fn"@.skip(2) =~= ""@);
    assert("for"@.skip(2) =~= "r"@);
    assert("if"@.skip(1) =~= "f"@);
    assert("nil"@.skip(1) =~= "il"@);
    assert("or"@.skip(1) =~= "r"@);
    assert("print"@.skip(1) =~= "rint"@);
    assert("return"@.skip(1) =~= "eturn"@);
    assert("super"@.skip(1) =~= "uper"@);
    assert("this"@.skip(2) =~= "is"@);
    assert("true"@.skip(2) =~= "ue"@);
    assert("var"@.skip(1) =~= "ar"@);
    assert("while"@.skip(1) =~= "hile"@);
}

/// A word that agrees with `keyword` in length, in its first `at`
/// characters and in the rest is `keyword`.
proof fn lemma_rebuild(word: Seq<char>, keyword: Seq<char>, at: int)
    ensures
        0 <= at <= keyword.len() && word.len() == keyword.len() && (forall|i: int|
            0 <= i < at ==> word[i] == keyword[i]) && word.skip(at) == keyword.skip(at) ==> word
            == keyword,
{
    if 0 <= at <= keyword.len() && word.len() == keyword.len() && (forall|i: int|
        0 <= i < at ==> word[i] == keyword[i]) && word.skip(at) == keyword.skip(at) {
        assert forall|i: int| 0 <= i < word.len() implies word[i] == keyword[i] by {
            if i >= at {
                assert(word.skip(at)[i - at] == keyword.skip(at)[i - at]);
            }
        }
        assert(word =~= keyword);
    }
}

/// The views of a sequence of strings, item by item.
pub open spec fn string_views(strings: Seq<String>) -> Seq<Seq<char>> {
    strings.map_values(|s: String| s@)
}

/// The texts of the number literals of `source`, in the order of the
/// text. The compiler wants the value of each, in this order.
pub fn number_literals(source: String) -> (lexemes: Vec<String>)
    requires
        source@.len() < usize::MAX,
    ensures
        string_views(lexemes@) == ScannerView::new(source@).number_lexemes(),
{
    let mut scanner = Scanner::new(source);
    let mut lexemes: Vec<String> = Vec::new();
    loop
        invariant
            scanner.wf(),
            string_views(lexemes@) + scanner@.number_lexemes() == ScannerView::new(
                source@,
            ).number_lexemes(),
        decreases scanner@.remaining(),
    {
        proof {
            scanner@.lemma_scan_progress();
        }
        let ghost before = scanner@;
        let ghost found = string_views(lexemes@);
        let token = scanner.scan_token();
        if token.token_type == TokenType::EOF {
            assert(found + Seq::<Seq<char>>::empty() =~= found);
            return lexemes;
        }
        if token.token_type == TokenType::Number {
            lexemes.push(token.lexeme);
            assert(string_views(lexemes@) =~= found.push(token@.lexeme));
            assert(found.push(token@.lexeme) + scanner@.number_lexemes() =~= found + (
            seq![token@.lexeme] + scanner@.number_lexemes()));
        }
    }
}

} // verus!
