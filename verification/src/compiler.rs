//! The compiler: a single pass from source text to bytecode.
//!
//! Expressions are parsed by precedence climbing, and each construct emits
//! its code as soon as it is recognised; no syntax tree is built. What the
//! compiler does to its state is given, function by function, by the spec
//! functions of [`CompilerView`].
use vstd::prelude::*;
use crate::chunk::{Chunk, ChunkView, OpCode};
use crate::scanner::{Scanner, ScannerView};
use crate::token::{Token, TokenType, TokenView};
use crate::value::{Value, ValueView};

verus! {

/// How tightly an operator binds, from loosest to tightest.
#[derive(PartialEq, Eq, Clone, Copy, Debug, Structural)]
pub enum Precedence {
    Lowest,
    Assignment,
    Or,
    And,
    Equality,
    Comparison,
    Term,
    Factor,
    Unary,
    Call,
    Primary,
}

impl Precedence {
    /// The position of the level in the order, from 0 for `Lowest` to 10 for
    /// `Primary`.
    pub open spec fn rank(self) -> nat {
        match self {
            Precedence::Lowest => 0,
            Precedence::Assignment => 1,
            Precedence::Or => 2,
            Precedence::And => 3,
            Precedence::Equality => 4,
            Precedence::Comparison => 5,
            Precedence::Term => 6,
            Precedence::Factor => 7,
            Precedence::Unary => 8,
            Precedence::Call => 9,
            Precedence::Primary => 10,
        }
    }

    /// The level at position `rank`, if there is one.
    pub open spec fn at_rank(rank: nat) -> Option<Precedence> {
        if rank == 0 {
            Some(Precedence::Lowest)
        } else if rank == 1 {
            Some(Precedence::Assignment)
        } else if rank == 2 {
            Some(Precedence::Or)
        } else if rank == 3 {
            Some(Precedence::And)
        } else if rank == 4 {
            Some(Precedence::Equality)
        } else if rank == 5 {
            Some(Precedence::Comparison)
        } else if rank == 6 {
            Some(Precedence::Term)
        } else if rank == 7 {
            Some(Precedence::Factor)
        } else if rank == 8 {
            Some(Precedence::Unary)
        } else if rank == 9 {
            Some(Precedence::Call)
        } else if rank == 10 {
            Some(Precedence::Primary)
        } else {
            None
        }
    }

    /// The next tighter level; `Primary` has none and stands for itself.
    pub open spec fn tighter(self) -> Precedence {
        match Self::at_rank(self.rank() + 1) {
            Some(level) => level,
            None => self,
        }
    }

    /// The next looser level; `Lowest` has none and stands for itself.
    pub open spec fn looser(self) -> Precedence {
        if self.rank() == 0 {
            self
        } else {
            Self::at_rank((self.rank() - 1) as nat).unwrap()
        }
    }

    /// The position of the level in the order.
    pub fn level(self) -> (rank: usize)
        ensures
            rank == self.rank(),
    {
        match self {
            Precedence::Lowest => 0,
            Precedence::Assignment => 1,
            Precedence::Or => 2,
            Precedence::And => 3,
            Precedence::Equality => 4,
            Precedence::Comparison => 5,
            Precedence::Term => 6,
            Precedence::Factor => 7,
            Precedence::Unary => 8,
            Precedence::Call => 9,
            Precedence::Primary => 10,
        }
    }

    /// The level at position `rank`, or `None` past the last.
    pub fn from_level(rank: usize) -> (level: Option<Precedence>)
        ensures
            level == Self::at_rank(rank as nat),
            level matches Some(l) ==> l.rank() == rank,
            level is Some <==> rank <= 10,
    {
        match rank {
            0 => Some(Precedence::Lowest),
            1 => Some(Precedence::Assignment),
            2 => Some(Precedence::Or),
            3 => Some(Precedence::And),
            4 => Some(Precedence::Equality),
            5 => Some(Precedence::Comparison),
            6 => Some(Precedence::Term),
            7 => Some(Precedence::Factor),
            8 => Some(Precedence::Unary),
            9 => Some(Precedence::Call),
            10 => Some(Precedence::Primary),
            _ => None,
        }
    }

    /// The next tighter level.
    pub fn next(self) -> (level: Precedence)
        requires
            self != Precedence::Primary,
        ensures
            level == self.tighter(),
            level.rank() == self.rank() + 1,
    {
        Self::from_level(self.level() + 1).unwrap()
    }

    /// The next looser level.
    pub fn previous(self) -> (level: Precedence)
        requires
            self != Precedence::Lowest,
        ensures
            level == self.looser(),
            level.rank() + 1 == self.rank(),
    {
        Self::from_level(self.level() - 1).unwrap()
    }

    /// Whether this level binds at most as tightly as `other`.
    pub fn at_most(self, other: Precedence) -> (yes: bool)
        ensures
            yes == (self.rank() <= other.rank()),
    {
        self.level() <= other.level()
    }
}

/// A parsing routine that a token kind can select.
#[derive(PartialEq, Eq, Clone, Copy, Debug, Structural)]
pub enum ParseFn {
    Grouping,
    Unary,
    Binary,
    Number,
    Literal,
    String,
    Variable,
}

/// What a token kind means to the expression parser: the routine to run
/// where the token starts an expression, the routine to run where it
/// follows an operand, and how tightly it binds as an operator.
#[derive(PartialEq, Eq, Clone, Copy, Debug, Structural)]
pub struct ParseRule {
    pub prefix: Option<ParseFn>,
    pub infix: Option<ParseFn>,
    pub precedence: Precedence,
}

/// The routine for a token kind at the start of an expression.
pub open spec fn prefix_of(kind: TokenType) -> Option<ParseFn> {
    match kind {
        TokenType::LeftParen => Some(ParseFn::Grouping),
        TokenType::Minus | TokenType::Bang => Some(ParseFn::Unary),
        TokenType::Number => Some(ParseFn::Number),
        TokenType::False | TokenType::True | TokenType::Nil => Some(ParseFn::Literal),
        TokenType::String => Some(ParseFn::String),
        TokenType::Identifier => Some(ParseFn::Variable),
        _ => None,
    }
}

/// How tightly a token kind binds as a binary operator; `Lowest` for what
/// is no binary operator.
pub open spec fn precedence_of(kind: TokenType) -> Precedence {
    match kind {
        TokenType::Minus | TokenType::Plus => Precedence::Term,
        TokenType::Star | TokenType::Slash => Precedence::Factor,
        TokenType::BangEqual | TokenType::EqualEqual => Precedence::Equality,
        TokenType::Greater | TokenType::GreaterEqual | TokenType::Less
        | TokenType::LessEqual => Precedence::Comparison,
        _ => Precedence::Lowest,
    }
}

/// The rule of a token kind: binary operators are exactly the kinds with a
/// precedence.
pub open spec fn rule_of(kind: TokenType) -> ParseRule {
    ParseRule {
        prefix: prefix_of(kind),
        infix: if precedence_of(kind) != Precedence::Lowest {
            Some(ParseFn::Binary)
        } else {
            None
        },
        precedence: precedence_of(kind),
    }
}

/// The rule of a token kind.
pub fn get_rule(kind: TokenType) -> (rule: ParseRule)
    ensures
        rule == rule_of(kind),
{
    match kind {
        TokenType::LeftParen => ParseRule {
            prefix: Some(ParseFn::Grouping),
            infix: None,
            precedence: Precedence::Lowest,
        },
        TokenType::Minus => ParseRule {
            prefix: Some(ParseFn::Unary),
            infix: Some(ParseFn::Binary),
            precedence: Precedence::Term,
        },
        TokenType::Plus => ParseRule {
            prefix: None,
            infix: Some(ParseFn::Binary),
            precedence: Precedence::Term,
        },
        TokenType::Star => ParseRule {
            prefix: None,
            infix: Some(ParseFn::Binary),
            precedence: Precedence::Factor,
        },
        TokenType::Slash => ParseRule {
            prefix: None,
            infix: Some(ParseFn::Binary),
            precedence: Precedence::Factor,
        },
        TokenType::Number => ParseRule {
            prefix: Some(ParseFn::Number),
            infix: None,
            precedence: Precedence::Lowest,
        },
        TokenType::False => ParseRule {
            prefix: Some(ParseFn::Literal),
            infix: None,
            precedence: Precedence::Lowest,
        },
        TokenType::True => ParseRule {
            prefix: Some(ParseFn::Literal),
            infix: None,
            precedence: Precedence::Lowest,
        },
        TokenType::Nil => ParseRule {
            prefix: Some(ParseFn::Literal),
            infix: None,
            precedence: Precedence::Lowest,
        },
        TokenType::Bang => ParseRule {
            prefix: Some(ParseFn::Unary),
            infix: None,
            precedence: Precedence::Lowest,
        },
        TokenType::BangEqual => ParseRule {
            prefix: None,
            infix: Some(ParseFn::Binary),
            precedence: Precedence::Equality,
        },
        TokenType::EqualEqual => ParseRule {
            prefix: None,
            infix: Some(ParseFn::Binary),
            precedence: Precedence::Equality,
        },
        TokenType::Greater => ParseRule {
            prefix: None,
            infix: Some(ParseFn::Binary),
            precedence: Precedence::Comparison,
        },
        TokenType::GreaterEqual => ParseRule {
            prefix: None,
            infix: Some(ParseFn::Binary),
            precedence: Precedence::Comparison,
        },
        TokenType::Less => ParseRule {
            prefix: None,
            infix: Some(ParseFn::Binary),
            precedence: Precedence::Comparison,
        },
        TokenType::LessEqual => ParseRule {
            prefix: None,
            infix: Some(ParseFn::Binary),
            precedence: Precedence::Comparison,
        },
        TokenType::String => ParseRule {
            prefix: Some(ParseFn::String),
            infix: None,
            precedence: Precedence::Lowest,
        },
        TokenType::Identifier => ParseRule {
            prefix: Some(ParseFn::Variable),
            infix: None,
            precedence: Precedence::Lowest,
        },
        _ => ParseRule { prefix: None, infix: None, precedence: Precedence::Lowest },
    }
}

/// Where in the text a syntax error was found.
#[derive(Debug, PartialEq)]
pub enum Place {
    /// At the end of the text.
    End,
    /// At the token with this text.
    Lexeme(String),
    /// At a token that the scanner could not make; its message says where.
    Nowhere,
}

/// The mathematical content of a [`Place`].
pub enum PlaceView {
    End,
    Lexeme(Seq<char>),
    Nowhere,
}

impl View for Place {
    type V = PlaceView;

    open spec fn view(&self) -> PlaceView {
        match self {
            Place::End => PlaceView::End,
            Place::Lexeme(text) => PlaceView::Lexeme(text@),
            Place::Nowhere => PlaceView::Nowhere,
        }
    }
}

/// The report of one syntax error.
#[derive(Debug, PartialEq)]
pub struct Diagnostic {
    pub line: usize,
    pub place: Place,
    pub message: String,
}

/// The mathematical content of a [`Diagnostic`].
pub struct DiagnosticView {
    pub line: usize,
    pub place: PlaceView,
    pub message: Seq<char>,
}

impl View for Diagnostic {
    type V = DiagnosticView;

    open spec fn view(&self) -> DiagnosticView {
        DiagnosticView { line: self.line, place: self.place@, message: self.message@ }
    }
}

impl Clone for Diagnostic {
    fn clone(&self) -> (copy: Self)
        ensures
            copy@ == self@,
    {
        Diagnostic {
            line: self.line,
            place: match &self.place {
                Place::End => Place::End,
                Place::Lexeme(text) => Place::Lexeme(text.clone()),
                Place::Nowhere => Place::Nowhere,
            },
            message: self.message.clone(),
        }
    }
}

/// The views of a sequence of diagnostics, item by item.
pub open spec fn diagnostic_views(diagnostics: Seq<Diagnostic>) -> Seq<DiagnosticView> {
    diagnostics.map_values(|d: Diagnostic| d@)
}

/// The report of an error with `message` at `token`.
pub open spec fn diagnostic_at(token: TokenView, message: Seq<char>) -> DiagnosticView {
    DiagnosticView {
        line: token.line,
        place: if token.kind == TokenType::EOF {
            PlaceView::End
        } else if token.kind == TokenType::Error {
            PlaceView::Nowhere
        } else {
            PlaceView::Lexeme(token.lexeme)
        },
        message,
    }
}

/// The parser's token buffer and its flags. `current` is the token about
/// to be consumed, `previous` the one consumed last. A `Number` token has
/// the value of its literal beside it, where the host supplied one.
pub struct Parser {
    pub current: Token,
    pub previous: Token,
    pub current_number: Option<u64>,
    pub previous_number: Option<u64>,
    pub had_error: bool,
    pub panic_mode: bool,
}

/// The mathematical content of a [`Parser`].
pub struct ParserView {
    pub current: TokenView,
    pub previous: TokenView,
    pub current_number: Option<u64>,
    pub previous_number: Option<u64>,
    pub had_error: bool,
    pub panic_mode: bool,
}

impl View for Parser {
    type V = ParserView;

    open spec fn view(&self) -> ParserView {
        ParserView {
            current: self.current@,
            previous: self.previous@,
            current_number: self.current_number,
            previous_number: self.previous_number,
            had_error: self.had_error,
            panic_mode: self.panic_mode,
        }
    }
}

impl ParserView {
    /// A parser that has seen no token and no error.
    pub open spec fn initial() -> ParserView {
        ParserView {
            current: TokenView::undefined(),
            previous: TokenView::undefined(),
            current_number: None,
            previous_number: None,
            had_error: false,
            panic_mode: false,
        }
    }
}

impl Default for Parser {
    fn default() -> (parser: Self)
        ensures
            parser@ == ParserView::initial(),
    {
        Parser {
            current: Token::default(),
            previous: Token::default(),
            current_number: None,
            previous_number: None,
            had_error: false,
            panic_mode: false,
        }
    }
}

/// The deepest nesting of operands within operands that the compiler
/// follows; an expression nested more deeply is an error.
pub const MAX_NESTING: usize = 200;

/// Whether a token kind starts a statement, so that error recovery stops
/// before it.
pub open spec fn starts_statement(kind: TokenType) -> bool {
    kind == TokenType::Class || kind == TokenType::Fn || kind == TokenType::Var || kind
        == TokenType::For || kind == TokenType::If || kind == TokenType::While || kind
        == TokenType::Print || kind == TokenType::Return
}

/// The text of a string literal without its quotes.
pub open spec fn string_contents(lexeme: Seq<char>) -> Seq<char> {
    if lexeme.len() >= 2 {
        lexeme.subrange(1, lexeme.len() - 1)
    } else {
        Seq::empty()
    }
}

/// The state of a compilation.
#[verifier::ext_equal]
pub struct CompilerView {
    /// The scanner, past the token in `parser.current`.
    pub scanner: ScannerView,
    /// The token buffer and the error flags.
    pub parser: ParserView,
    /// The code written so far.
    pub chunk: ChunkView,
    /// The values of the text's number literals, in the order of the text.
    pub numbers: Seq<u64>,
    /// How many of `numbers` are given out.
    pub next_number: nat,
    /// The errors reported so far.
    pub diagnostics: Seq<DiagnosticView>,
    /// How many operands, one within the other, are being parsed.
    pub depth: nat,
}

impl CompilerView {
    /// A bound on the tokens still to be consumed: none once `current` is
    /// `EOF`, else `current` and at most one for each character to come.
    pub open spec fn remaining(self) -> nat {
        if self.parser.current.kind == TokenType::EOF {
            0
        } else {
            1 + self.scanner.remaining()
        }
    }

    /// Whether this state can come after `before` in one compilation, at
    /// the same depth of nesting: nothing consumed comes back, no constant
    /// leaves the pool or changes, and no report is withdrawn.
    pub open spec fn follows(self, before: CompilerView) -> bool {
        &&& self.remaining() <= before.remaining()
        &&& self.chunk.constants.len() >= before.chunk.constants.len()
        &&& forall|i: int|
            0 <= i < before.chunk.constants.len() ==> self.chunk.constants[i]
                == before.chunk.constants[i]
        &&& self.diagnostics.len() >= before.diagnostics.len()
        &&& self.depth == before.depth
    }

    /// What holds of a compiler at all times. An error has been seen
    /// exactly if one was reported, and the compiler is in panic mode only
    /// after an error. The chunk is well formed and, as long as no error
    /// was seen, names each global by a string. The nesting is within its
    /// limit.
    pub open spec fn coherent(self) -> bool {
        &&& self.scanner.well_formed()
        &&& self.parser.had_error <==> self.diagnostics.len() > 0
        &&& self.parser.panic_mode ==> self.parser.had_error
        &&& self.chunk.well_formed()
        &&& !self.parser.had_error ==> self.chunk.names_from(0)
        &&& self.next_number <= self.numbers.len()
        &&& self.depth <= MAX_NESTING
    }

    /// What holds of a compiler once it has its first token: it is
    /// coherent, and an `EOF` token is current only at the end of the text.
    pub open spec fn well_formed(self) -> bool {
        &&& self.coherent()
        &&& self.parser.current.kind == TokenType::EOF ==> self.scanner.at_end()
    }

    /// A compiler that has seen nothing and writes to `chunk`.
    pub open spec fn initial(chunk: ChunkView) -> CompilerView {
        CompilerView {
            scanner: ScannerView::new(Seq::empty()),
            parser: ParserView::initial(),
            chunk,
            numbers: Seq::empty(),
            next_number: 0,
            diagnostics: Seq::empty(),
            depth: 0,
        }
    }

    /// The compiler one operand deeper.
    pub open spec fn enter(self) -> CompilerView {
        CompilerView { depth: self.depth + 1, ..self }
    }

    /// The compiler back out of an operand.
    pub open spec fn leave(self) -> CompilerView {
        CompilerView { depth: if self.depth > 0 { (self.depth - 1) as nat } else { 0 }, ..self }
    }

    /// An error with `message` at `token`: reported, unless the compiler
    /// is in panic mode already.
    pub open spec fn error_at(self, token: TokenView, message: Seq<char>) -> CompilerView {
        if self.parser.panic_mode {
            self
        } else {
            CompilerView {
                parser: ParserView { panic_mode: true, had_error: true, ..self.parser },
                diagnostics: self.diagnostics.push(diagnostic_at(token, message)),
                ..self
            }
        }
    }

    /// An error at the current token.
    pub open spec fn error_at_current(self, message: Seq<char>) -> CompilerView {
        self.error_at(self.parser.current, message)
    }

    /// An error at the token consumed last.
    pub open spec fn error(self, message: Seq<char>) -> CompilerView {
        self.error_at(self.parser.previous, message)
    }

    /// The value of the next number literal, if the host supplied it.
    pub open spec fn number_value(self) -> Option<u64> {
        if self.next_number < self.numbers.len() {
            Some(self.numbers[self.next_number as int])
        } else {
            None
        }
    }

    /// The compiler with `token`, just scanned, as its current token. A
    /// `Number` token takes the next of the literal values.
    pub open spec fn take(self, scanner: ScannerView, token: TokenView) -> CompilerView {
        if token.kind == TokenType::Number {
            CompilerView {
                scanner,
                parser: ParserView {
                    current: token,
                    current_number: self.number_value(),
                    ..self.parser
                },
                next_number: if self.number_value() is Some {
                    self.next_number + 1
                } else {
                    self.next_number
                },
                ..self
            }
        } else {
            CompilerView {
                scanner,
                parser: ParserView { current: token, current_number: None, ..self.parser },
                ..self
            }
        }
    }

    /// Scans until a token is no `Error` token and makes it the current
    /// one. Each `Error` token on the way is an error with its message.
    #[verifier::opaque]
    pub open spec fn fetch(self) -> CompilerView
        decreases self.scanner.remaining(),
    {
        let (scanner, token) = self.scanner.scan_token();
        let taken = self.take(scanner, token);
        if token.kind == TokenType::Error {
            proof {
                self.scanner.lemma_scan_progress();
            }
            taken.error_at_current(token.lexeme).fetch()
        } else {
            taken
        }
    }

    /// Consumes the current token: it becomes the previous one, and the
    /// next token of the text the current one.
    #[verifier::opaque]
    pub open spec fn advance(self) -> CompilerView {
        CompilerView {
            parser: ParserView {
                previous: self.parser.current,
                previous_number: self.parser.current_number,
                ..self.parser
            },
            ..self
        }.fetch()
    }

    /// Consumes the current token if it is of kind `kind`; else that is
    /// an error with `message`.
    pub open spec fn consume(self, kind: TokenType, message: Seq<char>) -> CompilerView {
        if self.parser.current.kind == kind {
            self.advance()
        } else {
            self.error_at_current(message)
        }
    }

    /// Consumes the current token if it is of kind `kind`.
    pub open spec fn matches(self, kind: TokenType) -> CompilerView {
        if self.parser.current.kind == kind {
            self.advance()
        } else {
            self
        }
    }

    /// Writes one byte, attributed to the line of the token consumed last.
    pub open spec fn emit_byte(self, byte: u8) -> CompilerView {
        CompilerView { chunk: self.chunk.write(byte, self.parser.previous.line), ..self }
    }

    /// Writes two bytes.
    pub open spec fn emit_bytes(self, first: u8, second: u8) -> CompilerView {
        self.emit_byte(first).emit_byte(second)
    }

    /// The operand that names a constant added now: its index, or 0 where
    /// the pool is full.
    pub open spec fn constant_index(self) -> u8 {
        if self.chunk.has_room() {
            self.chunk.constants.len() as u8
        } else {
            0
        }
    }

    /// Adds `value` to the pool; with a full pool that is an error.
    pub open spec fn make_constant(self, value: ValueView) -> CompilerView {
        if self.chunk.has_room() {
            CompilerView { chunk: self.chunk.add_constant(value), ..self }
        } else {
            self.error("Too many constants in one chunk."@)
        }
    }

    /// Adds `value` to the pool and writes the instruction that loads it.
    pub open spec fn emit_constant(self, value: ValueView) -> CompilerView {
        self.make_constant(value).emit_bytes(OpCode::OpConstant.byte(), self.constant_index())
    }

    /// A number literal: loads its value. A literal whose value the host
    /// did not supply is an error.
    pub open spec fn number(self) -> CompilerView {
        match self.parser.previous_number {
            Some(bits) => self.emit_constant(ValueView::Number(bits)),
            None => self.error("Number literal has no value."@),
        }
    }

    /// `false`, `true` or `nil`.
    pub open spec fn literal(self) -> CompilerView {
        match self.parser.previous.kind {
            TokenType::False => self.emit_byte(OpCode::OpFalse.byte()),
            TokenType::True => self.emit_byte(OpCode::OpTrue.byte()),
            TokenType::Nil => self.emit_byte(OpCode::OpNil.byte()),
            _ => self,
        }
    }

    /// A string literal: loads the text between its quotes.
    pub open spec fn string(self) -> CompilerView {
        self.emit_constant(ValueView::Str(string_contents(self.parser.previous.lexeme)))
    }

    /// Adds the name of a variable to the pool.
    pub open spec fn identifier_constant(self, name: TokenView) -> CompilerView {
        self.make_constant(ValueView::Str(name.lexeme))
    }

    /// Writes the instruction that defines the global named by `global`.
    pub open spec fn define_variable(self, global: u8) -> CompilerView {
        self.emit_bytes(OpCode::OpDefineGlobal.byte(), global)
    }

    /// An expression: anything that binds at least as tightly as an
    /// assignment.
    pub open spec fn expression(self) -> CompilerView
        decreases self.remaining(), 1nat,
    {
        self.parse_precedence(Precedence::Assignment)
    }

    /// An expression of operators that bind at least as tightly as
    /// `precedence`. The token consumed first must be able to start an
    /// expression, else that is an error. Then each operator that binds
    /// tightly enough is consumed with its right operand. An operand
    /// nested more than `MAX_NESTING` deep is an error, and is not parsed.
    pub open spec fn parse_precedence(self, precedence: Precedence) -> CompilerView
        decreases self.remaining(), 0nat,
    {
        let advanced = self.advance();
        match prefix_of(advanced.parser.previous.kind) {
            Some(routine) => {
                proof {
                    self.lemma_advance();
                }
                if advanced.depth >= MAX_NESTING {
                    advanced.error("Expression nested too deeply."@)
                } else {
                    let operand = advanced.enter().prefix(
                        routine,
                        precedence.rank() <= Precedence::Assignment.rank(),
                    );
                    if operand.remaining() <= advanced.remaining() {
                        operand.infix_loop(precedence).leave()
                    } else {
                        operand.leave()
                    }
                }
            },
            None => advanced.error("Expect expression."@),
        }
    }

    /// The routine `routine` at the start of an expression, the token that
    /// selected it consumed.
    pub open spec fn prefix(self, routine: ParseFn, can_assign: bool) -> CompilerView
        decreases self.remaining(), 4nat,
    {
        match routine {
            ParseFn::Grouping => self.grouping(),
            ParseFn::Unary => self.unary(),
            ParseFn::Number => self.number(),
            ParseFn::Literal => self.literal(),
            ParseFn::String => self.string(),
            ParseFn::Variable => self.variable(can_assign),
            ParseFn::Binary => self,
        }
    }

    /// The operators that follow an operand, as long as they bind at least
    /// as tightly as `precedence`, each with its right operand.
    pub open spec fn infix_loop(self, precedence: Precedence) -> CompilerView
        decreases self.remaining(), 5nat,
    {
        if precedence.rank() <= precedence_of(self.parser.current.kind).rank() {
            let advanced = self.advance();
            let applied = match rule_of(advanced.parser.previous.kind).infix {
                Some(ParseFn::Binary) => {
                    proof {
                        self.lemma_advance();
                    }
                    advanced.binary()
                },
                _ => advanced,
            };
            if applied.remaining() < self.remaining() {
                applied.infix_loop(precedence)
            } else {
                applied
            }
        } else {
            self
        }
    }

    /// A parenthesised expression, the `(` consumed.
    pub open spec fn grouping(self) -> CompilerView
        decreases self.remaining(), 2nat,
    {
        self.expression().consume(TokenType::RightParen, "Expect ')' after expression."@)
    }

    /// A unary operator, consumed, with its operand: the operand's code,
    /// then the operator's.
    pub open spec fn unary(self) -> CompilerView
        decreases self.remaining(), 2nat,
    {
        let operand = self.parse_precedence(Precedence::Unary);
        match self.parser.previous.kind {
            TokenType::Bang => operand.emit_byte(OpCode::OpNot.byte()),
            TokenType::Minus => operand.emit_byte(OpCode::OpNegate.byte()),
            _ => operand,
        }
    }

    /// A binary operator, consumed, with its right operand: the operand's
    /// code, then the operator's. The operand takes only operators that
    /// bind more tightly, so operators of one level group to the left.
    /// `!=`, `>=` and `<=` are the negations of `==`, `<` and `>`.
    pub open spec fn binary(self) -> CompilerView
        decreases self.remaining(), 2nat,
    {
        let operand = self.parse_precedence(precedence_of(self.parser.previous.kind).tighter());
        match self.parser.previous.kind {
            TokenType::Plus => operand.emit_byte(OpCode::OpAdd.byte()),
            TokenType::Minus => operand.emit_byte(OpCode::OpSubtract.byte()),
            TokenType::Star => operand.emit_byte(OpCode::OpMultiply.byte()),
            TokenType::Slash => operand.emit_byte(OpCode::OpDivide.byte()),
            TokenType::Greater => operand.emit_byte(OpCode::OpGreater.byte()),
            TokenType::EqualEqual => operand.emit_byte(OpCode::OpEqual.byte()),
            TokenType::Less => operand.emit_byte(OpCode::OpLess.byte()),
            TokenType::BangEqual => operand.emit_bytes(
                OpCode::OpEqual.byte(),
                OpCode::OpNot.byte(),
            ),
            TokenType::GreaterEqual => operand.emit_bytes(
                OpCode::OpLess.byte(),
                OpCode::OpNot.byte(),
            ),
            TokenType::LessEqual => operand.emit_bytes(
                OpCode::OpGreater.byte(),
                OpCode::OpNot.byte(),
            ),
            _ => operand,
        }
    }

    /// A variable, its name consumed. Where an assignment may stand and
    /// `=` follows, the value's code and a store; else a load.
    pub open spec fn named_variable(self, name: TokenView, can_assign: bool) -> CompilerView
        decreases self.remaining(), 2nat,
    {
        let named = self.identifier_constant(name);
        if can_assign && named.parser.current.kind == TokenType::Equal {
            proof {
                named.lemma_advance();
            }
            named.advance().expression().emit_bytes(
                OpCode::OpSetGlobal.byte(),
                self.constant_index(),
            )
        } else {
            named.emit_bytes(OpCode::OpGetGlobal.byte(), self.constant_index())
        }
    }

    /// A variable named by the token consumed last.
    pub open spec fn variable(self, can_assign: bool) -> CompilerView
        decreases self.remaining(), 3nat,
    {
        self.named_variable(self.parser.previous, can_assign)
    }

    /// `print` consumed: an expression, `;`, and the instruction that prints.
    #[verifier::opaque]
    pub open spec fn print_statement(self) -> CompilerView {
        self.expression().consume(TokenType::Semicolon, "Expect ';' after value."@).emit_byte(
            OpCode::OpPrint.byte(),
        )
    }

    /// An expression, `;`, and the instruction that drops the value.
    #[verifier::opaque]
    pub open spec fn expression_statement(self) -> CompilerView {
        self.expression().consume(TokenType::Semicolon, "Expect ; after Expression"@).emit_byte(
            OpCode::OpPop.byte(),
        )
    }

    /// A statement: a print statement or an expression statement.
    #[verifier::opaque]
    pub open spec fn statement(self) -> CompilerView {
        if self.parser.current.kind == TokenType::Print {
            self.advance().print_statement()
        } else {
            self.expression_statement()
        }
    }

    /// The name in a variable declaration: consumed, and added to the pool.
    #[verifier::opaque]
    pub open spec fn parse_variable(self, message: Seq<char>) -> CompilerView {
        let named = self.consume(TokenType::Identifier, message);
        named.identifier_constant(named.parser.previous)
    }

    /// `var` consumed: a name, an initialiser after `=` or else `nil`, `;`,
    /// and the instruction that defines the global.
    #[verifier::opaque]
    pub open spec fn var_declaration(self) -> CompilerView {
        let named = self.parse_variable("Expect variable name."@);
        let global = self.consume(TokenType::Identifier, "Expect variable name."@).constant_index();
        let initialised = if named.parser.current.kind == TokenType::Equal {
            named.advance().expression()
        } else {
            named.emit_byte(OpCode::OpNil.byte())
        };
        initialised.consume(
            TokenType::Semicolon,
            "Expect ; after variable declaration"@,
        ).define_variable(global)
    }

    /// Skips tokens until a statement has just ended or one is about to
    /// start.
    pub open spec fn skip_to_statement(self) -> CompilerView
        decreases self.remaining(),
    {
        if self.parser.current.kind == TokenType::EOF || self.parser.previous.kind
            == TokenType::Semicolon || starts_statement(self.parser.current.kind) {
            self
        } else {
            proof {
                self.lemma_advance();
            }
            self.advance().skip_to_statement()
        }
    }

    /// Recovery from an error: skips to the next statement, then leaves
    /// panic mode.
    #[verifier::opaque]
    pub open spec fn synchronize(self) -> CompilerView {
        let skipped = self.skip_to_statement();
        CompilerView { parser: ParserView { panic_mode: false, ..skipped.parser }, ..skipped }
    }

    /// A variable declaration or a statement.
    pub open spec fn declare(self) -> CompilerView {
        if self.parser.current.kind == TokenType::Var {
            self.advance().var_declaration()
        } else {
            self.statement()
        }
    }

    /// A declaration. A compiler in panic mode first recovers; if that
    /// takes it to the end of the text, there is nothing left to declare.
    #[verifier::opaque]
    pub open spec fn declaration(self) -> CompilerView {
        if self.parser.panic_mode {
            if self.synchronize().parser.current.kind == TokenType::EOF {
                self.synchronize()
            } else {
                self.synchronize().declare()
            }
        } else {
            self.declare()
        }
    }

    /// Declarations up to the end of the text, and the `EOF` token consumed.
    pub open spec fn declarations(self) -> CompilerView
        decreases self.remaining(),
    {
        if self.parser.current.kind == TokenType::EOF {
            self.advance()
        } else {
            let declared = self.declaration();
            if declared.remaining() < self.remaining() {
                declared.declarations()
            } else {
                declared
            }
        }
    }

    /// The end of a compilation: the instruction that returns.
    pub open spec fn end_compiler(self) -> CompilerView {
        self.emit_byte(OpCode::OpReturn.byte())
    }

    /// The compilation of `source`, whose number literals have the values
    /// `numbers` in the order of the text: the program's declarations,
    /// then the instruction that returns.
    #[verifier::opaque]
    pub open spec fn compile(self, source: Seq<char>, numbers: Seq<u64>) -> CompilerView {
        CompilerView {
            scanner: ScannerView::new(source),
            numbers,
            next_number: 0,
            ..self
        }.advance().declarations().end_compiler()
    }

    /// Whether the host has supplied a value for every number literal:
    /// for those in the token buffer and for those still to be scanned.
    pub open spec fn supplied(self) -> bool {
        &&& self.next_number + self.scanner.number_lexemes().len() <= self.numbers.len()
        &&& self.parser.current.kind == TokenType::Number ==> self.parser.current_number is Some
        &&& self.parser.previous.kind == TokenType::Number
            ==> self.parser.previous_number is Some
    }

    /// If a value is supplied for every number literal still to be
    /// scanned, the token fetched has its value: the literals and the
    /// values stay in step.
    pub proof fn lemma_fetch_supplied(self)
        requires
            self.scanner.well_formed(),
            self.next_number + self.scanner.number_lexemes().len() <= self.numbers.len(),
            self.parser.previous.kind == TokenType::Number
                ==> self.parser.previous_number is Some,
        ensures
            self.fetch().supplied(),
        decreases self.scanner.remaining(),
    {
        reveal(CompilerView::fetch);
        self.scanner.lemma_scan_progress();
        self.scanner.lemma_scan_token();
        let (scanner, token) = self.scanner.scan_token();
        if token.kind == TokenType::Error {
            self.take(scanner, token).error_at_current(token.lexeme).lemma_fetch_supplied();
        } else if token.kind == TokenType::EOF {
            scanner.lemma_eof_repeats();
        }
    }

    /// Consuming a token keeps the literals and their values in step.
    pub proof fn lemma_advance_supplied(self)
        requires
            self.scanner.well_formed(),
            self.supplied(),
        ensures
            self.advance().supplied(),
    {
        reveal(CompilerView::advance);
        CompilerView {
            parser: ParserView {
                previous: self.parser.current,
                previous_number: self.parser.current_number,
                ..self.parser
            },
            ..self
        }.lemma_fetch_supplied();
    }

    /// A number literal whose value is supplied compiles to the load of
    /// that value; no error is reported for it unless the pool is full.
    pub proof fn lemma_number_supplied(self)
        requires
            self.supplied(),
            self.parser.previous.kind == TokenType::Number,
        ensures
            self.number() == self.emit_constant(
                ValueView::Number(self.parser.previous_number->0),
            ),
            self.chunk.has_room() ==> self.number().diagnostics == self.diagnostics,
    {
    }

    /// A constant offered to a full pool is an error: the pool stays as
    /// it is, and the compilation has failed. The operand handed back
    /// names a constant the pool holds.
    pub proof fn lemma_full_pool_is_error(self, value: ValueView)
        requires
            self.coherent(),
            !self.chunk.has_room(),
        ensures
            self.make_constant(value).parser.had_error,
            self.make_constant(value).chunk == self.chunk,
            self.constant_index() < self.make_constant(value).chunk.constants.len(),
    {
    }

    /// A constant offered to a pool with room is added at the index that
    /// the operand names, and the pool stays within its limit.
    pub proof fn lemma_constant_is_added(self, value: ValueView)
        requires
            self.coherent(),
            self.chunk.has_room(),
        ensures
            self.make_constant(value).chunk.constants == self.chunk.constants.push(value),
            self.make_constant(value).chunk.constants[self.constant_index() as int] == value,
            self.make_constant(value).chunk.constants.len() <= crate::chunk::MAX_CONSTANTS,
            self.make_constant(value).parser == self.parser,
    {
    }

    /// Fetching leaves at most as many tokens as there were characters.
    pub proof fn lemma_fetch(self)
        ensures
            self.fetch().remaining() <= self.scanner.remaining(),
            self.fetch().parser.previous == self.parser.previous,
            self.fetch().chunk == self.chunk,
            self.fetch().diagnostics.len() >= self.diagnostics.len(),
            self.fetch().depth == self.depth,
        decreases self.scanner.remaining(),
    {
        reveal(CompilerView::fetch);
        self.scanner.lemma_scan_progress();
        let (scanner, token) = self.scanner.scan_token();
        if token.kind == TokenType::Error {
            self.take(scanner, token).error_at_current(token.lexeme).lemma_fetch();
        }
    }

    /// Fetching keeps a compiler coherent, and leaves an `EOF` token
    /// current only at the end of the text.
    pub proof fn lemma_fetch_well_formed(self)
        requires
            self.coherent(),
        ensures
            self.fetch().well_formed(),
        decreases self.scanner.remaining(),
    {
        reveal(CompilerView::fetch);
        self.scanner.lemma_scan_progress();
        self.scanner.lemma_scan_token();
        let (scanner, token) = self.scanner.scan_token();
        if token.kind == TokenType::Error {
            self.take(scanner, token).error_at_current(token.lexeme).lemma_fetch_well_formed();
        }
    }

    /// Consuming a token keeps a compiler well formed and never leaves
    /// more tokens than there were.
    pub proof fn lemma_advance_well_formed(self)
        requires
            self.well_formed(),
        ensures
            self.advance().well_formed(),
            self.advance().follows(self),
    {
        reveal(CompilerView::advance);
        let shifted = CompilerView {
            parser: ParserView {
                previous: self.parser.current,
                previous_number: self.parser.current_number,
                ..self.parser
            },
            ..self
        };
        shifted.lemma_fetch_well_formed();
        shifted.lemma_fetch();
        self.lemma_advance();
        if self.parser.current.kind == TokenType::EOF {
            reveal(CompilerView::fetch);
            self.scanner.lemma_scan_token();
        }
    }

    /// Consuming a token that is not `EOF` leaves fewer tokens, and the
    /// token consumed is the previous one afterwards. The chunk and the
    /// depth of nesting stay, and no report is withdrawn.
    pub proof fn lemma_advance(self)
        ensures
            self.advance().parser.previous == self.parser.current,
            self.parser.current.kind != TokenType::EOF ==> self.advance().remaining()
                < self.remaining(),
            self.advance().chunk == self.chunk,
            self.advance().diagnostics.len() >= self.diagnostics.len(),
            self.advance().depth == self.depth,
    {
        reveal(CompilerView::advance);
        CompilerView {
            parser: ParserView {
                previous: self.parser.current,
                previous_number: self.parser.current_number,
                ..self.parser
            },
            ..self
        }.lemma_fetch();
    }
}

/// The compiler. It owns the chunk it writes until [`Compiler::into_chunk`]
/// hands the chunk out.
pub struct Compiler {
    parser: Parser,
    scanner: Scanner,
    chunk: Chunk,
    numbers: Vec<u64>,
    next_number: usize,
    diagnostics: Vec<Diagnostic>,
    depth: usize,
}

impl View for Compiler {
    type V = CompilerView;

    closed spec fn view(&self) -> CompilerView {
        CompilerView {
            scanner: self.scanner@,
            parser: self.parser@,
            chunk: self.chunk@,
            numbers: self.numbers@,
            next_number: self.next_number as nat,
            diagnostics: diagnostic_views(self.diagnostics@),
            depth: self.depth as nat,
        }
    }
}

impl Compiler {
    /// Whether the compiler's parts fit together, before it has its first
    /// token.
    pub closed spec fn wf_before_first_token(&self) -> bool {
        &&& self.scanner.wf()
        &&& self@.coherent()
    }

    /// Whether the compiler's parts fit together.
    pub closed spec fn wf(&self) -> bool {
        &&& self.scanner.wf()
        &&& self@.well_formed()
    }

    /// A compiler whose parts fit together can take its next token.
    pub proof fn lemma_ready(&self)
        requires
            self.wf(),
        ensures
            self.wf_before_first_token(),
            self@.well_formed(),
    {
    }

    /// A compiler that writes to `chunk`.
    pub fn new(chunk: Chunk) -> (compiler: Self)
        requires
            chunk@.well_formed(),
            chunk@.names_from(0),
        ensures
            compiler.wf(),
            compiler@ == CompilerView::initial(chunk@),
    {
        let compiler = Compiler {
            parser: Parser::default(),
            scanner: Scanner::new(String::new()),
            chunk,
            numbers: Vec::new(),
            next_number: 0,
            diagnostics: Vec::new(),
            depth: 0,
        };
        assert(compiler@ =~= CompilerView::initial(chunk@));
        compiler
    }

    /// The chunk written so far.
    pub fn chunk(&self) -> (chunk: &Chunk)
        ensures
            chunk@ == self@.chunk,
    {
        &self.chunk
    }

    /// Ends the compiler's work and hands out its chunk.
    pub fn into_chunk(self) -> (chunk: Chunk)
        ensures
            chunk@ == self@.chunk,
    {
        self.chunk
    }

    /// Ends the compiler's work and hands out its chunk and the errors it
    /// reported, in the order they were found.
    pub fn into_parts(self) -> (parts: (Chunk, Vec<Diagnostic>))
        ensures
            parts.0@ == self@.chunk,
            diagnostic_views(parts.1@) == self@.diagnostics,
    {
        (self.chunk, self.diagnostics)
    }

    /// The errors reported so far, in the order they were found.
    pub fn diagnostics(&self) -> (diagnostics: &Vec<Diagnostic>)
        ensures
            diagnostic_views(diagnostics@) == self@.diagnostics,
    {
        &self.diagnostics
    }

    /// Whether an error has been reported.
    pub fn had_error(&self) -> (had_error: bool)
        ensures
            had_error == self@.parser.had_error,
    {
        self.parser.had_error
    }

    /// Consumes the current token if it is of kind `token_type`, and says
    /// whether it was.
    fn matches(&mut self, token_type: TokenType) -> (matched: bool)
        requires
            old(self).wf(),
        ensures
            final(self).wf(),
            final(self)@ == old(self)@.matches(token_type),
            matched == (old(self)@.parser.current.kind == token_type),
            final(self)@.follows(old(self)@),
            matched && token_type != TokenType::EOF ==> final(self)@.remaining() < old(
                self,
            )@.remaining(),
    {
        if !(self.parser.current.token_type == token_type) {
            return false;
        }
        self.advance();
        true
    }

    /// Consumes the current token. `Error` tokens that the scanner makes
    /// on the way to the next token are reported and passed over.
    pub fn advance(&mut self)
        requires
            old(self).wf_before_first_token(),
        ensures
            final(self).wf(),
            final(self)@ == old(self)@.advance(),
            old(self)@.well_formed() ==> final(self)@.follows(old(self)@),
            old(self)@.parser.current.kind != TokenType::EOF ==> final(self)@.remaining() < old(
                self,
            )@.remaining(),
    {
        self.parser.previous = self.parser.current.clone();
        self.parser.previous_number = self.parser.current_number;
        proof {
            reveal(CompilerView::advance);
        }
        loop
            invariant
                self.wf_before_first_token(),
                self@.fetch() == old(self)@.advance(),
            decreases self@.scanner.remaining(),
        {
            proof {
                reveal(CompilerView::fetch);
                reveal(CompilerView::advance);
                old(self)@.lemma_advance();
                if old(self)@.well_formed() {
                    old(self)@.lemma_advance_well_formed();
                }
                self@.scanner.lemma_scan_progress();
                self@.scanner.lemma_scan_token();
            }
            let ghost before = self@;
            let token = self.scanner.scan_token();
            if token.token_type == TokenType::Number && self.next_number < self.numbers.len() {
                self.parser.current_number = Some(self.numbers[self.next_number]);
                self.next_number = self.next_number + 1;
            } else {
                self.parser.current_number = None;
            }
            self.parser.current = token;
            assert(self@ =~= before.take(before.scanner.scan_token().0, token@));
            if self.parser.current.token_type != TokenType::Error {
                return ;
            }
            let message = self.parser.current.lexeme.clone();
            self.error_at_current(message.as_str());
        }
    }

    /// Reports an error with `message` at the current token.
    fn error_at_current(&mut self, message: &str)
        requires
            old(self).wf_before_first_token(),
        ensures
            final(self).wf_before_first_token(),
            final(self)@ == old(self)@.error_at_current(message@),
    {
        let token = self.parser.current.clone();
        self.error_at(&token, message);
    }

    /// Reports an error with `message` at the token consumed last.
    fn error(&mut self, message: &str)
        requires
            old(self).wf_before_first_token(),
        ensures
            final(self).wf_before_first_token(),
            final(self)@ == old(self)@.error(message@),
    {
        let token = self.parser.previous.clone();
        self.error_at(&token, message);
    }

    /// Ends the compilation: writes the instruction that returns.
    fn end_compiler(&mut self)
        requires
            old(self).wf(),
        ensures
            final(self).wf(),
            final(self)@ == old(self)@.end_compiler(),
    {
        self.emit_return();
    }

    /// Writes the instruction that returns.
    fn emit_return(&mut self)
        requires
            old(self).wf(),
        ensures
            final(self).wf(),
            final(self)@ == old(self)@.emit_byte(OpCode::OpReturn.byte()),
    {
        self.emit_byte(OpCode::OpReturn.into());
    }

    /// Reports an error with `message` at `token`, unless the compiler is
    /// in panic mode; enters panic mode.
    fn error_at(&mut self, token: &Token, message: &str)
        requires
            old(self).wf_before_first_token(),
        ensures
            final(self).wf_before_first_token(),
            final(self)@ == old(self)@.error_at(token@, message@),
    {
        if self.parser.panic_mode {
            return ;
        }
        self.parser.panic_mode = true;
        let place = if token.token_type == TokenType::EOF {
            Place::End
        } else if token.token_type == TokenType::Error {
            Place::Nowhere
        } else {
            Place::Lexeme(token.lexeme.clone())
        };
        let diagnostic = Diagnostic { line: token.line, place, message: message.to_owned() };
        assert(diagnostic@ == diagnostic_at(token@, message@));
        self.diagnostics.push(diagnostic);
        self.parser.had_error = true;
        assert(self@ =~= old(self)@.error_at(token@, message@));
    }

    /// Consumes the current token if it is of kind `token_type`; reports
    /// an error with `message` if it is not.
    fn consume(&mut self, token_type: TokenType, message: &str)
        requires
            old(self).wf(),
        ensures
            final(self).wf(),
            final(self)@ == old(self)@.consume(token_type, message@),
            final(self)@.follows(old(self)@),
    {
        if self.parser.current.token_type == token_type {
            self.advance();
            return ;
        }
        self.error_at_current(message);
    }

    /// Writes `byte`, the byte of an instruction without operand,
    /// attributed to the line of the token consumed last.
    fn emit_byte(&mut self, byte: u8)
        requires
            old(self).wf(),
            OpCode::decode(byte) matches Some(op) && !op.has_operand(),
        ensures
            final(self).wf(),
            final(self)@ == old(self)@.emit_byte(byte),
    {
        proof {
            let op = OpCode::decode(byte)->0;
            OpCode::lemma_decode_sound(byte);
            self@.chunk.lemma_write_instruction(op, self@.parser.previous.line, 0);
            if !self@.parser.had_error {
                self@.chunk.lemma_write_instruction_names(op, self@.parser.previous.line, 0);
            }
        }
        self.chunk.write(byte, self.parser.previous.line);
    }

    /// Writes two bytes: an instruction and its operand, the index of a
    /// constant that the pool holds, or two instructions without operand.
    fn emit_bytes(&mut self, byte1: u8, byte2: u8)
        requires
            old(self).wf(),
            OpCode::decode(byte1) matches Some(op) && if op.has_operand() {
                &&& byte2 < old(self)@.chunk.constants.len()
                &&& op.names_global() && !old(self)@.parser.had_error ==> old(
                    self,
                )@.chunk.constants[byte2 as int] is Str
            } else {
                OpCode::decode(byte2) matches Some(second) && !second.has_operand()
            },
        ensures
            final(self).wf(),
            final(self)@ == old(self)@.emit_bytes(byte1, byte2),
    {
        let line = self.parser.previous.line;
        proof {
            let op = OpCode::decode(byte1)->0;
            OpCode::lemma_decode_sound(byte1);
            if op.has_operand() {
                self@.chunk.lemma_write_with_operand(op, byte2, line, line, 0);
                if !self@.parser.had_error {
                    self@.chunk.lemma_write_with_operand_names(op, byte2, line, line, 0);
                }
            } else {
                let second = OpCode::decode(byte2)->0;
                OpCode::lemma_decode_sound(byte2);
                self@.chunk.lemma_write_instruction(op, line, 0);
                self@.chunk.write(byte1, line).lemma_write_instruction(second, line, 0);
                if !self@.parser.had_error {
                    self@.chunk.lemma_write_instruction_names(op, line, 0);
                    self@.chunk.write(byte1, line).lemma_write_instruction_names(
                        second,
                        line,
                        0,
                    );
                }
            }
        }
        self.chunk.write(byte1, line);
        self.chunk.write(byte2, line);
    }

    /// Adds `value` to the pool and returns the operand that names it. A
    /// full pool is reported as an error, and the operand is 0.
    fn make_constant(&mut self, value: Value) -> (constant: u8)
        requires
            old(self).wf(),
        ensures
            final(self).wf(),
            final(self)@ == old(self)@.make_constant(value@),
            constant == old(self)@.constant_index(),
            constant < final(self)@.chunk.constants.len(),
            !final(self)@.parser.had_error ==> final(self)@.chunk.constants[constant as int]
                == value@,
            final(self)@.follows(old(self)@),
    {
        proof {
            self@.chunk.lemma_add_constant_decodes(value@, 0);
            if !self@.parser.had_error {
                self@.chunk.lemma_add_constant_names(value@, 0);
            }
        }
        if let Some(constant) = self.chunk.add_constant(value) {
            constant
        } else {
            self.error("Too many constants in one chunk.");
            0
        }
    }

    /// Adds `value` to the pool and writes the instruction that loads it.
    fn emit_constant(&mut self, value: Value)
        requires
            old(self).wf(),
        ensures
            final(self).wf(),
            final(self)@ == old(self)@.emit_constant(value@),
    {
        let constant = self.make_constant(value);
        self.emit_bytes(OpCode::OpConstant.into(), constant);
    }

    /// A number literal.
    fn number(&mut self)
        requires
            old(self).wf(),
        ensures
            final(self).wf(),
            final(self)@ == old(self)@.number(),
    {
        match self.parser.previous_number {
            Some(bits) => self.emit_constant(Value::Number(bits)),
            None => self.error("Number literal has no value."),
        }
    }

    /// `false`, `true` or `nil`.
    fn literal(&mut self)
        requires
            old(self).wf(),
        ensures
            final(self).wf(),
            final(self)@ == old(self)@.literal(),
    {
        match self.parser.previous.token_type {
            TokenType::False => self.emit_byte(OpCode::OpFalse.into()),
            TokenType::True => self.emit_byte(OpCode::OpTrue.into()),
            TokenType::Nil => self.emit_byte(OpCode::OpNil.into()),
            _ => {},
        }
    }

    /// A string literal.
    fn string(&mut self)
        requires
            old(self).wf(),
        ensures
            final(self).wf(),
            final(self)@ == old(self)@.string(),
    {
        let len = self.parser.previous.lexeme.as_str().unicode_len();
        let contents = if len >= 2 {
            self.parser.previous.lexeme.as_str().substring_char(1, len - 1).to_owned()
        } else {
            String::new()
        };
        self.emit_constant(Value::Str(contents));
    }

    /// Adds the name of a variable to the pool and returns the operand
    /// that names it.
    fn identifier_constant(&mut self, token: &Token) -> (constant: u8)
        requires
            old(self).wf(),
        ensures
            final(self).wf(),
            final(self)@ == old(self)@.identifier_constant(token@),
            constant == old(self)@.constant_index(),
            constant < final(self)@.chunk.constants.len(),
            !final(self)@.parser.had_error ==> final(self)@.chunk.constants[constant as int]
                is Str,
            final(self)@.follows(old(self)@),
    {
        self.make_constant(Value::Str(token.lexeme.clone()))
    }

    /// Writes the instruction that defines the global named by `global`.
    fn define_variable(&mut self, global: u8)
        requires
            old(self).wf(),
            global < old(self)@.chunk.constants.len(),
            !old(self)@.parser.had_error ==> old(self)@.chunk.constants[global as int] is Str,
        ensures
            final(self).wf(),
            final(self)@ == old(self)@.define_variable(global),
    {
        self.emit_bytes(OpCode::OpDefineGlobal.into(), global);
    }
}

impl Compiler {
    /// Compiles `source` into the chunk and returns whether an error was
    /// reported. `numbers` holds the value of each number literal of
    /// `source`, in the order of the text. The chunk is complete only if
    /// no error was reported.
    pub fn compile(&mut self, source: String, numbers: Vec<u64>) -> (had_error: bool)
        requires
            old(self).wf(),
            source@.len() < usize::MAX,
        ensures
            final(self).wf(),
            final(self)@ == old(self)@.compile(source@, numbers@),
            had_error == final(self)@.parser.had_error,
            had_error == (final(self)@.diagnostics.len() > 0),
            old(self)@.parser.had_error ==> had_error,
            final(self)@.chunk.well_formed(),
            final(self)@.chunk.returns_from(0),
            !had_error ==> final(self)@.chunk.names_from(0),
    {
        proof {
            reveal(CompilerView::compile);
        }
        self.scanner = Scanner::new(source);
        self.numbers = numbers;
        self.next_number = 0;
        proof {
            self@.lemma_advance();
        }
        self.advance();
        let ghost first = self@;
        loop
            invariant_except_break
                self@.declarations() == first.declarations(),
            invariant
                self.wf(),
                self@.diagnostics.len() >= old(self)@.diagnostics.len(),
            ensures
                self@ == first.declarations(),
            decreases self@.remaining(),
        {
            if self.matches(TokenType::EOF) {
                break ;
            }
            self.declaration();
        }
        proof {
            self@.chunk.lemma_write_return(self@.parser.previous.line, 0);
        }
        self.end_compiler();
        self.parser.had_error
    }

    /// A parenthesised expression, the `(` consumed.
    fn grouping(&mut self)
        requires
            old(self).wf(),
        ensures
            final(self).wf(),
            final(self)@ == old(self)@.grouping(),
            final(self)@.follows(old(self)@),
        decreases old(self)@.remaining(), 2nat,
    {
        self.expression();
        self.consume(TokenType::RightParen, "Expect ')' after expression.");
    }

    /// A unary operator, consumed, with its operand.
    fn unary(&mut self)
        requires
            old(self).wf(),
        ensures
            final(self).wf(),
            final(self)@ == old(self)@.unary(),
            final(self)@.follows(old(self)@),
        decreases old(self)@.remaining(), 2nat,
    {
        let operator_type = self.parser.previous.token_type;
        self.parse_precedence(Precedence::Unary);
        match operator_type {
            TokenType::Bang => self.emit_byte(OpCode::OpNot.into()),
            TokenType::Minus => self.emit_byte(OpCode::OpNegate.into()),
            _ => {},
        }
    }

    /// An expression of operators that bind at least as tightly as
    /// `precedence`.
    fn parse_precedence(&mut self, precedence: Precedence)
        requires
            old(self).wf(),
            precedence != Precedence::Lowest,
        ensures
            final(self).wf(),
            final(self)@ == old(self)@.parse_precedence(precedence),
            final(self)@.follows(old(self)@),
            old(self)@.parser.current.kind != TokenType::EOF ==> final(self)@.remaining() < old(
                self,
            )@.remaining(),
        decreases old(self)@.remaining(), 0nat,
    {
        proof {
            self@.lemma_advance();
        }
        self.advance();
        if let Some(prefix_rule) = get_rule(self.parser.previous.token_type).prefix {
            if self.depth >= MAX_NESTING {
                self.error("Expression nested too deeply.");
                return ;
            }
            let ghost advanced = self@;
            self.depth = self.depth + 1;
            let can_assign = precedence.at_most(Precedence::Assignment);
            self.prefix(prefix_rule, can_assign);
            let ghost operand = self@;
            while precedence.at_most(get_rule(self.parser.current.token_type).precedence)
                invariant
                    self.wf(),
                    precedence != Precedence::Lowest,
                    self@.infix_loop(precedence) == operand.infix_loop(precedence),
                    self@.remaining() < old(self)@.remaining(),
                    self@.follows(advanced.enter()),
                    advanced.follows(old(self)@),
                    advanced.depth < MAX_NESTING,
                decreases self@.remaining(),
            {
                proof {
                    self@.lemma_advance();
                }
                self.advance();
                if let Some(infix_rule) = get_rule(self.parser.previous.token_type).infix {
                    self.infix(infix_rule);
                }
            }
            self.depth = self.depth - 1;
        } else {
            self.error("Expect expression.");
        }
    }

    /// Runs the routine `routine` at the start of an expression.
    fn prefix(&mut self, routine: ParseFn, can_assign: bool)
        requires
            old(self).wf(),
        ensures
            final(self).wf(),
            final(self)@ == old(self)@.prefix(routine, can_assign),
            final(self)@.follows(old(self)@),
        decreases old(self)@.remaining(), 4nat,
    {
        match routine {
            ParseFn::Grouping => self.grouping(),
            ParseFn::Unary => self.unary(),
            ParseFn::Number => self.number(),
            ParseFn::Literal => self.literal(),
            ParseFn::String => self.string(),
            ParseFn::Variable => self.variable(can_assign),
            ParseFn::Binary => {},
        }
    }

    /// Runs the routine `routine` after an operand.
    fn infix(&mut self, routine: ParseFn)
        requires
            old(self).wf(),
            precedence_of(old(self)@.parser.previous.kind) != Precedence::Lowest,
        ensures
            final(self).wf(),
            final(self)@ == if routine == ParseFn::Binary {
                old(self)@.binary()
            } else {
                old(self)@
            },
            final(self)@.follows(old(self)@),
        decreases old(self)@.remaining(), 3nat,
    {
        match routine {
            ParseFn::Binary => self.binary(),
            _ => {},
        }
    }

    /// An expression.
    fn expression(&mut self)
        requires
            old(self).wf(),
        ensures
            final(self).wf(),
            final(self)@ == old(self)@.expression(),
            final(self)@.follows(old(self)@),
            old(self)@.parser.current.kind != TokenType::EOF ==> final(self)@.remaining() < old(
                self,
            )@.remaining(),
        decreases old(self)@.remaining(), 1nat,
    {
        self.parse_precedence(Precedence::Assignment);
    }

    /// A declaration, after recovery if the compiler is in panic mode.
    fn declaration(&mut self)
        requires
            old(self).wf(),
        ensures
            final(self).wf(),
            final(self)@ == old(self)@.declaration(),
            final(self)@.follows(old(self)@),
            old(self)@.parser.current.kind != TokenType::EOF ==> final(self)@.remaining() < old(
                self,
            )@.remaining(),
    {
        proof {
            reveal(CompilerView::declaration);
        }
        if self.parser.panic_mode {
            self.synchronize();
            if self.parser.current.token_type == TokenType::EOF {
                return ;
            }
        }
        if self.matches(TokenType::Var) {
            self.var_declaration();
        } else {
            self.statement();
        }
    }

    /// A variable whose name is `name`: a store where an assignment may
    /// stand and `=` follows, else a load.
    fn named_variable(&mut self, name: &Token, can_assign: bool)
        requires
            old(self).wf(),
        ensures
            final(self).wf(),
            final(self)@ == old(self)@.named_variable(name@, can_assign),
            final(self)@.follows(old(self)@),
        decreases old(self)@.remaining(), 2nat,
    {
        let arg = self.identifier_constant(name);
        if can_assign && self.matches(TokenType::Equal) {
            self.expression();
            self.emit_bytes(OpCode::OpSetGlobal.into(), arg);
        } else {
            self.emit_bytes(OpCode::OpGetGlobal.into(), arg);
        }
    }

    /// A variable named by the token consumed last.
    fn variable(&mut self, can_assign: bool)
        requires
            old(self).wf(),
        ensures
            final(self).wf(),
            final(self)@ == old(self)@.variable(can_assign),
            final(self)@.follows(old(self)@),
        decreases old(self)@.remaining(), 3nat,
    {
        let name = self.parser.previous.clone();
        self.named_variable(&name, can_assign);
    }

    /// A variable declaration, `var` consumed.
    fn var_declaration(&mut self)
        requires
            old(self).wf(),
        ensures
            final(self).wf(),
            final(self)@ == old(self)@.var_declaration(),
            final(self)@.follows(old(self)@),
    {
        proof {
            reveal(CompilerView::var_declaration);
        }
        let global = self.parse_variable("Expect variable name.");
        if self.matches(TokenType::Equal) {
            self.expression();
        } else {
            self.emit_byte(OpCode::OpNil.into());
        }
        self.consume(TokenType::Semicolon, "Expect ; after variable declaration");
        self.define_variable(global);
    }

    /// The name in a variable declaration; returns the operand that names it.
    fn parse_variable(&mut self, message: &str) -> (constant: u8)
        requires
            old(self).wf(),
        ensures
            final(self).wf(),
            final(self)@ == old(self)@.parse_variable(message@),
            constant == old(self)@.consume(TokenType::Identifier, message@).constant_index(),
            constant < final(self)@.chunk.constants.len(),
            !final(self)@.parser.had_error ==> final(self)@.chunk.constants[constant as int]
                is Str,
            final(self)@.follows(old(self)@),
    {
        proof {
            reveal(CompilerView::parse_variable);
        }
        self.consume(TokenType::Identifier, message);
        let token = self.parser.previous.clone();
        self.identifier_constant(&token)
    }

    /// Skips tokens until a statement has just ended or one is about to
    /// start, then leaves panic mode.
    fn synchronize(&mut self)
        requires
            old(self).wf(),
        ensures
            final(self).wf(),
            final(self)@ == old(self)@.synchronize(),
            final(self)@.follows(old(self)@),
    {
        proof {
            reveal(CompilerView::synchronize);
        }
        while self.parser.current.token_type != TokenType::EOF
            invariant_except_break
                self@.skip_to_statement() == old(self)@.skip_to_statement(),
            invariant
                self.wf(),
                self@.follows(old(self)@),
            ensures
                self@ == old(self)@.skip_to_statement(),
            decreases self@.remaining(),
        {
            if self.parser.previous.token_type == TokenType::Semicolon {
                break ;
            }
            match self.parser.current.token_type {
                TokenType::Class
                | TokenType::Fn
                | TokenType::Var
                | TokenType::For
                | TokenType::If
                | TokenType::While
                | TokenType::Print
                | TokenType::Return => {
                    break ;
                },
                _ => {},
            }
            self.advance();
        }
        self.parser.panic_mode = false;
    }

    /// A statement.
    fn statement(&mut self)
        requires
            old(self).wf(),
        ensures
            final(self).wf(),
            final(self)@ == old(self)@.statement(),
            final(self)@.follows(old(self)@),
            old(self)@.parser.current.kind != TokenType::EOF ==> final(self)@.remaining() < old(
                self,
            )@.remaining(),
    {
        proof {
            reveal(CompilerView::statement);
        }
        if self.matches(TokenType::Print) {
            self.print_statement();
        } else {
            self.expression_statement();
        }
    }

    /// An expression statement.
    fn expression_statement(&mut self)
        requires
            old(self).wf(),
        ensures
            final(self).wf(),
            final(self)@ == old(self)@.expression_statement(),
            final(self)@.follows(old(self)@),
            old(self)@.parser.current.kind != TokenType::EOF ==> final(self)@.remaining() < old(
                self,
            )@.remaining(),
    {
        proof {
            reveal(CompilerView::expression_statement);
        }
        self.expression();
        self.consume(TokenType::Semicolon, "Expect ; after Expression");
        self.emit_byte(OpCode::OpPop.into());
    }

    /// A print statement, `print` consumed.
    fn print_statement(&mut self)
        requires
            old(self).wf(),
        ensures
            final(self).wf(),
            final(self)@ == old(self)@.print_statement(),
            final(self)@.follows(old(self)@),
    {
        proof {
            reveal(CompilerView::print_statement);
        }
        self.expression();
        self.consume(TokenType::Semicolon, "Expect ';' after value.");
        self.emit_byte(OpCode::OpPrint.into());
    }

    /// A binary operator, consumed, with its right operand.
    fn binary(&mut self)
        requires
            old(self).wf(),
            precedence_of(old(self)@.parser.previous.kind) != Precedence::Lowest,
        ensures
            final(self).wf(),
            final(self)@ == old(self)@.binary(),
            final(self)@.follows(old(self)@),
        decreases old(self)@.remaining(), 2nat,
    {
        let operator_type = self.parser.previous.token_type;
        let rule = get_rule(operator_type);
        self.parse_precedence(rule.precedence.next());
        match operator_type {
            TokenType::Plus => self.emit_byte(OpCode::OpAdd.into()),
            TokenType::Minus => self.emit_byte(OpCode::OpSubtract.into()),
            TokenType::Star => self.emit_byte(OpCode::OpMultiply.into()),
            TokenType::Slash => self.emit_byte(OpCode::OpDivide.into()),
            TokenType::Greater => self.emit_byte(OpCode::OpGreater.into()),
            TokenType::EqualEqual => self.emit_byte(OpCode::OpEqual.into()),
            TokenType::Less => self.emit_byte(OpCode::OpLess.into()),
            TokenType::BangEqual => self.emit_bytes(OpCode::OpEqual.into(), OpCode::OpNot.into()),
            TokenType::GreaterEqual => self.emit_bytes(
                OpCode::OpLess.into(),
                OpCode::OpNot.into(),
            ),
            TokenType::LessEqual => self.emit_bytes(
                OpCode::OpGreater.into(),
                OpCode::OpNot.into(),
            ),
            _ => {},
        }
    }
}

} // verus!
