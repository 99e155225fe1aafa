//! The stack machine that runs a chunk.
//!
//! The machine runs on its own until it needs its host: to write a line of
//! output, or to compute the sum, difference, product or quotient of two
//! numbers. It then returns a [`Pause`] that says what it needs. The host
//! does that and calls [`VM::run`] or [`VM::resume`] to go on. What the
//! machine does between two pauses is given by [`MachineView::run`].
use vstd::prelude::*;
use vstd::hash_map::StringHashMap;
use crate::chunk::{Chunk, ChunkView, OpCode};
use crate::compiler::{diagnostic_views, Compiler, CompilerView, Diagnostic, DiagnosticView};
use crate::value::{
    less_number,
    number_less,
    value_is_falsey,
    value_text,
    value_views,
    values_equal,
    Value,
    ValueView,
};

verus! {

/// How an interpretation ended.
#[derive(PartialEq, Eq, Clone, Copy, Debug, Structural)]
pub enum InterpretResult {
    Success,
    CompileError,
    RuntimeError,
}

/// A fault in the bytecode itself. A chunk that the compiler wrote without
/// reporting an error has none of the first five; none of them is an error
/// of the program's author.
#[derive(PartialEq, Eq, Clone, Copy, Debug, Structural)]
pub enum Defect {
    /// The code ended before a return instruction.
    EndOfCode,
    /// A byte encodes no instruction.
    UnknownOpcode,
    /// The code ended where an operand was due.
    MissingOperand,
    /// An operand is no index into the constant pool.
    ConstantOutOfRange,
    /// The constant that should name a variable is no string.
    NameNotString,
    /// An instruction found too few values on the stack.
    StackUnderflow,
}

/// What a runtime error reports: its message, and the source line of the
/// instruction that failed.
#[derive(Debug, PartialEq)]
pub struct Fault {
    pub message: String,
    pub line: usize,
}

/// The mathematical content of a [`Fault`].
pub struct FaultView {
    pub message: Seq<char>,
    pub line: usize,
}

impl View for Fault {
    type V = FaultView;

    open spec fn view(&self) -> FaultView {
        FaultView { message: self.message@, line: self.line }
    }
}

impl Clone for Fault {
    fn clone(&self) -> (copy: Self)
        ensures
            copy@ == self@,
    {
        Fault { message: self.message.clone(), line: self.line }
    }
}

/// Why the machine stopped running.
#[derive(Debug, PartialEq)]
pub enum Pause {
    /// The program printed this text; a line break follows it.
    Print(String),
    /// The program printed this number; a line break follows it.
    PrintNumber(u64),
    /// The program applies `OpAdd`, `OpSubtract`, `OpMultiply` or `OpDivide`
    /// to these two numbers, the left one first. The machine goes on once
    /// it is handed the result.
    Arithmetic(OpCode, u64, u64),
    /// The run is over.
    Finished(InterpretResult),
    /// The bytecode is faulty; the machine will not move.
    Corrupt(Defect),
}

/// The mathematical content of a [`Pause`].
pub enum PauseView {
    Print(Seq<char>),
    PrintNumber(u64),
    Arithmetic(OpCode, u64, u64),
    Finished(InterpretResult),
    Corrupt(Defect),
}

impl View for Pause {
    type V = PauseView;

    open spec fn view(&self) -> PauseView {
        match self {
            Pause::Print(text) => PauseView::Print(text@),
            Pause::PrintNumber(bits) => PauseView::PrintNumber(*bits),
            Pause::Arithmetic(op, a, b) => PauseView::Arithmetic(*op, *a, *b),
            Pause::Finished(result) => PauseView::Finished(*result),
            Pause::Corrupt(defect) => PauseView::Corrupt(*defect),
        }
    }
}

/// The view of a step's outcome.
pub open spec fn pause_view(pause: Option<Pause>) -> Option<PauseView> {
    match pause {
        Some(p) => Some(p@),
        None => None,
    }
}

/// The message of a runtime error on operands that are not both numbers.
pub open spec fn operands_message() -> Seq<char> {
    "Operands must be numbers."@
}

/// The message of a runtime error on an operand that is no number.
pub open spec fn operand_message() -> Seq<char> {
    "Operand must be a number."@
}

/// The message of a runtime error on a variable that was never defined.
pub open spec fn undefined_message(name: Seq<char>) -> Seq<char> {
    "Undefined variable '"@ + name + "'."@
}

/// The state of a machine.
#[verifier::ext_equal]
pub struct MachineView {
    /// The chunk being run.
    pub chunk: ChunkView,
    /// The offset of the next instruction.
    pub ip: nat,
    /// The operand stack, the top last.
    pub stack: Seq<ValueView>,
    /// The global variables.
    pub globals: Map<Seq<char>, ValueView>,
    /// How the run ended, once it has.
    pub halted: Option<InterpretResult>,
    /// What the last runtime error reported.
    pub fault: Option<FaultView>,
    /// The syntax errors of the text interpreted last.
    pub diagnostics: Seq<DiagnosticView>,
}

impl MachineView {
    /// A machine that has not been given anything to run.
    pub open spec fn initial() -> MachineView {
        MachineView {
            chunk: ChunkView::empty(),
            ip: 0,
            stack: Seq::empty(),
            globals: Map::empty(),
            halted: None,
            fault: None,
            diagnostics: Seq::empty(),
        }
    }

    /// The machine about to run `chunk` from its start. Only the globals
    /// are kept.
    pub open spec fn load(self, chunk: ChunkView) -> MachineView {
        MachineView { chunk, ip: 0, stack: Seq::empty(), halted: None, fault: None, ..self }
    }

    /// The value `distance` places below the top of the stack.
    pub open spec fn peek(self, distance: int) -> ValueView {
        self.stack[self.stack.len() - 1 - distance]
    }

    /// The machine with `value` pushed.
    pub open spec fn push(self, value: ValueView) -> MachineView {
        MachineView { stack: self.stack.push(value), ..self }
    }

    /// The machine without the `count` topmost values.
    pub open spec fn pop(self, count: int) -> MachineView {
        MachineView { stack: self.stack.take(self.stack.len() - count), ..self }
    }

    /// The machine with its instruction pointer moved on by `count` bytes.
    pub open spec fn skip(self, count: nat) -> MachineView {
        MachineView { ip: self.ip + count, ..self }
    }

    /// The source line of the instruction about to run.
    pub open spec fn line(self) -> usize {
        if self.ip < self.chunk.lines.len() {
            self.chunk.lines[self.ip as int]
        } else {
            0
        }
    }

    /// The outcome of a defect: the machine stays as it is.
    pub open spec fn stuck(self, defect: Defect) -> (MachineView, Option<PauseView>) {
        (self, Some(PauseView::Corrupt(defect)))
    }

    /// The outcome of a runtime error: the stack is emptied, the message
    /// and the line are kept, and the run is over for good.
    pub open spec fn fail(self, message: Seq<char>) -> (MachineView, Option<PauseView>) {
        (
            MachineView {
                stack: Seq::empty(),
                halted: Some(InterpretResult::RuntimeError),
                fault: Some(FaultView { message, line: self.line() }),
                ..self
            },
            Some(PauseView::Finished(InterpretResult::RuntimeError)),
        )
    }

    /// The constant that the operand of the instruction at `ip` names.
    pub open spec fn constant(self) -> Result<ValueView, Defect> {
        if self.ip + 1 >= self.chunk.code.len() {
            Err(Defect::MissingOperand)
        } else if self.chunk.code[(self.ip + 1) as int] >= self.chunk.constants.len() {
            Err(Defect::ConstantOutOfRange)
        } else {
            Ok(self.chunk.constants[self.chunk.code[(self.ip + 1) as int] as int])
        }
    }

    /// The variable name that the operand of the instruction at `ip` names.
    pub open spec fn name(self) -> Result<Seq<char>, Defect> {
        match self.constant() {
            Ok(ValueView::Str(name)) => Ok(name),
            Ok(_) => Err(Defect::NameNotString),
            Err(defect) => Err(defect),
        }
    }

    /// `OpConstant`: push the constant.
    pub open spec fn load_constant(self) -> (MachineView, Option<PauseView>) {
        match self.constant() {
            Ok(value) => (self.push(value).skip(2), None),
            Err(defect) => self.stuck(defect),
        }
    }

    /// `OpDefineGlobal` and `OpSetGlobal`: pop a value and bind it to the name.
    pub open spec fn bind_global(self) -> (MachineView, Option<PauseView>) {
        match self.name() {
            Ok(name) => if self.stack.len() < 1 {
                self.stuck(Defect::StackUnderflow)
            } else {
                (
                    MachineView {
                        globals: self.globals.insert(name, self.peek(0)),
                        ..self.pop(1).skip(2)
                    },
                    None,
                )
            },
            Err(defect) => self.stuck(defect),
        }
    }

    /// `OpGetGlobal`: push the value bound to the name; a name that is not
    /// bound is a runtime error.
    pub open spec fn get_global(self) -> (MachineView, Option<PauseView>) {
        match self.name() {
            Ok(name) => if self.globals.contains_key(name) {
                (self.push(self.globals[name]).skip(2), None)
            } else {
                self.fail(undefined_message(name))
            },
            Err(defect) => self.stuck(defect),
        }
    }

    /// `OpAdd`, `OpSubtract`, `OpMultiply` and `OpDivide`. Two numbers are
    /// popped and handed to the host. `OpAdd` joins two strings itself. Any
    /// other pair is a runtime error.
    pub open spec fn arithmetic(self, op: OpCode) -> (MachineView, Option<PauseView>) {
        if self.stack.len() < 2 {
            self.stuck(Defect::StackUnderflow)
        } else {
            match (self.peek(1), self.peek(0)) {
                (ValueView::Number(a), ValueView::Number(b)) => (
                    self.pop(2).skip(1),
                    Some(PauseView::Arithmetic(op, a, b)),
                ),
                (ValueView::Str(a), ValueView::Str(b)) => if op == OpCode::OpAdd {
                    (self.pop(2).push(ValueView::Str(a + b)).skip(1), None)
                } else {
                    self.fail(operands_message())
                },
                _ => self.fail(operands_message()),
            }
        }
    }

    /// `OpGreater` and `OpLess`: pop two numbers and push how they compare.
    /// Any other pair is a runtime error.
    pub open spec fn compare(self, op: OpCode) -> (MachineView, Option<PauseView>) {
        if self.stack.len() < 2 {
            self.stuck(Defect::StackUnderflow)
        } else {
            match (self.peek(1), self.peek(0)) {
                (ValueView::Number(a), ValueView::Number(b)) => (
                    self.pop(2).push(
                        ValueView::Boolean(
                            if op == OpCode::OpLess {
                                number_less(a, b)
                            } else {
                                number_less(b, a)
                            },
                        ),
                    ).skip(1),
                    None,
                ),
                _ => self.fail(operands_message()),
            }
        }
    }

    /// `OpEqual`: pop two values and push whether they are equal.
    pub open spec fn equal(self) -> (MachineView, Option<PauseView>) {
        if self.stack.len() < 2 {
            self.stuck(Defect::StackUnderflow)
        } else {
            (
                self.pop(2).push(ValueView::Boolean(values_equal(self.peek(1), self.peek(0)))).skip(
                    1,
                ),
                None,
            )
        }
    }

    /// `OpNegate`: replace the number on top by its negation. Anything but a
    /// number there is a runtime error.
    pub open spec fn negate(self) -> (MachineView, Option<PauseView>) {
        if self.stack.len() < 1 {
            self.stuck(Defect::StackUnderflow)
        } else {
            match self.peek(0) {
                ValueView::Number(bits) => (
                    self.pop(1).push(
                        ValueView::Number(crate::value::number_negated(bits)),
                    ).skip(1),
                    None,
                ),
                _ => self.fail(operand_message()),
            }
        }
    }

    /// `OpNot`: replace the value on top by whether it counts as false.
    pub open spec fn not(self) -> (MachineView, Option<PauseView>) {
        if self.stack.len() < 1 {
            self.stuck(Defect::StackUnderflow)
        } else {
            (self.pop(1).push(ValueView::Boolean(value_is_falsey(self.peek(0)))).skip(1), None)
        }
    }

    /// `OpPop`: drop the value on top, if there is one.
    pub open spec fn discard(self) -> (MachineView, Option<PauseView>) {
        if self.stack.len() < 1 {
            (self.skip(1), None)
        } else {
            (self.pop(1).skip(1), None)
        }
    }

    /// `OpPrint`: pop a value and hand it to the host to be written.
    pub open spec fn print(self) -> (MachineView, Option<PauseView>) {
        if self.stack.len() < 1 {
            self.stuck(Defect::StackUnderflow)
        } else {
            (
                self.pop(1).skip(1),
                Some(
                    match self.peek(0) {
                        ValueView::Number(bits) => PauseView::PrintNumber(bits),
                        other => PauseView::Print(value_text(other).unwrap()),
                    },
                ),
            )
        }
    }

    /// `OpReturn`: the run is over, and stays so.
    pub open spec fn finish(self) -> (MachineView, Option<PauseView>) {
        (
            MachineView { halted: Some(InterpretResult::Success), ..self },
            Some(PauseView::Finished(InterpretResult::Success)),
        )
    }

    /// What the instruction `op` at `ip` does.
    pub open spec fn execute(self, op: OpCode) -> (MachineView, Option<PauseView>) {
        match op {
            OpCode::OpConstant => self.load_constant(),
            OpCode::OpNil => (self.push(ValueView::Nil).skip(1), None),
            OpCode::OpTrue => (self.push(ValueView::Boolean(true)).skip(1), None),
            OpCode::OpFalse => (self.push(ValueView::Boolean(false)).skip(1), None),
            OpCode::OpPop => self.discard(),
            OpCode::OpDefineGlobal | OpCode::OpSetGlobal => self.bind_global(),
            OpCode::OpGetGlobal => self.get_global(),
            OpCode::OpAdd | OpCode::OpSubtract | OpCode::OpMultiply | OpCode::OpDivide => self.arithmetic(
                op,
            ),
            OpCode::OpNegate => self.negate(),
            OpCode::OpNot => self.not(),
            OpCode::OpEqual => self.equal(),
            OpCode::OpGreater | OpCode::OpLess => self.compare(op),
            OpCode::OpPrint => self.print(),
            OpCode::OpReturn => self.finish(),
        }
    }

    /// One step: the machine after the instruction at `ip`, and the pause
    /// that the instruction causes, if it causes one. A machine whose run
    /// is over stays as it is.
    pub open spec fn step(self) -> (MachineView, Option<PauseView>) {
        if let Some(result) = self.halted {
            (self, Some(PauseView::Finished(result)))
        } else if self.ip >= self.chunk.code.len() {
            self.stuck(Defect::EndOfCode)
        } else {
            match OpCode::decode(self.chunk.code[self.ip as int]) {
                Some(op) => self.execute(op),
                None => self.stuck(Defect::UnknownOpcode),
            }
        }
    }

    /// Steps until an instruction causes a pause: the machine at that
    /// point, and the pause.
    pub open spec fn run(self) -> (MachineView, PauseView)
        decreases self.chunk.code.len() - self.ip,
    {
        let (next, pause) = self.step();
        match pause {
            Some(p) => (next, p),
            None => {
                proof {
                    self.lemma_step_advances();
                }
                next.run()
            },
        }
    }

    /// The machine after it has been given `source` to interpret, and the
    /// first pause. `numbers` holds the values of the text's number
    /// literals. The text is compiled into a fresh chunk. If that reports
    /// an error, nothing is run and the result is `CompileError`. Else the
    /// chunk is run from its start on an empty stack. The globals are kept
    /// either way.
    pub open spec fn interpret(self, source: Seq<char>, numbers: Seq<u64>) -> (
        MachineView,
        PauseView,
    ) {
        let compiled = CompilerView::initial(ChunkView::empty()).compile(source, numbers);
        if compiled.parser.had_error {
            MachineView {
                halted: Some(InterpretResult::CompileError),
                diagnostics: compiled.diagnostics,
                ..self.load(ChunkView::empty())
            }.run()
        } else {
            MachineView { diagnostics: compiled.diagnostics, ..self.load(compiled.chunk) }.run()
        }
    }

    /// The machine after the host has handed it the result of the
    /// arithmetic it asked for.
    pub open spec fn deliver(self, number: u64) -> MachineView {
        self.push(ValueView::Number(number))
    }

    /// Whether the machine stands at the start of an instruction of code
    /// that is, from there on, a sequence of whole instructions with
    /// operands in range.
    pub open spec fn on_instruction(self) -> bool {
        &&& self.ip <= self.chunk.code.len()
        &&& self.chunk.decodes_from(self.ip as int)
    }

    /// Whether the machine stands at the start of an instruction of code
    /// in which, from there on, each operand that should name a global
    /// variable is the index of a string.
    pub open spec fn names_globals(self) -> bool {
        &&& self.on_instruction()
        &&& self.chunk.names_from(self.ip as int)
    }

    /// Whether the run is over, or the machine stands at the start of an
    /// instruction of code that is, from there on, whole instructions that
    /// end in a return.
    pub open spec fn bound_to_return(self) -> bool {
        self.halted is Some || self.chunk.returns_from(self.ip as int)
    }

    /// Whether the machine runs code as the compiler writes it when it
    /// reports no error: from the instruction pointer on, whole
    /// instructions with operands in range that name each global by a
    /// string and end in a return.
    pub open spec fn sound(self) -> bool {
        &&& self.names_globals()
        &&& self.bound_to_return()
    }

    /// A step that causes no pause moves the instruction pointer forward
    /// within the code and keeps the chunk, so a run always comes to a pause.
    pub proof fn lemma_step_advances(self)
        ensures
            self.step().1 is None ==> self.step().0.chunk == self.chunk && self.ip
                < self.step().0.ip <= self.chunk.code.len(),
    {
    }

    /// On code that is a sequence of whole instructions with operands in
    /// range, a machine at the start of an instruction never meets an
    /// unknown instruction, a missing operand or an operand out of range,
    /// and a step takes it to the start of an instruction again.
    pub proof fn lemma_step_on_whole_instructions(self)
        requires
            self.ip < self.chunk.code.len(),
            self.chunk.decodes_from(self.ip as int),
        ensures
            self.step().1 != Some(PauseView::Corrupt(Defect::UnknownOpcode)),
            self.step().1 != Some(PauseView::Corrupt(Defect::MissingOperand)),
            self.step().1 != Some(PauseView::Corrupt(Defect::ConstantOutOfRange)),
            self.step().1 != Some(PauseView::Corrupt(Defect::EndOfCode)),
            self.step().0.chunk == self.chunk,
            self.step().0.ip != self.ip ==> self.chunk.decodes_from(self.step().0.ip as int),
    {
    }

    /// A machine at the start of an instruction stays at the start of an
    /// instruction, whatever it runs, and never reports an unknown
    /// instruction, a missing operand or an operand out of range.
    pub proof fn lemma_run_on_whole_instructions(self)
        requires
            self.on_instruction(),
        ensures
            self.run().0.on_instruction(),
            self.run().1 != PauseView::Corrupt(Defect::UnknownOpcode),
            self.run().1 != PauseView::Corrupt(Defect::MissingOperand),
            self.run().1 != PauseView::Corrupt(Defect::ConstantOutOfRange),
        decreases self.chunk.code.len() - self.ip,
    {
        if self.halted is None && self.ip < self.chunk.code.len() {
            self.lemma_step_on_whole_instructions();
            self.lemma_step_advances();
            if self.step().1 is None {
                self.step().0.lemma_run_on_whole_instructions();
            }
        }
    }

    /// A machine whose code names each global by a string stays so,
    /// whatever it runs, and never finds a name that is no string.
    pub proof fn lemma_run_with_names(self)
        requires
            self.names_globals(),
        ensures
            self.run().0.names_globals(),
            self.run().1 != PauseView::Corrupt(Defect::NameNotString),
        decreases self.chunk.code.len() - self.ip,
    {
        if self.halted is None && self.ip < self.chunk.code.len() {
            self.lemma_step_on_whole_instructions();
            self.lemma_step_advances();
            if self.step().1 is None {
                self.step().0.lemma_run_with_names();
            }
        }
    }

    /// A machine that is bound to return stays so, whatever it runs, and
    /// never runs off the end of the code.
    pub proof fn lemma_run_to_return(self)
        requires
            self.bound_to_return(),
        ensures
            self.run().0.bound_to_return(),
            self.run().1 != PauseView::Corrupt(Defect::EndOfCode),
        decreases self.chunk.code.len() - self.ip,
    {
        if self.halted is None {
            self.lemma_step_advances();
            if self.step().1 is None {
                self.step().0.lemma_run_to_return();
            }
        }
    }

    /// On sound code the only defect that a run can meet is a stack with
    /// too few values, and the machine stays on sound code.
    pub proof fn lemma_run_sound(self)
        requires
            self.sound(),
        ensures
            self.run().0.sound(),
            self.run().1 is Corrupt ==> self.run().1 == PauseView::Corrupt(
                Defect::StackUnderflow,
            ),
    {
        self.lemma_run_on_whole_instructions();
        self.lemma_run_with_names();
        self.lemma_run_to_return();
    }

    /// Once a run has ended, no step and no run changes the machine or
    /// reports anything but how the run ended.
    pub proof fn lemma_halt_is_final(self)
        requires
            self.halted is Some,
        ensures
            self.step() == (self, Some(PauseView::Finished(self.halted.unwrap()))),
            self.run() == (self, PauseView::Finished(self.halted.unwrap())),
    {
    }

    /// Running never changes the syntax errors held, and reports a
    /// compile error only where the compilation has failed.
    pub proof fn lemma_run_never_reports_compile_error(self)
        ensures
            self.run().0.diagnostics == self.diagnostics,
            self.halted != Some(InterpretResult::CompileError) ==> self.run().1
                != PauseView::Finished(InterpretResult::CompileError),
        decreases self.chunk.code.len() - self.ip,
    {
        if self.halted is None && self.ip < self.chunk.code.len() {
            self.lemma_step_advances();
            if self.step().1 is None {
                self.step().0.lemma_run_never_reports_compile_error();
            }
        }
    }

    /// Arithmetic on anything but two numbers, or two strings under
    /// `OpAdd`, is a runtime error: a string and a number are never added,
    /// in either order.
    pub proof fn lemma_arithmetic_rejects_mixed_operands(self, op: OpCode)
        requires
            self.stack.len() >= 2,
            !(self.peek(1) is Number && self.peek(0) is Number),
            !(op == OpCode::OpAdd && self.peek(1) is Str && self.peek(0) is Str),
        ensures
            self.arithmetic(op) == self.fail(operands_message()),
            self.arithmetic(op).1 == Some(PauseView::Finished(InterpretResult::RuntimeError)),
            self.arithmetic(op).0.halted == Some(InterpretResult::RuntimeError),
            self.arithmetic(op).0.stack.len() == 0,
    {
    }

    /// A comparison of anything but two numbers is a runtime error; no
    /// other pair is ever ordered.
    pub proof fn lemma_compare_rejects_non_numbers(self, op: OpCode)
        requires
            self.stack.len() >= 2,
            !(self.peek(1) is Number && self.peek(0) is Number),
        ensures
            self.compare(op) == self.fail(operands_message()),
            self.compare(op).1 == Some(PauseView::Finished(InterpretResult::RuntimeError)),
            self.compare(op).0.halted == Some(InterpretResult::RuntimeError),
    {
    }

    /// Reading a global that was never bound is a runtime error.
    pub proof fn lemma_unbound_global_is_error(self)
        requires
            self.name() matches Ok(name) && !self.globals.contains_key(name),
        ensures
            self.get_global().1 == Some(PauseView::Finished(InterpretResult::RuntimeError)),
            self.get_global().0.halted == Some(InterpretResult::RuntimeError),
    {
    }

    /// A global that was just bound reads back as the value bound to it.
    pub proof fn lemma_bound_global_reads_back(self)
        requires
            self.name() is Ok,
            self.stack.len() >= 1,
        ensures
            self.bind_global().1 is None,
            self.bind_global().0.globals.contains_key(self.name().unwrap()),
            self.bind_global().0.globals[self.name().unwrap()] == self.peek(0),
    {
    }
}

/// The views of the values of a map, key by key.
pub open spec fn global_views(globals: Map<Seq<char>, Value>) -> Map<Seq<char>, ValueView> {
    globals.map_values(|v: Value| v@)
}

/// The machine: the chunk it runs, where it stands in it, its operand stack
/// and the global variables, which outlive a run.
pub struct VM {
    chunk: Chunk,
    ip: usize,
    stack: Vec<Value>,
    globals: StringHashMap<Value>,
    halted: Option<InterpretResult>,
    fault: Option<Fault>,
    diagnostics: Vec<Diagnostic>,
}

impl View for VM {
    type V = MachineView;

    closed spec fn view(&self) -> MachineView {
        MachineView {
            chunk: self.chunk@,
            ip: self.ip as nat,
            stack: value_views(self.stack@),
            globals: global_views(self.globals@),
            halted: self.halted,
            fault: match self.fault {
                Some(fault) => Some(fault@),
                None => None,
            },
            diagnostics: diagnostic_views(self.diagnostics@),
        }
    }
}

impl VM {
    /// A machine with nothing to run and no globals.
    pub fn new() -> (vm: Self)
        ensures
            vm@ == MachineView::initial(),
    {
        let vm = VM {
            chunk: Chunk::new(),
            ip: 0,
            stack: Vec::new(),
            globals: StringHashMap::new(),
            halted: None,
            fault: None,
            diagnostics: Vec::new(),
        };
        assert(vm@ =~= MachineView::initial());
        vm
    }

    /// Returns the machine to the state of a new one.
    pub fn free(&mut self)
        ensures
            final(self)@ == MachineView::initial(),
    {
        self.chunk.free();
        self.ip = 0;
        self.stack.clear();
        self.globals.clear();
        self.halted = None;
        self.fault = None;
        self.diagnostics = Vec::new();
        assert(self@ =~= MachineView::initial());
    }

    /// Makes `chunk` the chunk to run, from its start and on an empty stack.
    /// The globals stay.
    pub fn load(&mut self, chunk: Chunk)
        ensures
            final(self)@ == old(self)@.load(chunk@),
    {
        self.chunk = chunk;
        self.ip = 0;
        self.stack.clear();
        self.halted = None;
        self.fault = None;
        assert(self@ =~= old(self)@.load(chunk@));
    }

    /// Compiles `source` and, if that reports no error, runs the program
    /// to its first pause. `numbers` holds the value of each number
    /// literal of `source`, in the order of the text.
    pub fn interpret(&mut self, source: String, numbers: Vec<u64>) -> (pause: Pause)
        requires
            source@.len() < usize::MAX,
        ensures
            final(self)@ == old(self)@.interpret(source@, numbers@).0,
            pause@ == old(self)@.interpret(source@, numbers@).1,
            final(self)@.sound(),
            pause@ is Corrupt ==> pause@ == PauseView::Corrupt(Defect::StackUnderflow),
            final(self)@.diagnostics.len() > 0 <==> pause@ == PauseView::Finished(
                InterpretResult::CompileError,
            ),
    {
        let mut compiler = Compiler::new(Chunk::new());
        let had_error = compiler.compile(source, numbers);
        let (chunk, diagnostics) = compiler.into_parts();
        if had_error {
            self.load(Chunk::new());
            self.halted = Some(InterpretResult::CompileError);
        } else {
            self.load(chunk);
        }
        self.diagnostics = diagnostics;
        proof {
            self@.lemma_run_sound();
            self@.lemma_run_never_reports_compile_error();
        }
        self.run()
    }

    /// The syntax errors of the text interpreted last, in the order they
    /// were found.
    pub fn diagnostics(&self) -> (diagnostics: &Vec<Diagnostic>)
        ensures
            diagnostic_views(diagnostics@) == self@.diagnostics,
    {
        &self.diagnostics
    }

    /// What the last runtime error reported, if there was one since the
    /// chunk was loaded.
    pub fn fault(&self) -> (fault: Option<Fault>)
        ensures
            match fault {
                Some(f) => self@.fault == Some(f@),
                None => self@.fault is None,
            },
    {
        match &self.fault {
            Some(fault) => Some(fault.clone()),
            None => None,
        }
    }

    /// A copy of the value bound to the global `name`, if one is bound.
    pub fn global(&self, name: &str) -> (value: Option<Value>)
        ensures
            match value {
                Some(v) => self@.globals.contains_key(name@) && self@.globals[name@] == v@,
                None => !self@.globals.contains_key(name@),
            },
    {
        match self.globals.get(name) {
            Some(value) => Some(value.clone()),
            None => None,
        }
    }

    /// The number of values on the stack.
    pub fn depth(&self) -> (depth: usize)
        ensures
            depth == self@.stack.len(),
    {
        self.stack.len()
    }

    /// A copy of the value `distance` places below the top of the stack.
    fn peek(&self, distance: usize) -> (value: Value)
        requires
            distance < self@.stack.len(),
        ensures
            value@ == self@.peek(distance as int),
    {
        self.stack[self.stack.len() - 1 - distance].clone()
    }

    /// Pushes `value`.
    fn push(&mut self, value: Value)
        ensures
            final(self)@ == old(self)@.push(value@),
    {
        self.stack.push(value);
        assert(self@ =~= old(self)@.push(value@));
    }

    /// Drops the `count` topmost values.
    fn drop(&mut self, count: usize)
        requires
            count <= old(self)@.stack.len(),
        ensures
            final(self)@ == old(self)@.pop(count as int),
    {
        let keep = self.stack.len() - count;
        self.stack.truncate(keep);
        assert(self@ =~= old(self)@.pop(count as int));
    }

    /// Moves the instruction pointer on by `count` bytes.
    fn skip(&mut self, count: usize)
        requires
            old(self)@.ip + count <= old(self)@.chunk.code.len(),
        ensures
            final(self)@ == old(self)@.skip(count as nat),
    {
        assert(self.chunk.code@.len() == self.chunk.code.len());
        self.ip = self.ip + count;
        assert(self@ =~= old(self)@.skip(count as nat));
    }

    /// The instruction at the instruction pointer.
    fn read_byte(&self) -> (op: Option<OpCode>)
        requires
            self@.ip < self@.chunk.code.len(),
        ensures
            op == OpCode::decode(self@.chunk.code[self@.ip as int]),
    {
        OpCode::from_byte(self.chunk.read(self.ip))
    }

    /// The constant that the operand after the instruction pointer names.
    fn read_constant(&self) -> (constant: Result<Value, Defect>)
        requires
            self@.ip < self@.chunk.code.len(),
        ensures
            match constant {
                Ok(value) => self@.constant() == Ok::<ValueView, Defect>(value@),
                Err(defect) => self@.constant() == Err::<ValueView, Defect>(defect),
            },
    {
        let len = self.chunk.code.len();
        if self.ip + 1 >= len {
            Err(Defect::MissingOperand)
        } else {
            let index = self.chunk.read(self.ip + 1);
            if index as usize >= self.chunk.constants.len() {
                Err(Defect::ConstantOutOfRange)
            } else {
                Ok(self.chunk.get_constant(index))
            }
        }
    }

    /// The variable name that the operand after the instruction pointer names.
    fn read_string(&self) -> (name: Result<String, Defect>)
        requires
            self@.ip < self@.chunk.code.len(),
        ensures
            match name {
                Ok(text) => self@.name() == Ok::<Seq<char>, Defect>(text@),
                Err(defect) => self@.name() == Err::<Seq<char>, Defect>(defect),
            },
    {
        match self.read_constant() {
            Ok(Value::Str(name)) => Ok(name),
            Ok(_) => Err(Defect::NameNotString),
            Err(defect) => Err(defect),
        }
    }

    /// `OpConstant`.
    fn load_constant(&mut self) -> (pause: Option<Pause>)
        requires
            old(self)@.ip < old(self)@.chunk.code.len(),
        ensures
            final(self)@ == old(self)@.load_constant().0,
            pause_view(pause) == old(self)@.load_constant().1,
    {
        match self.read_constant() {
            Ok(value) => {
                self.push(value);
                self.skip(2);
                None
            },
            Err(defect) => Some(Pause::Corrupt(defect)),
        }
    }

    /// `OpDefineGlobal` and `OpSetGlobal`.
    fn bind_global(&mut self) -> (pause: Option<Pause>)
        requires
            old(self)@.ip < old(self)@.chunk.code.len(),
        ensures
            final(self)@ == old(self)@.bind_global().0,
            pause_view(pause) == old(self)@.bind_global().1,
    {
        match self.read_string() {
            Ok(name) => {
                if self.stack.len() < 1 {
                    Some(Pause::Corrupt(Defect::StackUnderflow))
                } else {
                    let value = self.peek(0);
                    self.drop(1);
                    self.skip(2);
                    let ghost before = self@;
                    self.globals.insert(name, value);
                    assert(self@ =~= MachineView {
                        globals: before.globals.insert(name@, value@),
                        ..before
                    });
                    None
                }
            },
            Err(defect) => Some(Pause::Corrupt(defect)),
        }
    }

    /// `OpGetGlobal`.
    fn get_global(&mut self) -> (pause: Option<Pause>)
        requires
            old(self)@.ip < old(self)@.chunk.code.len(),
        ensures
            final(self)@ == old(self)@.get_global().0,
            pause_view(pause) == old(self)@.get_global().1,
    {
        match self.read_string() {
            Ok(name) => {
                match self.global(name.as_str()) {
                    Some(value) => {
                        self.push(value);
                        self.skip(2);
                        None
                    },
                    None => {
                        let mut message = "Undefined variable '".to_owned();
                        message.append(name.as_str());
                        message.append("'.");
                        self.runtime_error(message)
                    },
                }
            },
            Err(defect) => Some(Pause::Corrupt(defect)),
        }
    }

    /// `OpAdd`, `OpSubtract`, `OpMultiply` and `OpDivide`.
    fn arithmetic(&mut self, op: OpCode) -> (pause: Option<Pause>)
        requires
            old(self)@.ip < old(self)@.chunk.code.len(),
        ensures
            final(self)@ == old(self)@.arithmetic(op).0,
            pause_view(pause) == old(self)@.arithmetic(op).1,
    {
        if self.stack.len() < 2 {
            return Some(Pause::Corrupt(Defect::StackUnderflow));
        }
        match (self.peek(1), self.peek(0)) {
            (Value::Number(a), Value::Number(b)) => {
                self.drop(2);
                self.skip(1);
                Some(Pause::Arithmetic(op, a, b))
            },
            (Value::Str(a), Value::Str(b)) => {
                if op == OpCode::OpAdd {
                    self.drop(2);
                    self.push(Value::Str(a.concat(b.as_str())));
                    self.skip(1);
                    None
                } else {
                    self.runtime_error("Operands must be numbers.".to_owned())
                }
            },
            _ => self.runtime_error("Operands must be numbers.".to_owned()),
        }
    }

    /// `OpGreater` and `OpLess`.
    fn compare(&mut self, op: OpCode) -> (pause: Option<Pause>)
        requires
            old(self)@.ip < old(self)@.chunk.code.len(),
        ensures
            final(self)@ == old(self)@.compare(op).0,
            pause_view(pause) == old(self)@.compare(op).1,
    {
        if self.stack.len() < 2 {
            return Some(Pause::Corrupt(Defect::StackUnderflow));
        }
        match (self.peek(1), self.peek(0)) {
            (Value::Number(a), Value::Number(b)) => {
                let holds = if op == OpCode::OpLess {
                    less_number(a, b)
                } else {
                    less_number(b, a)
                };
                self.drop(2);
                self.push(Value::Boolean(holds));
                self.skip(1);
                None
            },
            _ => self.runtime_error("Operands must be numbers.".to_owned()),
        }
    }

    /// `OpEqual`.
    fn equal(&mut self) -> (pause: Option<Pause>)
        requires
            old(self)@.ip < old(self)@.chunk.code.len(),
        ensures
            final(self)@ == old(self)@.equal().0,
            pause_view(pause) == old(self)@.equal().1,
    {
        if self.stack.len() < 2 {
            return Some(Pause::Corrupt(Defect::StackUnderflow));
        }
        let same = self.peek(1) == self.peek(0);
        self.drop(2);
        self.push(Value::Boolean(same));
        self.skip(1);
        None
    }

    /// `OpNegate`.
    fn negate(&mut self) -> (pause: Option<Pause>)
        requires
            old(self)@.ip < old(self)@.chunk.code.len(),
        ensures
            final(self)@ == old(self)@.negate().0,
            pause_view(pause) == old(self)@.negate().1,
    {
        if self.stack.len() < 1 {
            return Some(Pause::Corrupt(Defect::StackUnderflow));
        }
        let value = self.peek(0);
        if value.is_number() {
            self.drop(1);
            self.push(value.neg());
            self.skip(1);
            None
        } else {
            self.runtime_error("Operand must be a number.".to_owned())
        }
    }

    /// `OpNot`.
    fn not(&mut self) -> (pause: Option<Pause>)
        requires
            old(self)@.ip < old(self)@.chunk.code.len(),
        ensures
            final(self)@ == old(self)@.not().0,
            pause_view(pause) == old(self)@.not().1,
    {
        if self.stack.len() < 1 {
            return Some(Pause::Corrupt(Defect::StackUnderflow));
        }
        let falsey = self.peek(0).is_falsey();
        self.drop(1);
        self.push(Value::Boolean(falsey));
        self.skip(1);
        None
    }

    /// `OpPop`.
    fn discard(&mut self) -> (pause: Option<Pause>)
        requires
            old(self)@.ip < old(self)@.chunk.code.len(),
        ensures
            final(self)@ == old(self)@.discard().0,
            pause_view(pause) == old(self)@.discard().1,
    {
        if self.stack.len() >= 1 {
            self.drop(1);
        }
        self.skip(1);
        None
    }

    /// `OpPrint`.
    fn print(&mut self) -> (pause: Option<Pause>)
        requires
            old(self)@.ip < old(self)@.chunk.code.len(),
        ensures
            final(self)@ == old(self)@.print().0,
            pause_view(pause) == old(self)@.print().1,
    {
        if self.stack.len() < 1 {
            return Some(Pause::Corrupt(Defect::StackUnderflow));
        }
        let value = self.peek(0);
        self.drop(1);
        self.skip(1);
        match value {
            Value::Number(bits) => Some(Pause::PrintNumber(bits)),
            other => Some(Pause::Print(other.to_text().unwrap())),
        }
    }

    /// Runs the instruction `op` at the instruction pointer.
    fn execute(&mut self, op: OpCode) -> (pause: Option<Pause>)
        requires
            old(self)@.ip < old(self)@.chunk.code.len(),
        ensures
            final(self)@ == old(self)@.execute(op).0,
            pause_view(pause) == old(self)@.execute(op).1,
    {
        match op {
            OpCode::OpConstant => self.load_constant(),
            OpCode::OpNil => {
                self.push(Value::Nil);
                self.skip(1);
                None
            },
            OpCode::OpTrue => {
                self.push(Value::Boolean(true));
                self.skip(1);
                None
            },
            OpCode::OpFalse => {
                self.push(Value::Boolean(false));
                self.skip(1);
                None
            },
            OpCode::OpPop => self.discard(),
            OpCode::OpDefineGlobal | OpCode::OpSetGlobal => self.bind_global(),
            OpCode::OpGetGlobal => self.get_global(),
            OpCode::OpAdd | OpCode::OpSubtract | OpCode::OpMultiply | OpCode::OpDivide => {
                self.arithmetic(op)
            },
            OpCode::OpNegate => self.negate(),
            OpCode::OpNot => self.not(),
            OpCode::OpEqual => self.equal(),
            OpCode::OpGreater | OpCode::OpLess => self.compare(op),
            OpCode::OpPrint => self.print(),
            OpCode::OpReturn => {
                self.halted = Some(InterpretResult::Success);
                assert(self@ =~= old(self)@.finish().0);
                Some(Pause::Finished(InterpretResult::Success))
            },
        }
    }

    /// Runs one instruction. Returns the pause that it causes, or `None`
    /// where the machine can go straight on.
    pub fn step(&mut self) -> (pause: Option<Pause>)
        ensures
            final(self)@ == old(self)@.step().0,
            pause_view(pause) == old(self)@.step().1,
    {
        if let Some(result) = self.halted {
            return Some(Pause::Finished(result));
        }
        if self.ip >= self.chunk.code.len() {
            return Some(Pause::Corrupt(Defect::EndOfCode));
        }
        match self.read_byte() {
            Some(op) => self.execute(op),
            None => Some(Pause::Corrupt(Defect::UnknownOpcode)),
        }
    }

    /// Runs until an instruction causes a pause, and returns that pause.
    pub fn run(&mut self) -> (pause: Pause)
        ensures
            final(self)@ == old(self)@.run().0,
            pause@ == old(self)@.run().1,
            old(self)@.sound() ==> final(self)@.sound() && (pause@ is Corrupt ==> pause@
                == PauseView::Corrupt(Defect::StackUnderflow)),
    {
        loop
            invariant
                self@.run() == old(self)@.run(),
            decreases self@.chunk.code.len() - self@.ip,
        {
            proof {
                self@.lemma_step_advances();
                if old(self)@.sound() {
                    old(self)@.lemma_run_sound();
                }
            }
            if let Some(pause) = self.step() {
                return pause;
            }
        }
    }

    /// Hands the machine the result of the arithmetic it paused for, and
    /// runs on to the next pause.
    pub fn resume(&mut self, number: u64) -> (pause: Pause)
        ensures
            final(self)@ == old(self)@.deliver(number).run().0,
            pause@ == old(self)@.deliver(number).run().1,
            old(self)@.sound() ==> final(self)@.sound() && (pause@ is Corrupt ==> pause@
                == PauseView::Corrupt(Defect::StackUnderflow)),
    {
        self.push(Value::Number(number));
        self.run()
    }

    /// Ends the run with a runtime error that reports `message`.
    fn runtime_error(&mut self, message: String) -> (pause: Option<Pause>)
        ensures
            final(self)@ == old(self)@.fail(message@).0,
            pause_view(pause) == old(self)@.fail(message@).1,
    {
        let line = if self.ip < self.chunk.lines.len() {
            self.chunk.lines[self.ip]
        } else {
            0
        };
        self.fault = Some(Fault { message, line });
        self.stack.clear();
        self.halted = Some(InterpretResult::RuntimeError);
        assert(self@ =~= old(self)@.fail(message@).0);
        Some(Pause::Finished(InterpretResult::RuntimeError))
    }
}

} // verus!
