//! The unified fault type: every unrecoverable error of the interpreter
//! (malformed source, bad operand, out-of-bounds access, ...) is reported as
//! one of these values and propagated up to the driver, which terminates the
//! process with a message and a nonzero exit code.

use vstd::prelude::*;

verus! {

#[derive(Debug, PartialEq, Eq, Clone)]
pub enum Fault {
    /// Inline scripting blocks are not available in this build.
    ScriptUnsupported,
    /// A keyword that is not in the command table.
    UnrecognizedCommand(String),
    /// The token stream ended before a command got all its operands.
    WrongOperandCount(String),
    /// A memory operand sigil not followed by `[ operand ]`.
    MalformedMemoryOperand,
    /// A free-standing bracket.
    FreePunctuation(char),
    /// Arithmetic expression operands are not implemented.
    MathUnsupported,
    /// A branch body that never reaches its terminator marker.
    MissingTerminator(String),
    /// Something other than a command or branch at the top level.
    InvalidTopLevel,
    /// An operand kind that has no numeric value.
    InvalidNumericLiteral,
    /// A label with no branch of the same name.
    NoMatchingLabel(String),
    /// A register name outside the register-name grammar.
    BadRegister(String),
    /// A memory width sigil other than the three known ones.
    BadMemoryIdent(char),
    /// A destination operand that is neither a register nor a memory reference.
    InvalidParameter,
    /// A value that does not fit where it is needed (an address or an index).
    CastError,
    /// A read or write outside the buffer.
    OutOfBounds,
    /// A push beyond the configured stack capacity.
    StackOverflow,
    /// A pop from a stack with too few bytes.
    StackUnderflow,
    /// Division by zero.
    DivisionByZero,
    /// A division whose result does not fit the machine width.
    ArithmeticOverflow,
    /// A width that is not one of 1, 2 or 4 bytes.
    BadWidth,
    /// A return with an empty call history.
    CannotReturn,
    /// The first operand of the string command must be a string literal.
    ExpectedString,
}

impl Fault {
    /// A human-readable description, for the driver to print before exiting.
    pub fn message(&self) -> (r: String)
        ensures
            (match self {
                Fault::ScriptUnsupported => r@ == "cannot use inline script code when the feature is disabled"@,
                Fault::UnrecognizedCommand(name) => r@ == "unrecognized command"@ + ": "@ + name@,
                Fault::WrongOperandCount(name) => r@ == "too few arguments provided for command"@
                    + ": "@ + name@,
                Fault::MalformedMemoryOperand => r@ == "invalid memory identifier syntax"@,
                Fault::FreePunctuation(_) => r@ == "invalid free-standing punctuation"@,
                Fault::MathUnsupported => r@ == "math expressions are unimplemented"@,
                Fault::MissingTerminator(name) => r@ == "branch body is missing its terminator"@
                    + ": "@ + name@,
                Fault::InvalidTopLevel => r@ == "invalid top-level op"@,
                Fault::InvalidNumericLiteral => r@ == "invalid numeric literal"@,
                Fault::NoMatchingLabel(name) => r@ == "no matching branch for label"@ + ": "@
                    + name@,
                Fault::BadRegister(name) => r@ == "invalid register name"@ + ": "@ + name@,
                Fault::BadMemoryIdent(_) => r@ == "invalid identifier for memory"@,
                Fault::InvalidParameter => r@ == "invalid parameter"@,
                Fault::CastError => r@ == "value cannot be represented at the requested width"@,
                Fault::OutOfBounds => r@ == "access outside the memory buffer"@,
                Fault::StackOverflow => r@ == "stack is full"@,
                Fault::StackUnderflow => r@ == "attempted to pop from empty stack"@,
                Fault::DivisionByZero => r@ == "division by zero"@,
                Fault::ArithmeticOverflow => r@ == "attempt to divide with overflow"@,
                Fault::BadWidth => r@ == "width must be 1, 2 or 4 bytes"@,
                Fault::CannotReturn => r@ == "cannot return"@,
                Fault::ExpectedString => r@ == "argument must be a string literal"@,
            }),
    {
        let base = match self {
            Fault::ScriptUnsupported => "cannot use inline script code when the feature is disabled",
            Fault::UnrecognizedCommand(_) => "unrecognized command",
            Fault::WrongOperandCount(_) => "too few arguments provided for command",
            Fault::MalformedMemoryOperand => "invalid memory identifier syntax",
            Fault::FreePunctuation(_) => "invalid free-standing punctuation",
            Fault::MathUnsupported => "math expressions are unimplemented",
            Fault::MissingTerminator(_) => "branch body is missing its terminator",
            Fault::InvalidTopLevel => "invalid top-level op",
            Fault::InvalidNumericLiteral => "invalid numeric literal",
            Fault::NoMatchingLabel(_) => "no matching branch for label",
            Fault::BadRegister(_) => "invalid register name",
            Fault::BadMemoryIdent(_) => "invalid identifier for memory",
            Fault::InvalidParameter => "invalid parameter",
            Fault::CastError => "value cannot be represented at the requested width",
            Fault::OutOfBounds => "access outside the memory buffer",
            Fault::StackOverflow => "stack is full",
            Fault::StackUnderflow => "attempted to pop from empty stack",
            Fault::DivisionByZero => "division by zero",
            Fault::ArithmeticOverflow => "attempt to divide with overflow",
            Fault::BadWidth => "width must be 1, 2 or 4 bytes",
            Fault::CannotReturn => "cannot return",
            Fault::ExpectedString => "argument must be a string literal",
        };
        let mut msg = String::from_str(base);
        match self {
            Fault::UnrecognizedCommand(name) => {
                msg.append(": ");
                msg.append(name.as_str());
            }
            Fault::WrongOperandCount(name) => {
                msg.append(": ");
                msg.append(name.as_str());
            }
            Fault::MissingTerminator(name) => {
                msg.append(": ");
                msg.append(name.as_str());
            }
            Fault::NoMatchingLabel(name) => {
                msg.append(": ");
                msg.append(name.as_str());
            }
            Fault::BadRegister(name) => {
                msg.append(": ");
                msg.append(name.as_str());
            }
            _ => {}
        }
        msg
    }
}

} // verus!
