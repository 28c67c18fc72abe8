//! The calculator: a state machine that turns keystrokes into exact decimal
//! results.
//!
//! A keystroke is a digit, the decimal point, an operator, equals or clear.
//! [`transition`] says what each does in each state. The arithmetic itself is
//! `rust_decimal`'s; [`evaluation_of`] says which number a keystroke asks of
//! it, and [`Calculator::advance`] is the machine with that number given.

use crate::buffer::{
    buffer_as_str, buffer_clear, buffer_new, buffer_push, buffer_push_str, buffer_text,
    is_ascii_char, BUFFER_CAPACITY,
};
use crate::display::digit_of;
use crate::decimal::{
    add_decimals, decimal_difference, decimal_parsed, decimal_product, decimal_quotient,
    decimal_sum, decimal_text, divide_decimals, format_decimal, multiply_decimals, parse_decimal,
    subtract_decimals, Decimal,
};
use vstd::prelude::*;
use vstd::string::StrSliceExecFns;
use vstd::utf8::is_ascii_chars;

verus! {

/// One keystroke.
#[derive(Debug, Clone, Copy, PartialEq, Eq, Structural)]
pub enum Input {
    /// A digit, 0 to 9.
    Digit(u8),
    /// The decimal point.
    Decimal,
    Operator(Operator),
    Equals,
    Clear,
}

#[derive(Debug, Clone, Copy, PartialEq, Eq, Structural)]
pub enum Operator {
    Add,
    Subtract,
    Multiply,
    Divide,
}

#[derive(Debug, Clone, Copy, PartialEq, Eq, Structural)]
pub enum CalculatorError {
    /// Division with a zero on the right.
    DivideByZero,
    /// A digit above 9, or an entry that is no number.
    InvalidInput,
    /// A result that no decimal can hold.
    Overflow,
}

/// Where the machine stands.
#[derive(Debug, Clone, Copy, PartialEq, Eq, Structural)]
pub enum State {
    /// Shows 0; all registers empty.
    Initial,
    /// Shows the entry; the first operand is being typed.
    EnteringFirst,
    /// Shows 0; the entry was cleared once, first operand and operator stay.
    InputCleared,
    /// Shows the first operand; the operator is stored, the second operand is awaited.
    OperatorSelected,
    /// Shows the entry; the second operand is being typed.
    EnteringSecond,
    /// Shows the result, which is the first operand of what follows.
    ShowingResult,
}

/// The calculator as a value: state, entry and registers.
pub struct CalculatorView {
    pub state: State,
    /// The entry: the digits and the point typed so far.
    pub input: Seq<char>,
    pub first_operand: Option<Decimal>,
    pub operator: Option<Operator>,
    pub result: Option<Decimal>,
    /// Clear presses in a row.
    pub clear_count: u8,
}

pub open spec fn is_digit_char(c: char) -> bool {
    '0' <= c <= '9'
}

/// The character of a digit.
pub open spec fn digit_char(digit: u8) -> char
    recommends
        digit <= 9,
{
    digit_of(digit as int)
}

/// A partial number: digits and at most one point, 32 characters at most.
pub open spec fn valid_entry(text: Seq<char>) -> bool {
    &&& text.len() <= BUFFER_CAPACITY
    &&& forall|i: int| 0 <= i < text.len() ==> is_digit_char(#[trigger] text[i]) || text[i] == '.'
    &&& forall|i: int, j: int|
        0 <= i < j < text.len() ==> !(#[trigger] text[i] == '.' && #[trigger] text[j] == '.')
}

impl CalculatorView {
    /// The entry is a partial number, the registers hold numbers in range, and
    /// clear presses are counted only where a second one matters.
    pub open spec fn wf(self) -> bool {
        &&& valid_entry(self.input)
        &&& (self.first_operand matches Some(d) ==> d.wf())
        &&& (self.result matches Some(d) ==> d.wf())
        &&& (self.state != State::Initial && self.state != State::InputCleared
            ==> self.clear_count == 0)
    }

    /// The machine as it starts.
    pub open spec fn initial() -> CalculatorView {
        CalculatorView {
            state: State::Initial,
            input: Seq::empty(),
            first_operand: None,
            operator: None,
            result: None,
            clear_count: 0,
        }
    }

    /// A fresh entry starts; `state` is where it is typed.
    pub open spec fn begin_entry(self, text: Seq<char>, state: State) -> CalculatorView {
        if self.state == State::ShowingResult {
            CalculatorView {
                state,
                input: text,
                first_operand: None,
                operator: None,
                result: None,
                ..self
            }
        } else {
            CalculatorView { state, input: text, ..self }
        }
    }

    /// The state in which an entry started now is typed, if one can start.
    pub open spec fn entry_state(self) -> Option<State> {
        match self.state {
            State::Initial | State::InputCleared | State::ShowingResult => Some(
                State::EnteringFirst,
            ),
            State::OperatorSelected => Some(State::EnteringSecond),
            State::EnteringFirst | State::EnteringSecond => None,
        }
    }
}

/// What the operator makes of two numbers.
pub open spec fn apply_spec(operator: Operator, left: Decimal, right: Decimal) -> Result<
    Decimal,
    CalculatorError,
> {
    match operator {
        Operator::Add => computed(decimal_sum(left, right)),
        Operator::Subtract => computed(decimal_difference(left, right)),
        Operator::Multiply => computed(decimal_product(left, right)),
        Operator::Divide => if right.is_zero() {
            Err(CalculatorError::DivideByZero)
        } else {
            computed(decimal_quotient(left, right))
        },
    }
}

/// A number that was computed, or the overflow that kept it from being so.
pub open spec fn computed(value: Option<Decimal>) -> Result<Decimal, CalculatorError> {
    match value {
        Some(v) => Ok(v),
        None => Err(CalculatorError::Overflow),
    }
}

/// The number that an entry stands for: zero where it is empty.
pub open spec fn operand_of(text: Seq<char>) -> Result<Decimal, CalculatorError> {
    if text.len() == 0 {
        Ok(Decimal::zero())
    } else {
        match decimal_parsed(text) {
            Some(v) => Ok(v),
            None => Err(CalculatorError::InvalidInput),
        }
    }
}

/// Whether the keystroke turns the entry into a number.
pub open spec fn commits(state: State, input: Input) -> bool {
    &&& input is Operator || input is Equals
    &&& state == State::EnteringFirst || state == State::EnteringSecond
}

/// The number that a keystroke commits: the entry as the first operand, or
/// the pending operation on the first operand and the entry. Where the
/// keystroke commits none, zero.
pub open spec fn evaluation_of(c: CalculatorView, input: Input) -> Result<
    Decimal,
    CalculatorError,
> {
    if !commits(c.state, input) {
        Ok(Decimal::zero())
    } else if c.state == State::EnteringFirst {
        operand_of(c.input)
    } else {
        match (operand_of(c.input), c.first_operand, c.operator) {
            (Err(e), _, _) => Err(e),
            (Ok(second), Some(first), Some(operator)) => apply_spec(operator, first, second),
            (Ok(second), _, _) => Ok(second),
        }
    }
}

pub open spec fn clear_step(c: CalculatorView) -> CalculatorView {
    let count = if c.clear_count < 255 {
        (c.clear_count + 1) as u8
    } else {
        255u8
    };
    match c.state {
        State::Initial => CalculatorView { clear_count: count, ..c },
        State::EnteringFirst | State::EnteringSecond => CalculatorView {
            state: State::InputCleared,
            input: Seq::empty(),
            clear_count: 1,
            ..c
        },
        State::InputCleared => if count >= 2 {
            CalculatorView::initial()
        } else {
            CalculatorView { clear_count: count, ..c }
        },
        State::OperatorSelected | State::ShowingResult => CalculatorView::initial(),
    }
}

pub open spec fn digit_step(c: CalculatorView, digit: u8) -> (CalculatorView, Result<
    (),
    CalculatorError,
>) {
    if digit > 9 {
        (c, Err(CalculatorError::InvalidInput))
    } else {
        match c.entry_state() {
            Some(state) => (c.begin_entry(seq![digit_char(digit)], state), Ok(())),
            None => if c.input.len() < BUFFER_CAPACITY {
                (CalculatorView { input: c.input.push(digit_char(digit)), ..c }, Ok(()))
            } else {
                (c, Ok(()))
            },
        }
    }
}

pub open spec fn point_step(c: CalculatorView) -> CalculatorView {
    match c.entry_state() {
        Some(state) => c.begin_entry(seq!['0', '.'], state),
        None => if !c.input.contains('.') && c.input.len() < BUFFER_CAPACITY - 1 {
            if c.input.len() == 0 {
                CalculatorView { input: seq!['0', '.'], ..c }
            } else {
                CalculatorView { input: c.input.push('.'), ..c }
            }
        } else {
            c
        },
    }
}

pub open spec fn operator_step(
    c: CalculatorView,
    operator: Operator,
    evaluation: Result<Decimal, CalculatorError>,
) -> (CalculatorView, Result<(), CalculatorError>) {
    let selected = CalculatorView {
        state: State::OperatorSelected,
        operator: Some(operator),
        ..c
    };
    match c.state {
        State::Initial => (
            CalculatorView { first_operand: Some(Decimal::zero()), ..selected },
            Ok(()),
        ),
        State::EnteringFirst => match evaluation {
            Ok(value) => (CalculatorView { first_operand: Some(value), ..selected }, Ok(())),
            Err(e) => (c, Err(e)),
        },
        State::InputCleared | State::OperatorSelected => (selected, Ok(())),
        State::EnteringSecond => match evaluation {
            Ok(value) => if c.first_operand is Some && c.operator is Some {
                (
                    CalculatorView {
                        input: Seq::empty(),
                        first_operand: Some(value),
                        result: Some(value),
                        ..selected
                    },
                    Ok(()),
                )
            } else {
                (c, Ok(()))
            },
            Err(e) => (c, Err(e)),
        },
        State::ShowingResult => match c.result {
            Some(result) => (CalculatorView { first_operand: Some(result), ..selected }, Ok(())),
            None => (c, Ok(())),
        },
    }
}

pub open spec fn equals_step(c: CalculatorView, evaluation: Result<Decimal, CalculatorError>) -> (
    CalculatorView,
    Result<(), CalculatorError>,
) {
    match c.state {
        State::EnteringFirst => match evaluation {
            Ok(value) => (
                CalculatorView {
                    state: State::ShowingResult,
                    first_operand: Some(value),
                    result: Some(value),
                    ..c
                },
                Ok(()),
            ),
            Err(e) => (c, Err(e)),
        },
        State::EnteringSecond => match evaluation {
            Ok(value) => if c.first_operand is Some && c.operator is Some {
                (
                    CalculatorView {
                        state: State::ShowingResult,
                        input: Seq::empty(),
                        first_operand: Some(value),
                        result: Some(value),
                        ..c
                    },
                    Ok(()),
                )
            } else {
                (c, Ok(()))
            },
            Err(e) => (c, Err(e)),
        },
        _ => (c, Ok(())),
    }
}

/// One keystroke: the machine after it, and whether it was taken.
/// `evaluation` is the number that the keystroke commits.
///
/// Clear counts up; every other keystroke sets the count back to zero first.
pub open spec fn transition(
    c: CalculatorView,
    input: Input,
    evaluation: Result<Decimal, CalculatorError>,
) -> (CalculatorView, Result<(), CalculatorError>) {
    let counted = CalculatorView { clear_count: 0, ..c };
    match input {
        Input::Clear => (clear_step(c), Ok(())),
        Input::Digit(digit) => digit_step(counted, digit),
        Input::Decimal => (point_step(counted), Ok(())),
        Input::Operator(operator) => operator_step(counted, operator, evaluation),
        Input::Equals => equals_step(counted, evaluation),
    }
}

/// The number on the display, where the display shows a register.
pub open spec fn shown_number(c: CalculatorView) -> Option<Decimal> {
    match c.state {
        State::OperatorSelected => match (c.first_operand, c.result) {
            (Some(_), Some(result)) => Some(result),
            (Some(operand), None) => Some(operand),
            (None, _) => None,
        },
        State::ShowingResult => c.result,
        _ => None,
    }
}

/// The text on the display.
pub open spec fn display_text(c: CalculatorView) -> Seq<char> {
    match c.state {
        State::Initial | State::InputCleared => seq!['0'],
        State::EnteringFirst | State::EnteringSecond => if c.input.len() == 0 {
            seq!['0']
        } else {
            c.input
        },
        State::OperatorSelected | State::ShowingResult => match shown_number(c) {
            Some(number) => decimal_text(number),
            None => seq!['0'],
        },
    }
}

pub open spec fn state_name(state: State) -> Seq<char> {
    match state {
        State::Initial => "Initial"@,
        State::EnteringFirst => "EnteringFirst"@,
        State::InputCleared => "InputCleared"@,
        State::OperatorSelected => "OperatorSelected"@,
        State::EnteringSecond => "EnteringSecond"@,
        State::ShowingResult => "ShowingResult"@,
    }
}

/// A partial number is ASCII text.
pub proof fn lemma_valid_entry_is_ascii(text: Seq<char>)
    requires
        valid_entry(text),
    ensures
        is_ascii_chars(text),
{
    assert forall|i: int| 0 <= i < text.len() implies is_ascii_char(#[trigger] text[i]) by {
        assert(is_digit_char(text[i]) || text[i] == '.');
    }
}

/// Equals while a result is shown keeps state and result: the last operator
/// is not applied again. Of a well-formed machine it changes nothing at all.
pub proof fn lemma_equals_on_result_is_idempotent(
    c: CalculatorView,
    evaluation: Result<Decimal, CalculatorError>,
)
    requires
        c.state == State::ShowingResult,
    ensures
        transition(c, Input::Equals, evaluation).1 is Ok,
        transition(c, Input::Equals, evaluation).0.state == c.state,
        transition(c, Input::Equals, evaluation).0.result == c.result,
        c.wf() ==> transition(c, Input::Equals, evaluation).0 == c,
{
}

/// An operator or equals that fails leaves the machine as it was.
pub proof fn lemma_failure_changes_nothing(
    c: CalculatorView,
    input: Input,
    evaluation: Result<Decimal, CalculatorError>,
)
    requires
        c.wf(),
        input is Operator || input is Equals,
        transition(c, input, evaluation).1 is Err,
    ensures
        transition(c, input, evaluation).0 == c,
        transition(c, input, evaluation).1 == Err::<(), CalculatorError>(evaluation->Err_0),
        commits(c.state, input),
{
}

/// Division by an entry that stands for zero is refused, by an operator as by
/// equals, and leaves the machine as it was.
pub proof fn lemma_divide_by_zero_is_refused(c: CalculatorView, input: Input, divisor: Decimal)
    requires
        c.wf(),
        c.state == State::EnteringSecond,
        c.first_operand is Some,
        c.operator == Some(Operator::Divide),
        operand_of(c.input) == Ok::<Decimal, CalculatorError>(divisor),
        divisor.is_zero(),
        input is Operator || input is Equals,
    ensures
        transition(c, input, evaluation_of(c, input)) == (
            c,
            Err::<(), CalculatorError>(CalculatorError::DivideByZero),
        ),
{
}

/// An operator after a second operand resolves the pending operation at once:
/// its result is the first operand of what follows, and is the result shown.
pub proof fn lemma_operator_chains(
    c: CalculatorView,
    operator: Operator,
    value: Decimal,
)
    requires
        c.state == State::EnteringSecond,
        c.first_operand is Some,
        c.operator is Some,
    ensures
        ({
            let next = transition(c, Input::Operator(operator), Ok(value)).0;
            &&& next.state == State::OperatorSelected
            &&& next.first_operand == Some(value)
            &&& next.result == Some(value)
            &&& next.operator == Some(operator)
            &&& next.input.len() == 0
            &&& shown_number(next) == Some(value)
        }),
{
}

/// Every keystroke keeps the machine well formed.
pub proof fn lemma_transition_keeps_wf(
    c: CalculatorView,
    input: Input,
    evaluation: Result<Decimal, CalculatorError>,
)
    requires
        c.wf(),
        evaluation matches Ok(value) ==> value.wf(),
    ensures
        transition(c, input, evaluation).0.wf(),
{
    let counted = CalculatorView { clear_count: 0, ..c };
    match input {
        Input::Digit(digit) => {
            if digit <= 9 {
                let ch = digit_char(digit);
                assert(is_digit_char(ch));
                assert(valid_entry(seq![ch]));
                if counted.entry_state() is None && c.input.len() < BUFFER_CAPACITY {
                    assert(valid_entry(c.input.push(ch)));
                }
            }
        },
        Input::Decimal => {
            assert(valid_entry(seq!['0', '.']));
            if counted.entry_state() is None && !c.input.contains('.') && c.input.len()
                < BUFFER_CAPACITY - 1 {
                assert(valid_entry(c.input.push('.')));
            }
        },
        _ => {},
    }
}

impl Operator {
    /// Applies the operator. Division by zero is refused; a result that no
    /// decimal can hold is an overflow.
    pub fn apply(&self, left: Decimal, right: Decimal) -> (r: Result<Decimal, CalculatorError>)
        requires
            left.wf(),
            right.wf(),
        ensures
            r == apply_spec(*self, left, right),
            r matches Ok(value) ==> value.wf(),
    {
        match self {
            Operator::Add => Operator::finish(add_decimals(left, right)),
            Operator::Subtract => Operator::finish(subtract_decimals(left, right)),
            Operator::Multiply => Operator::finish(multiply_decimals(left, right)),
            Operator::Divide => {
                if right.is_zero() {
                    Err(CalculatorError::DivideByZero)
                } else {
                    Operator::finish(divide_decimals(left, right))
                }
            },
        }
    }

    /// What the arithmetic returned, as a result of the calculator.
    pub fn finish(value: Option<Decimal>) -> (r: Result<Decimal, CalculatorError>)
        ensures
            r == computed(value),
    {
        match value {
            Some(v) => Ok(v),
            None => Err(CalculatorError::Overflow),
        }
    }
}

/// The state machine.
pub struct Calculator {
    state: State,
    current_input: heapless::String<32>,
    first_operand: Option<Decimal>,
    operator: Option<Operator>,
    result: Option<Decimal>,
    clear_count: u8,
}

impl View for Calculator {
    type V = CalculatorView;

    closed spec fn view(&self) -> CalculatorView {
        CalculatorView {
            state: self.state,
            input: buffer_text(self.current_input),
            first_operand: self.first_operand,
            operator: self.operator,
            result: self.result,
            clear_count: self.clear_count,
        }
    }
}

impl Calculator {
    /// The invariant of the machine: see [`CalculatorView::wf`].
    pub open spec fn wf(&self) -> bool {
        self@.wf()
    }

    /// A calculator in its initial state.
    pub fn new() -> (calculator: Calculator)
        ensures
            calculator.wf(),
            calculator@ == CalculatorView::initial(),
    {
        Calculator {
            state: State::Initial,
            current_input: buffer_new(),
            first_operand: None,
            operator: None,
            result: None,
            clear_count: 0,
        }
    }

    /// The text on the display.
    pub fn display(&self) -> (text: String)
        requires
            self.wf(),
        ensures
            text@ == display_text(self@),
            is_ascii_chars(text@),
    {
        proof {
            lemma_valid_entry_is_ascii(self@.input);
        }
        match self.displayed_number() {
            Some(number) => format_decimal(number),
            None => match self.state {
                State::EnteringFirst | State::EnteringSecond => {
                    let entry = buffer_as_str(&self.current_input);
                    if entry.unicode_len() == 0 {
                        Calculator::zero_text()
                    } else {
                        entry.to_owned()
                    }
                },
                _ => Calculator::zero_text(),
            },
        }
    }

    /// The number on the display, where the display shows a register: in
    /// `OperatorSelected` the result if there is one, else the first operand;
    /// in `ShowingResult` the result.
    pub fn displayed_number(&self) -> (number: Option<Decimal>)
        requires
            self.wf(),
        ensures
            number == shown_number(self@),
            number matches Some(d) ==> d.wf(),
    {
        match self.state {
            State::OperatorSelected => match (self.first_operand, self.result) {
                (Some(_), Some(result)) => Some(result),
                (Some(operand), None) => Some(operand),
                (None, _) => None,
            },
            State::ShowingResult => self.result,
            _ => None,
        }
    }

    fn zero_text() -> (text: String)
        ensures
            text@ == seq!['0'],
    {
        proof {
            reveal_strlit("0");
        }
        let text = "0".to_owned();
        assert(text@ =~= seq!['0']);
        text
    }

    /// Takes one keystroke.
    ///
    /// A digit above 9 is refused; like every keystroke but clear it ends a
    /// run of clear presses. An operator or equals that has to turn the entry
    /// into a number or to compute fails with what kept it from doing so, and
    /// then changes nothing.
    pub fn input(&mut self, input: Input) -> (r: Result<(), CalculatorError>)
        requires
            old(self).wf(),
        ensures
            final(self).wf(),
            (final(self)@, r) == transition(old(self)@, input, evaluation_of(old(self)@, input)),
    {
        let evaluation = self.evaluate(input);
        self.advance(input, evaluation)
    }

    /// The number that the keystroke commits: see [`evaluation_of`].
    pub fn evaluate(&self, input: Input) -> (r: Result<Decimal, CalculatorError>)
        requires
            self.wf(),
        ensures
            r == evaluation_of(self@, input),
            r matches Ok(value) ==> value.wf(),
    {
        let commits = match input {
            Input::Operator(_) | Input::Equals => match self.state {
                State::EnteringFirst | State::EnteringSecond => true,
                _ => false,
            },
            _ => false,
        };
        if !commits {
            return Ok(Decimal::zero());
        }
        let second = match self.parse_current_input() {
            Ok(value) => value,
            Err(e) => {
                return Err(e);
            },
        };
        match self.state {
            State::EnteringSecond => match (self.first_operand, self.operator) {
                (Some(first), Some(operator)) => operator.apply(first, second),
                _ => Ok(second),
            },
            _ => Ok(second),
        }
    }

    /// Takes one keystroke, with the number that it commits given: the machine
    /// moves as [`transition`] says. `evaluation` is read only where an
    /// operator or equals ends an entry.
    pub fn advance(&mut self, input: Input, evaluation: Result<Decimal, CalculatorError>) -> (r:
        Result<(), CalculatorError>)
        requires
            old(self).wf(),
            evaluation matches Ok(value) ==> value.wf(),
        ensures
            final(self).wf(),
            (final(self)@, r) == transition(old(self)@, input, evaluation),
    {
        match input {
            Input::Clear => {
                self.handle_clear();
                Ok(())
            },
            Input::Digit(digit) => {
                self.clear_count = 0;
                self.handle_digit(digit)
            },
            Input::Decimal => {
                self.clear_count = 0;
                self.handle_decimal();
                Ok(())
            },
            Input::Operator(operator) => {
                self.clear_count = 0;
                self.handle_operator(operator, evaluation)
            },
            Input::Equals => {
                self.clear_count = 0;
                self.handle_equals(evaluation)
            },
        }
    }

    fn handle_clear(&mut self)
        requires
            old(self).wf(),
        ensures
            final(self).wf(),
            final(self)@ == clear_step(old(self)@),
    {
        self.clear_count = self.clear_count.saturating_add(1);
        match self.state {
            State::Initial => {},
            State::EnteringFirst | State::EnteringSecond => {
                buffer_clear(&mut self.current_input);
                self.clear_count = 1;
                self.state = State::InputCleared;
            },
            State::InputCleared => {
                if self.clear_count >= 2 {
                    self.reset();
                }
            },
            State::OperatorSelected | State::ShowingResult => {
                self.reset();
            },
        }
    }

    /// Starts a fresh entry with `text`, to be typed in `state`.
    fn begin_entry(&mut self, text: &str, state: State)
        requires
            old(self).wf(),
            old(self).clear_count == 0,
            valid_entry(text@),
        ensures
            final(self).wf(),
            final(self)@ == old(self)@.begin_entry(text@, state),
    {
        proof {
            lemma_valid_entry_is_ascii(text@);
        }
        buffer_clear(&mut self.current_input);
        let _ = buffer_push_str(&mut self.current_input, text);
        assert(buffer_text(self.current_input) =~= text@);
        if let State::ShowingResult = self.state {
            self.first_operand = None;
            self.operator = None;
            self.result = None;
        }
        self.state = state;
    }

    fn entry_state(&self) -> (state: Option<State>)
        ensures
            state == self@.entry_state(),
    {
        match self.state {
            State::Initial | State::InputCleared | State::ShowingResult => Some(
                State::EnteringFirst,
            ),
            State::OperatorSelected => Some(State::EnteringSecond),
            State::EnteringFirst | State::EnteringSecond => None,
        }
    }

    fn handle_digit(&mut self, digit: u8) -> (r: Result<(), CalculatorError>)
        requires
            old(self).wf(),
            old(self).clear_count == 0,
        ensures
            final(self).wf(),
            (final(self)@, r) == digit_step(old(self)@, digit),
    {
        if digit > 9 {
            return Err(CalculatorError::InvalidInput);
        }
        let c = (0x30u8 + digit) as char;
        assert(c == digit_char(digit));
        assert(is_digit_char(c));
        proof {
            lemma_valid_entry_is_ascii(self@.input);
        }
        match self.entry_state() {
            Some(state) => {
                buffer_clear(&mut self.current_input);
                let _ = buffer_push(&mut self.current_input, c);
                assert(buffer_text(self.current_input) =~= seq![c]);
                if let State::ShowingResult = self.state {
                    self.first_operand = None;
                    self.operator = None;
                    self.result = None;
                }
                self.state = state;
            },
            None => {
                let _ = buffer_push(&mut self.current_input, c);
            },
        }
        Ok(())
    }

    fn handle_decimal(&mut self)
        requires
            old(self).wf(),
            old(self).clear_count == 0,
        ensures
            final(self).wf(),
            final(self)@ == point_step(old(self)@),
    {
        proof {
            reveal_strlit("0.");
            lemma_valid_entry_is_ascii(self@.input);
        }
        assert("0."@ =~= seq!['0', '.']);
        match self.entry_state() {
            Some(state) => {
                self.begin_entry("0.", state);
            },
            None => {
                let entry = buffer_as_str(&self.current_input);
                let length = entry.unicode_len();
                if !has_point(entry) && length < 31 {
                    if length == 0 {
                        let _ = buffer_push_str(&mut self.current_input, "0.");
                        assert(buffer_text(self.current_input) =~= seq!['0', '.']);
                    } else {
                        let _ = buffer_push(&mut self.current_input, '.');
                    }
                }
            },
        }
    }

    fn handle_operator(&mut self, operator: Operator, evaluation: Result<Decimal, CalculatorError>) -> (r:
        Result<(), CalculatorError>)
        requires
            old(self).wf(),
            old(self).clear_count == 0,
            evaluation matches Ok(value) ==> value.wf(),
        ensures
            final(self).wf(),
            (final(self)@, r) == operator_step(old(self)@, operator, evaluation),
    {
        match self.state {
            State::Initial => {
                self.first_operand = Some(Decimal::zero());
            },
            State::EnteringFirst => {
                match evaluation {
                    Ok(value) => {
                        self.first_operand = Some(value);
                    },
                    Err(e) => {
                        return Err(e);
                    },
                }
            },
            State::InputCleared | State::OperatorSelected => {},
            State::EnteringSecond => {
                match evaluation {
                    Ok(value) => {
                        if self.first_operand.is_none() || self.operator.is_none() {
                            return Ok(());
                        }
                        self.result = Some(value);
                        self.first_operand = Some(value);
                        buffer_clear(&mut self.current_input);
                    },
                    Err(e) => {
                        return Err(e);
                    },
                }
            },
            State::ShowingResult => {
                match self.result {
                    Some(result) => {
                        self.first_operand = Some(result);
                    },
                    None => {
                        return Ok(());
                    },
                }
            },
        }
        self.operator = Some(operator);
        self.state = State::OperatorSelected;
        Ok(())
    }

    fn handle_equals(&mut self, evaluation: Result<Decimal, CalculatorError>) -> (r: Result<
        (),
        CalculatorError,
    >)
        requires
            old(self).wf(),
            old(self).clear_count == 0,
            evaluation matches Ok(value) ==> value.wf(),
        ensures
            final(self).wf(),
            (final(self)@, r) == equals_step(old(self)@, evaluation),
    {
        match self.state {
            State::EnteringFirst => {
                match evaluation {
                    Ok(value) => {
                        self.result = Some(value);
                        self.first_operand = Some(value);
                        self.state = State::ShowingResult;
                    },
                    Err(e) => {
                        return Err(e);
                    },
                }
            },
            State::EnteringSecond => {
                match evaluation {
                    Ok(value) => {
                        if self.first_operand.is_some() && self.operator.is_some() {
                            self.result = Some(value);
                            self.first_operand = Some(value);
                            buffer_clear(&mut self.current_input);
                            self.state = State::ShowingResult;
                        }
                    },
                    Err(e) => {
                        return Err(e);
                    },
                }
            },
            _ => {},
        }
        Ok(())
    }

    /// The number that the entry stands for: zero where it is empty, and
    /// `InvalidInput` where `rust_decimal` does not read it as a number.
    pub fn parse_current_input(&self) -> (r: Result<Decimal, CalculatorError>)
        requires
            self.wf(),
        ensures
            r == operand_of(self@.input),
            r matches Ok(value) ==> value.wf(),
    {
        let entry = buffer_as_str(&self.current_input);
        if entry.unicode_len() == 0 {
            return Ok(Decimal::zero());
        }
        match parse_decimal(entry) {
            Ok(value) => Ok(value),
            Err(_) => Err(CalculatorError::InvalidInput),
        }
    }

    fn reset(&mut self)
        ensures
            final(self).wf(),
            final(self)@ == CalculatorView::initial(),
    {
        self.state = State::Initial;
        buffer_clear(&mut self.current_input);
        self.first_operand = None;
        self.operator = None;
        self.result = None;
        self.clear_count = 0;
    }

    /// Whether an operand is being typed, the first or the second.
    pub fn is_entering(&self) -> (entering: bool)
        ensures
            entering == (self@.state == State::EnteringFirst || self@.state
                == State::EnteringSecond),
    {
        match self.state {
            State::EnteringFirst | State::EnteringSecond => true,
            _ => false,
        }
    }

    /// The name of the state.
    pub fn get_state(&self) -> (name: &'static str)
        ensures
            name@ == state_name(self@.state),
    {
        match self.state {
            State::Initial => "Initial",
            State::EnteringFirst => "EnteringFirst",
            State::InputCleared => "InputCleared",
            State::OperatorSelected => "OperatorSelected",
            State::EnteringSecond => "EnteringSecond",
            State::ShowingResult => "ShowingResult",
        }
    }

    /// The last result, if any.
    pub fn get_result(&self) -> (result: Option<Decimal>)
        ensures
            result == self@.result,
    {
        self.result
    }
}

/// Whether the text holds a decimal point.
fn has_point(text: &str) -> (r: bool)
    ensures
        r == text@.contains('.'),
{
    let length = text.unicode_len();
    let mut i: usize = 0;
    while i < length
        invariant
            length == text@.len(),
            i <= length,
            forall|j: int| 0 <= j < i ==> text@[j] != '.',
        decreases length - i,
    {
        if text.get_char(i) == '.' {
            return true;
        }
        i += 1;
    }
    false
}

} // verus!
