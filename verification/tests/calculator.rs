use numcal::calculator::{Calculator, CalculatorError, Input, Operator};
use numcal::decimal::Decimal;

#[test]
fn calculator_test_initial_state() {
    let calc = Calculator::new();
    assert_eq!(calc.get_state(), "Initial");
    assert_eq!(calc.display(), "0");
}

#[test]
fn test_entering_first_operand() {
    let mut calc = Calculator::new();
    calc.input(Input::Digit(1)).unwrap();
    assert_eq!(calc.get_state(), "EnteringFirst");
    calc.input(Input::Digit(2)).unwrap();
    calc.input(Input::Digit(3)).unwrap();
    assert_eq!(calc.display(), "123");
}

#[test]
fn test_entering_decimal() {
    let mut calc = Calculator::new();
    calc.input(Input::Digit(3)).unwrap();
    calc.input(Input::Decimal).unwrap();
    calc.input(Input::Digit(1)).unwrap();
    calc.input(Input::Digit(4)).unwrap();
    assert_eq!(calc.display(), "3.14");
}

#[test]
fn test_decimal_at_start() {
    let mut calc = Calculator::new();
    calc.input(Input::Decimal).unwrap();
    calc.input(Input::Digit(5)).unwrap();
    assert_eq!(calc.display(), "0.5");
}

#[test]
fn test_simple_addition() {
    let mut calc = Calculator::new();
    calc.input(Input::Digit(2)).unwrap();
    calc.input(Input::Operator(Operator::Add)).unwrap();
    assert_eq!(calc.get_state(), "OperatorSelected");
    calc.input(Input::Digit(3)).unwrap();
    assert_eq!(calc.get_state(), "EnteringSecond");
    calc.input(Input::Equals).unwrap();
    assert_eq!(calc.get_state(), "ShowingResult");
    assert_eq!(calc.get_result().unwrap(), Decimal::from(5));
}

#[test]
fn test_simple_subtraction() {
    let mut calc = Calculator::new();
    calc.input(Input::Digit(1)).unwrap();
    calc.input(Input::Digit(0)).unwrap();
    calc.input(Input::Operator(Operator::Subtract)).unwrap();
    calc.input(Input::Digit(3)).unwrap();
    calc.input(Input::Equals).unwrap();
    assert_eq!(calc.get_result().unwrap(), Decimal::from(7));
}

#[test]
fn test_simple_multiplication() {
    let mut calc = Calculator::new();
    calc.input(Input::Digit(4)).unwrap();
    calc.input(Input::Operator(Operator::Multiply)).unwrap();
    calc.input(Input::Digit(5)).unwrap();
    calc.input(Input::Equals).unwrap();
    assert_eq!(calc.get_result().unwrap(), Decimal::from(20));
}

#[test]
fn test_simple_division() {
    let mut calc = Calculator::new();
    calc.input(Input::Digit(8)).unwrap();
    calc.input(Input::Operator(Operator::Divide)).unwrap();
    calc.input(Input::Digit(2)).unwrap();
    calc.input(Input::Equals).unwrap();
    assert_eq!(calc.get_result().unwrap(), Decimal::from(4));
}

#[test]
fn test_divide_by_zero() {
    let mut calc = Calculator::new();
    calc.input(Input::Digit(5)).unwrap();
    calc.input(Input::Operator(Operator::Divide)).unwrap();
    calc.input(Input::Digit(0)).unwrap();
    let result = calc.input(Input::Equals);
    assert!(matches!(result, Err(CalculatorError::DivideByZero)));
}

#[test]
fn test_chained_operations() {
    let mut calc = Calculator::new();
    // 2 + 3 = 5, then + 4 = 9
    calc.input(Input::Digit(2)).unwrap();
    calc.input(Input::Operator(Operator::Add)).unwrap();
    calc.input(Input::Digit(3)).unwrap();
    calc.input(Input::Equals).unwrap();
    assert_eq!(calc.get_result().unwrap(), Decimal::from(5));

    calc.input(Input::Operator(Operator::Add)).unwrap();
    calc.input(Input::Digit(4)).unwrap();
    calc.input(Input::Equals).unwrap();
    assert_eq!(calc.get_result().unwrap(), Decimal::from(9));
}

#[test]
fn test_chained_without_equals() {
    let mut calc = Calculator::new();
    // 2 + 3 + 4 (pressing operator chains the operation)
    calc.input(Input::Digit(2)).unwrap();
    calc.input(Input::Operator(Operator::Add)).unwrap();
    calc.input(Input::Digit(3)).unwrap();
    calc.input(Input::Operator(Operator::Add)).unwrap();
    assert_eq!(calc.get_state(), "OperatorSelected");
    // At this point, 2+3 should be computed
    calc.input(Input::Digit(4)).unwrap();
    calc.input(Input::Equals).unwrap();
    assert_eq!(calc.get_result().unwrap(), Decimal::from(9));
}

#[test]
fn test_clear_in_initial() {
    let mut calc = Calculator::new();
    calc.input(Input::Clear).unwrap();
    assert_eq!(calc.get_state(), "Initial");
}

#[test]
fn test_clear_while_entering_first() {
    let mut calc = Calculator::new();
    calc.input(Input::Digit(1)).unwrap();
    calc.input(Input::Digit(2)).unwrap();
    calc.input(Input::Clear).unwrap();
    assert_eq!(calc.get_state(), "InputCleared");
    assert_eq!(calc.display(), "0");
}

#[test]
fn test_double_clear_from_entering_first() {
    let mut calc = Calculator::new();
    calc.input(Input::Digit(5)).unwrap();
    calc.input(Input::Clear).unwrap();
    assert_eq!(calc.get_state(), "InputCleared");
    calc.input(Input::Clear).unwrap();
    assert_eq!(calc.get_state(), "Initial");
}

#[test]
fn test_clear_in_operator_selected() {
    let mut calc = Calculator::new();
    calc.input(Input::Digit(5)).unwrap();
    calc.input(Input::Operator(Operator::Add)).unwrap();
    calc.input(Input::Clear).unwrap();
    assert_eq!(calc.get_state(), "Initial");
}

#[test]
fn test_clear_while_entering_second() {
    let mut calc = Calculator::new();
    calc.input(Input::Digit(5)).unwrap();
    calc.input(Input::Operator(Operator::Add)).unwrap();
    calc.input(Input::Digit(3)).unwrap();
    calc.input(Input::Clear).unwrap();
    assert_eq!(calc.get_state(), "InputCleared");
    assert_eq!(calc.display(), "0");
}

#[test]
fn test_clear_after_result() {
    let mut calc = Calculator::new();
    calc.input(Input::Digit(2)).unwrap();
    calc.input(Input::Operator(Operator::Add)).unwrap();
    calc.input(Input::Digit(3)).unwrap();
    calc.input(Input::Equals).unwrap();
    assert_eq!(calc.get_state(), "ShowingResult");
    calc.input(Input::Clear).unwrap();
    assert_eq!(calc.get_state(), "Initial");
}

#[test]
fn test_operator_change() {
    let mut calc = Calculator::new();
    calc.input(Input::Digit(5)).unwrap();
    calc.input(Input::Operator(Operator::Add)).unwrap();
    calc.input(Input::Operator(Operator::Multiply)).unwrap();
    assert_eq!(calc.get_state(), "OperatorSelected");
    calc.input(Input::Digit(3)).unwrap();
    calc.input(Input::Equals).unwrap();
    assert_eq!(calc.get_result().unwrap(), Decimal::from(15));
}

#[test]
fn test_equals_with_only_first_operand() {
    let mut calc = Calculator::new();
    calc.input(Input::Digit(7)).unwrap();
    calc.input(Input::Equals).unwrap();
    assert_eq!(calc.get_state(), "ShowingResult");
    assert_eq!(calc.get_result().unwrap(), Decimal::from(7));
}

#[test]
fn test_repeated_equals() {
    let mut calc = Calculator::new();
    calc.input(Input::Digit(5)).unwrap();
    calc.input(Input::Equals).unwrap();
    calc.input(Input::Equals).unwrap();
    assert_eq!(calc.get_state(), "ShowingResult");
}

#[test]
fn test_decimal_operations() {
    let mut calc = Calculator::new();
    calc.input(Input::Digit(3)).unwrap();
    calc.input(Input::Decimal).unwrap();
    calc.input(Input::Digit(5)).unwrap();
    calc.input(Input::Operator(Operator::Add)).unwrap();
    calc.input(Input::Digit(2)).unwrap();
    calc.input(Input::Decimal).unwrap();
    calc.input(Input::Digit(5)).unwrap();
    calc.input(Input::Equals).unwrap();
    assert_eq!(calc.get_result().unwrap(), Decimal::from(6));
}

/// Comprehensive flow test covering multiple scenarios
#[test]
fn calculator_test_comprehensive_flow() {
    let mut calc = Calculator::new();

    // Test 1: Basic calculation 10 + 5 = 15
    calc.input(Input::Digit(1)).unwrap();
    calc.input(Input::Digit(0)).unwrap();
    calc.input(Input::Operator(Operator::Add)).unwrap();
    calc.input(Input::Digit(5)).unwrap();
    calc.input(Input::Equals).unwrap();
    assert_eq!(calc.get_result().unwrap(), Decimal::from(15));
    assert_eq!(calc.get_state(), "ShowingResult");

    // Test 2: Continue with result: 15 * 2 = 30
    calc.input(Input::Operator(Operator::Multiply)).unwrap();
    calc.input(Input::Digit(2)).unwrap();
    calc.input(Input::Equals).unwrap();
    assert_eq!(calc.get_result().unwrap(), Decimal::from(30));

    // Test 3: Start new calculation: 100 / 4 = 25
    calc.input(Input::Digit(1)).unwrap();
    calc.input(Input::Digit(0)).unwrap();
    calc.input(Input::Digit(0)).unwrap();
    calc.input(Input::Operator(Operator::Divide)).unwrap();
    calc.input(Input::Digit(4)).unwrap();
    calc.input(Input::Equals).unwrap();
    assert_eq!(calc.get_result().unwrap(), Decimal::from(25));

    // Test 4: Clear and start fresh: 7 - 3 = 4
    calc.input(Input::Clear).unwrap();
    assert_eq!(calc.get_state(), "Initial");
    calc.input(Input::Digit(7)).unwrap();
    calc.input(Input::Operator(Operator::Subtract)).unwrap();
    calc.input(Input::Digit(3)).unwrap();
    calc.input(Input::Equals).unwrap();
    assert_eq!(calc.get_result().unwrap(), Decimal::from(4));

    // Test 5: Clear during entry: the digit typed next starts a first
    // operand, and equals shows that operand
    calc.input(Input::Digit(8)).unwrap();
    calc.input(Input::Operator(Operator::Add)).unwrap();
    calc.input(Input::Digit(9)).unwrap();
    calc.input(Input::Digit(9)).unwrap();
    calc.input(Input::Clear).unwrap(); // Clear the 99
    assert_eq!(calc.get_state(), "InputCleared");
    calc.input(Input::Digit(5)).unwrap();
    assert_eq!(calc.get_state(), "EnteringFirst");
    calc.input(Input::Equals).unwrap();
    assert_eq!(calc.get_result().unwrap(), Decimal::from(5));

    // Test 6: Chained operations without equals: 5 + 5 + 5 = 15
    calc.input(Input::Digit(5)).unwrap();
    calc.input(Input::Operator(Operator::Add)).unwrap();
    calc.input(Input::Digit(5)).unwrap();
    calc.input(Input::Operator(Operator::Add)).unwrap();
    calc.input(Input::Digit(5)).unwrap();
    calc.input(Input::Equals).unwrap();
    assert_eq!(calc.get_result().unwrap(), Decimal::from(15));

    // Test 7: Decimal calculations: 0.5 + 0.5 = 1
    calc.input(Input::Decimal).unwrap();
    calc.input(Input::Digit(5)).unwrap();
    calc.input(Input::Operator(Operator::Add)).unwrap();
    calc.input(Input::Decimal).unwrap();
    calc.input(Input::Digit(5)).unwrap();
    calc.input(Input::Equals).unwrap();
    assert_eq!(calc.get_result().unwrap(), Decimal::from(1));

    // Test 8: Double clear to reset everything
    calc.input(Input::Digit(4)).unwrap();
    calc.input(Input::Digit(2)).unwrap();
    calc.input(Input::Clear).unwrap();
    calc.input(Input::Clear).unwrap();
    assert_eq!(calc.get_state(), "Initial");

    // Test 9: Operator change mid-operation: 6 + (change to *) 3 = 18
    calc.input(Input::Digit(6)).unwrap();
    calc.input(Input::Operator(Operator::Add)).unwrap();
    calc.input(Input::Operator(Operator::Multiply)).unwrap();
    calc.input(Input::Digit(3)).unwrap();
    calc.input(Input::Equals).unwrap();
    assert_eq!(calc.get_result().unwrap(), Decimal::from(18));
}

/// Test complex decimal arithmetic
#[test]
fn test_complex_decimal_flow() {
    let mut calc = Calculator::new();

    // 12.5 + 7.3 = 19.8
    calc.input(Input::Digit(1)).unwrap();
    calc.input(Input::Digit(2)).unwrap();
    calc.input(Input::Decimal).unwrap();
    calc.input(Input::Digit(5)).unwrap();
    calc.input(Input::Operator(Operator::Add)).unwrap();
    calc.input(Input::Digit(7)).unwrap();
    calc.input(Input::Decimal).unwrap();
    calc.input(Input::Digit(3)).unwrap();
    calc.input(Input::Equals).unwrap();

    let result = calc.get_result().unwrap();
    assert_eq!(result, Decimal::from_str("19.8").unwrap());

    // Continue: 19.8 / 2 = 9.9
    calc.input(Input::Operator(Operator::Divide)).unwrap();
    calc.input(Input::Digit(2)).unwrap();
    calc.input(Input::Equals).unwrap();

    let result = calc.get_result().unwrap();
    assert_eq!(result, Decimal::from_str("9.9").unwrap());
}

/// Test error handling flow
#[test]
fn test_error_handling_flow() {
    let mut calc = Calculator::new();

    // Division by zero
    calc.input(Input::Digit(5)).unwrap();
    calc.input(Input::Operator(Operator::Divide)).unwrap();
    calc.input(Input::Digit(0)).unwrap();
    let result = calc.input(Input::Equals);
    assert!(matches!(result, Err(CalculatorError::DivideByZero)));

    // Calculator should still be usable after error
    calc.input(Input::Clear).unwrap();
    calc.input(Input::Digit(3)).unwrap();
    calc.input(Input::Operator(Operator::Add)).unwrap();
    calc.input(Input::Digit(2)).unwrap();
    calc.input(Input::Equals).unwrap();
    assert_eq!(calc.get_result().unwrap(), Decimal::from(5));
}

fn digits(calc: &mut Calculator, text: &str) {
    for c in text.chars() {
        match c {
            '.' => calc.input(Input::Decimal).unwrap(),
            _ => calc.input(Input::Digit(c as u8 - b'0')).unwrap(),
        }
    }
}

#[test]
fn exact_decimal_sum() {
    let mut calc = Calculator::new();
    digits(&mut calc, "0.1");
    calc.input(Input::Operator(Operator::Add)).unwrap();
    digits(&mut calc, "0.2");
    calc.input(Input::Equals).unwrap();
    let result = calc.get_result().unwrap();
    assert_eq!(result, Decimal::from_str("0.3").unwrap());
    assert_eq!(result.mantissa, 3);
    assert_eq!(result.scale, 1);
    assert_eq!(result.to_string(), "0.3");
    assert_eq!(calc.display(), "0.3");
}

#[test]
fn divide_by_zero_leaves_the_machine_as_it_was() {
    let mut calc = Calculator::new();
    digits(&mut calc, "5");
    calc.input(Input::Operator(Operator::Divide)).unwrap();
    digits(&mut calc, "0");
    assert_eq!(calc.input(Input::Equals), Err(CalculatorError::DivideByZero));
    assert_eq!(calc.get_state(), "EnteringSecond");
    assert_eq!(calc.display(), "0");
    assert_eq!(calc.get_result(), None);
    assert_eq!(
        calc.input(Input::Operator(Operator::Add)),
        Err(CalculatorError::DivideByZero)
    );
    assert_eq!(calc.get_state(), "EnteringSecond");
    // a nonzero digit makes the entry 03, and the division goes through
    digits(&mut calc, "3");
    assert_eq!(calc.display(), "03");
    calc.input(Input::Clear).unwrap();
    digits(&mut calc, "3");
    calc.input(Input::Operator(Operator::Add)).unwrap();
    digits(&mut calc, "2");
    calc.input(Input::Equals).unwrap();
    assert_eq!(calc.get_result().unwrap(), Decimal::from(5));
}

#[test]
fn operator_resolves_the_pending_operation() {
    let mut calc = Calculator::new();
    digits(&mut calc, "2");
    calc.input(Input::Operator(Operator::Add)).unwrap();
    digits(&mut calc, "3");
    calc.input(Input::Operator(Operator::Add)).unwrap();
    assert_eq!(calc.get_state(), "OperatorSelected");
    assert_eq!(calc.get_result().unwrap(), Decimal::from(5));
    assert_eq!(calc.display(), "5");
    digits(&mut calc, "4");
    calc.input(Input::Equals).unwrap();
    assert_eq!(calc.get_result().unwrap(), Decimal::from(9));
    assert_eq!(calc.display(), "9");
}

#[test]
fn double_clear_from_initial_entry() {
    let mut calc = Calculator::new();
    digits(&mut calc, "5");
    calc.input(Input::Clear).unwrap();
    assert_eq!(calc.get_state(), "InputCleared");
    assert_eq!(calc.display(), "0");
    calc.input(Input::Clear).unwrap();
    assert_eq!(calc.get_state(), "Initial");
    assert_eq!(calc.display(), "0");
}

#[test]
fn repeated_equals_keeps_result_and_state() {
    let mut calc = Calculator::new();
    digits(&mut calc, "2");
    calc.input(Input::Operator(Operator::Add)).unwrap();
    digits(&mut calc, "3");
    calc.input(Input::Equals).unwrap();
    for _ in 0..3 {
        calc.input(Input::Equals).unwrap();
        assert_eq!(calc.get_state(), "ShowingResult");
        assert_eq!(calc.get_result().unwrap(), Decimal::from(5));
        assert_eq!(calc.display(), "5");
    }
}

#[test]
fn end_to_end_scenario() {
    let mut calc = Calculator::new();
    calc.input(Input::Digit(1)).unwrap();
    calc.input(Input::Digit(0)).unwrap();
    calc.input(Input::Operator(Operator::Add)).unwrap();
    calc.input(Input::Digit(5)).unwrap();
    calc.input(Input::Equals).unwrap();
    assert_eq!(calc.get_result().unwrap(), Decimal::from(15));
    assert_eq!(calc.get_state(), "ShowingResult");
    assert_eq!(calc.display(), "15");
    calc.input(Input::Operator(Operator::Multiply)).unwrap();
    calc.input(Input::Digit(2)).unwrap();
    calc.input(Input::Equals).unwrap();
    assert_eq!(calc.get_result().unwrap(), Decimal::from(30));
    assert_eq!(calc.display(), "30");
}

#[test]
fn digit_above_nine_is_refused() {
    let mut calc = Calculator::new();
    assert_eq!(calc.input(Input::Digit(10)), Err(CalculatorError::InvalidInput));
    assert_eq!(calc.get_state(), "Initial");
    digits(&mut calc, "4");
    assert_eq!(calc.input(Input::Digit(255)), Err(CalculatorError::InvalidInput));
    assert_eq!(calc.display(), "4");
}

#[test]
fn result_out_of_range_is_an_overflow() {
    let mut calc = Calculator::new();
    digits(&mut calc, "9999999999999999999999999999");
    calc.input(Input::Operator(Operator::Multiply)).unwrap();
    digits(&mut calc, "99");
    assert_eq!(calc.input(Input::Equals), Err(CalculatorError::Overflow));
    assert_eq!(calc.get_state(), "EnteringSecond");
    assert_eq!(calc.display(), "99");
    assert_eq!(calc.get_result(), None);
}

#[test]
fn entry_holds_thirty_two_characters() {
    let mut calc = Calculator::new();
    for _ in 0..40 {
        calc.input(Input::Digit(7)).unwrap();
    }
    assert_eq!(calc.display(), "77777777777777777777777777777777");
    assert_eq!(calc.display().len(), 32);
}

#[test]
fn entry_too_long_for_a_decimal_is_invalid() {
    let mut calc = Calculator::new();
    for _ in 0..32 {
        calc.input(Input::Digit(7)).unwrap();
    }
    assert_eq!(calc.input(Input::Equals), Err(CalculatorError::InvalidInput));
    assert_eq!(calc.get_state(), "EnteringFirst");
    assert_eq!(
        calc.input(Input::Operator(Operator::Add)),
        Err(CalculatorError::InvalidInput)
    );
    assert_eq!(calc.get_state(), "EnteringFirst");
}

#[test]
fn second_point_is_dropped() {
    let mut calc = Calculator::new();
    digits(&mut calc, "1.5");
    calc.input(Input::Decimal).unwrap();
    digits(&mut calc, "2");
    assert_eq!(calc.display(), "1.52");
}

#[test]
fn point_on_empty_entry_gets_a_zero() {
    let mut calc = Calculator::new();
    calc.input(Input::Decimal).unwrap();
    assert_eq!(calc.display(), "0.");
    assert_eq!(calc.get_state(), "EnteringFirst");
    digits(&mut calc, "5");
    calc.input(Input::Operator(Operator::Add)).unwrap();
    calc.input(Input::Decimal).unwrap();
    assert_eq!(calc.get_state(), "EnteringSecond");
    assert_eq!(calc.display(), "0.");
    digits(&mut calc, "25");
    calc.input(Input::Equals).unwrap();
    assert_eq!(calc.get_result().unwrap(), Decimal::from_str("0.75").unwrap());
    assert_eq!(calc.display(), "0.75");
    // a point after a result starts a new calculation
    calc.input(Input::Decimal).unwrap();
    assert_eq!(calc.get_state(), "EnteringFirst");
    assert_eq!(calc.display(), "0.");
    assert_eq!(calc.get_result(), None);
}

#[test]
fn point_needs_room_for_a_digit() {
    let mut calc = Calculator::new();
    for _ in 0..30 {
        calc.input(Input::Digit(1)).unwrap();
    }
    calc.input(Input::Decimal).unwrap();
    assert_eq!(calc.display().len(), 31);
    assert!(calc.display().ends_with('.'));
    let mut calc = Calculator::new();
    for _ in 0..31 {
        calc.input(Input::Digit(1)).unwrap();
    }
    calc.input(Input::Decimal).unwrap();
    assert_eq!(calc.display().len(), 31);
    assert!(!calc.display().contains('.'));
}

#[test]
fn display_follows_the_state() {
    let mut calc = Calculator::new();
    assert_eq!(calc.display(), "0");
    digits(&mut calc, "12");
    assert_eq!(calc.display(), "12");
    calc.input(Input::Operator(Operator::Subtract)).unwrap();
    assert_eq!(calc.display(), "12");
    digits(&mut calc, "20");
    assert_eq!(calc.display(), "20");
    calc.input(Input::Equals).unwrap();
    assert_eq!(calc.display(), "-8");
    calc.input(Input::Operator(Operator::Multiply)).unwrap();
    assert_eq!(calc.display(), "-8");
    calc.input(Input::Clear).unwrap();
    assert_eq!(calc.display(), "0");
}

#[test]
fn operator_first_works_on_zero() {
    let mut calc = Calculator::new();
    calc.input(Input::Operator(Operator::Subtract)).unwrap();
    assert_eq!(calc.get_state(), "OperatorSelected");
    assert_eq!(calc.display(), "0");
    digits(&mut calc, "5");
    calc.input(Input::Equals).unwrap();
    assert_eq!(calc.get_result().unwrap(), Decimal::from(-5));
}

#[test]
fn equals_without_second_operand_does_nothing() {
    let mut calc = Calculator::new();
    calc.input(Input::Equals).unwrap();
    assert_eq!(calc.get_state(), "Initial");
    digits(&mut calc, "5");
    calc.input(Input::Operator(Operator::Add)).unwrap();
    calc.input(Input::Equals).unwrap();
    assert_eq!(calc.get_state(), "OperatorSelected");
    assert_eq!(calc.get_result(), None);
    digits(&mut calc, "1");
    calc.input(Input::Clear).unwrap();
    calc.input(Input::Equals).unwrap();
    assert_eq!(calc.get_state(), "InputCleared");
}

#[test]
fn a_keystroke_between_two_clears_starts_the_count_again() {
    let mut calc = Calculator::new();
    digits(&mut calc, "5");
    calc.input(Input::Clear).unwrap();
    calc.input(Input::Equals).unwrap();
    calc.input(Input::Clear).unwrap();
    assert_eq!(calc.get_state(), "InputCleared");
    calc.input(Input::Clear).unwrap();
    assert_eq!(calc.get_state(), "Initial");
}

#[test]
fn many_clears_in_a_row() {
    let mut calc = Calculator::new();
    for _ in 0..600 {
        calc.input(Input::Clear).unwrap();
        assert_eq!(calc.get_state(), "Initial");
    }
    digits(&mut calc, "5");
    assert_eq!(calc.display(), "5");
}

#[test]
fn operator_after_one_clear_keeps_the_first_operand() {
    let mut calc = Calculator::new();
    digits(&mut calc, "8");
    calc.input(Input::Operator(Operator::Add)).unwrap();
    digits(&mut calc, "99");
    calc.input(Input::Clear).unwrap();
    calc.input(Input::Operator(Operator::Multiply)).unwrap();
    assert_eq!(calc.get_state(), "OperatorSelected");
    assert_eq!(calc.display(), "8");
    digits(&mut calc, "2");
    calc.input(Input::Equals).unwrap();
    assert_eq!(calc.get_result().unwrap(), Decimal::from(16));
}

#[test]
fn second_operand_without_a_first_is_not_evaluated() {
    let mut calc = Calculator::new();
    digits(&mut calc, "5");
    calc.input(Input::Clear).unwrap();
    calc.input(Input::Operator(Operator::Add)).unwrap();
    assert_eq!(calc.display(), "0");
    digits(&mut calc, "3");
    assert_eq!(calc.get_state(), "EnteringSecond");
    calc.input(Input::Equals).unwrap();
    assert_eq!(calc.get_state(), "EnteringSecond");
    assert_eq!(calc.get_result(), None);
}

#[test]
fn advance_takes_the_number_it_is_given() {
    let mut calc = Calculator::new();
    digits(&mut calc, "10");
    calc.input(Input::Operator(Operator::Add)).unwrap();
    digits(&mut calc, "5");
    let given = Decimal::from(42);
    assert_eq!(calc.advance(Input::Equals, Ok(given)), Ok(()));
    assert_eq!(calc.get_state(), "ShowingResult");
    assert_eq!(calc.get_result(), Some(given));
    let mut calc = Calculator::new();
    digits(&mut calc, "10");
    assert_eq!(
        calc.advance(Input::Equals, Err(CalculatorError::Overflow)),
        Err(CalculatorError::Overflow)
    );
    assert_eq!(calc.get_state(), "EnteringFirst");
    assert_eq!(calc.display(), "10");
}

#[test]
fn evaluate_computes_what_the_keystroke_commits() {
    let mut calc = Calculator::new();
    assert_eq!(calc.evaluate(Input::Equals), Ok(Decimal::from(0)));
    digits(&mut calc, "10");
    assert_eq!(calc.evaluate(Input::Equals), Ok(Decimal::from(10)));
    assert_eq!(calc.evaluate(Input::Digit(1)), Ok(Decimal::from(0)));
    calc.input(Input::Operator(Operator::Subtract)).unwrap();
    digits(&mut calc, "4");
    assert_eq!(calc.evaluate(Input::Equals), Ok(Decimal::from(6)));
    assert_eq!(calc.evaluate(Input::Operator(Operator::Add)), Ok(Decimal::from(6)));
    assert_eq!(calc.parse_current_input(), Ok(Decimal::from(4)));
    assert_eq!(calc.get_state(), "EnteringSecond");
}

#[test]
fn division_keeps_twenty_eight_places() {
    let mut calc = Calculator::new();
    digits(&mut calc, "1");
    calc.input(Input::Operator(Operator::Divide)).unwrap();
    digits(&mut calc, "3");
    calc.input(Input::Equals).unwrap();
    assert_eq!(calc.display(), "0.3333333333333333333333333333");
}

#[test]
fn entry_that_ends_in_a_point_is_a_number() {
    let mut calc = Calculator::new();
    digits(&mut calc, "3.");
    calc.input(Input::Operator(Operator::Add)).unwrap();
    digits(&mut calc, "2");
    calc.input(Input::Equals).unwrap();
    assert_eq!(calc.get_result().unwrap(), Decimal::from(5));
}

#[test]
fn displayed_number_is_read_from_the_registers() {
    let mut calc = Calculator::new();
    assert_eq!(calc.displayed_number(), None);
    digits(&mut calc, "7");
    assert_eq!(calc.displayed_number(), None);
    calc.input(Input::Operator(Operator::Add)).unwrap();
    assert_eq!(calc.displayed_number(), Some(Decimal::from(7)));
    digits(&mut calc, "1");
    calc.input(Input::Equals).unwrap();
    assert_eq!(calc.displayed_number(), Some(Decimal::from(8)));
    assert!(!calc.is_entering());
}
