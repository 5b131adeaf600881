use mortgage::errors::AppError;
use mortgage::errors::AppError::{LoanProgramEmpty, LoanProgramMoreThanOne, MinInitialPayment};
use mortgage::mortgage::{Mortgage, BASE, MILITARY, SALARY};

#[test]
fn test_loan_program_check() {
    // One selected program passes.
    let mut loan: Mortgage = Mortgage::default();
    loan.program.salary = Some(true);
    let actual: bool = loan.loan_program_check().is_ok();
    assert_eq!(actual, true);
    // Two selected programs are rejected.
    let mut loan: Mortgage = Mortgage::default();
    loan.program.salary = Some(true);
    loan.program.military = Some(true);
    let actual: AppError = loan.loan_program_check().err().unwrap();
    assert_eq!(actual, LoanProgramMoreThanOne);
    // No selected program is rejected.
    let mut loan: Mortgage = Mortgage::default();
    let actual: AppError = loan.loan_program_check().err().unwrap();
    assert_eq!(actual, LoanProgramEmpty)
}

#[test]
fn test_min_initial_payment_check() {
    let mut loan: Mortgage = Mortgage::default();
    loan.params.object_cost = 100;
    // An admissible minimum payment passes.
    loan.params.initial_payment = 25;
    let actual: bool = loan.min_initial_payment_check().is_ok();
    assert_eq!(actual, true);
    // An initial payment below the minimum share is rejected.
    loan.params.initial_payment = 10;
    let actual: AppError = loan.min_initial_payment_check().err().unwrap();
    assert_eq!(actual, MinInitialPayment)
}

#[test]
fn test_min_initial_payment_boundary() {
    // Exactly the minimum share passes.
    let mut loan: Mortgage = Mortgage::default();
    loan.params.object_cost = 100;
    loan.params.initial_payment = 20;
    assert!(loan.min_initial_payment_check().is_ok());
    // One unit below the share of an odd cost fails: 20 * 100 < 20 * 101.
    loan.params.object_cost = 101;
    assert!(loan.min_initial_payment_check().is_err());
}

#[test]
fn test_loan_sum_calc() {
    let mut loan: Mortgage = Mortgage::default();
    loan.params.object_cost = 100;
    loan.params.initial_payment = 25;
    loan.loan_sum_calc();
    assert_eq!(loan.aggregates.loan_sum, 75)
}

#[test]
fn test_loan_sum_negative() {
    // A down payment above the cost gives a negative loan sum; it is kept.
    let mut loan: Mortgage = Mortgage::default();
    loan.params.object_cost = 100;
    loan.params.initial_payment = 130;
    loan.loan_sum_calc();
    assert_eq!(loan.aggregates.loan_sum, -30)
}

#[test]
fn test_rate_calc() {
    let mut loan: Mortgage = Mortgage::default();
    loan.program.salary = Some(true);
    loan.rate_calc();
    assert_eq!(loan.aggregates.rate, SALARY);

    let mut loan: Mortgage = Mortgage::default();
    loan.program.military = Some(true);
    loan.rate_calc();
    assert_eq!(loan.aggregates.rate, MILITARY);

    let mut loan: Mortgage = Mortgage::default();
    loan.program.base = Some(true);
    loan.rate_calc();
    assert_eq!(loan.aggregates.rate, BASE)
}

#[test]
fn test_monthly_payment_calc() {
    let mut loan: Mortgage = Mortgage::default();
    loan.params.months = 240;
    loan.aggregates.loan_sum = 999_999;

    loan.aggregates.rate = SALARY;
    loan.monthly_payment_calc();
    assert_eq!(loan.aggregates.monthly_payment, 8365);

    loan.aggregates.rate = MILITARY;
    loan.monthly_payment_calc();
    assert_eq!(loan.aggregates.monthly_payment, 8998);

    loan.aggregates.rate = BASE;
    loan.monthly_payment_calc();
    assert_eq!(loan.aggregates.monthly_payment, 9651);
}

#[test]
fn test_monthly_payment_negative_loan_sum() {
    // The ceiling of a negative annuity rounds toward zero.
    let mut loan: Mortgage = Mortgage::default();
    loan.params.months = 12;
    loan.aggregates.loan_sum = -70;
    loan.aggregates.rate = BASE;
    loan.monthly_payment_calc();
    assert_eq!(loan.aggregates.monthly_payment, -6);
}

#[test]
fn test_overpayment_calc() {
    let mut loan: Mortgage = Mortgage::default();
    loan.aggregates.monthly_payment = 100;
    loan.params.months = 60;
    loan.aggregates.loan_sum = 1000;
    loan.overpayment_calc();
    assert_eq!(loan.aggregates.overpayment, 5000)
}

#[test]
fn test_error_messages() {
    assert_eq!(LoanProgramEmpty.message(), "choose credit program");
    assert_eq!(LoanProgramMoreThanOne.message(), "choose only 1 credit program");
    assert_eq!(MinInitialPayment.message(), "the initial payment should be more");
    assert_eq!(AppError::EmptyCache.message(), "empty cache");
}
