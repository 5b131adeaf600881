use chrono::{Months, Utc};
use mortgage::date::current_date;
use mortgage::errors::AppError::{
    LoanProgramEmpty, LoanProgramMoreThanOne, MinInitialPayment,
};
use mortgage::mortgage::{compute, Program};
use mortgage::schema::Request;

#[test]
fn test_compute_base_program_scenario() {
    // objectCost=100, initialPayment=30, months=12, base selected.
    let req = Request {
        object_cost: 100,
        initial_payment: 30,
        months: 12,
        program: Program { base: Some(true), military: None, salary: None },
    };
    let today = current_date().unwrap();
    let loan = compute(req, today).unwrap();
    assert_eq!(loan.aggregates.rate, 10);
    assert_eq!(loan.aggregates.loan_sum, 70);
    assert_eq!(loan.aggregates.monthly_payment, 7);
    assert_eq!(loan.aggregates.overpayment, 14);
    let expected_date = Utc::now()
        .checked_add_months(Months::new(12))
        .unwrap()
        .format("%Y-%m-%d")
        .to_string();
    assert_eq!(loan.aggregates.last_payment_date, expected_date);
}

#[test]
fn test_compute_insufficient_initial_payment() {
    // initialPayment=10 against objectCost=100 is below the 20% share.
    let req = Request {
        object_cost: 100,
        initial_payment: 10,
        months: 12,
        program: Program { base: Some(true), military: None, salary: None },
    };
    let today = current_date().unwrap();
    assert_eq!(compute(req, today).err().unwrap(), MinInitialPayment);
}

#[test]
fn test_compute_multiple_programs() {
    // salary and military together are rejected whatever the other fields.
    let req = Request {
        object_cost: 100,
        initial_payment: 90,
        months: 6,
        program: Program { base: None, military: Some(true), salary: Some(true) },
    };
    let today = current_date().unwrap();
    assert_eq!(compute(req, today).err().unwrap(), LoanProgramMoreThanOne);
}

#[test]
fn test_compute_no_program() {
    let req = Request {
        object_cost: 100,
        initial_payment: 90,
        months: 6,
        program: Program { base: Some(false), military: None, salary: None },
    };
    let today = current_date().unwrap();
    assert_eq!(compute(req, today).err().unwrap(), LoanProgramEmpty);
}

#[test]
fn test_compute_program_priority() {
    // The salary program outranks the others when several rates could apply;
    // validation admits only one flag, so priority shows with single flags.
    let salary_req = Request {
        object_cost: 1000,
        initial_payment: 200,
        months: 24,
        program: Program { base: None, military: None, salary: Some(true) },
    };
    let today = current_date().unwrap();
    let loan = compute(salary_req, today).unwrap();
    assert_eq!(loan.aggregates.rate, 8);
}

#[test]
fn test_compute_twice_same_day_is_identical() {
    // With the same request and the same current date, every derived
    // aggregate agrees between two calls.
    let req = Request {
        object_cost: 250_000,
        initial_payment: 60_000,
        months: 120,
        program: Program { base: None, military: Some(true), salary: None },
    };
    let today = current_date().unwrap();
    let a = compute(req, today).unwrap();
    let b = compute(req, today).unwrap();
    assert_eq!(a.aggregates.rate, b.aggregates.rate);
    assert_eq!(a.aggregates.loan_sum, b.aggregates.loan_sum);
    assert_eq!(a.aggregates.monthly_payment, b.aggregates.monthly_payment);
    assert_eq!(a.aggregates.overpayment, b.aggregates.overpayment);
    assert_eq!(a.aggregates.last_payment_date, b.aggregates.last_payment_date);
}

#[test]
fn test_compute_positive_payment_for_positive_loan_sum() {
    // A validated request with a positive loan sum yields a positive payment.
    let req = Request {
        object_cost: 5,
        initial_payment: 4,
        months: 255,
        program: Program { base: Some(true), military: None, salary: None },
    };
    let today = current_date().unwrap();
    let loan = compute(req, today).unwrap();
    assert_eq!(loan.aggregates.loan_sum, 1);
    assert!(loan.aggregates.monthly_payment > 0);
}
