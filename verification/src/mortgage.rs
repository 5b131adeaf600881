//! The loan computation: a sequential validation and derivation pipeline.
//!
//! A [`Mortgage`] is built from a request and then driven through the stages
//! in a fixed order: program-selection check, minimum down-payment check,
//! loan-sum derivation, rate selection, monthly annuity payment, overpayment,
//! and the final payment date. Each stage consumes only what earlier stages
//! wrote, and a failed check aborts the pipeline.
//!
//! Monetary amounts are whole currency units. The annuity payment is derived
//! in fixed-point arithmetic: the monthly growth factor `1 + rate / 1200` is
//! scaled by [`SCALE`], raised to the power of the term by repeated
//! multiplication, and the payment is the ceiling of
//! `loan_sum * rate / 1200 * growth / (growth - 1)`. The growth factor
//! saturates at [`GROWTH_CAP`] to keep every intermediate bounded, and
//! [`lemma_growth_below_cap`] shows the bound is unreachable for the rates
//! of the fixed table, so the saturation never alters a result.

use vstd::arithmetic::div_mod::{
    lemma_basic_div, lemma_div_by_self, lemma_div_is_ordered, lemma_div_is_ordered_by_denominator,
    lemma_div_multiples_vanish, lemma_div_pos_is_pos, lemma_fundamental_div_mod,
    lemma_hoist_over_denominator, lemma_mod_division_less_than_divisor,
};
use vstd::arithmetic::mul::{
    lemma_mul_inequality_converse, lemma_mul_is_commutative, lemma_mul_left_inequality,
};
use vstd::arithmetic::power::{lemma_pow1, lemma_pow_adds, lemma_pow_positive, pow};
use vstd::prelude::*;

use crate::date::{spec_add_months, spec_ymd, ymd_string, Date, MAX_YEAR};
use crate::errors::AppError;
use crate::schema::Request;

verus! {

/// Minimum initial payment, as a percentage of the object cost.
pub const MIN_INITIAL_PAYMENT_PERCENT: u64 = 20;

/// Annual rate (percent) of the salary-client program.
pub const SALARY: u8 = 8;

/// Annual rate (percent) of the military program.
pub const MILITARY: u8 = 9;

/// Annual rate (percent) of the base program.
pub const BASE: u8 = 10;

/// Fixed-point scale of the monthly growth factor; a multiple of 1200 so
/// that `rate / 1200` scales to the exact integer `rate * MONTHLY_UNIT`.
pub const SCALE: u128 = 1_200_000_000_000;

/// `SCALE / 1200`: one percent of annual rate, per month, in scale units.
pub const MONTHLY_UNIT: u128 = 1_000_000_000;

/// Saturation bound of the scaled growth factor, far above any value the
/// fixed rate table can produce.
pub const GROWTH_CAP: u128 = 100_000_000_000_000;

/// Parameters of the requested loan.
#[derive(Debug, Default, Clone, Copy, PartialEq, Eq, Structural)]
pub struct Params {
    /// Cost of the financed object, in whole currency units.
    pub object_cost: u64,
    /// Upfront payment by the borrower, in whole currency units.
    pub initial_payment: u64,
    /// Loan term in months.
    pub months: u8,
}

/// The credit program selection: three independently optional flags.
#[derive(Debug, Default, Clone, Copy, PartialEq, Eq, Structural)]
pub struct Program {
    pub base: Option<bool>,
    pub military: Option<bool>,
    pub salary: Option<bool>,
}

/// The derived aggregates, written once per computation pass.
#[derive(Debug, Default)]
pub struct Aggregates {
    /// Annual interest rate, in whole percent.
    pub rate: u8,
    /// Financed principal: object cost minus initial payment.
    pub loan_sum: i128,
    /// Ceiling-rounded monthly annuity payment.
    pub monthly_payment: i128,
    /// Total interest cost over the term.
    pub overpayment: i128,
    /// Date of the final payment, rendered `YYYY-MM-DD`.
    pub last_payment_date: String,
}

/// A loan record: parameters, program selection, and derived aggregates.
#[derive(Debug, Default)]
pub struct Mortgage {
    pub params: Params,
    pub program: Program,
    pub aggregates: Aggregates,
}

impl Clone for Aggregates {
    /// The clone holds the same values and is independent of the original.
    fn clone(&self) -> (r: Self)
        ensures
            r == *self,
    {
        Aggregates {
            rate: self.rate,
            loan_sum: self.loan_sum,
            monthly_payment: self.monthly_payment,
            overpayment: self.overpayment,
            last_payment_date: self.last_payment_date.clone(),
        }
    }
}

impl Clone for Mortgage {
    /// The clone holds the same values and is independent of the original.
    fn clone(&self) -> (r: Self)
        ensures
            r == *self,
    {
        Mortgage {
            params: self.params,
            program: self.program,
            aggregates: self.aggregates.clone(),
        }
    }
}

/// Whether a program flag is explicitly set.
pub open spec fn flag_set(f: Option<bool>) -> bool {
    f == Some(true)
}

/// How many program flags are explicitly set.
pub open spec fn selected_count(p: Program) -> int {
    (if flag_set(p.salary) { 1int } else { 0int })
        + (if flag_set(p.military) { 1int } else { 0int })
        + (if flag_set(p.base) { 1int } else { 0int })
}

/// The annual rate chosen by the program selection, in priority order
/// salary, military, base; `fallback` when no flag is set.
pub open spec fn spec_rate(p: Program, fallback: u8) -> u8 {
    if flag_set(p.salary) {
        SALARY
    } else if flag_set(p.military) {
        MILITARY
    } else if flag_set(p.base) {
        BASE
    } else {
        fallback
    }
}

/// Whether the initial payment clears the minimum share of the object cost.
pub open spec fn initial_payment_ok(object_cost: u64, initial_payment: u64) -> bool {
    100 * initial_payment >= MIN_INITIAL_PAYMENT_PERCENT * object_cost
}

/// Whether a program flag is explicitly set.
fn is_selected(f: &Option<bool>) -> (b: bool)
    ensures
        b == flag_set(*f),
{
    match f {
        Some(true) => true,
        _ => false,
    }
}

impl Mortgage {
    /// Builds the loan record for a request, with all aggregates still blank.
    pub fn new(req: Request) -> (r: Self)
        ensures
            r.params == (Params {
                object_cost: req.object_cost,
                initial_payment: req.initial_payment,
                months: req.months,
            }),
            r.program == req.program,
            r.aggregates.rate == 0,
            r.aggregates.loan_sum == 0,
            r.aggregates.monthly_payment == 0,
            r.aggregates.overpayment == 0,
            r.aggregates.last_payment_date@ == Seq::<char>::empty(),
    {
        Self {
            params: Params {
                object_cost: req.object_cost,
                initial_payment: req.initial_payment,
                months: req.months,
            },
            program: Program {
                base: req.program.base,
                military: req.program.military,
                salary: req.program.salary,
            },
            aggregates: Aggregates {
                rate: 0,
                loan_sum: 0,
                monthly_payment: 0,
                overpayment: 0,
                last_payment_date: String::new(),
            },
        }
    }

    /// Checks that exactly one credit program is selected.
    pub fn loan_program_check(&mut self) -> (r: Result<(), AppError>)
        ensures
            *final(self) == *old(self),
            r is Ok <==> selected_count(old(self).program) == 1,
            r == Result::<(), AppError>::Err(AppError::LoanProgramMoreThanOne) <==> selected_count(
                old(self).program,
            ) > 1,
            r == Result::<(), AppError>::Err(AppError::LoanProgramEmpty) <==> selected_count(
                old(self).program,
            ) == 0,
    {
        let mut counter: i8 = 0;
        if is_selected(&self.program.salary) {
            counter = counter + 1;
        }
        if is_selected(&self.program.military) {
            counter = counter + 1;
        }
        if is_selected(&self.program.base) {
            counter = counter + 1;
        }
        if counter > 1 {
            return Err(AppError::LoanProgramMoreThanOne);
        }
        if counter == 0 {
            return Err(AppError::LoanProgramEmpty);
        }
        Ok(())
    }

    /// Checks the minimum initial payment against the object cost.
    pub fn min_initial_payment_check(&self) -> (r: Result<(), AppError>)
        ensures
            r is Ok <==> initial_payment_ok(self.params.object_cost, self.params.initial_payment),
            r is Err ==> r == Result::<(), AppError>::Err(AppError::MinInitialPayment),
    {
        // 100 * paid vs MIN_INITIAL_PAYMENT_PERCENT * cost, widened so the
        // products cannot overflow
        let paid: u128 = (self.params.initial_payment as u128) * 100;
        let owed: u128 = (self.params.object_cost as u128) * 20;
        if paid < owed {
            return Err(AppError::MinInitialPayment);
        }
        Ok(())
    }

    /// Derives the loan sum: object cost minus initial payment.
    pub fn loan_sum_calc(&mut self)
        ensures
            final(self).aggregates.loan_sum == old(self).params.object_cost - old(
                self,
            ).params.initial_payment,
            final(self).params == old(self).params,
            final(self).program == old(self).program,
            unchanged_but_loan_sum(old(self).aggregates, final(self).aggregates),
    {
        self.aggregates.loan_sum = (self.params.object_cost as i128) - (self.params.initial_payment
            as i128);
    }

    /// Selects the annual rate from the program flags, in priority order
    /// salary, military, base; an empty selection leaves the rate unchanged.
    pub fn rate_calc(&mut self)
        ensures
            final(self).aggregates.rate == spec_rate(old(self).program, old(self).aggregates.rate),
            final(self).params == old(self).params,
            final(self).program == old(self).program,
            unchanged_but_rate(old(self).aggregates, final(self).aggregates),
    {
        if is_selected(&self.program.salary) {
            self.aggregates.rate = SALARY;
        } else if is_selected(&self.program.military) {
            self.aggregates.rate = MILITARY;
        } else if is_selected(&self.program.base) {
            self.aggregates.rate = BASE;
        }
    }
}

/// Upper bound of the absolute monthly payment that the fixed-point annuity
/// derivation can produce from a loan sum within `u64` magnitude.
pub const PAYMENT_BOUND: i128 = 400_000_000_000_000_000_000_000;

/// The scaled monthly growth factor: `SCALE` plus the monthly share of the
/// annual rate, in scale units.
pub open spec fn spec_monthly_factor(rate: int) -> int {
    SCALE as int + rate * (MONTHLY_UNIT as int)
}

/// The scaled growth `(1 + rate / 1200) ^ n`, computed by repeated
/// fixed-point multiplication with truncation, saturating at [`GROWTH_CAP`].
pub open spec fn spec_growth(rate: int, n: nat) -> int
    decreases n,
{
    if n == 0 {
        SCALE as int
    } else {
        let g = spec_growth(rate, (n - 1) as nat) * spec_monthly_factor(rate) / (SCALE as int);
        if g > GROWTH_CAP as int {
            GROWTH_CAP as int
        } else {
            g
        }
    }
}

/// The ceiling-rounded monthly annuity payment:
/// `ceil(loan_sum * rate / 1200 * growth / (growth - 1))` over the scaled
/// growth factor.
pub open spec fn spec_monthly_payment(loan_sum: int, rate: int, months: nat) -> int {
    let g = spec_growth(rate, months);
    let num = loan_sum * rate * g;
    let den = 1200 * (g - SCALE as int);
    (num + den - 1) / den
}

/// The scaled growth factor stays between `SCALE` and `GROWTH_CAP`, and a
/// term of at least one month grows it by at least one monthly rate share.
pub proof fn lemma_growth_bounds(rate: int, n: nat)
    requires
        1 <= rate <= 255,
    ensures
        SCALE as int <= spec_growth(rate, n) <= GROWTH_CAP as int,
        n >= 1 ==> spec_growth(rate, n) >= SCALE as int + rate * (MONTHLY_UNIT as int),
    decreases n,
{
    let s = SCALE as int;
    let mu = MONTHLY_UNIT as int;
    let m = spec_monthly_factor(rate);
    assert(s + mu <= m <= s + 255 * mu) by (nonlinear_arith)
        requires
            1 <= rate <= 255,
            mu >= 0,
            m == s + rate * mu,
    ;
    if n > 0 {
        lemma_growth_bounds(rate, (n - 1) as nat);
        let gp = spec_growth(rate, (n - 1) as nat);
        let raw = gp * m / s;
        lemma_mul_left_inequality(gp, s, m);
        lemma_div_is_ordered(gp * s, gp * m, s);
        lemma_mul_is_commutative(gp, s);
        lemma_div_multiples_vanish(gp, s);
        assert(raw >= gp);
        if n == 1 {
            lemma_mul_is_commutative(s, m);
            lemma_div_multiples_vanish(m, s);
            assert(raw == m);
        } else {
            assert(rate * mu <= 255 * mu) by (nonlinear_arith)
                requires
                    rate <= 255,
                    mu >= 0,
            ;
        }
    }
}

/// Combines two rounded ratio bounds: if `p1 / q1` is at most `n1` and
/// `p2 / q2` at most `n2`, both in units of one billionth, and the product
/// of the numerators rounds up to `n3`, then `p1 * p2 / (q1 * q2)` is at
/// most `n3` in the same units.
proof fn lemma_ratio_combine(p1: int, q1: int, n1: int, p2: int, q2: int, n2: int, n3: int)
    requires
        0 < p1,
        0 < q1,
        0 <= n1,
        0 < p2,
        0 < q2,
        0 <= n2,
        p1 * 1_000_000_000 <= n1 * q1,
        p2 * 1_000_000_000 <= n2 * q2,
        n1 * n2 <= n3 * 1_000_000_000,
    ensures
        (p1 * p2) * 1_000_000_000 <= n3 * (q1 * q2),
{
    assert((p1 * p2) * 1_000_000_000 <= n3 * (q1 * q2)) by (nonlinear_arith)
        requires
            0 < p1,
            0 < q1,
            0 <= n1,
            0 < p2,
            0 < q2,
            0 <= n2,
            p1 * 1_000_000_000 <= n1 * q1,
            p2 * 1_000_000_000 <= n2 * q2,
            n1 * n2 <= n3 * 1_000_000_000,
    ;
}

/// The ratio `(121 / 120) ^ 255` is below `8.299497861`: the bound is built
/// by a squaring ladder of rounded-up fractions over the denominator one
/// billion.
proof fn lemma_growth_ratio_255()
    ensures
        pow(121, 255) * 1_000_000_000 <= 8_299_497_860 * pow(120, 255),
{
    lemma_pow1(121);
    lemma_pow1(120);
    lemma_pow_positive(121, 1);
    lemma_pow_positive(120, 1);
    assert(pow(121, 1) * 1_000_000_000 <= 1_008_333_334 * pow(120, 1));
    assert(ratio_bound(1, 1_008_333_334));
    lemma_ratio_square_step(1, 1_008_333_334, 1_016_736_113);
    lemma_ratio_square_step(2, 1_016_736_113, 1_033_752_324);
    lemma_ratio_square_step(4, 1_033_752_324, 1_068_643_868);
    lemma_ratio_square_step(8, 1_068_643_868, 1_141_999_717);
    lemma_ratio_square_step(16, 1_141_999_717, 1_304_163_354);
    lemma_ratio_square_step(32, 1_304_163_354, 1_700_842_054);
    lemma_ratio_square_step(64, 1_700_842_054, 2_892_863_693);
    lemma_ratio_add_step(1, 1_008_333_334, 2, 1_016_736_113, 1_025_208_915);
    lemma_ratio_add_step(3, 1_025_208_915, 4, 1_033_752_324, 1_059_812_099);
    lemma_ratio_add_step(7, 1_059_812_099, 8, 1_068_643_868, 1_132_561_701);
    lemma_ratio_add_step(15, 1_132_561_701, 16, 1_141_999_717, 1_293_385_143);
    lemma_ratio_add_step(31, 1_293_385_143, 32, 1_304_163_354, 1_686_785_507);
    lemma_ratio_add_step(63, 1_686_785_507, 64, 1_700_842_054, 2_868_955_727);
    lemma_ratio_add_step(127, 2_868_955_727, 128, 2_892_863_693, 8_299_497_860);
    assert(ratio_bound(255, 8_299_497_860));
}

/// `(121 / 120) ^ e` is at most `n` billionths.
spec fn ratio_bound(e: nat, n: int) -> bool {
    pow(121, e) * 1_000_000_000 <= n * pow(120, e)
}

/// Squares a ratio bound: doubling the exponent at most squares the bound.
proof fn lemma_ratio_square_step(e: nat, n1: int, n2: int)
    requires
        0 <= n1,
        n1 * n1 <= n2 * 1_000_000_000,
        ratio_bound(e, n1),
    ensures
        ratio_bound(e + e, n2),
{
    lemma_pow_positive(121, e);
    lemma_pow_positive(120, e);
    lemma_pow_adds(121, e, e);
    lemma_pow_adds(120, e, e);
    lemma_ratio_combine(pow(121, e), pow(120, e), n1, pow(121, e), pow(120, e), n1, n2);
}

/// Adds two exponents of the ratio ladder.
proof fn lemma_ratio_add_step(e1: nat, n1: int, e2: nat, n2: int, n3: int)
    requires
        0 <= n1,
        0 <= n2,
        n1 * n2 <= n3 * 1_000_000_000,
        ratio_bound(e1, n1),
        ratio_bound(e2, n2),
    ensures
        ratio_bound(e1 + e2, n3),
{
    lemma_pow_positive(121, e1);
    lemma_pow_positive(120, e1);
    lemma_pow_positive(121, e2);
    lemma_pow_positive(120, e2);
    lemma_pow_adds(121, e1, e2);
    lemma_pow_adds(120, e1, e2);
    lemma_ratio_combine(pow(121, e1), pow(120, e1), n1, pow(121, e2), pow(120, e2), n2, n3);
}

/// For rates of the fixed table the truncating growth keeps the exact
/// ratio bound: `growth * 120^n` is at most `SCALE * 121^n`.
proof fn lemma_growth_ratio(rate: int, n: nat)
    requires
        1 <= rate <= 10,
    ensures
        spec_growth(rate, n) * pow(120, n) <= SCALE as int * pow(121, n),
    decreases n,
{
    reveal(pow);
    let s = SCALE as int;
    if n == 0 {
    } else {
        lemma_growth_ratio(rate, (n - 1) as nat);
        lemma_growth_bounds(rate, (n - 1) as nat);
        let gp = spec_growth(rate, (n - 1) as nat);
        let m = spec_monthly_factor(rate);
        let raw = gp * m / s;
        let g = spec_growth(rate, n);
        let pw120 = pow(120, (n - 1) as nat);
        let pw121 = pow(121, (n - 1) as nat);
        lemma_pow_positive(120, (n - 1) as nat);
        lemma_pow_positive(121, (n - 1) as nat);
        lemma_pow_adds(120, 1, (n - 1) as nat);
        lemma_pow_adds(121, 1, (n - 1) as nat);
        lemma_pow1(120);
        lemma_pow1(121);
        assert(120 * m <= 121 * s) by (nonlinear_arith)
            requires
                m == s + rate * (MONTHLY_UNIT as int),
                rate <= 10,
                MONTHLY_UNIT == 1_000_000_000,
                s == 1_200_000_000_000,
        ;
        lemma_fundamental_div_mod(gp * m, s);
        lemma_mod_division_less_than_divisor(gp * m, s);
        assert(raw * s <= gp * m) by (nonlinear_arith)
            requires
                gp * m == s * raw + (gp * m) % s,
                (gp * m) % s >= 0,
        ;
        assert(raw * (120 * pw120) <= s * (121 * pw121)) by (nonlinear_arith)
            requires
                raw * s <= gp * m,
                120 * m <= 121 * s,
                gp * pw120 <= s * pw121,
                0 <= raw,
                0 < s,
                0 < gp,
                0 < m,
                0 < pw120,
                0 < pw121,
        ;
        assert(g <= raw);
        assert(g * (120 * pw120) <= raw * (120 * pw120)) by (nonlinear_arith)
            requires
                g <= raw,
                0 < pw120,
        ;
        assert(pow(120, n) == 120 * pw120);
        assert(pow(121, n) == 121 * pw121);
        assert(g * pow(120, n) <= s * pow(121, n)) by (nonlinear_arith)
            requires
                g * (120 * pw120) <= s * (121 * pw121),
                pow(120, n) == 120 * pw120,
                pow(121, n) == 121 * pw121,
        ;
    }
}

/// Powers of a larger base grow at least as fast: extends a ratio bound
/// from an exponent to any larger one.
proof fn lemma_ratio_exponent_mono(e1: nat, e2: nat)
    requires
        e1 <= e2,
    ensures
        pow(121, e1) * pow(120, e2) <= pow(121, e2) * pow(120, e1),
{
    let d = (e2 - e1) as nat;
    lemma_pow_adds(121, e1, d);
    lemma_pow_adds(120, e1, d);
    lemma_pow_base_mono(120, 121, d);
    lemma_pow_positive(121, e1);
    lemma_pow_positive(120, e1);
    lemma_pow_positive(120, d);
    assert((pow(121, e1) * pow(120, e1)) * pow(120, d) <= (pow(121, e1) * pow(120, e1)) * pow(
        121,
        d,
    )) by (nonlinear_arith)
        requires
            pow(120, d) <= pow(121, d),
            0 < pow(121, e1),
            0 < pow(120, e1),
    ;
    assert(pow(121, e1) * pow(120, e2) == (pow(121, e1) * pow(120, e1)) * pow(120, d))
        by (nonlinear_arith)
        requires
            pow(120, e2) == pow(120, e1) * pow(120, d),
    ;
    assert(pow(121, e2) * pow(120, e1) == (pow(121, e1) * pow(120, e1)) * pow(121, d))
        by (nonlinear_arith)
        requires
            pow(121, e2) == pow(121, e1) * pow(121, d),
    ;
}

/// A power with the larger base is the larger, for positive bases.
proof fn lemma_pow_base_mono(a: int, b: int, e: nat)
    requires
        0 < a <= b,
    ensures
        pow(a, e) <= pow(b, e),
    decreases e,
{
    reveal(pow);
    if e > 0 {
        lemma_pow_base_mono(a, b, (e - 1) as nat);
        lemma_pow_positive(a, (e - 1) as nat);
        assert(a * pow(a, (e - 1) as nat) <= b * pow(b, (e - 1) as nat)) by (nonlinear_arith)
            requires
                0 < a <= b,
                0 < pow(a, (e - 1) as nat) <= pow(b, (e - 1) as nat),
        ;
        assert(pow(a, e) == a * pow(a, (e - 1) as nat));
        assert(pow(b, e) == b * pow(b, (e - 1) as nat));
    }
}

/// For the rates of the fixed table the saturation bound is unreachable:
/// the scaled growth factor stays strictly below [`GROWTH_CAP`] for every
/// representable term, so the derivation never truncates to the cap.
pub proof fn lemma_growth_below_cap(rate: int, n: nat)
    requires
        1 <= rate <= 10,
        n <= 255,
    ensures
        spec_growth(rate, n) < GROWTH_CAP as int,
{
    let s = SCALE as int;
    let g = spec_growth(rate, n);
    let pw120n = pow(120, n);
    let pw121n = pow(121, n);
    let pw120f = pow(120, 255);
    let pw121f = pow(121, 255);
    lemma_growth_ratio(rate, n);
    lemma_growth_bounds(rate, n);
    lemma_growth_ratio_255();
    lemma_ratio_exponent_mono(n, 255);
    lemma_pow_positive(120, n);
    lemma_pow_positive(121, n);
    lemma_pow_positive(120, 255);
    lemma_pow_positive(121, 255);
    assert((g * 1_000_000_000) * (pw120n * pw120f) <= (s * 8_299_497_860) * (pw120n * pw120f))
        by (nonlinear_arith)
        requires
            g * pw120n <= s * pw121n,
            pw121n * pw120f <= pw121f * pw120n,
            pw121f * 1_000_000_000 <= 8_299_497_860 * pw120f,
            0 < s,
            0 < g,
            0 < pw120n,
            0 < pw121n,
            0 < pw120f,
            0 < pw121f,
    ;
    assert(pw120n * pw120f > 0) by (nonlinear_arith)
        requires
            0 < pw120n,
            0 < pw120f,
    ;
    lemma_mul_inequality_converse(g * 1_000_000_000, s * 8_299_497_860, pw120n * pw120f);
}


impl Mortgage {
    /// Derives the ceiling-rounded monthly annuity payment from the loan
    /// sum, the annual rate and the term.
    pub fn monthly_payment_calc(&mut self)
        requires
            1 <= old(self).aggregates.rate,
            1 <= old(self).params.months,
            -(u64::MAX as int) <= old(self).aggregates.loan_sum <= u64::MAX as int,
        ensures
            final(self).aggregates.monthly_payment == spec_monthly_payment(
                old(self).aggregates.loan_sum as int,
                old(self).aggregates.rate as int,
                old(self).params.months as nat,
            ),
            -PAYMENT_BOUND <= final(self).aggregates.monthly_payment <= PAYMENT_BOUND,
            final(self).params == old(self).params,
            final(self).program == old(self).program,
            unchanged_but_monthly_payment(old(self).aggregates, final(self).aggregates),
    {
        let rate: u8 = self.aggregates.rate;
        let months: u8 = self.params.months;
        proof {
            assert((rate as int) * (MONTHLY_UNIT as int) <= 255_000_000_000) by (nonlinear_arith)
                requires
                    rate <= 255,
                    MONTHLY_UNIT == 1_000_000_000,
            ;
            assert((rate as int) * (MONTHLY_UNIT as int) >= 1_000_000_000) by (nonlinear_arith)
                requires
                    rate >= 1,
                    MONTHLY_UNIT == 1_000_000_000,
            ;
        }
        let m: u128 = SCALE + (rate as u128) * MONTHLY_UNIT;
        let mut g: u128 = SCALE;
        let mut i: u8 = 0;
        while i < months
            invariant
                i <= months,
                1 <= rate <= 255,
                m == spec_monthly_factor(rate as int),
                SCALE < m <= 1_455_000_000_000,
                g == spec_growth(rate as int, i as nat),
                SCALE <= g <= GROWTH_CAP,
            decreases months - i,
        {
            proof {
                assert((g as int) * (m as int) <= 145_500_000_000_000_000_000_000_000)
                    by (nonlinear_arith)
                    requires
                        0 <= g <= GROWTH_CAP,
                        0 <= m <= 1_455_000_000_000,
                        GROWTH_CAP == 100_000_000_000_000,
                ;
            }
            let raw: u128 = g * m / SCALE;
            g = if raw > GROWTH_CAP {
                GROWTH_CAP
            } else {
                raw
            };
            i = i + 1;
            proof {
                lemma_growth_bounds(rate as int, i as nat);
            }
        }
        proof {
            lemma_growth_bounds(rate as int, months as nat);
        }
        let s_val: i128 = self.aggregates.loan_sum;
        let den: u128 = 1200 * (g - SCALE);
        let mag_s: u128 = if s_val >= 0 {
            s_val as u128
        } else {
            (-s_val) as u128
        };
        proof {
            assert((mag_s as int) * (rate as int) <= 4_703_919_738_795_935_661_825)
                by (nonlinear_arith)
                requires
                    0 <= mag_s <= 0xFFFF_FFFF_FFFF_FFFFu128,
                    0 <= rate <= 255,
            ;
        }
        let sr: u128 = mag_s * (rate as u128);
        proof {
            assert((sr as int) * (g as int) <= 470_391_973_879_593_566_182_500_000_000_000_000)
                by (nonlinear_arith)
                requires
                    0 <= sr <= 4_703_919_738_795_935_661_825,
                    0 <= g <= 100_000_000_000_000,
            ;
        }
        let num_mag: u128 = sr * g;
        let q: u128 = num_mag / den;
        let rem: u128 = num_mag % den;
        proof {
            lemma_payment_division_bounds(num_mag as int, den as int, q as int);
        }
        let payment: i128 = if s_val >= 0 {
            if rem > 0 {
                (q as i128) + 1
            } else {
                q as i128
            }
        } else {
            -(q as i128)
        };
        proof {
            let ghost num = (s_val as int) * (rate as int) * (g as int);
            let ghost d = den as int;
            lemma_fundamental_div_mod(num_mag as int, d);
            assert(num_mag as int == d * (q as int) + (rem as int));
            lemma_mul_is_commutative(d, q as int);
            if s_val >= 0 {
                assert(num == num_mag as int);
                assert(num + d - 1 == (rem as int + d - 1) + (q as int) * d);
                lemma_hoist_over_denominator(rem as int + d - 1, q as int, d as nat);
                assert((num + d - 1) / d == (rem as int + d - 1) / d + (q as int));
                if rem == 0 {
                    lemma_basic_div(d - 1, d);
                    assert((num + d - 1) / d == q as int);
                } else {
                    lemma_hoist_over_denominator(rem as int - 1, 1, d as nat);
                    lemma_basic_div(rem as int - 1, d);
                    assert((rem as int + d - 1) / d == 1);
                    assert((num + d - 1) / d == q as int + 1);
                }
            } else {
                assert(num == -(num_mag as int)) by (nonlinear_arith)
                    requires
                        num == (s_val as int) * (rate as int) * (g as int),
                        num_mag as int == (mag_s as int) * (rate as int) * (g as int),
                        s_val as int == -(mag_s as int),
                ;
                assert((-(q as int)) * d == -(d * (q as int))) by (nonlinear_arith);
                assert(num + d - 1 == (d - 1 - rem as int) + (-(q as int)) * d);
                lemma_hoist_over_denominator(d - 1 - rem as int, -(q as int), d as nat);
                assert((num + d - 1) / d == (d - 1 - rem as int) / d + (-(q as int)));
                lemma_basic_div(d - 1 - rem as int, d);
                assert((num + d - 1) / d == -(q as int));
            }
            assert(payment as int == spec_monthly_payment(
                s_val as int,
                rate as int,
                months as nat,
            ));
        }
        self.aggregates.monthly_payment = payment;
    }

    /// Derives the overpayment: total of all payments minus the loan sum.
    pub fn overpayment_calc(&mut self)
        requires
            -PAYMENT_BOUND <= old(self).aggregates.monthly_payment <= PAYMENT_BOUND,
            -(u64::MAX as int) <= old(self).aggregates.loan_sum <= u64::MAX as int,
        ensures
            final(self).aggregates.overpayment == old(self).aggregates.monthly_payment * old(
                self,
            ).params.months - old(self).aggregates.loan_sum,
            final(self).params == old(self).params,
            final(self).program == old(self).program,
            unchanged_but_overpayment(old(self).aggregates, final(self).aggregates),
    {
        let mp: i128 = self.aggregates.monthly_payment;
        let months: i128 = self.params.months as i128;
        proof {
            assert(-(255 * PAYMENT_BOUND) <= mp * months <= 255 * PAYMENT_BOUND)
                by (nonlinear_arith)
                requires
                    -PAYMENT_BOUND <= mp <= PAYMENT_BOUND,
                    0 <= months <= 255,
            ;
        }
        self.aggregates.overpayment = mp * months - self.aggregates.loan_sum;
    }
}

/// Division bounds used when assembling the payment: the quotient of the
/// payment numerator by its denominator stays well inside `i128`.
proof fn lemma_payment_division_bounds(num_mag: int, den: int, q: int)
    requires
        0 <= num_mag <= 470_391_973_879_593_566_182_500_000_000_000_000,
        den >= 1_200_000_000_000,
        q == num_mag / den,
    ensures
        0 <= q <= 391_993_311_566_327_971_818_750,
        0 <= num_mag % den < den,
{
    lemma_div_pos_is_pos(num_mag, den);
    lemma_div_is_ordered_by_denominator(num_mag, 1_200_000_000_000, den);
    lemma_div_is_ordered(num_mag, 470_391_973_879_593_566_182_500_000_000_000_000, 1_200_000_000_000);
    lemma_mod_division_less_than_divisor(num_mag, den);
}

/// The two aggregate records agree on every field but the monthly payment.
pub open spec fn unchanged_but_monthly_payment(a: Aggregates, b: Aggregates) -> bool {
    &&& b.rate == a.rate
    &&& b.loan_sum == a.loan_sum
    &&& b.overpayment == a.overpayment
    &&& b.last_payment_date@ == a.last_payment_date@
}

/// The two aggregate records agree on every field but the overpayment.
pub open spec fn unchanged_but_overpayment(a: Aggregates, b: Aggregates) -> bool {
    &&& b.rate == a.rate
    &&& b.loan_sum == a.loan_sum
    &&& b.monthly_payment == a.monthly_payment
    &&& b.last_payment_date@ == a.last_payment_date@
}

impl Mortgage {
    /// Derives the final payment date: `today` plus the loan term, rendered
    /// as `YYYY-MM-DD`.
    pub fn last_payment_date_calc(&mut self, today: Date)
        requires
            today.wf(),
            today.year + (today.month - 1 + old(self).params.months) / 12 <= MAX_YEAR,
        ensures
            final(self).aggregates.last_payment_date@ == spec_ymd(
                spec_add_months(today, old(self).params.months as int),
            ),
            final(self).params == old(self).params,
            final(self).program == old(self).program,
            unchanged_but_last_payment_date(old(self).aggregates, final(self).aggregates),
    {
        let due: Date = today.add_months(self.params.months);
        self.aggregates.last_payment_date = ymd_string(due);
    }
}

/// The validation verdict of the pipeline: the error it reports, if any.
pub open spec fn spec_validation_error(req: Request) -> Option<AppError> {
    if selected_count(req.program) > 1 {
        Some(AppError::LoanProgramMoreThanOne)
    } else if selected_count(req.program) == 0 {
        Some(AppError::LoanProgramEmpty)
    } else if !initial_payment_ok(req.object_cost, req.initial_payment) {
        Some(AppError::MinInitialPayment)
    } else {
        None
    }
}

/// The fully derived loan record of a validated request computed on `today`.
pub open spec fn spec_computed(req: Request, today: Date, m: Mortgage) -> bool {
    let loan_sum = req.object_cost - req.initial_payment;
    let rate = spec_rate(req.program, 0);
    &&& m.params == (Params {
        object_cost: req.object_cost,
        initial_payment: req.initial_payment,
        months: req.months,
    })
    &&& m.program == req.program
    &&& m.aggregates.rate == rate
    &&& m.aggregates.loan_sum == loan_sum
    &&& m.aggregates.monthly_payment == spec_monthly_payment(
        loan_sum,
        rate as int,
        req.months as nat,
    )
    &&& m.aggregates.overpayment == m.aggregates.monthly_payment * req.months - loan_sum
    &&& m.aggregates.last_payment_date@ == spec_ymd(spec_add_months(today, req.months as int))
}

/// Runs the loan computation pipeline on a request: validates the program
/// selection and the down payment, then derives the aggregates in order.
pub fn compute(req: Request, today: Date) -> (r: Result<Mortgage, AppError>)
    requires
        1 <= req.months,
        today.wf(),
        today.year + (today.month - 1 + req.months) / 12 <= MAX_YEAR,
    ensures
        r is Err <==> spec_validation_error(req) is Some,
        r matches Err(e) ==> Some(e) == spec_validation_error(req),
        r matches Ok(m) ==> spec_computed(req, today, m),
{
    let mut loan: Mortgage = Mortgage::new(req);
    match loan.loan_program_check() {
        Err(e) => {
            return Err(e);
        },
        Ok(()) => {},
    }
    match loan.min_initial_payment_check() {
        Err(e) => {
            return Err(e);
        },
        Ok(()) => {},
    }
    loan.loan_sum_calc();
    loan.rate_calc();
    loan.monthly_payment_calc();
    loan.overpayment_calc();
    loan.last_payment_date_calc(today);
    Ok(loan)
}

/// A request that selects exactly one program and clears the minimum down
/// payment passes validation, and a positive loan sum always yields a
/// positive monthly payment.
pub proof fn lemma_compute_success(req: Request)
    requires
        selected_count(req.program) == 1,
        initial_payment_ok(req.object_cost, req.initial_payment),
        1 <= req.months,
    ensures
        spec_validation_error(req) is None,
        req.object_cost > req.initial_payment ==> spec_monthly_payment(
            req.object_cost - req.initial_payment,
            spec_rate(req.program, 0) as int,
            req.months as nat,
        ) >= 1,
{
    if req.object_cost > req.initial_payment {
        lemma_monthly_payment_positive(
            req.object_cost - req.initial_payment,
            spec_rate(req.program, 0) as int,
            req.months as nat,
        );
    }
}

/// A positive loan sum yields a monthly payment of at least one unit.
pub proof fn lemma_monthly_payment_positive(loan_sum: int, rate: int, months: nat)
    requires
        loan_sum >= 1,
        1 <= rate <= 255,
        1 <= months,
    ensures
        spec_monthly_payment(loan_sum, rate, months) >= 1,
{
    lemma_growth_bounds(rate, months);
    let g = spec_growth(rate, months);
    let mu = MONTHLY_UNIT as int;
    assert(rate * mu >= mu) by (nonlinear_arith)
        requires
            rate >= 1,
            mu >= 0,
    ;
    let den = 1200 * (g - SCALE as int);
    let num = loan_sum * rate * g;
    assert(num >= 1) by (nonlinear_arith)
        requires
            loan_sum >= 1,
            rate >= 1,
            g >= 1,
            num == loan_sum * rate * g,
    ;
    lemma_div_is_ordered(den, num + den - 1, den);
    lemma_div_by_self(den);
}

/// Two loan records computed from the same request on the same current date
/// agree on every derived aggregate: the current date is the sole source of
/// variation between calls on identical parameters.
pub proof fn lemma_compute_deterministic(req: Request, today: Date, a: Mortgage, b: Mortgage)
    requires
        spec_computed(req, today, a),
        spec_computed(req, today, b),
    ensures
        a.params == b.params,
        a.program == b.program,
        a.aggregates.rate == b.aggregates.rate,
        a.aggregates.loan_sum == b.aggregates.loan_sum,
        a.aggregates.monthly_payment == b.aggregates.monthly_payment,
        a.aggregates.overpayment == b.aggregates.overpayment,
        a.aggregates.last_payment_date@ == b.aggregates.last_payment_date@,
{
}

/// The two aggregate records agree on every field but the last payment date.
pub open spec fn unchanged_but_last_payment_date(a: Aggregates, b: Aggregates) -> bool {
    &&& b.rate == a.rate
    &&& b.loan_sum == a.loan_sum
    &&& b.monthly_payment == a.monthly_payment
    &&& b.overpayment == a.overpayment
}

/// The two aggregate records agree on every field but the loan sum.
pub open spec fn unchanged_but_loan_sum(a: Aggregates, b: Aggregates) -> bool {
    &&& b.rate == a.rate
    &&& b.monthly_payment == a.monthly_payment
    &&& b.overpayment == a.overpayment
    &&& b.last_payment_date@ == a.last_payment_date@
}

/// The two aggregate records agree on every field but the rate.
pub open spec fn unchanged_but_rate(a: Aggregates, b: Aggregates) -> bool {
    &&& b.loan_sum == a.loan_sum
    &&& b.monthly_payment == a.monthly_payment
    &&& b.overpayment == a.overpayment
    &&& b.last_payment_date@ == a.last_payment_date@
}

} // verus!
