//! Doubling and summing numeric vectors, sequentially and across worker
//! threads, with the timing harness around them.

use rand::Rng;
use rayon::iter::IntoParallelRefIterator;
use rayon::iter::ParallelIterator;
use vstd::prelude::*;

verus! {

#[verifier::external_type_specification]
#[verifier::external_body]
pub struct ExInstant(std::time::Instant);

#[verifier::external_type_specification]
#[verifier::external_body]
pub struct ExThreadRng(rand::rngs::ThreadRng);

/// Which vector operations a run measures.
#[derive(Debug, PartialEq, Eq, Structural, Clone, Copy)]
pub enum Target {
    All,
    Double,
    Sum,
}

/// A parameter set for one run: how many trials, the length of the input
/// vector, the largest element value, and the operations to measure.
pub struct ParamSet {
    pub n_trials: usize,
    pub vec_len: usize,
    pub max_num: i64,
    pub target: Target,
}

impl ParamSet {
    /// Creates a new instance holding exactly the given values.
    pub fn new(n_trials: usize, vec_len: usize, max_num: i64, target: Target) -> (r: ParamSet)
        ensures
            r.n_trials == n_trials,
            r.vec_len == vec_len,
            r.max_num == max_num,
            r.target == target,
    {
        ParamSet { n_trials, vec_len, max_num, target }
    }
}

/// The largest element magnitude the vector operations accept without
/// overflowing their sums.
pub open spec fn element_bound() -> int {
    0x1_0000_0000
}

/// Whether every element of the vector is small enough to double and sum.
pub open spec fn elements_bounded(s: Seq<i64>) -> bool {
    forall|i: int| 0 <= i < s.len() ==> -element_bound() <= #[trigger] s[i] <= element_bound()
}

/// Doubles one element.
fn double_one(x: i64) -> (r: i64)
    requires
        -element_bound() <= x <= element_bound(),
    ensures
        r == 2 * x,
{
    x * 2
}

/// Returns the vector with every element doubled, computed on this thread.
pub fn double_vector_seq(xs: &Vec<i64>) -> (r: Vec<i64>)
    requires
        elements_bounded(xs@),
    ensures
        r@.len() == xs@.len(),
        forall|i: int| 0 <= i < xs@.len() ==> #[trigger] r@[i] == 2 * xs@[i],
{
    let mut out: Vec<i64> = Vec::new();
    let mut i: usize = 0;
    while i < xs.len()
        invariant
            i <= xs@.len(),
            elements_bounded(xs@),
            out@.len() == i,
            forall|k: int| 0 <= k < i ==> #[trigger] out@[k] == 2 * xs@[k],
        decreases xs@.len() - i,
    {
        out.push(double_one(xs[i]));
        i = i + 1;
    }
    out
}

/// Relies on rayon's parallel iterator: mapping a function over the elements
/// and collecting preserves length and order, so each output element is the
/// double of the input element at its position.
#[verifier::external_body]
pub fn double_vector_par(xs: &Vec<i64>) -> (r: Vec<i64>)
    requires
        elements_bounded(xs@),
    ensures
        r@.len() == xs@.len(),
        forall|i: int| 0 <= i < xs@.len() ==> #[trigger] r@[i] == 2 * xs@[i],
{
    xs.par_iter().map(|x| double_one(*x)).collect()
}

/// Whether a doubled element is kept by the sum: divisible by three.
pub open spec fn keeps_multiple(x: i64) -> bool {
    (2 * x) % 3 == 0
}

/// The sum of the doubled elements divisible by three.
pub open spec fn sum_doubled(s: Seq<i64>) -> int
    decreases s.len(),
{
    if s.len() == 0 {
        0
    } else {
        sum_doubled(s.drop_last()) + if keeps_multiple(s.last()) {
            2 * s.last()
        } else {
            0
        }
    }
}

/// Tests whether a value is divisible by three.
fn multiple_of_three(d: i64) -> (r: bool)
    requires
        -(2 * element_bound()) <= d <= 2 * element_bound(),
    ensures
        r == ((d as int) % 3 == 0),
{
    let m: i64 = if d < 0 {
        (-d) % 3
    } else {
        d % 3
    };
    proof {
        if d < 0 {
            assert((((-d) as int) % 3 == 0) <==> ((d as int) % 3 == 0)) by (nonlinear_arith);
        }
    }
    m == 0
}

/// Tests whether a doubled element is divisible by three.
fn keeps(x: i64) -> (r: bool)
    requires
        -element_bound() <= x <= element_bound(),
    ensures
        r == keeps_multiple(x),
{
    multiple_of_three(double_one(x))
}

/// Returns the sum of the doubled elements divisible by three, computed on
/// this thread.
pub fn sum_vector_seq(xs: &Vec<i64>) -> (r: i64)
    requires
        elements_bounded(xs@),
        xs@.len() <= 0x1000_0000,
    ensures
        r == sum_doubled(xs@),
{
    let mut acc: i64 = 0;
    let mut i: usize = 0;
    proof {
        assert(xs@.take(0) =~= Seq::<i64>::empty());
    }
    while i < xs.len()
        invariant
            i <= xs@.len(),
            xs@.len() <= 0x1000_0000,
            elements_bounded(xs@),
            acc == sum_doubled(xs@.take(i as int)),
            -(i * 2 * element_bound()) <= acc <= i * 2 * element_bound(),
        decreases xs@.len() - i,
    {
        proof {
            assert(xs@.take(i as int + 1).drop_last() =~= xs@.take(i as int));
            assert(xs@.take(i as int + 1).last() == xs@[i as int]);
        }
        let x = xs[i];
        if keeps(x) {
            acc = acc + double_one(x);
        }
        i = i + 1;
    }
    proof {
        assert(xs@.take(xs@.len() as int) =~= xs@);
    }
    acc
}

/// Relies on rayon's parallel iterator: mapping, filtering and summing visit
/// every element exactly once, and integer addition lets the partial sums
/// combine to the same total as a left-to-right sum.
#[verifier::external_body]
pub fn sum_vector_par(xs: &Vec<i64>) -> (r: i64)
    requires
        elements_bounded(xs@),
        xs@.len() <= 0x1000_0000,
    ensures
        r == sum_doubled(xs@),
{
    xs.par_iter().map(|x| double_one(*x)).filter(|d| multiple_of_three(*d)).sum()
}

/// Relies on rand::thread_rng for a generator seeded by the system.
#[verifier::external_body]
fn fresh_rng() -> rand::rngs::ThreadRng {
    rand::thread_rng()
}

/// Relies on Rng::gen_range, which returns a value of the given inclusive
/// range and faults only when the range is empty.
#[verifier::external_body]
fn sample_up_to(rng: &mut rand::rngs::ThreadRng, max_num: i64) -> (r: i64)
    requires
        max_num >= 0,
    ensures
        0 <= r <= max_num,
{
    rng.gen_range(0..=max_num)
}

/// Returns a vector of the given length whose elements are drawn between
/// zero and the given bound, both inclusive.
pub fn generate_random_number(size: usize, max_num: i64) -> (r: Vec<i64>)
    requires
        max_num >= 0,
    ensures
        r@.len() == size,
        forall|i: int| 0 <= i < size ==> 0 <= #[trigger] r@[i] <= max_num,
{
    let mut rng = fresh_rng();
    let mut xs: Vec<i64> = Vec::new();
    let mut i: usize = 0;
    while i < size
        invariant
            i <= size,
            max_num >= 0,
            xs@.len() == i,
            forall|k: int| 0 <= k < i ==> 0 <= #[trigger] xs@[k] <= max_num,
        decreases size - i,
    {
        xs.push(sample_up_to(&mut rng, max_num));
        i = i + 1;
    }
    xs
}

/// The character of one decimal digit.
pub open spec fn digit_char(d: nat) -> char {
    ((48 + d) as u8) as char
}

/// The decimal digit characters of a number, most significant first.
pub open spec fn dec_chars(n: nat) -> Seq<char>
    decreases n,
{
    if n < 10 {
        seq![digit_char(n)]
    } else {
        dec_chars(n / 10).push(digit_char(n % 10))
    }
}

/// Relies on String::push, which appends one character.
#[verifier::external_body]
fn push_char(s: &mut String, c: char)
    ensures
        final(s)@ == old(s)@ + seq![c],
{
    s.push(c);
}

/// Appends the decimal digit characters of a number.
fn push_decimal_chars(out: &mut String, n: u128)
    ensures
        final(out)@ == old(out)@ + dec_chars(n as nat),
    decreases n,
{
    if n >= 10 {
        push_decimal_chars(out, n / 10);
    }
    push_char(out, (48 + (n % 10) as u8) as char);
    proof {
        assert(final(out)@ =~= old(out)@ + dec_chars(n as nat));
    }
}

/// One report line: a description, a comma, a duration in milliseconds, and
/// the unit.
pub open spec fn msec_line(description: Seq<char>, ms: nat) -> Seq<char> {
    description + seq![','] + dec_chars(ms) + "msec\n"@
}

/// Relies on Instant::now for the current moment.
#[verifier::external_body]
fn instant_now() -> std::time::Instant {
    std::time::Instant::now()
}

/// Relies on Instant::elapsed and Duration::as_millis for the milliseconds
/// since the moment; how many depends on the clock, so nothing is promised
/// of the value.
#[verifier::external_body]
fn elapsed_millis(start: &std::time::Instant) -> u128 {
    start.elapsed().as_millis()
}

/// Returns one report line: the description, then how many milliseconds have
/// passed since the given moment.
pub fn format_duration_msec(start: &std::time::Instant, description: &str) -> (r: String)
    ensures
        exists|ms: nat| r@ == msec_line(description@, ms),
{
    let ms = elapsed_millis(start);
    let mut out = String::new();
    out.append(description);
    push_char(&mut out, ',');
    push_decimal_chars(&mut out, ms);
    out.append("msec\n");
    proof {
        assert(out@ =~= msec_line(description@, ms as nat));
    }
    out
}

/// Whether a run with this target measures the doubling operations.
pub open spec fn runs_double(target: Target) -> bool {
    target == Target::All || target == Target::Double
}

/// Whether a run with this target measures the summing operations.
pub open spec fn runs_sum(target: Target) -> bool {
    target == Target::All || target == Target::Sum
}

/// The report lines of one trial, given the four measured durations: the
/// doubling pair first, then the summing pair, each only when the target
/// selects it.
pub open spec fn trial_chars(target: Target, ms: Seq<nat>) -> Seq<char> {
    (if runs_double(target) {
        msec_line("double_vector_seq"@, ms[0]) + msec_line("double_vector_par"@, ms[1])
    } else {
        Seq::empty()
    }) + (if runs_sum(target) {
        msec_line("sum_vector_seq"@, ms[2]) + msec_line("sum_vector_par"@, ms[3])
    } else {
        Seq::empty()
    })
}

/// The whole report of a run: the lines of each trial in order, the trial at
/// index `t` reading its four durations at positions `4 t` onward.
pub open spec fn dispatch_chars(target: Target, ms: Seq<nat>, trials: int) -> Seq<char>
    decreases trials,
{
    if trials <= 0 {
        Seq::empty()
    } else {
        dispatch_chars(target, ms, trials - 1) + trial_chars(
            target,
            ms.subrange(4 * (trials - 1), 4 * trials),
        )
    }
}

proof fn lemma_dispatch_chars_extend(target: Target, ms1: Seq<nat>, ms2: Seq<nat>, trials: int)
    requires
        0 <= 4 * trials <= ms1.len() <= ms2.len(),
        forall|i: int| 0 <= i < ms1.len() ==> ms1[i] == ms2[i],
    ensures
        dispatch_chars(target, ms1, trials) == dispatch_chars(target, ms2, trials),
    decreases trials,
{
    if trials > 0 {
        lemma_dispatch_chars_extend(target, ms1, ms2, trials - 1);
        assert(ms1.subrange(4 * (trials - 1), 4 * trials) =~= ms2.subrange(
            4 * (trials - 1),
            4 * trials,
        ));
    }
}

/// Runs the selected vector operations for the requested number of trials on
/// fresh random vectors, and returns the report: for some sequence of
/// measured durations, one line per measured operation, in trial order.
pub fn dispatch(params: &ParamSet) -> (log: String)
    requires
        0 <= params.max_num <= element_bound(),
        params.vec_len <= 0x1000_0000,
    ensures
        exists|ms: Seq<nat>|
            ms.len() == 4 * params.n_trials && log@ == dispatch_chars(
                params.target,
                ms,
                params.n_trials as int,
            ),
{
    let mut log = String::new();
    let ghost mut ms: Seq<nat> = Seq::empty();
    let mut t: usize = 0;
    proof {
        assert(log@ =~= Seq::<char>::empty());
    }
    while t < params.n_trials
        invariant
            t <= params.n_trials,
            0 <= params.max_num <= element_bound(),
            params.vec_len <= 0x1000_0000,
            ms.len() == 4 * t,
            log@ == dispatch_chars(params.target, ms, t as int),
        decreases params.n_trials - t,
    {
        let ghost log_pre = log@;
        let ghost ms_pre = ms;
        let xs = generate_random_number(params.vec_len, params.max_num);
        let ghost mut m0: nat = 0;
        let ghost mut m1: nat = 0;
        let ghost mut m2: nat = 0;
        let ghost mut m3: nat = 0;
        let run_d = match params.target {
            Target::All => true,
            Target::Double => true,
            Target::Sum => false,
        };
        let run_s = match params.target {
            Target::All => true,
            Target::Sum => true,
            Target::Double => false,
        };
        if run_d {
            let start_double_seq = instant_now();
            let _ = double_vector_seq(&xs);
            let line = format_duration_msec(&start_double_seq, "double_vector_seq");
            proof {
                m0 = choose|m: nat| line@ == msec_line("double_vector_seq"@, m);
            }
            log.append(line.as_str());

            let start_double_par = instant_now();
            let _ = double_vector_par(&xs);
            let line_par = format_duration_msec(&start_double_par, "double_vector_par");
            proof {
                m1 = choose|m: nat| line_par@ == msec_line("double_vector_par"@, m);
            }
            log.append(line_par.as_str());
        }
        if run_s {
            let start_sum_seq = instant_now();
            let _ = sum_vector_seq(&xs);
            let line = format_duration_msec(&start_sum_seq, "sum_vector_seq");
            proof {
                m2 = choose|m: nat| line@ == msec_line("sum_vector_seq"@, m);
            }
            log.append(line.as_str());

            let start_sum_par = instant_now();
            let _ = sum_vector_par(&xs);
            let line_par = format_duration_msec(&start_sum_par, "sum_vector_par");
            proof {
                m3 = choose|m: nat| line_par@ == msec_line("sum_vector_par"@, m);
            }
            log.append(line_par.as_str());
        }
        proof {
            let slot = seq![m0, m1, m2, m3];
            ms = ms_pre + slot;
            lemma_dispatch_chars_extend(params.target, ms_pre, ms, t as int);
            assert(ms.subrange(4 * (t as int), 4 * (t as int) + 4) =~= slot);
            assert(log@ =~= log_pre + trial_chars(params.target, slot));
            assert(log@ == dispatch_chars(params.target, ms, t as int + 1));
        }
        t = t + 1;
    }
    log
}

} // verus!
