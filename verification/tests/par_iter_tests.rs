use juliaset::par_iter::dispatch;
use juliaset::par_iter::double_vector_par;
use juliaset::par_iter::double_vector_seq;
use juliaset::par_iter::format_duration_msec;
use juliaset::par_iter::generate_random_number;
use juliaset::par_iter::sum_vector_par;
use juliaset::par_iter::sum_vector_seq;
use juliaset::par_iter::ParamSet;
use juliaset::par_iter::Target;
use regex::Regex;
use std::time::Instant;

#[test]
fn test_format_duration_msec() {
    let start = Instant::now();
    let actual = format_duration_msec(&start, "Desc");
    let re = Regex::new(r"^Desc,[0-9]+msec\n$").unwrap();
    assert!(re.is_match(&actual));
}

#[test]
fn test_generate_random_number() {
    let size = 10000;
    let max_num = 3;
    let actual = generate_random_number(size, max_num);

    assert_eq!(actual.len(), size);
    let result = actual.iter().all(|&x| (x >= 0) && (x <= max_num));
    assert!(result);
}

#[test]
fn test_double_vector() {
    let xs = vec![5, 6, 7];
    let expected = vec![10, 12, 14];

    let actual_seq = double_vector_seq(&xs);
    assert_eq!(actual_seq, expected);

    let actual_par = double_vector_par(&xs);
    assert_eq!(actual_par, expected);
}

#[test]
fn test_sum_vector() {
    let xs = vec![5, 6, 7, 10, 15];
    let expected = 42;

    let actual_seq = sum_vector_seq(&xs);
    assert_eq!(actual_seq, expected);

    let actual_par = sum_vector_par(&xs);
    assert_eq!(actual_par, expected);
}

#[test]
fn test_double_vector_random() {
    for _ in 0..100 {
        let size = 10000;
        let max_num = 9;
        let xs = generate_random_number(size, max_num);

        let actual_seq = double_vector_seq(&xs);
        let actual_par = double_vector_par(&xs);
        assert_eq!(actual_seq, actual_par);
    }
}

#[test]
fn test_sum_vector_random() {
    for _ in 0..100 {
        let size = 10000;
        let max_num = 99;
        let xs = generate_random_number(size, max_num);

        let sum_seq = sum_vector_seq(&xs);
        let sum_par = sum_vector_par(&xs);
        assert_eq!(sum_seq, sum_par);
        assert_eq!(sum_seq % 2, 0);
        assert_eq!(sum_seq % 3, 0);
    }
}

#[test]
fn test_param_set() {
    let n_trials = 2;
    let vec_len = 4;
    let max_num = 6;
    let target = Target::Sum;
    let expected = Target::Sum;

    let actual = ParamSet::new(n_trials, vec_len, max_num, target);
    assert_eq!(actual.n_trials, n_trials);
    assert_eq!(actual.vec_len, vec_len);
    assert_eq!(actual.max_num, max_num);
    assert_eq!(actual.target, expected);
}

#[test]
fn test_dispatch() {
    let n_trials = 33;
    let targets = vec![Target::All, Target::Double, Target::Sum];

    for target in targets {
        let n_items = if target == Target::All { 4 } else { 2 };

        let params = ParamSet::new(n_trials, 10, 6, target);
        let re = Regex::new(r"^[^0-9,]+,[0-9]+msec$").unwrap();
        let actual = dispatch(&params);
        let lines: Vec<&str> = actual.lines().collect();

        assert_eq!(n_trials * n_items, lines.len());
        assert!(lines.iter().all(|&line| re.is_match(line)));

        let n_double_seq = lines
            .iter()
            .filter(|&line| line.starts_with("double_vector_seq"))
            .count();
        let n_double_par = lines
            .iter()
            .filter(|&line| line.starts_with("double_vector_par"))
            .count();
        let n_sum_seq = lines
            .iter()
            .filter(|&line| line.starts_with("sum_vector_seq"))
            .count();
        let n_sum_par = lines
            .iter()
            .filter(|&line| line.starts_with("sum_vector_par"))
            .count();

        let has_double = if (params.target == Target::All) || (params.target == Target::Double) {
            1
        } else {
            0
        };

        let has_sum = if (params.target == Target::All) || (params.target == Target::Sum) {
            1
        } else {
            0
        };

        assert_eq!(n_double_seq, n_trials * has_double);
        assert_eq!(n_double_par, n_trials * has_double);
        assert_eq!(n_sum_seq, n_trials * has_sum);
        assert_eq!(n_sum_par, n_trials * has_sum);
    }
}
