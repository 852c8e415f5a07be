use emux::params::Params;

#[test]
fn empty_params() {
    let p = Params::new();
    assert!(p.is_empty());
    assert_eq!(p.get(0, 1), 1);
}

#[test]
fn single_param() {
    let mut p = Params::new();
    for b in b"42" {
        p.push(*b);
    }
    assert_eq!(p.get(0, 0), 42);
}

#[test]
fn multiple_params() {
    let mut p = Params::new();
    for b in b"1;2;3" {
        p.push(*b);
    }
    assert_eq!(p.finished(), vec![1, 2, 3]);
}

#[test]
fn empty_param_defaults_to_zero() {
    let mut p = Params::new();
    for b in b";2;" {
        p.push(*b);
    }
    assert_eq!(p.finished(), vec![0, 2, 0]);
}

#[test]
fn overflow_clamped() {
    let mut p = Params::new();
    for b in b"999999999" {
        p.push(*b);
    }
    assert_eq!(p.get(0, 0), u16::MAX);
}

#[test]
fn max_params_limit() {
    let mut p = Params::new();
    let input = "0;".repeat(40);
    for b in input.as_bytes() {
        p.push(*b);
    }
    assert!(p.len() <= 32);
}

#[test]
fn subparam_flags_mark_colons() {
    let mut p = Params::new();
    for b in b"38:2;5" {
        p.push(*b);
    }
    assert_eq!(p.finished(), vec![38, 2, 5]);
    assert_eq!(p.finished_subparam_flags(), vec![false, true, false]);
}

#[test]
fn flags_match_values_in_number() {
    let mut p = Params::new();
    let input = "1:".repeat(40);
    for b in input.as_bytes() {
        p.push(*b);
    }
    assert_eq!(p.finished().len(), 32);
    assert_eq!(p.finished_subparam_flags().len(), p.finished().len());
    assert!(!p.finished_subparam_flags()[0]);
}

#[test]
fn get_or_treats_zero_as_default() {
    let mut p = Params::new();
    for b in b"0;7" {
        p.push(*b);
    }
    assert_eq!(p.get_or(0, 1), 1);
    assert_eq!(p.get_or(1, 1), 7);
    assert_eq!(p.get_or(5, 3), 3);
    assert_eq!(p.get(5, 3), 3);
}

#[test]
fn clear_forgets_everything() {
    let mut p = Params::new();
    for b in b"12;34" {
        p.push(*b);
    }
    p.clear();
    assert!(p.is_empty());
    assert_eq!(p.finished(), Vec::<u16>::new());
}

#[test]
fn other_bytes_are_ignored() {
    let mut p = Params::new();
    for b in b"1x2" {
        p.push(*b);
    }
    assert_eq!(p.finished(), vec![12]);
}

fn pushed(bytes: &[u8]) -> Params {
    let mut p = Params::new();
    for b in bytes {
        p.push(*b);
    }
    p
}

#[test]
fn fields_finish_to_clamped_values() {
    let p = pushed(b"1;;70000;5;");
    assert_eq!(p.finished(), vec![1, 0, 65535, 5, 0]);
    assert_eq!(p.finished_subparam_flags(), vec![false, false, false, false, false]);
}

#[test]
fn fields_past_the_limit_are_dropped() {
    let text: Vec<u8> = (0..40).map(|i| format!("{};", i)).collect::<String>().into_bytes();
    let p = pushed(&text[..text.len() - 1]);
    let expected: Vec<u16> = (0..32).collect();
    assert_eq!(p.finished(), expected);
    assert_eq!(p.finished_subparam_flags().len(), 32);
}

#[test]
fn subparam_flag_follows_each_colon() {
    let p = pushed(b"4:3;5:1:2;9");
    assert_eq!(p.finished(), vec![4, 3, 5, 1, 2, 9]);
    assert_eq!(p.finished_subparam_flags(), vec![false, true, false, true, true, false]);
}

#[test]
fn other_bytes_leave_the_fields_alone() {
    let p = pushed(b"1x;?2:3");
    assert_eq!(p.finished(), vec![1, 2, 3]);
    assert_eq!(p.finished_subparam_flags(), vec![false, false, true]);
}
