use unix_mode::mode::{S_ISGID, S_ISUID, S_ISVTX, S_IXGRP, S_IXOTH, S_IXUSR};
use unix_mode::{format_mode, Mode};

#[test]
fn format_scenarios() {
    assert_eq!(format_mode(Mode::new(0o000)), "000: ---------");
    assert_eq!(format_mode(Mode::new(0o644)), "644: rw-r--r--");
    assert_eq!(format_mode(Mode::new(0o1712)), "1712: rwx--x-wT");
    assert_eq!(format_mode(Mode::new(0o7777)), "7777: rwsrwsrwt");
}

#[test]
fn formatting_twice_gives_the_same_text() {
    for v in [0usize, 0o7, 0o644, 0o1712, 0o7777, 0o123456, usize::MAX] {
        let mode = Mode::new(v);
        let first = format_mode(mode);
        let second = format_mode(mode);
        assert_eq!(first, second);
        assert_eq!(first, mode.to_string());
        assert_eq!(mode.value(), v);
    }
}

#[test]
fn octal_part_is_padded_to_three_digits() {
    assert_eq!(format_mode(Mode::new(0o1)), "001: --------x");
    assert_eq!(format_mode(Mode::new(0o7)), "007: ------rwx");
    assert_eq!(format_mode(Mode::new(0o10)), "010: -----x---");
    assert_eq!(format_mode(Mode::new(0o77)), "077: ---rwxrwx");
    assert_eq!(format_mode(Mode::new(0o100)), "100: --x------");
}

#[test]
fn wide_values_keep_their_digits() {
    assert_eq!(format_mode(Mode::new(0o10000)), "10000: ---------");
    assert_eq!(format_mode(Mode::new(0o12345)), "12345: -wxr-Sr-x");
    assert_eq!(format_mode(Mode::new(0o10755)), "10755: rwxr-xr-x");
    assert_eq!(format_mode(Mode::new(0o777777777)), "777777777: rwsrwsrwt");
}

#[test]
fn octal_part_matches_std_formatting() {
    for v in (0..=0o17777usize).chain([usize::MAX, usize::MAX / 8, 1 << 31]) {
        let shown = format_mode(Mode::new(v));
        let octal = shown.split(": ").next().unwrap();
        assert_eq!(octal, format!("{:03o}", v));
    }
}

#[test]
fn base_triplets() {
    let table = ["---", "--x", "-w-", "-wx", "r--", "r-x", "rw-", "rwx"];
    for (index, expected) in table.iter().enumerate() {
        assert_eq!(Mode::new(index).permission(0), *expected);
        assert_eq!(Mode::new(index << 3).permission(3), *expected);
        assert_eq!(Mode::new(index << 6).permission(6), *expected);
        assert_eq!(Mode::new(index).other(), *expected);
        assert_eq!(Mode::new(index << 3).group(), *expected);
        assert_eq!(Mode::new(index << 6).user(), *expected);
    }
}

#[test]
fn permission_ignores_the_special_bits() {
    assert_eq!(Mode::new(0o7777).permission(6), "rwx");
    assert_eq!(Mode::new(0o7000).permission(6), "---");
    assert_eq!(Mode::new(0o7000).permission(9), "rwx");
}

#[test]
fn special_bits_replace_the_third_character() {
    assert_eq!(Mode::new(0o4700).user(), "rws");
    assert_eq!(Mode::new(0o4600).user(), "rwS");
    assert_eq!(Mode::new(0o4000).user(), "--S");
    assert_eq!(Mode::new(0o4100).user(), "--s");
    assert_eq!(Mode::new(0o2070).group(), "rws");
    assert_eq!(Mode::new(0o2060).group(), "rwS");
    assert_eq!(Mode::new(0o2050).group(), "r-s");
    assert_eq!(Mode::new(0o1007).other(), "rwt");
    assert_eq!(Mode::new(0o1006).other(), "rwT");
    assert_eq!(Mode::new(0o1003).other(), "-wt");
}

#[test]
fn special_bits_touch_only_their_own_triplet() {
    assert_eq!(Mode::new(0o4777).group(), "rwx");
    assert_eq!(Mode::new(0o4777).other(), "rwx");
    assert_eq!(Mode::new(0o2777).user(), "rwx");
    assert_eq!(Mode::new(0o2777).other(), "rwx");
    assert_eq!(Mode::new(0o1777).user(), "rwx");
    assert_eq!(Mode::new(0o1777).group(), "rwx");
}

#[test]
fn bit_tests() {
    let mode = Mode::new(0o4711);
    assert!(mode.is_suid());
    assert!(!mode.is_sgid());
    assert!(!mode.is_sticky());
    assert!(mode.is_exec(S_IXUSR));
    assert!(mode.is_exec(S_IXGRP));
    assert!(mode.is_exec(S_IXOTH));
    let mode = Mode::new(0o3660);
    assert!(!mode.is_suid());
    assert!(mode.is_sgid());
    assert!(mode.is_sticky());
    assert!(!mode.is_exec(S_IXUSR));
    assert!(!mode.is_exec(S_IXGRP));
    assert!(!mode.is_exec(S_IXOTH));
    assert_eq!((S_ISUID, S_ISGID, S_ISVTX), (0o4000, 0o2000, 0o1000));
}

#[test]
fn set_bits_adds_bits_and_keeps_the_rest() {
    let mut mode = Mode::new(0o600);
    mode.set_bits(0o044);
    assert_eq!(mode.value(), 0o644);
    mode.set_bits(0o600);
    assert_eq!(mode.value(), 0o644);
    mode.set_bits(0);
    assert_eq!(mode.value(), 0o644);
    mode.set_bits(S_ISUID);
    assert_eq!(mode.value(), 0o4644);
}

#[test]
fn equal_bits_make_equal_modes() {
    assert_eq!(Mode::new(0o755), Mode::new(0o755));
    assert_ne!(Mode::new(0o755), Mode::new(0o754));
}
