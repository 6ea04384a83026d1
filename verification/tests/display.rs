use std::str::FromStr;
use unix_mode::{Error, Mode, ModeType};

#[test]
fn test_display_from_octal() {
    let tests = vec![
        (0o000, "000: ---------"),
        (0o644, "644: rw-r--r--"),
        (0o755, "755: rwxr-xr-x"),
        (0o0000, "000: ---------"),
        (0o0644, "644: rw-r--r--"),
        (0o0755, "755: rwxr-xr-x"),
        (0o1712, "1712: rwx--x-wT"),
        (0o1000, "1000: --------T"),
        (0o1001, "1001: --------t"),
        (0o2000, "2000: -----S---"),
        (0o2010, "2010: -----s---"),
        (0o4000, "4000: --S------"),
        (0o4100, "4100: --s------"),
        (0o7666, "7666: rwSrwSrwT"),
        (0o7777, "7777: rwsrwsrwt"),
    ];

    for test in tests {
        let input = test.0;
        let expected = test.1;
        let mode = Mode::new(input).to_string();

        assert_eq!(expected, mode)
    }
}

#[test]
fn test_display_from_string() {
    let tests = vec![
        ("000", "000: ---------"),
        ("644", "644: rw-r--r--"),
        ("755", "755: rwxr-xr-x"),
        ("0000", "000: ---------"),
        ("0111", "111: --x--x--x"),
        ("0222", "222: -w--w--w-"),
        ("0333", "333: -wx-wx-wx"),
        ("0444", "444: r--r--r--"),
        ("0555", "555: r-xr-xr-x"),
        ("0644", "644: rw-r--r--"),
        ("0666", "666: rw-rw-rw-"),
        ("0755", "755: rwxr-xr-x"),
        ("0777", "777: rwxrwxrwx"),
        ("1712", "1712: rwx--x-wT"),
        ("1000", "1000: --------T"),
        ("2000", "2000: -----S---"),
        ("4000", "4000: --S------"),
        ("1001", "1001: --------t"),
        ("2010", "2010: -----s---"),
        ("4100", "4100: --s------"),
        ("7666", "7666: rwSrwSrwT"),
        ("7777", "7777: rwsrwsrwt"),
        ("755 ", "755: rwxr-xr-x"),
        (" 755", "755: rwxr-xr-x"),
        (" 755 ", "755: rwxr-xr-x"),
        ("rwxrwxrwx", "777: rwxrwxrwx"),
        ("rwSrwSrwT", "7666: rwSrwSrwT"),
        ("rwsrwsrwt", "7777: rwsrwsrwt"),
    ];

    for test in tests {
        let input = test.0;
        let expected = test.1;
        let mode = Mode::from_str(input).unwrap().to_string();

        assert_eq!(expected, mode)
    }
}

#[test]
fn test_from_str_ok() {
    let tests = vec![
        ("777", Ok(ModeType::OctalNumeric)),
        ("4755", Ok(ModeType::OctalNumeric)),
        ("4758", Err(Error::InvalidModeString)),
        ("rwxrwxrwx", Ok(ModeType::FileMode)),
        ("rwsrwsrwt", Ok(ModeType::FileMode)),
        ("rwSrwSrwT", Ok(ModeType::FileMode)),
        ("rwSrwSrwz", Err(Error::InvalidModeString)),
    ];

    for test in tests {
        let input = test.0;
        let expected = test.1;
        let mode_type = ModeType::from_str(input);

        assert_eq!(expected, mode_type)
    }
}
