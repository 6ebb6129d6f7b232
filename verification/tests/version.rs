use pydist::error::ProvisionError;
use pydist::process::ToolOutcome;
use pydist::text::char_is_whitespace;
use pydist::version::{default_python_version, python_version_from_str, version_probe_command, VersionTriple};

fn triple(major: u64, minor: u64, patch: u64) -> VersionTriple {
    VersionTriple { major, minor, patch }
}

fn invalid(input: &str) -> Result<VersionTriple, ProvisionError> {
    Err(ProvisionError::InvalidFormat { input: input.to_string() })
}

/// The same reading done with the standard library alone.
fn read_with_std(s: &str) -> Option<VersionTriple> {
    let parts: Vec<&str> = s.trim().split('.').collect();
    if parts.len() != 3 {
        return None;
    }
    Some(triple(parts[0].parse().ok()?, parts[1].parse().ok()?, parts[2].parse().ok()?))
}

#[test]
fn reads_three_numbers() {
    assert_eq!(python_version_from_str("3.9.7"), Ok(triple(3, 9, 7)));
    assert_eq!(python_version_from_str("3.10.0"), Ok(triple(3, 10, 0)));
    assert_eq!(python_version_from_str("0.0.0"), Ok(triple(0, 0, 0)));
    assert_eq!(python_version_from_str("1.2.3"), Ok(triple(1, 2, 3)));
}

#[test]
fn refuses_two_components() {
    assert_eq!(python_version_from_str("3.9"), invalid("3.9"));
}

#[test]
fn refuses_four_components() {
    assert_eq!(python_version_from_str("3.9.7.1"), invalid("3.9.7.1"));
}

#[test]
fn refuses_letters() {
    assert_eq!(python_version_from_str("a.b.c"), invalid("a.b.c"));
    assert_eq!(python_version_from_str("3.9.7a"), invalid("3.9.7a"));
    assert_eq!(python_version_from_str("3.x.7"), invalid("3.x.7"));
}

#[test]
fn refuses_empty_components() {
    assert_eq!(python_version_from_str(""), invalid(""));
    assert_eq!(python_version_from_str("."), invalid("."));
    assert_eq!(python_version_from_str(".."), invalid(".."));
    assert_eq!(python_version_from_str("3..7"), invalid("3..7"));
    assert_eq!(python_version_from_str("3.9."), invalid("3.9."));
    assert_eq!(python_version_from_str(".9.7"), invalid(".9.7"));
}

#[test]
fn refuses_signs_other_than_plus() {
    assert_eq!(python_version_from_str("-3.9.7"), invalid("-3.9.7"));
    assert_eq!(python_version_from_str("3.-9.7"), invalid("3.-9.7"));
    assert_eq!(python_version_from_str("+.9.7"), invalid("+.9.7"));
    assert_eq!(python_version_from_str("++3.9.7"), invalid("++3.9.7"));
}

#[test]
fn accepts_plus_and_leading_zeros() {
    assert_eq!(python_version_from_str("+3.9.7"), Ok(triple(3, 9, 7)));
    assert_eq!(python_version_from_str("3.+9.+7"), Ok(triple(3, 9, 7)));
    assert_eq!(python_version_from_str("03.09.007"), Ok(triple(3, 9, 7)));
    assert_eq!(python_version_from_str("000000000000000000003.9.7"), Ok(triple(3, 9, 7)));
}

#[test]
fn numbers_are_not_held_to_sixteen_bits() {
    assert_eq!(python_version_from_str("3.9.70000"), Ok(triple(3, 9, 70000)));
    assert_eq!(python_version_from_str("3.9.70000").unwrap().text(), "3.9.70000");
    assert_eq!(python_version_from_str("65535.65535.65535"), Ok(triple(65535, 65535, 65535)));
    assert_eq!(python_version_from_str("65536.0.0"), Ok(triple(65536, 0, 0)));
    assert_eq!(python_version_from_str("3.4294967296.0"), Ok(triple(3, 4294967296, 0)));
}

#[test]
fn numbers_up_to_the_widest_integer_are_read() {
    let max = u64::MAX;
    assert_eq!(
        python_version_from_str("18446744073709551615.18446744073709551615.18446744073709551615"),
        Ok(triple(max, max, max))
    );
    assert_eq!(triple(max, 0, max).text(), "18446744073709551615.0.18446744073709551615");
    assert_eq!(python_version_from_str("3.9.18446744073709551616"), invalid("3.9.18446744073709551616"));
    assert_eq!(python_version_from_str("18446744073709551620.0.0"), invalid("18446744073709551620.0.0"));
    assert_eq!(
        python_version_from_str("3.9.99999999999999999999999999"),
        invalid("3.9.99999999999999999999999999")
    );
}

#[test]
fn ignores_surrounding_white_space() {
    assert_eq!(python_version_from_str("3.9.7\n"), Ok(triple(3, 9, 7)));
    assert_eq!(python_version_from_str("3.9.7\r\n"), Ok(triple(3, 9, 7)));
    assert_eq!(python_version_from_str("  \t3.9.7 \u{a0}\u{3000}"), Ok(triple(3, 9, 7)));
    assert_eq!(python_version_from_str("3. 9.7"), invalid("3. 9.7"));
    assert_eq!(python_version_from_str("3 .9.7"), invalid("3 .9.7"));
    assert_eq!(python_version_from_str("   "), invalid("   "));
}

#[test]
fn invalid_format_carries_the_input_as_given() {
    match python_version_from_str("  3.9  ") {
        Err(ProvisionError::InvalidFormat { input }) => assert_eq!(input, "  3.9  "),
        other => panic!("unexpected: {:?}", other),
    }
}

#[test]
fn white_space_is_what_std_calls_white_space() {
    let mut code: u32 = 0;
    while code <= 0x10ffff {
        if let Some(c) = char::from_u32(code) {
            assert_eq!(char_is_whitespace(c), c.is_whitespace(), "U+{:04X}", code);
        }
        code += 1;
    }
}

#[test]
fn reading_agrees_with_std() {
    let samples = [
        "3.9.7", "3.9", "3.9.7.1", "a.b.c", "", " ", ".", "..", "...", "1.2.3\n", "\t1.2.3", "+1.+2.+3",
        "-1.2.3", "1.2.3-", "00.00.00", "65535.1.1", "65536.1.1", "1.65535.1", "1.1.65536", "1,2,3",
        "1.2.3 4", "１.２.３", "1.2.٣", "3.9.7\u{85}", "\u{2003}3.9.7", "3.9.7\u{200b}", "+.1.1", "1.+.1",
        "4294967296.0.0", "18446744073709551615.0.0", "18446744073709551616.0.0", "1.2.3.", ".1.2.3",
        "1..3", "0x1.2.3", "1e1.2.3", "3.9.70000", "0.0.184467440737095516150",
    ];
    for s in samples.iter() {
        assert_eq!(python_version_from_str(s).ok(), read_with_std(s), "input {:?}", s);
    }
}

#[test]
fn writes_as_dotted_triple() {
    assert_eq!(triple(3, 9, 7).text(), "3.9.7");
    assert_eq!(triple(3, 10, 0).text(), "3.10.0");
    assert_eq!(triple(0, 0, 0).text(), "0.0.0");
    assert_eq!(triple(65535, 100, 10).text(), "65535.100.10");
    assert_eq!(triple(3, 9, 70000).text(), "3.9.70000");
}

#[test]
fn write_then_read_is_identity() {
    let numbers: [u64; 12] = [0, 1, 7, 9, 10, 11, 99, 100, 65535, 65536, 4294967296, u64::MAX];
    for &major in numbers.iter() {
        for &minor in numbers.iter() {
            for &patch in numbers.iter() {
                let v = triple(major, minor, patch);
                assert_eq!(python_version_from_str(&v.text()), Ok(v));
            }
        }
    }
}

#[test]
fn read_then_write_is_identity_on_well_formed_text() {
    let samples = [
        "3.9.7", "3.10.12", "0.0.0", "10.0.1", "65535.65535.65535", "2.7.18", "3.9.70000",
        "18446744073709551615.0.1",
    ];
    for s in samples.iter() {
        let v = python_version_from_str(s).unwrap();
        assert_eq!(&v.text(), s);
    }
}

#[test]
fn read_then_write_drops_what_is_not_canonical() {
    assert_eq!(python_version_from_str("03.9.7").unwrap().text(), "3.9.7");
    assert_eq!(python_version_from_str("+3.9.7").unwrap().text(), "3.9.7");
    assert_eq!(python_version_from_str(" 3.9.7\n").unwrap().text(), "3.9.7");
}

#[test]
fn probe_asks_the_host_interpreter() {
    let command = version_probe_command();
    assert_eq!(command.program, "python");
    assert_eq!(
        command.args,
        vec![
            "-c".to_string(),
            "import sys; print('.'.join(str(x) for x in sys.version_info[:3]))".to_string(),
        ]
    );
    assert_eq!(command.search_path, None);
}

#[test]
fn probe_output_is_read_as_version() {
    let outcome = ToolOutcome::Exited {
        success: true,
        stdout: "3.9.7\n".to_string(),
        stderr: String::new(),
    };
    assert_eq!(default_python_version(&outcome), Ok(triple(3, 9, 7)));
    let windows = ToolOutcome::Exited {
        success: true,
        stdout: "3.11.4\r\n".to_string(),
        stderr: "warning".to_string(),
    };
    assert_eq!(default_python_version(&windows), Ok(triple(3, 11, 4)));
}

#[test]
fn probe_output_that_is_no_version_is_invalid_format() {
    let outcome = ToolOutcome::Exited {
        success: true,
        stdout: "Python 3.9.7\n".to_string(),
        stderr: String::new(),
    };
    assert_eq!(default_python_version(&outcome), invalid("Python 3.9.7\n"));
}

#[test]
fn probe_that_fails_is_external_tool_error() {
    let outcome = ToolOutcome::Exited {
        success: false,
        stdout: "3.9.7\n".to_string(),
        stderr: "boom".to_string(),
    };
    assert_eq!(
        default_python_version(&outcome),
        Err(ProvisionError::ExternalToolError {
            program: "python".to_string(),
            stdout: "3.9.7\n".to_string(),
            stderr: "boom".to_string(),
        })
    );
}

#[test]
fn probe_that_does_not_start_is_external_tool_error() {
    let outcome = ToolOutcome::NotStarted { reason: "No such file or directory".to_string() };
    assert_eq!(
        default_python_version(&outcome),
        Err(ProvisionError::ExternalToolError {
            program: "python".to_string(),
            stdout: String::new(),
            stderr: "No such file or directory".to_string(),
        })
    );
}
