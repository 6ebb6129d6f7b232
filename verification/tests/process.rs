use pydist::bootstrap::{bootstrap_command, bootstrap_script_path};
use pydist::error::ProvisionError;
use pydist::paths::PathStyle;
use pydist::process::{check_tool, Invocation, ToolOutcome};
use pydist::requirements::requirements_command;

fn exited(success: bool, stdout: &str, stderr: &str) -> ToolOutcome {
    ToolOutcome::Exited { success, stdout: stdout.to_string(), stderr: stderr.to_string() }
}

#[test]
fn installer_script_is_saved_in_the_target_directory() {
    assert_eq!(bootstrap_script_path("pydist", PathStyle::Unix), "pydist/get-pip.py");
    assert_eq!(bootstrap_script_path("C:\\env", PathStyle::Windows), "C:\\env\\get-pip.py");
}

#[test]
fn bootstrap_runs_the_target_interpreter_on_the_script() {
    assert_eq!(
        bootstrap_command("pydist", PathStyle::Windows),
        Invocation {
            program: "pydist\\python".to_string(),
            args: vec!["pydist\\get-pip.py".to_string(), "--no-warn-script-location".to_string()],
            search_path: Some("pydist;pydist\\Scripts".to_string()),
        }
    );
    assert_eq!(
        bootstrap_command("/opt/env", PathStyle::Unix),
        Invocation {
            program: "/opt/env/python".to_string(),
            args: vec!["/opt/env/get-pip.py".to_string(), "--no-warn-script-location".to_string()],
            search_path: Some("/opt/env:/opt/env/Scripts".to_string()),
        }
    );
}

#[test]
fn requirements_are_installed_from_the_manifest() {
    assert_eq!(
        requirements_command("pydist\\Scripts\\pip.exe", "pydist", "requirements.txt", PathStyle::Windows),
        Invocation {
            program: "pydist\\Scripts\\pip.exe".to_string(),
            args: vec!["install".to_string(), "-r".to_string(), "requirements.txt".to_string()],
            search_path: Some("pydist;pydist\\Scripts".to_string()),
        }
    );
}

#[test]
fn exit_code_zero_is_success() {
    assert_eq!(check_tool("pip", &exited(true, "Successfully installed", "")), Ok(()));
    assert_eq!(check_tool("pip", &exited(true, "", "WARNING: old pip")), Ok(()));
    assert!(exited(true, "", "").is_success());
}

#[test]
fn other_exit_codes_are_tool_execution_error() {
    let outcome = exited(false, "Collecting x", "ERROR: no such package");
    assert!(!outcome.is_success());
    let result = check_tool("pydist/python", &outcome);
    assert_eq!(
        result,
        Err(ProvisionError::ToolExecutionError {
            program: "pydist/python".to_string(),
            stdout: "Collecting x".to_string(),
            stderr: "ERROR: no such package".to_string(),
        })
    );
    assert_eq!(
        result.unwrap_err().message(),
        "pydist/python failed\nstdout: Collecting x\nstderr: ERROR: no such package"
    );
}

#[test]
fn program_that_does_not_start_is_tool_execution_error() {
    let outcome = ToolOutcome::NotStarted { reason: "program not found".to_string() };
    assert!(!outcome.is_success());
    assert_eq!(outcome.stdout_text(), "");
    assert_eq!(outcome.stderr_text(), "program not found");
    assert_eq!(
        check_tool("pydist/python", &outcome),
        Err(ProvisionError::ToolExecutionError {
            program: "pydist/python".to_string(),
            stdout: String::new(),
            stderr: "program not found".to_string(),
        })
    );
}

#[test]
fn captured_streams_are_available_after_success_too() {
    let outcome = exited(true, "out", "err");
    assert_eq!(outcome.stdout_text(), "out");
    assert_eq!(outcome.stderr_text(), "err");
}

#[test]
fn missing_manifest_is_left_to_the_package_manager() {
    let command = requirements_command(
        "pydist/Scripts/pip.exe",
        "pydist",
        "/nonexistent/requirements.txt",
        PathStyle::Unix,
    );
    assert_eq!(
        command.args,
        vec!["install".to_string(), "-r".to_string(), "/nonexistent/requirements.txt".to_string()]
    );
    let reported = exited(
        false,
        "",
        "ERROR: Could not open requirements file: [Errno 2] No such file or directory: '/nonexistent/requirements.txt'",
    );
    match check_tool(&command.program, &reported) {
        Err(ProvisionError::ToolExecutionError { program, stdout, stderr }) => {
            assert_eq!(program, "pydist/Scripts/pip.exe");
            assert_eq!(stdout, "");
            assert!(stderr.contains("Could not open requirements file"));
        }
        other => panic!("unexpected: {:?}", other),
    }
}
