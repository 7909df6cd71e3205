use rocm_attr::builder::{build, build_command, BuildCommand, BuildFailure, BuildOutput};

fn strings(parts: &[&str]) -> Vec<String> {
    parts.iter().map(|p| p.to_string()).collect()
}

fn output(exit_code: Option<i32>, status: &str, stdout: &str, stderr: &str) -> BuildOutput {
    BuildOutput {
        exit_code,
        status: status.to_string(),
        stdout: stdout.to_string(),
        stderr: stderr.to_string(),
    }
}

#[test]
fn build_command_is_an_optimized_build_in_the_project_directory() {
    assert_eq!(
        build_command("demo_kernel"),
        BuildCommand {
            program: "cargo".to_string(),
            arguments: strings(&["build", "--release"]),
            directory: strings(&["kernel_sources", "demo_kernel"]),
        }
    );
}

#[test]
fn build_returns_the_artifact_when_the_toolchain_exits_with_zero() {
    assert_eq!(
        build("demo_kernel", output(Some(0), "exit status: 0", "compiled", "")),
        Ok(strings(&["kernel_sources", "demo_kernel", "target", "amdgcn-amd-amdhsa", "release", "kernels.elf"]))
    );
}

#[test]
fn build_reports_a_failure_when_the_toolchain_exits_with_another_code() {
    for code in [1, 2, 101, 255, -1, i32::MIN, i32::MAX] {
        let result = build("kernel", output(Some(code), "exit status", "out", "err"));
        assert_eq!(
            result,
            Err(BuildFailure {
                project: "kernel".to_string(),
                exit_code: Some(code),
                status: "exit status".to_string(),
                stdout: "out".to_string(),
                stderr: "err".to_string(),
            })
        );
    }
}

#[test]
fn build_reports_a_failure_when_the_toolchain_did_not_exit_by_itself() {
    let result = build("kernel", output(None, "signal: 9 (SIGKILL)", "", "killed"));
    assert_eq!(
        result,
        Err(BuildFailure {
            project: "kernel".to_string(),
            exit_code: None,
            status: "signal: 9 (SIGKILL)".to_string(),
            stdout: String::new(),
            stderr: "killed".to_string(),
        })
    );
}

#[test]
fn failure_message_carries_all_that_was_captured() {
    let failure = build("demo_kernel", output(Some(101), "exit status: 101", "some output", "error[E0425]")).unwrap_err();
    assert_eq!(
        failure.message(),
        "Kernel compilation failed for demo_kernel, status: exit status: 101\n\nStdout:\nsome output\n\nStderr:\nerror[E0425]"
    );
}

#[test]
fn failure_message_of_an_empty_capture() {
    let failure = build("", output(Some(1), "", "", "")).unwrap_err();
    assert_eq!(failure.message(), "Kernel compilation failed for , status: \n\nStdout:\n\n\nStderr:\n");
}
