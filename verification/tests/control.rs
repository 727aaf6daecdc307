//! The one-shot control command.

use agentcord::config::TimeSpan;
use agentcord::control::{
    control_argv, control_prompt, run_control_command, truncate_reply, ControlRun,
};

#[test]
fn control_prompt_frames_the_user_request() {
    let prompt = control_prompt("close workspace foo");
    assert!(prompt.contains("one-shot"), "{prompt}");
    assert!(prompt.contains("herdr --skill"), "{prompt}");
    assert!(prompt.contains("do not monitor agent output"), "{prompt}");
    assert!(
        prompt.ends_with("User request:\nclose workspace foo"),
        "{prompt}"
    );
}

#[test]
fn truncate_reply_passes_short_output_through() {
    assert_eq!(truncate_reply("done", 2000), "done");
}

#[test]
fn truncate_reply_cuts_long_output_at_the_cap() {
    let long = "x".repeat(5000);
    let truncated = truncate_reply(&long, 2000);
    assert_eq!(truncated.chars().count(), 2000);
    assert!(truncated.ends_with("… (truncated)"));
}

#[test]
fn truncate_reply_counts_characters_not_bytes() {
    let long = "é".repeat(5000);
    let truncated = truncate_reply(&long, 2000);
    assert_eq!(truncated.chars().count(), 2000);
    assert!(truncated.ends_with("… (truncated)"));
}

#[test]
fn a_control_command_is_split_into_words() {
    let (program, args) = control_argv("  sh -c\tcat>&2 ").unwrap();
    assert_eq!(program, "sh");
    assert_eq!(args, vec!["-c", "cat>&2"]);
    let error = control_argv("   ").unwrap_err();
    assert!(error.message().contains("empty"));
}

#[test]
fn the_output_of_a_control_command_is_both_streams() {
    let output = run_control_command(&ControlRun::Finished {
        stdout: b"hello ".to_vec(),
        stderr: vec![b'o', 0xff, b'p'],
    })
    .unwrap();
    assert_eq!(output, "hello o\u{fffd}p");
}

#[test]
fn a_failed_control_command_says_why() {
    let spawn = run_control_command(&ControlRun::SpawnFailed("no such file".to_owned()));
    assert_eq!(
        spawn.unwrap_err().message(),
        "couldn't spawn the control command: no such file"
    );
    let io = run_control_command(&ControlRun::IoFailed("broken pipe".to_owned()));
    assert_eq!(
        io.unwrap_err().message(),
        "the control command's I/O failed: broken pipe"
    );
    let late = run_control_command(&ControlRun::TimedOut(TimeSpan {
        secs: 0,
        nanos: 100_000_000,
    }));
    assert_eq!(
        late.unwrap_err().message(),
        "the control command timed out after 100ms"
    );
}

#[test]
fn a_truncated_reply_fits_a_limit_below_the_note() {
    let output = "x".repeat(20);
    assert_eq!(truncate_reply(&output, 5), "\n… (t");
    assert_eq!(truncate_reply(&output, 14), "\n… (truncated)");
    assert_eq!(truncate_reply(&output, 15), "x\n… (truncated)");
    assert_eq!(truncate_reply(&output, 0), "");
}
