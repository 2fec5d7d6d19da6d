//! Errors, exit codes, phases, and the onset timing constants.

use avz::analysis::{frames_in, DEFAULT_HALF_WINDOW_NANOS, DEFAULT_REFRACTORY_NANOS};
use avz::config::value::Seconds;
use avz::error::Error;
use avz::exit::{code_for, Exit};
use avz::progress::{NoopProgress, Phase, Progress};
use avz::registry::{names, presets};

#[test]
fn not_implemented_names_the_command_it_refers_to() {
    let err = Error::NotImplemented { command: "render" };
    assert_eq!(err.to_string(), "`avz render` is not implemented yet");
}

#[test]
fn every_error_says_which_kind_it_is() {
    assert_eq!(Error::Config("x".into()).to_string(), "invalid configuration: x");
    assert_eq!(Error::Input("x".into()).to_string(), "input problem: x");
    assert_eq!(Error::Analysis("x".into()).to_string(), "analysis failed: x");
    assert_eq!(Error::Render("x".into()).to_string(), "render failed: x");
    assert_eq!(Error::Encode("x".into()).to_string(), "encode failed: x");
}

#[test]
fn config_errors_are_usage_errors() {
    let err = Error::Config("unknown key `fpss`".into());
    assert_eq!(code_for(&[Some(&err)]), Exit::Usage);
}

#[test]
fn input_errors_get_their_own_code() {
    let err = Error::Input("song.mp3: no such file".into());
    assert_eq!(code_for(&[Some(&err)]), Exit::Input);
}

#[test]
fn not_implemented_is_a_failure() {
    let err = Error::NotImplemented { command: "render" };
    assert_eq!(code_for(&[Some(&err)]), Exit::Failure);
}

#[test]
fn classification_survives_added_context() {
    let err = Error::Input("song.mp3: no such file".into());
    assert_eq!(code_for(&[None, Some(&err)]), Exit::Input);
}

#[test]
fn errors_from_outside_core_are_failures() {
    assert_eq!(code_for(&[None]), Exit::Failure);
    assert_eq!(code_for(&[]), Exit::Failure);
}

#[test]
fn exit_codes_match_the_documented_contract() {
    assert_eq!(Exit::Success.code(), 0);
    assert_eq!(Exit::Usage.code(), 2);
    assert_eq!(Exit::Input.code(), 3);
    assert_eq!(Exit::Failure.code(), 4);
}

#[test]
fn noop_progress_is_usable_as_a_trait_object() {
    let progress: &dyn Progress = &NoopProgress;
    progress.phase_started(Phase::Analyzing, Some(10));
    progress.advance(Phase::Analyzing, 1);
    progress.phase_finished(Phase::Analyzing);
    progress.warn("nothing to see here");
}

#[test]
fn phase_labels_are_stable() {
    assert_eq!(Phase::Analyzing.label(), "analyzing");
    assert_eq!(Phase::Rendering.label(), "rendering");
    assert_eq!(Phase::Finalizing.label(), "finalizing");
}

#[test]
fn a_hundred_millisecond_refractory_is_three_frames_at_thirty_fps() {
    assert_eq!(frames_in(Seconds::from_nanos(DEFAULT_REFRACTORY_NANOS), 30), 3);
    assert_eq!(frames_in(Seconds::from_nanos(DEFAULT_REFRACTORY_NANOS), 60), 6);
    assert_eq!(frames_in(Seconds::from_nanos(DEFAULT_HALF_WINDOW_NANOS), 30), 30);
}

#[test]
fn every_shipped_preset_is_named_once() {
    let all = names();
    assert_eq!(all.len(), presets().len());
    assert_eq!(all[0], "pulse");
    assert!(all.contains(&"nebula"));
    for (i, a) in all.iter().enumerate() {
        assert!(!all[i + 1..].contains(a), "{a} twice");
    }
}
