//! Change notifications published by the write paths.

use vstd::prelude::*;
use crate::artifacts::ArtifactKind;
use crate::domain::{CorrectnessResult, DeviceClass, ExitStatus, Platform};
use crate::float64::Float64;
use crate::host_rules::clone_opt;
use crate::runs::NewRun;
use crate::time::Timestamp;

verus! {

/// A run was stored.
#[derive(Debug)]
pub struct RunCreatedEvent {
    pub id: u128,
    pub started_at: Timestamp,
    pub finished_at: Option<Timestamp>,
    pub repetition: i64,
    pub platform: Platform,
    pub device_class: DeviceClass,
    pub device_serial: String,
    pub device_model: Option<String>,
    pub model_asset_id: u128,
    pub model_original_name: String,
    pub git_commit_sha: String,
    pub git_dirty: bool,
    pub git_branch: Option<String>,
    pub exit_status: ExitStatus,
    pub correctness_result: CorrectnessResult,
    pub prefill_tokens_per_sec: Float64,
    pub decode_tokens_per_sec: Option<Float64>,
}

/// An artifact was stored.
#[derive(Debug)]
pub struct ArtifactCreatedEvent {
    pub id: u128,
    pub kind: ArtifactKind,
    pub sha256: String,
    pub size_bytes: i64,
}

/// A model was registered.
#[derive(Debug)]
pub struct ModelRegisteredEvent {
    pub id: u128,
    pub original_name: String,
    pub sha256: String,
}

/// A change notification.
#[derive(Debug)]
pub enum Event {
    RunCreated(RunCreatedEvent),
    ArtifactCreated(ArtifactCreatedEvent),
    ModelRegistered(ModelRegisteredEvent),
}

impl Event {
    /// The event's name on the stream.
    pub open spec fn name_text(&self) -> Seq<char> {
        match self {
            Event::RunCreated(_) => "run.created"@,
            Event::ArtifactCreated(_) => "artifact.created"@,
            Event::ModelRegistered(_) => "model.registered"@,
        }
    }

    pub fn name(&self) -> (n: &'static str)
        ensures
            n@ == self.name_text(),
    {
        match self {
            Event::RunCreated(_) => "run.created",
            Event::ArtifactCreated(_) => "artifact.created",
            Event::ModelRegistered(_) => "model.registered",
        }
    }
}

/// The notification of a stored run: its list columns and its model's
/// name.
pub fn run_created(run: &NewRun, model_original_name: String) -> (e: RunCreatedEvent)
    ensures
        e.id == run.id,
        e.started_at == run.started_at,
        e.finished_at == run.finished_at,
        e.repetition == run.repetition,
        e.platform == run.host.platform_of(),
        e.device_class == run.device_class,
        e.device_serial@ == run.device_serial@,
        crate::runs::opt_view(e.device_model) == crate::runs::opt_view(run.device_model),
        e.model_asset_id == run.model_asset_id,
        e.model_original_name == model_original_name,
        e.git_commit_sha@ == run.git_commit_sha@,
        e.git_dirty == run.git_dirty,
        crate::runs::opt_view(e.git_branch) == crate::runs::opt_view(run.git_branch),
        e.exit_status == run.exit_status,
        e.correctness_result == run.correctness_result,
        e.prefill_tokens_per_sec == run.prefill_tokens_per_sec,
        e.decode_tokens_per_sec == run.decode_tokens_per_sec,
{
    RunCreatedEvent {
        id: run.id,
        started_at: run.started_at,
        finished_at: run.finished_at,
        repetition: run.repetition,
        platform: run.host.platform(),
        device_class: run.device_class,
        device_serial: run.device_serial.clone(),
        device_model: clone_opt(&run.device_model),
        model_asset_id: run.model_asset_id,
        model_original_name,
        git_commit_sha: run.git_commit_sha.clone(),
        git_dirty: run.git_dirty,
        git_branch: clone_opt(&run.git_branch),
        exit_status: run.exit_status,
        correctness_result: run.correctness_result,
        prefill_tokens_per_sec: run.prefill_tokens_per_sec,
        decode_tokens_per_sec: run.decode_tokens_per_sec,
    }
}

} // verus!
