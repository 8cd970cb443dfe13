//! Fine-tuning jobs: their life cycle and the decisions of a training run.
//!
//! A job is created pending, runs once started, can be paused and resumed,
//! and ends completed or cancelled. A training run goes epoch by epoch: a
//! cancelled job stops before its next epoch, a paused one waits until it is
//! running again or cancelled.

use vstd::prelude::*;
use crate::kvmap::{keys_unique, seq_to_map, lemma_map_absent, lemma_map_lookup, lemma_map_push, lemma_unique_push, lemma_map_update, lemma_map_remove, lemma_map_len};
use crate::model_registry::ModelRegistry;
use crate::types::{Timestamp, now_millis, new_uuid};

verus! {

/// Identifier of a job: a UUID held as its 128-bit value.
pub type JobId = u128;

/// The bit pattern of the `f32` value 100.0.
pub const FULL_PROGRESS_BITS: u32 = 0x42c8_0000;

/// Fine-tuning job configuration; floating-point settings are carried as
/// the bit patterns of their `f32` values.
#[derive(Debug, Clone)]
pub struct FineTuningConfig {
    pub base_model: String,
    pub dataset_path: String,
    pub output_path: String,
    pub epochs: u32,
    pub batch_size: u32,
    pub learning_rate_bits: u32,
    pub lora_rank: Option<u32>,
    pub lora_alpha_bits: Option<u32>,
}

/// Fine-tuning job status.
#[derive(Debug, Clone, Copy, PartialEq, Eq, Structural)]
pub enum JobStatus {
    Pending,
    Running,
    Paused,
    Completed,
    Failed,
    Cancelled,
}

/// A fine-tuning job; progress (in percent) and loss are carried as the bit
/// patterns of their `f32` values.
#[derive(Debug)]
pub struct FineTuningJob {
    pub id: JobId,
    pub config: FineTuningConfig,
    pub status: JobStatus,
    pub progress_bits: u32,
    pub epoch: u32,
    pub total_epochs: u32,
    pub loss_bits: u32,
    pub created_at: Timestamp,
    pub started_at: Option<Timestamp>,
    pub completed_at: Option<Timestamp>,
    pub error: Option<String>,
}

/// What a configuration says.
pub struct ConfigView {
    pub base_model: Seq<char>,
    pub dataset_path: Seq<char>,
    pub output_path: Seq<char>,
    pub epochs: u32,
    pub batch_size: u32,
    pub learning_rate_bits: u32,
    pub lora_rank: Option<u32>,
    pub lora_alpha_bits: Option<u32>,
}

/// What a job says.
pub struct JobView {
    pub id: JobId,
    pub config: ConfigView,
    pub status: JobStatus,
    pub progress_bits: u32,
    pub epoch: u32,
    pub total_epochs: u32,
    pub loss_bits: u32,
    pub created_at: Timestamp,
    pub started_at: Option<Timestamp>,
    pub completed_at: Option<Timestamp>,
    pub has_error: bool,
}

impl View for FineTuningConfig {
    type V = ConfigView;

    open spec fn view(&self) -> ConfigView {
        ConfigView {
            base_model: self.base_model@,
            dataset_path: self.dataset_path@,
            output_path: self.output_path@,
            epochs: self.epochs,
            batch_size: self.batch_size,
            learning_rate_bits: self.learning_rate_bits,
            lora_rank: self.lora_rank,
            lora_alpha_bits: self.lora_alpha_bits,
        }
    }
}

impl View for FineTuningJob {
    type V = JobView;

    open spec fn view(&self) -> JobView {
        JobView {
            id: self.id,
            config: self.config@,
            status: self.status,
            progress_bits: self.progress_bits,
            epoch: self.epoch,
            total_epochs: self.total_epochs,
            loss_bits: self.loss_bits,
            created_at: self.created_at,
            started_at: self.started_at,
            completed_at: self.completed_at,
            has_error: self.error is Some,
        }
    }
}

fn clone_config(c: &FineTuningConfig) -> (r: FineTuningConfig)
    ensures
        r@ == c@,
{
    FineTuningConfig {
        base_model: c.base_model.clone(),
        dataset_path: c.dataset_path.clone(),
        output_path: c.output_path.clone(),
        epochs: c.epochs,
        batch_size: c.batch_size,
        learning_rate_bits: c.learning_rate_bits,
        lora_rank: c.lora_rank,
        lora_alpha_bits: c.lora_alpha_bits,
    }
}

impl Clone for FineTuningJob {
    fn clone(&self) -> (r: Self)
        ensures
            r@ == self@,
    {
        FineTuningJob {
            id: self.id,
            config: clone_config(&self.config),
            status: self.status,
            progress_bits: self.progress_bits,
            epoch: self.epoch,
            total_epochs: self.total_epochs,
            loss_bits: self.loss_bits,
            created_at: self.created_at,
            started_at: self.started_at,
            completed_at: self.completed_at,
            error: match &self.error {
                Some(e) => Some(e.clone()),
                None => None,
            },
        }
    }
}

/// Service statistics.
#[derive(Debug, Clone, Copy)]
pub struct ServiceStats {
    pub total_jobs: usize,
    pub running_jobs: usize,
    pub completed_jobs: usize,
    pub failed_jobs: usize,
}

/// Fine-tuning errors.
#[derive(Debug, Clone, PartialEq, Eq)]
pub enum FineTuningError {
    ModelNotFound(String),
    DatasetNotFound(String),
    JobNotFound(JobId),
    InvalidState(String),
    TrainingFailed(String),
    Internal(String),
}

/// What a training run does next.
#[derive(Debug, Clone, Copy, PartialEq, Eq, Structural)]
pub enum TrainingAction {
    /// Run the next epoch.
    Train,
    /// Wait a second and look again.
    Wait,
    /// End the run.
    Stop,
}

/// The name of a status, as `Debug` writes it.
pub open spec fn status_name(s: JobStatus) -> Seq<char> {
    match s {
        JobStatus::Pending => "Pending"@,
        JobStatus::Running => "Running"@,
        JobStatus::Paused => "Paused"@,
        JobStatus::Completed => "Completed"@,
        JobStatus::Failed => "Failed"@,
        JobStatus::Cancelled => "Cancelled"@,
    }
}

/// "Cannot <action> job in <status> state".
pub open spec fn state_message(action: Seq<char>, s: JobStatus) -> Seq<char> {
    "Cannot "@ + action + " job in "@ + status_name(s) + " state"@
}

pub open spec fn job_pairs(s: Seq<FineTuningJob>) -> Seq<(JobId, JobView)> {
    s.map_values(|j: FineTuningJob| (j.id, j@))
}

pub open spec fn jobs_view(s: Seq<FineTuningJob>) -> Seq<JobView> {
    s.map_values(|j: FineTuningJob| j@)
}

pub open spec fn count_jobs(s: Seq<JobView>, status: JobStatus) -> int
    decreases s.len(),
{
    if s.len() == 0 {
        0
    } else {
        count_jobs(s.drop_last(), status) + if s.last().status == status { 1int } else { 0int }
    }
}

/// The jobs with job `id` set to `status`, all else kept.
pub open spec fn with_job_status(jobs: Map<JobId, JobView>, id: JobId, status: JobStatus) -> Map<JobId, JobView> {
    jobs.insert(id, JobView { status, ..jobs[id] })
}

/// The jobs with job `id` at the end of epoch `epoch`, with these progress
/// and loss figures, all else kept.
pub open spec fn with_epoch(jobs: Map<JobId, JobView>, id: JobId, epoch: u32, progress_bits: u32, loss_bits: u32) -> Map<JobId, JobView> {
    jobs.insert(id, JobView { epoch, progress_bits, loss_bits, ..jobs[id] })
}

/// The jobs after a run has recorded epochs 1, 2, ... of job `id` in turn,
/// each with its progress and loss figures.
pub open spec fn train_epochs(jobs: Map<JobId, JobView>, id: JobId, figures: Seq<(u32, u32)>) -> Map<JobId, JobView>
    decreases figures.len(),
{
    if figures.len() == 0 {
        jobs
    } else {
        with_epoch(train_epochs(jobs, id, figures.drop_last()), id, figures.len() as u32, figures.last().0, figures.last().1)
    }
}

/// What a run does before an epoch, given the job (when it still exists).
pub open spec fn before_epoch(job: Option<JobView>) -> TrainingAction {
    match job {
        Some(j) => if j.status == JobStatus::Cancelled {
            TrainingAction::Stop
        } else if j.status == JobStatus::Paused {
            TrainingAction::Wait
        } else {
            TrainingAction::Train
        },
        None => TrainingAction::Train,
    }
}

/// What a waiting run does, given the job (when it still exists).
pub open spec fn while_paused(job: Option<JobView>) -> TrainingAction {
    match job {
        Some(j) => if j.status == JobStatus::Running {
            TrainingAction::Train
        } else if j.status == JobStatus::Cancelled {
            TrainingAction::Stop
        } else {
            TrainingAction::Wait
        },
        None => TrainingAction::Wait,
    }
}

fn status_text(s: JobStatus) -> (r: String)
    ensures
        r@ == status_name(s),
{
    match s {
        JobStatus::Pending => String::from_str("Pending"),
        JobStatus::Running => String::from_str("Running"),
        JobStatus::Paused => String::from_str("Paused"),
        JobStatus::Completed => String::from_str("Completed"),
        JobStatus::Failed => String::from_str("Failed"),
        JobStatus::Cancelled => String::from_str("Cancelled"),
    }
}

fn state_error(action: &str, s: JobStatus) -> (r: FineTuningError)
    ensures
        r matches FineTuningError::InvalidState(m) && m@ == state_message(action@, s),
{
    let mut m = String::from_str("Cannot ");
    m.append(action);
    m.append(" job in ");
    let name = status_text(s);
    m.append(name.as_str());
    m.append(" state");
    FineTuningError::InvalidState(m)
}

/// The fine-tuning service.
pub struct FineTuningService {
    jobs: Vec<FineTuningJob>,
    model_registry: ModelRegistry,
}

/// What the service holds: the jobs by id, and the model registry.
pub struct ServiceView {
    pub jobs: Map<JobId, JobView>,
    pub registry: crate::model_registry::RegistryView,
}

impl View for FineTuningService {
    type V = ServiceView;

    closed spec fn view(&self) -> ServiceView {
        ServiceView { jobs: seq_to_map(job_pairs(self.jobs@)), registry: self.model_registry@ }
    }
}

impl FineTuningService {
    /// One job per id, and a well-formed registry.
    pub closed spec fn wf(&self) -> bool {
        &&& keys_unique(job_pairs(self.jobs@))
        &&& self.model_registry.wf()
    }

    /// The jobs, each once.
    pub closed spec fn entries(&self) -> Seq<JobView> {
        jobs_view(self.jobs@)
    }

    /// A service with no jobs, checking base models against `model_registry`.
    pub fn new(model_registry: ModelRegistry) -> (r: Self)
        requires
            model_registry.wf(),
        ensures
            r.wf(),
            r@.jobs == Map::<JobId, JobView>::empty(),
            r@.registry == model_registry@,
    {
        let r = FineTuningService { jobs: Vec::new(), model_registry };
        assert(job_pairs(r.jobs@) =~= Seq::empty());
        r
    }

    fn find(&self, id: JobId) -> (r: Option<usize>)
        ensures
            match r {
                Some(i) => i < self.jobs@.len() && self.jobs@[i as int].id == id,
                None => forall|i: int| 0 <= i < self.jobs@.len() ==> self.jobs@[i].id != id,
            },
    {
        let mut i: usize = 0;
        while i < self.jobs.len()
            invariant
                i <= self.jobs@.len(),
                forall|j: int| 0 <= j < i ==> self.jobs@[j].id != id,
            decreases self.jobs@.len() - i,
        {
            if self.jobs[i].id == id {
                return Some(i);
            }
            i = i + 1;
        }
        None
    }

    /// Replaces the job at `i` by `j`, which has the same id.
    fn replace(&mut self, i: usize, j: FineTuningJob)
        requires
            old(self).wf(),
            i < old(self).jobs@.len(),
            j.id == old(self).jobs@[i as int].id,
        ensures
            final(self).wf(),
            final(self)@.registry == old(self)@.registry,
            final(self)@.jobs == old(self)@.jobs.insert(j.id, j@),
    {
        let ghost ps = job_pairs(self.jobs@);
        proof {
            lemma_map_update(ps, i as int, j@);
        }
        let ghost jv = j@;
        self.jobs.set(i, j);
        assert(job_pairs(self.jobs@) =~= ps.update(i as int, (ps[i as int].0, jv)));
    }

    /// Creates a pending job for a registered base model, with a fresh
    /// random id; `dataset_exists` tells whether the dataset file exists.
    /// Looking the model up sets its last access time.
    pub fn create_job(&mut self, config: FineTuningConfig, dataset_exists: bool) -> (r: Result<JobId, FineTuningError>)
        requires
            old(self).wf(),
        ensures
            final(self).wf(),
            final(self)@.registry.cache_dir == old(self)@.registry.cache_dir,
            final(self)@.registry.models.dom() == old(self)@.registry.models.dom(),
            !old(self)@.registry.models.contains_key(config.base_model@) ==>
                (r matches Err(FineTuningError::ModelNotFound(m)) && m@ == config.base_model@) && final(self)@.jobs == old(self)@.jobs,
            old(self)@.registry.models.contains_key(config.base_model@) && !dataset_exists ==>
                (r matches Err(FineTuningError::DatasetNotFound(p)) && p@ == config.dataset_path@) && final(self)@.jobs == old(self)@.jobs,
            old(self)@.registry.models.contains_key(config.base_model@) && dataset_exists ==> (r matches Ok(id)
                && final(self)@.jobs.contains_key(id)
                && {
                    let j = final(self)@.jobs[id];
                    &&& j.id == id
                    &&& j.config == config@
                    &&& j.status == JobStatus::Pending
                    &&& j.progress_bits == 0
                    &&& j.epoch == 0
                    &&& j.total_epochs == config.epochs
                    &&& j.loss_bits == 0
                    &&& j.started_at is None
                    &&& j.completed_at is None
                    &&& !j.has_error
                }
                && final(self)@.jobs == old(self)@.jobs.insert(id, final(self)@.jobs[id])),
    {
        let id = new_uuid();
        let now = now_millis();
        self.create_job_at(config, dataset_exists, id, now)
    }

    /// Creates, at `now`, the pending job `id` for a registered base model;
    /// `dataset_exists` tells whether the dataset file exists. Looking the
    /// model up sets its last access time to `now`.
    pub fn create_job_at(&mut self, config: FineTuningConfig, dataset_exists: bool, id: JobId, now: Timestamp) -> (r: Result<JobId, FineTuningError>)
        requires
            old(self).wf(),
        ensures
            final(self).wf(),
            final(self)@.registry.cache_dir == old(self)@.registry.cache_dir,
            final(self)@.registry.models.dom() == old(self)@.registry.models.dom(),
            !old(self)@.registry.models.contains_key(config.base_model@) ==>
                (r matches Err(FineTuningError::ModelNotFound(m)) && m@ == config.base_model@) && final(self)@.jobs == old(self)@.jobs,
            old(self)@.registry.models.contains_key(config.base_model@) && !dataset_exists ==>
                (r matches Err(FineTuningError::DatasetNotFound(p)) && p@ == config.dataset_path@) && final(self)@.jobs == old(self)@.jobs,
            old(self)@.registry.models.contains_key(config.base_model@) && dataset_exists ==> (r == Ok::<JobId, FineTuningError>(id)
                && final(self)@.jobs.contains_key(id)
                && {
                    let j = final(self)@.jobs[id];
                    &&& j.id == id
                    &&& j.config == config@
                    &&& j.status == JobStatus::Pending
                    &&& j.progress_bits == 0
                    &&& j.epoch == 0
                    &&& j.total_epochs == config.epochs
                    &&& j.loss_bits == 0
                    &&& j.created_at == now
                    &&& j.started_at is None
                    &&& j.completed_at is None
                    &&& !j.has_error
                }
                && final(self)@.jobs == old(self)@.jobs.insert(id, final(self)@.jobs[id])),
    {
        let found = self.model_registry.get_model_at(config.base_model.as_str(), now);
        proof {
            assert(self@.registry.models.dom() =~= old(self)@.registry.models.dom());
        }
        if found.is_none() {
            return Err(FineTuningError::ModelNotFound(config.base_model));
        }
        if !dataset_exists {
            return Err(FineTuningError::DatasetNotFound(config.dataset_path));
        }
        let total_epochs = config.epochs;
        let job = FineTuningJob {
            id,
            config,
            status: JobStatus::Pending,
            progress_bits: 0,
            epoch: 0,
            total_epochs,
            loss_bits: 0,
            created_at: now,
            started_at: None,
            completed_at: None,
            error: None,
        };
        let ghost ps = job_pairs(self.jobs@);
        let ghost jv = job@;
        match self.find(id) {
            Some(i) => {
                self.replace(i, job);
            },
            None => {
                proof {
                    lemma_unique_push(ps, id, jv);
                    lemma_map_push(ps, id, jv);
                }
                self.jobs.push(job);
                assert(job_pairs(self.jobs@) =~= ps.push((id, jv)));
            },
        }
        Ok(id)
    }

    /// Starts a pending or paused job.
    pub fn start_job(&mut self, job_id: JobId) -> (r: Result<(), FineTuningError>)
        requires
            old(self).wf(),
        ensures
            final(self).wf(),
            exists|now: Timestamp| millis_in_range(now) && start_outcome(old(self)@, final(self)@, job_id, now, r),
    {
        let now = now_millis();
        let r = self.start_job_at(job_id, now);
        assert(millis_in_range(now) && start_outcome(old(self)@, self@, job_id, now, r));
        r
    }

    /// Starts a pending or paused job at `now`: it runs, started at `now`;
    /// a job in another status is refused, and an unknown one is not found.
    pub fn start_job_at(&mut self, job_id: JobId, now: Timestamp) -> (r: Result<(), FineTuningError>)
        requires
            old(self).wf(),
        ensures
            final(self).wf(),
            start_outcome(old(self)@, final(self)@, job_id, now, r),
    {
        let ghost ps = job_pairs(self.jobs@);
        let i = match self.find(job_id) {
            Some(i) => i,
            None => {
                proof {
                    lemma_map_absent(ps, job_id);
                }
                return Err(FineTuningError::JobNotFound(job_id));
            },
        };
        proof {
            lemma_map_lookup(ps, i as int);
        }
        let status = self.jobs[i].status;
        if status != JobStatus::Pending && status != JobStatus::Paused {
            return Err(state_error("start", status));
        }
        let mut j = self.jobs[i].clone();
        j.status = JobStatus::Running;
        j.started_at = Some(now);
        self.replace(i, j);
        Ok(())
    }

    /// Sets the status of an existing job, when it is in an allowed status.
    fn transition(&mut self, job_id: JobId, action: &str, from_running: bool, to: JobStatus) -> (r: Result<(), FineTuningError>)
        requires
            old(self).wf(),
        ensures
            final(self).wf(),
            final(self)@.registry == old(self)@.registry,
            !old(self)@.jobs.contains_key(job_id) ==> r == Err::<(), FineTuningError>(FineTuningError::JobNotFound(job_id)) && final(self)@ == old(self)@,
            old(self)@.jobs.contains_key(job_id) && old(self)@.jobs[job_id].status != (if from_running { JobStatus::Running } else { JobStatus::Paused }) ==>
                (r matches Err(FineTuningError::InvalidState(m)) && m@ == state_message(action@, old(self)@.jobs[job_id].status)) && final(self)@ == old(self)@,
            old(self)@.jobs.contains_key(job_id) && old(self)@.jobs[job_id].status == (if from_running { JobStatus::Running } else { JobStatus::Paused }) ==>
                r is Ok && final(self)@.jobs == old(self)@.jobs.insert(job_id, JobView { status: to, ..old(self)@.jobs[job_id] }),
    {
        let ghost ps = job_pairs(self.jobs@);
        let i = match self.find(job_id) {
            Some(i) => i,
            None => {
                proof {
                    lemma_map_absent(ps, job_id);
                }
                return Err(FineTuningError::JobNotFound(job_id));
            },
        };
        proof {
            lemma_map_lookup(ps, i as int);
        }
        let status = self.jobs[i].status;
        let wanted = if from_running { JobStatus::Running } else { JobStatus::Paused };
        if status != wanted {
            return Err(state_error(action, status));
        }
        let mut j = self.jobs[i].clone();
        j.status = to;
        self.replace(i, j);
        Ok(())
    }

    /// Pauses a running job.
    pub fn pause_job(&mut self, job_id: JobId) -> (r: Result<(), FineTuningError>)
        requires
            old(self).wf(),
        ensures
            final(self).wf(),
            final(self)@.registry == old(self)@.registry,
            !old(self)@.jobs.contains_key(job_id) ==> r == Err::<(), FineTuningError>(FineTuningError::JobNotFound(job_id)) && final(self)@ == old(self)@,
            old(self)@.jobs.contains_key(job_id) && old(self)@.jobs[job_id].status != JobStatus::Running ==>
                (r matches Err(FineTuningError::InvalidState(m)) && m@ == state_message("pause"@, old(self)@.jobs[job_id].status)) && final(self)@ == old(self)@,
            old(self)@.jobs.contains_key(job_id) && old(self)@.jobs[job_id].status == JobStatus::Running ==>
                r is Ok && final(self)@.jobs == with_job_status(old(self)@.jobs, job_id, JobStatus::Paused),
    {
        self.transition(job_id, "pause", true, JobStatus::Paused)
    }

    /// Resumes a paused job.
    pub fn resume_job(&mut self, job_id: JobId) -> (r: Result<(), FineTuningError>)
        requires
            old(self).wf(),
        ensures
            final(self).wf(),
            final(self)@.registry == old(self)@.registry,
            !old(self)@.jobs.contains_key(job_id) ==> r == Err::<(), FineTuningError>(FineTuningError::JobNotFound(job_id)) && final(self)@ == old(self)@,
            old(self)@.jobs.contains_key(job_id) && old(self)@.jobs[job_id].status != JobStatus::Paused ==>
                (r matches Err(FineTuningError::InvalidState(m)) && m@ == state_message("resume"@, old(self)@.jobs[job_id].status)) && final(self)@ == old(self)@,
            old(self)@.jobs.contains_key(job_id) && old(self)@.jobs[job_id].status == JobStatus::Paused ==>
                r is Ok && final(self)@.jobs == with_job_status(old(self)@.jobs, job_id, JobStatus::Running),
    {
        self.transition(job_id, "resume", false, JobStatus::Running)
    }

    /// Cancels a job that is neither completed nor already cancelled.
    pub fn cancel_job(&mut self, job_id: JobId) -> (r: Result<(), FineTuningError>)
        requires
            old(self).wf(),
        ensures
            final(self).wf(),
            final(self)@.registry == old(self)@.registry,
            !old(self)@.jobs.contains_key(job_id) ==> r == Err::<(), FineTuningError>(FineTuningError::JobNotFound(job_id)) && final(self)@ == old(self)@,
            old(self)@.jobs.contains_key(job_id) && (old(self)@.jobs[job_id].status == JobStatus::Completed || old(self)@.jobs[job_id].status == JobStatus::Cancelled) ==>
                (r matches Err(FineTuningError::InvalidState(m)) && m@ == state_message("cancel"@, old(self)@.jobs[job_id].status)) && final(self)@ == old(self)@,
            old(self)@.jobs.contains_key(job_id) && !(old(self)@.jobs[job_id].status == JobStatus::Completed || old(self)@.jobs[job_id].status == JobStatus::Cancelled) ==>
                r is Ok && final(self)@.jobs == with_job_status(old(self)@.jobs, job_id, JobStatus::Cancelled),
    {
        let ghost ps = job_pairs(self.jobs@);
        let i = match self.find(job_id) {
            Some(i) => i,
            None => {
                proof {
                    lemma_map_absent(ps, job_id);
                }
                return Err(FineTuningError::JobNotFound(job_id));
            },
        };
        proof {
            lemma_map_lookup(ps, i as int);
        }
        let status = self.jobs[i].status;
        if status == JobStatus::Completed || status == JobStatus::Cancelled {
            return Err(state_error("cancel", status));
        }
        let mut j = self.jobs[i].clone();
        j.status = JobStatus::Cancelled;
        self.replace(i, j);
        Ok(())
    }

    /// A copy of a job.
    pub fn get_job(&self, job_id: JobId) -> (r: Result<FineTuningJob, FineTuningError>)
        requires
            self.wf(),
        ensures
            !self@.jobs.contains_key(job_id) ==> r == Err::<FineTuningJob, FineTuningError>(FineTuningError::JobNotFound(job_id)),
            self@.jobs.contains_key(job_id) ==> (r matches Ok(j) && j@ == self@.jobs[job_id]),
    {
        let ghost ps = job_pairs(self.jobs@);
        match self.find(job_id) {
            Some(i) => {
                proof {
                    lemma_map_lookup(ps, i as int);
                }
                Ok(self.jobs[i].clone())
            },
            None => {
                proof {
                    lemma_map_absent(ps, job_id);
                }
                Err(FineTuningError::JobNotFound(job_id))
            },
        }
    }

    /// Copies of all jobs.
    pub fn list_jobs(&self) -> (r: Vec<FineTuningJob>)
        ensures
            jobs_view(r@) == self.entries(),
    {
        let mut r: Vec<FineTuningJob> = Vec::new();
        let mut i: usize = 0;
        while i < self.jobs.len()
            invariant
                i <= self.jobs@.len(),
                jobs_view(r@) == jobs_view(self.jobs@.take(i as int)),
            decreases self.jobs@.len() - i,
        {
            let ghost before = r@;
            let c = self.jobs[i].clone();
            r.push(c);
            assert(jobs_view(r@) =~= jobs_view(before).push(c@));
            assert(self.jobs@.take(i + 1) =~= self.jobs@.take(i as int).push(self.jobs@[i as int]));
            assert(jobs_view(self.jobs@.take(i + 1)) =~= jobs_view(self.jobs@.take(i as int)).push(c@));
            i = i + 1;
        }
        assert(self.jobs@.take(i as int) =~= self.jobs@);
        r
    }

    /// Deletes a job that is not running.
    pub fn delete_job(&mut self, job_id: JobId) -> (r: Result<(), FineTuningError>)
        requires
            old(self).wf(),
        ensures
            final(self).wf(),
            final(self)@.registry == old(self)@.registry,
            !old(self)@.jobs.contains_key(job_id) ==> r == Err::<(), FineTuningError>(FineTuningError::JobNotFound(job_id)) && final(self)@ == old(self)@,
            old(self)@.jobs.contains_key(job_id) && old(self)@.jobs[job_id].status == JobStatus::Running ==>
                (r matches Err(FineTuningError::InvalidState(m)) && m@ == "Cannot delete running job"@) && final(self)@ == old(self)@,
            old(self)@.jobs.contains_key(job_id) && old(self)@.jobs[job_id].status != JobStatus::Running ==>
                r is Ok && final(self)@.jobs == old(self)@.jobs.remove(job_id),
    {
        let ghost ps = job_pairs(self.jobs@);
        let i = match self.find(job_id) {
            Some(i) => i,
            None => {
                proof {
                    lemma_map_absent(ps, job_id);
                }
                return Err(FineTuningError::JobNotFound(job_id));
            },
        };
        proof {
            lemma_map_lookup(ps, i as int);
        }
        if self.jobs[i].status == JobStatus::Running {
            return Err(FineTuningError::InvalidState(String::from_str("Cannot delete running job")));
        }
        proof {
            lemma_map_remove(ps, i as int);
        }
        self.jobs.remove(i);
        assert(job_pairs(self.jobs@) =~= ps.remove(i as int));
        Ok(())
    }

    /// The job, when it exists.
    pub open spec fn job_of(&self, job_id: JobId) -> Option<JobView> {
        if self@.jobs.contains_key(job_id) {
            Some(self@.jobs[job_id])
        } else {
            None
        }
    }

    fn lookup(&self, job_id: JobId) -> (r: Option<JobStatus>)
        requires
            self.wf(),
        ensures
            r == (match self.job_of(job_id) {
                Some(j) => Some(j.status),
                None => None::<JobStatus>,
            }),
    {
        let ghost ps = job_pairs(self.jobs@);
        match self.find(job_id) {
            Some(i) => {
                proof {
                    lemma_map_lookup(ps, i as int);
                }
                Some(self.jobs[i].status)
            },
            None => {
                proof {
                    lemma_map_absent(ps, job_id);
                }
                None
            },
        }
    }

    /// What a training run does before its next epoch: stop for a cancelled
    /// job, wait for a paused one, train otherwise (also when the job is gone).
    pub fn training_check(&self, job_id: JobId) -> (r: TrainingAction)
        requires
            self.wf(),
        ensures
            r == before_epoch(self.job_of(job_id)),
    {
        match self.lookup(job_id) {
            Some(JobStatus::Cancelled) => TrainingAction::Stop,
            Some(JobStatus::Paused) => TrainingAction::Wait,
            _ => TrainingAction::Train,
        }
    }

    /// What a waiting training run does: go on once the job runs again, stop
    /// once it is cancelled, wait otherwise (also when the job is gone).
    pub fn paused_check(&self, job_id: JobId) -> (r: TrainingAction)
        requires
            self.wf(),
        ensures
            r == while_paused(self.job_of(job_id)),
    {
        match self.lookup(job_id) {
            Some(JobStatus::Running) => TrainingAction::Train,
            Some(JobStatus::Cancelled) => TrainingAction::Stop,
            _ => TrainingAction::Wait,
        }
    }

    /// Records a finished epoch with the progress and loss it reached.
    pub fn record_epoch(&mut self, job_id: JobId, epoch: u32, progress_bits: u32, loss_bits: u32)
        requires
            old(self).wf(),
        ensures
            final(self).wf(),
            final(self)@.registry == old(self)@.registry,
            !old(self)@.jobs.contains_key(job_id) ==> final(self)@ == old(self)@,
            old(self)@.jobs.contains_key(job_id) ==> final(self)@.jobs == with_epoch(old(self)@.jobs, job_id, epoch, progress_bits, loss_bits),
    {
        let ghost ps = job_pairs(self.jobs@);
        match self.find(job_id) {
            Some(i) => {
                proof {
                    lemma_map_lookup(ps, i as int);
                }
                let mut j = self.jobs[i].clone();
                j.epoch = epoch;
                j.progress_bits = progress_bits;
                j.loss_bits = loss_bits;
                self.replace(i, j);
            },
            None => {
                proof {
                    lemma_map_absent(ps, job_id);
                }
            },
        }
    }

    /// Marks a job whose run went through all epochs as completed, with full
    /// progress, when it is still running; a job paused or cancelled in the
    /// meantime, or gone, is left as it is.
    pub fn complete_training(&mut self, job_id: JobId)
        requires
            old(self).wf(),
        ensures
            final(self).wf(),
            exists|now: Timestamp| millis_in_range(now) && completion_outcome(old(self)@, final(self)@, job_id, now),
    {
        let now = now_millis();
        self.complete_training_at(job_id, now);
        assert(millis_in_range(now) && completion_outcome(old(self)@, self@, job_id, now));
    }

    /// Completes a job whose run went through all epochs, at `now`: a job
    /// still running is completed with full progress, completed at `now`; a
    /// job paused or cancelled in the meantime, or gone, is left as it is.
    pub fn complete_training_at(&mut self, job_id: JobId, now: Timestamp)
        requires
            old(self).wf(),
        ensures
            final(self).wf(),
            completion_outcome(old(self)@, final(self)@, job_id, now),
    {
        let ghost ps = job_pairs(self.jobs@);
        match self.find(job_id) {
            Some(i) => {
                proof {
                    lemma_map_lookup(ps, i as int);
                }
                if self.jobs[i].status != JobStatus::Running {
                    return;
                }
                let mut j = self.jobs[i].clone();
                j.status = JobStatus::Completed;
                j.progress_bits = FULL_PROGRESS_BITS;
                j.completed_at = Some(now);
                self.replace(i, j);
            },
            None => {
                proof {
                    lemma_map_absent(ps, job_id);
                }
            },
        }
    }

    /// Number of jobs, and of those running, completed and failed.
    pub fn get_stats(&self) -> (r: ServiceStats)
        requires
            self.wf(),
        ensures
            r.total_jobs == self@.jobs.len(),
            r.running_jobs == count_jobs(self.entries(), JobStatus::Running),
            r.completed_jobs == count_jobs(self.entries(), JobStatus::Completed),
            r.failed_jobs == count_jobs(self.entries(), JobStatus::Failed),
    {
        proof {
            lemma_map_len(job_pairs(self.jobs@));
        }
        let ghost es = jobs_view(self.jobs@);
        let mut running: usize = 0;
        let mut completed: usize = 0;
        let mut failed: usize = 0;
        let mut i: usize = 0;
        while i < self.jobs.len()
            invariant
                i <= self.jobs@.len(),
                es == jobs_view(self.jobs@),
                running == count_jobs(es.take(i as int), JobStatus::Running),
                completed == count_jobs(es.take(i as int), JobStatus::Completed),
                failed == count_jobs(es.take(i as int), JobStatus::Failed),
                running <= i,
                completed <= i,
                failed <= i,
            decreases self.jobs@.len() - i,
        {
            assert(es.take(i + 1).drop_last() =~= es.take(i as int));
            let s = self.jobs[i].status;
            if s == JobStatus::Running {
                running = running + 1;
            } else if s == JobStatus::Completed {
                completed = completed + 1;
            } else if s == JobStatus::Failed {
                failed = failed + 1;
            }
            i = i + 1;
        }
        assert(es.take(i as int) =~= es);
        ServiceStats { total_jobs: self.jobs.len(), running_jobs: running, completed_jobs: completed, failed_jobs: failed }
    }
}

/// A clock reading in milliseconds, as chrono gives it.
pub open spec fn millis_in_range(t: Timestamp) -> bool {
    -10_000_000_000_000_000 < t < 10_000_000_000_000_000
}

/// What starting `job_id` at `now` does.
pub open spec fn start_outcome(before: ServiceView, after: ServiceView, job_id: JobId, now: Timestamp, r: Result<(), FineTuningError>) -> bool {
    &&& after.registry == before.registry
    &&& !before.jobs.contains_key(job_id) ==> r == Err::<(), FineTuningError>(FineTuningError::JobNotFound(job_id)) && after == before
    &&& before.jobs.contains_key(job_id) && !(before.jobs[job_id].status == JobStatus::Pending || before.jobs[job_id].status == JobStatus::Paused) ==>
        (r matches Err(FineTuningError::InvalidState(m)) && m@ == state_message("start"@, before.jobs[job_id].status)) && after == before
    &&& before.jobs.contains_key(job_id) && (before.jobs[job_id].status == JobStatus::Pending || before.jobs[job_id].status == JobStatus::Paused) ==>
        r is Ok && after.jobs == before.jobs.insert(job_id, JobView {
            status: JobStatus::Running,
            started_at: Some(now),
            ..before.jobs[job_id]
        })
}

/// What the end of a training run at `now` does to `job_id`.
pub open spec fn completion_outcome(before: ServiceView, after: ServiceView, job_id: JobId, now: Timestamp) -> bool {
    &&& after.registry == before.registry
    &&& !completes(before.jobs, job_id) ==> after == before
    &&& completes(before.jobs, job_id) ==> after.jobs == before.jobs.insert(job_id, JobView {
            status: JobStatus::Completed,
            progress_bits: FULL_PROGRESS_BITS,
            completed_at: Some(now),
            ..before.jobs[job_id]
        })
}

/// The end of a training run completes the job: only when it is still running.
pub open spec fn completes(jobs: Map<JobId, JobView>, id: JobId) -> bool {
    jobs.contains_key(id) && jobs[id].status == JobStatus::Running
}

/// Pausing a running job and resuming it gives the job back as it was;
/// while paused, its training run waits before each epoch and goes on once
/// the job runs again.
pub proof fn law_pause_then_resume(jobs: Map<JobId, JobView>, id: JobId)
    requires
        jobs.contains_key(id),
        jobs[id].status == JobStatus::Running,
    ensures
        with_job_status(with_job_status(jobs, id, JobStatus::Paused), id, JobStatus::Running) == jobs,
        before_epoch(Some(with_job_status(jobs, id, JobStatus::Paused)[id])) == TrainingAction::Wait,
        while_paused(Some(with_job_status(jobs, id, JobStatus::Paused)[id])) == TrainingAction::Wait,
        while_paused(Some(with_job_status(with_job_status(jobs, id, JobStatus::Paused), id, JobStatus::Running)[id])) == TrainingAction::Train,
{
    assert(with_job_status(with_job_status(jobs, id, JobStatus::Paused), id, JobStatus::Running) =~= jobs);
}

/// A training run that nobody pauses or cancels finishes: the job, running,
/// is trained before every epoch, keeps running through them, and the end
/// of the run completes it at the last epoch, with full progress and the
/// time the run ended.
pub proof fn law_uninterrupted_run_completes(
    before: ServiceView,
    id: JobId,
    figures: Seq<(u32, u32)>,
    now: Timestamp,
    after: ServiceView,
)
    requires
        before.jobs.contains_key(id),
        before.jobs[id].status == JobStatus::Running,
        figures.len() <= u32::MAX,
        completion_outcome(ServiceView { jobs: train_epochs(before.jobs, id, figures), ..before }, after, id, now),
    ensures
        forall|k: int| 0 <= k < figures.len() ==>
            before_epoch(Some(#[trigger] train_epochs(before.jobs, id, figures.take(k))[id])) == TrainingAction::Train,
        completes(train_epochs(before.jobs, id, figures), id),
        after.jobs[id].status == JobStatus::Completed,
        after.jobs[id].progress_bits == FULL_PROGRESS_BITS,
        after.jobs[id].completed_at == Some(now),
        figures.len() > 0 ==> after.jobs[id].epoch == figures.len(),
        after.jobs[id].total_epochs == before.jobs[id].total_epochs,
{
    lemma_epochs_keep_running(before.jobs, id, figures);
    assert forall|k: int| 0 <= k < figures.len() implies
        before_epoch(Some(#[trigger] train_epochs(before.jobs, id, figures.take(k))[id])) == TrainingAction::Train by {
        lemma_epochs_keep_running(before.jobs, id, figures.take(k));
    }
}

proof fn lemma_epochs_keep_running(jobs: Map<JobId, JobView>, id: JobId, figures: Seq<(u32, u32)>)
    requires
        jobs.contains_key(id),
        jobs[id].status == JobStatus::Running,
        figures.len() <= u32::MAX,
    ensures
        train_epochs(jobs, id, figures).contains_key(id),
        train_epochs(jobs, id, figures)[id].status == JobStatus::Running,
        train_epochs(jobs, id, figures)[id].total_epochs == jobs[id].total_epochs,
        figures.len() > 0 ==> train_epochs(jobs, id, figures)[id].epoch == figures.len(),
    decreases figures.len(),
{
    if figures.len() > 0 {
        lemma_epochs_keep_running(jobs, id, figures.drop_last());
    }
}

/// A cancelled job stays cancelled: starting, pausing, resuming and
/// cancelling it are all refused, its training run stops, and the end of a
/// run does not complete it.
pub proof fn law_cancel_is_final(jobs: Map<JobId, JobView>, id: JobId)
    requires
        jobs.contains_key(id),
        !(jobs[id].status == JobStatus::Completed || jobs[id].status == JobStatus::Cancelled),
    ensures
        ({
            let c = with_job_status(jobs, id, JobStatus::Cancelled)[id];
            &&& !(c.status == JobStatus::Pending || c.status == JobStatus::Paused)
            &&& c.status != JobStatus::Running
            &&& c.status != JobStatus::Paused
            &&& (c.status == JobStatus::Completed || c.status == JobStatus::Cancelled)
            &&& before_epoch(Some(c)) == TrainingAction::Stop
            &&& while_paused(Some(c)) == TrainingAction::Stop
            &&& !completes(with_job_status(jobs, id, JobStatus::Cancelled), id)
        }),
{
}

} // verus!

