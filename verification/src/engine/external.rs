//! The process orchestrator, as a state machine.  A `PipelineRun` plans
//! one statement's external work: every stage is spawned, left to right,
//! before any stage is waited on (so no stage can block writing into a
//! full pipe while the shell is blocked on an earlier one), and every
//! spawned stage is waited on even after a failure, so no child is ever
//! left unreaped.  The caller performs each requested action against the
//! operating system and reports what happened.

use vstd::prelude::*;

use crate::engine::command::{ExecError, Invocation};

verus! {

/// Where a stage's standard output goes.
#[derive(Debug)]
pub enum StageOut {
    /// Into the pipe feeding the next stage.
    Pipe,
    /// To the terminal (the shell's own standard output).
    Inherit,
    /// Into the named file, created or truncated.
    File(String),
}

/// What the run asks its driver to do next.
#[derive(Debug)]
pub enum Action {
    /// Spawn stage `index`, reading from the previous stage's pipe when
    /// `pipe_in` holds, writing as `out` says.
    Spawn { index: usize, pipe_in: bool, out: StageOut },
    /// Wait for stage `index` and report whether it exited successfully.
    Wait { index: usize },
    /// Nothing is left to do.
    Finished,
}

/// The run's progress.
#[derive(Debug)]
pub enum Phase {
    Spawning,
    Waiting,
    Done,
}

/// A spec-level image of an execution error, over plain values.
pub enum ErrModel {
    MissingRedirectTarget,
    NotFound(Seq<char>),
    Stage(int),
    Io(Seq<char>),
}

/// The model of an executable error.
pub open spec fn err_model(e: ExecError) -> ErrModel {
    match e {
        ExecError::MissingRedirectTarget => ErrModel::MissingRedirectTarget,
        ExecError::CommandNotFound(name) => ErrModel::NotFound(name@),
        ExecError::StageFailed(index) => ErrModel::Stage(index as int),
        ExecError::Io(detail) => ErrModel::Io(detail@),
    }
}

/// One statement's external work: the stages to run, the optional
/// redirect target for the last stage, and how far the run has come.
pub struct PipelineRun {
    dir: String,
    stages: Vec<Invocation>,
    redirect: Option<String>,
    spawned: usize,
    waited: usize,
    phase: Phase,
    failure: Option<ExecError>,
}

impl PipelineRun {
    /// The working directory every stage starts in.
    pub closed spec fn dir_view(&self) -> Seq<char> {
        self.dir@
    }

    /// The stages, in pipeline order.
    pub closed spec fn stages_view(&self) -> Seq<Invocation> {
        self.stages@
    }

    /// The redirect target of the last stage, if any.
    pub closed spec fn redirect_view(&self) -> Option<Seq<char>> {
        match self.redirect {
            Option::Some(t) => Option::Some(t@),
            Option::None => Option::None,
        }
    }

    /// How many stages have been spawned.
    pub closed spec fn spawned_count(&self) -> int {
        self.spawned as int
    }

    /// How many stages have been waited on.
    pub closed spec fn waited_count(&self) -> int {
        self.waited as int
    }

    /// Whether the run is still spawning stages.
    pub closed spec fn is_spawning(&self) -> bool {
        self.phase is Spawning
    }

    /// Whether the run is reaping spawned stages.
    pub closed spec fn is_waiting(&self) -> bool {
        self.phase is Waiting
    }

    /// Whether the run is over.
    pub closed spec fn is_done(&self) -> bool {
        self.phase is Done
    }

    /// The first failure seen so far, if any.
    pub closed spec fn failure_model(&self) -> Option<ErrModel> {
        match self.failure {
            Option::Some(e) => Option::Some(err_model(e)),
            Option::None => Option::None,
        }
    }

    /// The machine's invariant.  A run is always in one of the three
    /// phases, so a driver that sees spawning and finishing ruled out may
    /// conclude it is waiting.  Further: waits never outrun spawns, a run
    /// only finishes once every spawned stage has been waited on, and
    /// while stages remain to spawn no failure has been seen.
    pub open spec fn wf(&self) -> bool {
        &&& (self.is_spawning() || self.is_waiting() || self.is_done())
        &&& self.waited_count() <= self.spawned_count() <= self.stages_view().len()
        &&& (self.is_spawning() ==> self.waited_count() == 0 && self.failure_model() is None
            && self.spawned_count() < self.stages_view().len())
        &&& (self.is_waiting() ==> self.waited_count() < self.spawned_count())
        &&& (self.is_waiting() ==> self.spawned_count() == self.stages_view().len()
            || self.failure_model() is Some)
        &&& (self.is_done() ==> self.waited_count() == self.spawned_count())
        &&& (self.is_done() ==> self.spawned_count() == self.stages_view().len()
            || self.failure_model() is Some)
    }

    /// A run that has not started: nothing spawned, nothing waited, no
    /// failure; a run with no stages at all is already done.
    pub open spec fn initial(&self) -> bool {
        &&& self.spawned_count() == 0
        &&& self.waited_count() == 0
        &&& self.failure_model() is None
        &&& if self.stages_view().len() == 0 {
            self.is_done()
        } else {
            self.is_spawning()
        }
    }

    /// Builds the run for the given stages.
    pub fn new(dir: String, stages: Vec<Invocation>, redirect: Option<String>) -> (r: PipelineRun)
        ensures
            r.wf(),
            r.initial(),
            r.dir_view() == dir@,
            r.stages_view() == stages@,
            r.redirect_view() == match redirect {
                Option::Some(t) => Option::Some(t@),
                Option::None => Option::None::<Seq<char>>,
            },
    {
        let phase = if stages.len() == 0 {
            Phase::Done
        } else {
            Phase::Spawning
        };
        PipelineRun { dir, stages, redirect, spawned: 0, waited: 0, phase, failure: None }
    }

    /// How many stages the run has.
    pub fn num_stages(&self) -> (r: usize)
        ensures
            r == self.stages_view().len(),
    {
        self.stages.len()
    }

    /// The stage at `index`.
    pub fn stage(&self, index: usize) -> (r: &Invocation)
        requires
            index < self.stages_view().len(),
        ensures
            *r == self.stages_view()[index as int],
    {
        &self.stages[index]
    }

    /// The working directory, for the driver to start stages in.
    pub fn dir(&self) -> (r: &String)
        ensures
            r@ == self.dir_view(),
    {
        &self.dir
    }

    /// Whether the run is over.
    pub fn finished(&self) -> (r: bool)
        ensures
            r == self.is_done(),
    {
        match self.phase {
            Phase::Done => true,
            _ => false,
        }
    }

    /// What to do next.  While spawning, that is spawning the next stage
    /// in order, with its input piped from the previous stage and its
    /// output piped onward, redirected, or left on the terminal when it
    /// is the last stage.  While waiting, that is waiting on the oldest
    /// stage not yet reaped -- also after a failure: a failed or
    /// unspawnable stage never cuts the reaping short.
    pub fn next(&self) -> (a: Action)
        requires
            self.wf(),
        ensures
            self.is_spawning() ==> (a matches Action::Spawn { index, pipe_in, out } && index
                == self.spawned_count() && pipe_in == (self.spawned_count() > 0) && (if self
                .spawned_count() + 1 < self.stages_view().len() {
                out is Pipe
            } else {
                match self.redirect_view() {
                    Option::Some(t) => out matches StageOut::File(f) && f@ == t,
                    Option::None => out is Inherit,
                }
            })),
            self.is_waiting() ==> (a matches Action::Wait { index } && index
                == self.waited_count()),
            self.is_done() ==> (a is Finished),
    {
        match self.phase {
            Phase::Spawning => {
                let n = self.stages.len();
                let out = if self.spawned + 1 < n {
                    StageOut::Pipe
                } else {
                    match &self.redirect {
                        Some(t) => StageOut::File(t.clone()),
                        None => StageOut::Inherit,
                    }
                };
                Action::Spawn { index: self.spawned, pipe_in: self.spawned > 0, out }
            },
            Phase::Waiting => Action::Wait { index: self.waited },
            Phase::Done => Action::Finished,
        }
    }

    /// Records that the requested stage was spawned.
    pub fn spawned_ok(&mut self)
        requires
            old(self).wf(),
            old(self).is_spawning(),
        ensures
            final(self).wf(),
            final(self).dir_view() == old(self).dir_view(),
            final(self).stages_view() == old(self).stages_view(),
            final(self).redirect_view() == old(self).redirect_view(),
            final(self).spawned_count() == old(self).spawned_count() + 1,
            final(self).waited_count() == old(self).waited_count(),
            final(self).failure_model() == old(self).failure_model(),
            final(self).is_done() == false,
            final(self).is_spawning() == (old(self).spawned_count() + 1 < old(
                self,
            ).stages_view().len()),
    {
        let n = self.stages.len();
        self.spawned = self.spawned + 1;
        if self.spawned == n {
            self.phase = Phase::Waiting;
        }
    }

    /// Records that the requested stage could not be spawned because its
    /// executable was not found.  The stages already spawned are still
    /// waited on; no further stage is spawned.
    pub fn spawn_failed(&mut self)
        requires
            old(self).wf(),
            old(self).is_spawning(),
        ensures
            final(self).wf(),
            final(self).dir_view() == old(self).dir_view(),
            final(self).stages_view() == old(self).stages_view(),
            final(self).redirect_view() == old(self).redirect_view(),
            final(self).spawned_count() == old(self).spawned_count(),
            final(self).waited_count() == old(self).waited_count(),
            final(self).failure_model() == Option::Some(
                ErrModel::NotFound(
                    old(self).stages_view()[old(self).spawned_count()].name@,
                ),
            ),
            final(self).is_spawning() == false,
            final(self).is_done() == (old(self).spawned_count() == 0),
    {
        let name = self.stages[self.spawned].name.clone();
        self.failure = Some(ExecError::CommandNotFound(name));
        if self.waited == self.spawned {
            self.phase = Phase::Done;
        } else {
            self.phase = Phase::Waiting;
        }
    }

    /// Records that pipe plumbing or the redirect file failed before the
    /// requested stage could be spawned.  As with a spawn failure, the
    /// stages already spawned are still waited on.
    pub fn io_failed(&mut self, detail: String)
        requires
            old(self).wf(),
            old(self).is_spawning(),
        ensures
            final(self).wf(),
            final(self).dir_view() == old(self).dir_view(),
            final(self).stages_view() == old(self).stages_view(),
            final(self).redirect_view() == old(self).redirect_view(),
            final(self).spawned_count() == old(self).spawned_count(),
            final(self).waited_count() == old(self).waited_count(),
            final(self).failure_model() == Option::Some(ErrModel::Io(detail@)),
            final(self).is_spawning() == false,
            final(self).is_done() == (old(self).spawned_count() == 0),
    {
        self.failure = Some(ExecError::Io(detail));
        if self.waited == self.spawned {
            self.phase = Phase::Done;
        } else {
            self.phase = Phase::Waiting;
        }
    }

    /// Records the exit of the stage just waited on.  The first
    /// unsuccessful exit is recorded with the stage's 1-based position;
    /// later results never overwrite an earlier failure, and waiting goes
    /// on until every spawned stage is reaped.
    pub fn waited(&mut self, success: bool)
        requires
            old(self).wf(),
            old(self).is_waiting(),
        ensures
            final(self).wf(),
            final(self).dir_view() == old(self).dir_view(),
            final(self).stages_view() == old(self).stages_view(),
            final(self).redirect_view() == old(self).redirect_view(),
            final(self).spawned_count() == old(self).spawned_count(),
            final(self).waited_count() == old(self).waited_count() + 1,
            final(self).failure_model() == if old(self).failure_model() is Some {
                old(self).failure_model()
            } else if !success {
                Option::Some(ErrModel::Stage(old(self).waited_count() + 1))
            } else {
                Option::None::<ErrModel>
            },
            final(self).is_done() == (old(self).waited_count() + 1 == old(self).spawned_count()),
            final(self).is_spawning() == false,
    {
        let stage_index = self.waited + 1;
        if !success {
            match &self.failure {
                Some(_) => {},
                None => {
                    self.failure = Some(ExecError::StageFailed(stage_index));
                },
            }
        }
        self.waited = self.waited + 1;
        if self.waited == self.spawned {
            self.phase = Phase::Done;
        }
    }

    /// The run's outcome: success, or the first failure seen.
    pub fn result(&self) -> (r: Result<(), ExecError>)
        requires
            self.wf(),
            self.is_done(),
        ensures
            match r {
                Result::Ok(()) => self.failure_model() is None,
                Result::Err(e) => self.failure_model() == Option::Some(err_model(e)),
            },
    {
        match &self.failure {
            None => Ok(()),
            Some(ExecError::MissingRedirectTarget) => Err(ExecError::MissingRedirectTarget),
            Some(ExecError::CommandNotFound(name)) => Err(
                ExecError::CommandNotFound(name.clone()),
            ),
            Some(ExecError::StageFailed(index)) => Err(ExecError::StageFailed(*index)),
            Some(ExecError::Io(detail)) => Err(ExecError::Io(detail.clone())),
        }
    }
}

/// No process is ever left unreaped: when a run reports that it is done,
/// every stage it asked the driver to spawn has also been waited on --
/// whether the run succeeded or a stage failed along the way.
pub proof fn lemma_done_run_fully_reaped(r: PipelineRun)
    requires
        r.wf(),
        r.is_done(),
    ensures
        r.waited_count() == r.spawned_count(),
{
}

/// The executor that prepares runs for external commands, remembering
/// the directory they start in.
pub struct ExternalCommand {
    current_dir: String,
}

impl ExternalCommand {
    /// The working directory handed to every run.
    pub closed spec fn dir_view(&self) -> Seq<char> {
        self.current_dir@
    }

    /// An executor rooted at `current_dir`.
    pub fn new(current_dir: String) -> (r: ExternalCommand)
        ensures
            r.dir_view() == current_dir@,
    {
        ExternalCommand { current_dir }
    }

    /// The run for a single command: one stage, no pipes, no redirect.
    pub fn execute(&self, command: &str, args: Vec<String>) -> (r: PipelineRun)
        ensures
            r.wf(),
            r.initial(),
            r.dir_view() == self.dir_view(),
            r.stages_view().len() == 1,
            r.stages_view()[0].name@ == command@,
            r.stages_view()[0].args.deep_view() == args.deep_view(),
            r.redirect_view() is None,
    {
        let cv = crate::strutil::str_chars(command);
        let name = crate::strutil::string_from_chars(&cv);
        let inv = Invocation { name, args };
        let mut stages: Vec<Invocation> = Vec::new();
        stages.push(inv);
        PipelineRun::new(self.current_dir.clone(), stages, None)
    }

    /// The run for a pipeline: the given stages, wired left to right.
    pub fn execute_pipeline(&self, stages: Vec<Invocation>) -> (r: PipelineRun)
        ensures
            r.wf(),
            r.initial(),
            r.dir_view() == self.dir_view(),
            r.stages_view() == stages@,
            r.redirect_view() is None,
    {
        PipelineRun::new(self.current_dir.clone(), stages, None)
    }

    /// The run for a single command whose output goes to `redirect`.
    pub fn execute_redirect(&self, command: &str, args: Vec<String>, redirect: &str) -> (r:
        PipelineRun)
        ensures
            r.wf(),
            r.initial(),
            r.dir_view() == self.dir_view(),
            r.stages_view().len() == 1,
            r.stages_view()[0].name@ == command@,
            r.stages_view()[0].args.deep_view() == args.deep_view(),
            r.redirect_view() == Option::Some(redirect@),
    {
        let cv = crate::strutil::str_chars(command);
        let name = crate::strutil::string_from_chars(&cv);
        let tv = crate::strutil::str_chars(redirect);
        let target = crate::strutil::string_from_chars(&tv);
        let inv = Invocation { name, args };
        let mut stages: Vec<Invocation> = Vec::new();
        stages.push(inv);
        PipelineRun::new(self.current_dir.clone(), stages, Some(target))
    }
}

} // verus!
