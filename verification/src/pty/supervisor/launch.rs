//! Launching a supervisor from the daemon.
//!
//! A supervisor does nothing before it gets its startup grant, and it gets it only after the daemon has
//! written down which process it is. A daemon that dies in between leaves a process that ends by itself.

use crate::pty::supervisor::protocol::ControllerIdentity;
use crate::pty::supervisor::startup_grant::{encode_startup_grant, grant_frame, PtyStartupGrant};
use crate::pty::{
    PtyError, PtyErrorModel, PtyRestoreInfo, PtyResult, PtySupervisorStatus, RestoreModel,
};
use vstd::prelude::*;

verus! {

/// What a launch waits for.
#[derive(Clone, Copy, Debug, PartialEq, Eq, Structural)]
pub enum LaunchStage {
    /// The runtime directory is open, and no old socket is in the way.
    Directory,
    /// The process is started.
    Process,
    /// It is written down which process it is.
    Evidence,
    /// The grant was sent.
    Grant,
    /// A control connection.
    Connection,
    /// Nothing: it is over.
    Over,
}

/// What the daemon does for a launch.
#[derive(Debug)]
pub enum LaunchStep {
    /// Start the process.
    Start,
    /// Write down how to find the process.
    CommitEvidence(PtyRestoreInfo),
    /// Send the grant, and close the pipe.
    SendGrant(Vec<u8>),
    /// Make a control connection.
    Connect,
    /// The session is there.
    Connected,
    /// The process runs, but does not answer: keep it, so that it can be cleaned up.
    Disconnected { connect_error: String },
    /// Close the pipe without a grant, wait for the process to end, and report the failure.
    Abandon(PtyError),
    /// Report the failure.
    Failed(PtyError),
}

/// A launch in progress.
pub struct SupervisorLaunch {
    session_id: String,
    socket_path: String,
    stage: LaunchStage,
    supervisor_pid: u32,
}

/// The content of a [`SupervisorLaunch`].
pub struct LaunchModel {
    pub session_id: Seq<char>,
    pub socket_path: Seq<char>,
    pub stage: LaunchStage,
    pub supervisor_pid: u32,
}

impl View for SupervisorLaunch {
    type V = LaunchModel;

    closed spec fn view(&self) -> LaunchModel {
        LaunchModel {
            session_id: self.session_id@,
            socket_path: self.socket_path@,
            stage: self.stage,
            supervisor_pid: self.supervisor_pid,
        }
    }
}

impl LaunchModel {
    /// The launch waits for something.
    pub open spec fn at(self, stage: LaunchStage) -> LaunchModel {
        LaunchModel { stage, ..self }
    }
}

impl SupervisorLaunch {
    /// A launch begins: the runtime directory has to be opened.
    pub fn begin(session_id: &str, socket_path: &str) -> (launch: Self)
        ensures
            launch@ == (LaunchModel {
                session_id: session_id@,
                socket_path: socket_path@,
                stage: LaunchStage::Directory,
                supervisor_pid: 0,
            }),
    {
        SupervisorLaunch {
            session_id: session_id.to_owned(),
            socket_path: socket_path.to_owned(),
            stage: LaunchStage::Directory,
            supervisor_pid: 0,
        }
    }

    /// What the launch waits for.
    pub fn stage(&self) -> (stage: LaunchStage)
        ensures
            stage == self@.stage,
    {
        self.stage
    }

    /// The directory is ready, or not.
    pub fn on_directory(&mut self, result: PtyResult<()>) -> (step: LaunchStep)
        requires
            old(self)@.stage == LaunchStage::Directory,
        ensures
            match result {
                Ok(()) => final(self)@ == old(self)@.at(LaunchStage::Process) && step is Start,
                Err(failure) => final(self)@ == old(self)@.at(LaunchStage::Over) && step
                    == LaunchStep::Failed(failure),
            },
    {
        match result {
            Ok(()) => {
                self.stage = LaunchStage::Process;
                LaunchStep::Start
            },
            Err(error) => {
                self.stage = LaunchStage::Over;
                LaunchStep::Failed(error)
            },
        }
    }

    /// The process was started, or not.
    pub fn on_started(&mut self, result: PtyResult<u32>) -> (step: LaunchStep)
        requires
            old(self)@.stage == LaunchStage::Process,
        ensures
            match result {
                Ok(pid) => {
                    &&& final(self)@ == (LaunchModel { supervisor_pid: pid, ..old(self)@ }).at(
                        LaunchStage::Evidence,
                    )
                    &&& step matches LaunchStep::CommitEvidence(info)
                    &&& info@ == (RestoreModel::UnixSocket {
                        socket_path: old(self)@.socket_path,
                        supervisor_pid: pid,
                        supervisor_status: PtySupervisorStatus::Running,
                    })
                },
                Err(failure) => final(self)@ == old(self)@.at(LaunchStage::Over) && step
                    == LaunchStep::Failed(failure),
            },
    {
        match result {
            Ok(pid) => {
                self.supervisor_pid = pid;
                self.stage = LaunchStage::Evidence;
                LaunchStep::CommitEvidence(
                    PtyRestoreInfo::UnixSocket {
                        socket_path: self.socket_path.clone(),
                        supervisor_pid: pid,
                        supervisor_status: PtySupervisorStatus::Running,
                    },
                )
            },
            Err(error) => {
                self.stage = LaunchStage::Over;
                LaunchStep::Failed(error)
            },
        }
    }

    /// It was written down which process it is, or not. Only then does the process get its grant, which
    /// is bound to the session, the socket and the process.
    pub fn on_evidence(&mut self, result: PtyResult<()>, grant: &PtyStartupGrant) -> (step: LaunchStep)
        requires
            old(self)@.stage == LaunchStage::Evidence,
        ensures
            match result {
                Ok(()) => {
                    &&& final(self)@ == old(self)@.at(LaunchStage::Grant)
                    &&& step matches LaunchStep::SendGrant(frame)
                    &&& frame@ == grant_frame(
                        grant.spec_operation(),
                        grant.spec_capability(),
                        old(self)@.session_id,
                        old(self)@.socket_path,
                        old(self)@.supervisor_pid,
                    )
                },
                Err(failure) => final(self)@ == old(self)@.at(LaunchStage::Over) && step
                    == LaunchStep::Abandon(failure),
            },
    {
        match result {
            Ok(()) => {
                self.stage = LaunchStage::Grant;
                LaunchStep::SendGrant(
                    encode_startup_grant(
                        grant,
                        self.session_id.as_str(),
                        self.socket_path.as_str(),
                        self.supervisor_pid,
                    ),
                )
            },
            Err(error) => {
                self.stage = LaunchStage::Over;
                LaunchStep::Abandon(error)
            },
        }
    }

    /// The grant was sent, or not.
    pub fn on_grant(&mut self, result: PtyResult<()>) -> (step: LaunchStep)
        requires
            old(self)@.stage == LaunchStage::Grant,
        ensures
            match result {
                Ok(()) => final(self)@ == old(self)@.at(LaunchStage::Connection) && step is Connect,
                Err(failure) => final(self)@ == old(self)@.at(LaunchStage::Over) && step
                    == LaunchStep::Failed(failure),
            },
    {
        match result {
            Ok(()) => {
                self.stage = LaunchStage::Connection;
                LaunchStep::Connect
            },
            Err(error) => {
                self.stage = LaunchStage::Over;
                LaunchStep::Failed(error)
            },
        }
    }

    /// The supervisor answers, or not. A supervisor with a grant is kept either way.
    pub fn on_connected(&mut self, result: PtyResult<()>) -> (step: LaunchStep)
        requires
            old(self)@.stage == LaunchStage::Connection,
        ensures
            final(self)@ == old(self)@.at(LaunchStage::Over),
            match result {
                Ok(()) => step is Connected,
                Err(failure) => step matches LaunchStep::Disconnected { connect_error }
                    && connect_error@ == failure@.text(),
            },
    {
        self.stage = LaunchStage::Over;
        match result {
            Ok(()) => LaunchStep::Connected,
            Err(error) => LaunchStep::Disconnected { connect_error: error.to_string() },
        }
    }
}

/// The failure to reach the pipe of a process.
pub fn startup_pipe_unavailable() -> (error: PtyError)
    ensures
        error@ == PtyErrorModel::Backend("session supervisor startup grant pipe is unavailable"@),
{
    PtyError::backend_message("session supervisor startup grant pipe is unavailable")
}

/// The controller that a daemon holds after its first synchronisation.
pub fn required_controller(controller: Option<ControllerIdentity>) -> (res: PtyResult<ControllerIdentity>)
    ensures
        match controller {
            Some(identity) => res == Ok::<ControllerIdentity, PtyError>(identity),
            None => res matches Err(e) && e@ == PtyErrorModel::Backend(
                "session supervisor controller identity is missing"@,
            ),
        },
{
    match controller {
        Some(identity) => Ok(identity),
        None => Err(
            PtyError::backend_message("session supervisor controller identity is missing"),
        ),
    }
}

} // verus!
