//! How a supervisor process starts and when it stops.
//!
//! Both sockets are in place, and the startup grant is checked, before the command runs. What fails on
//! the way leaves no socket behind.

use crate::pty::{IoError, PtyError, PtyErrorModel, PtyResult};
use vstd::prelude::*;

verus! {

/// What a starting supervisor waits for.
#[derive(Clone, Copy, Debug, PartialEq, Eq, Structural)]
pub enum StartupStage {
    BindControl,
    BindAttach,
    ReadGrant,
    SpawnCommand,
    Serving,
    Failed,
}

/// What a starting supervisor does next.
#[derive(Debug)]
pub enum StartupStep {
    /// Publish the viewer socket.
    BindAttach,
    /// Read the startup grant and check it.
    ReadGrant,
    /// Start the command.
    SpawnCommand,
    /// Serve connections.
    Serve,
    /// Remove the sockets that were published, and give up.
    GiveUp { remove_control: bool, remove_attach: bool, error: PtyError },
}

/// The start of a supervisor, which begins with publishing its control socket.
pub struct SupervisorStartup {
    stage: StartupStage,
}

/// The stage after one that succeeded.
pub open spec fn after(stage: StartupStage) -> StartupStage {
    match stage {
        StartupStage::BindControl => StartupStage::BindAttach,
        StartupStage::BindAttach => StartupStage::ReadGrant,
        StartupStage::ReadGrant => StartupStage::SpawnCommand,
        _ => StartupStage::Serving,
    }
}

/// The control socket is in place at a stage.
pub open spec fn control_published(stage: StartupStage) -> bool {
    stage == StartupStage::BindAttach || attach_published(stage)
}

/// The viewer socket is in place at a stage.
pub open spec fn attach_published(stage: StartupStage) -> bool {
    stage == StartupStage::ReadGrant || stage == StartupStage::SpawnCommand || stage
        == StartupStage::Serving
}

impl SupervisorStartup {
    /// What the supervisor waits for.
    pub closed spec fn at(&self) -> StartupStage {
        self.stage
    }

    /// The start begins.
    pub fn new() -> (startup: Self)
        ensures
            startup.at() == StartupStage::BindControl,
    {
        SupervisorStartup { stage: StartupStage::BindControl }
    }

    /// What the supervisor waits for.
    pub fn stage(&self) -> (stage: StartupStage)
        ensures
            stage == self.at(),
    {
        self.stage
    }

    /// What the supervisor waited for succeeded or failed.
    pub fn on_result(&mut self, result: PtyResult<()>) -> (step: StartupStep)
        requires
            old(self).at() != StartupStage::Serving,
            old(self).at() != StartupStage::Failed,
        ensures
            match result {
                Ok(()) => {
                    &&& final(self).at() == after(old(self).at())
                    &&& match final(self).at() {
                        StartupStage::BindAttach => step is BindAttach,
                        StartupStage::ReadGrant => step is ReadGrant,
                        StartupStage::SpawnCommand => step is SpawnCommand,
                        _ => step is Serve,
                    }
                },
                Err(failure) => {
                    &&& final(self).at() == StartupStage::Failed
                    &&& step == (StartupStep::GiveUp {
                        remove_control: control_published(old(self).at()),
                        remove_attach: attach_published(old(self).at()),
                        error: failure,
                    })
                },
            },
    {
        if let Err(error) = result {
            let remove_control = self.stage != StartupStage::BindControl;
            let remove_attach = remove_control && self.stage != StartupStage::BindAttach;
            self.stage = StartupStage::Failed;
            return StartupStep::GiveUp { remove_control, remove_attach, error };
        }
        match self.stage {
            StartupStage::BindControl => {
                self.stage = StartupStage::BindAttach;
                StartupStep::BindAttach
            },
            StartupStage::BindAttach => {
                self.stage = StartupStage::ReadGrant;
                StartupStep::ReadGrant
            },
            StartupStage::ReadGrant => {
                self.stage = StartupStage::SpawnCommand;
                StartupStep::SpawnCommand
            },
            _ => {
                self.stage = StartupStage::Serving;
                StartupStep::Serve
            },
        }
    }
}

/// What happened while the supervisor waited.
#[derive(Debug)]
pub enum ServeEvent {
    /// The shutdown flag changed to this value, or its owner is gone.
    ShutdownChanged(Option<bool>),
    /// Somebody connected.
    Accepted,
    /// Waiting for connections failed.
    AcceptFailed(IoError),
    /// Nothing, for a while.
    Idle,
}

/// What a serving supervisor does next. Before it waits again, it makes sure that its sockets can
/// still be reached.
#[derive(Debug)]
pub enum ServeStep {
    /// Wait again.
    GoOn,
    /// Serve the connection, and wait again.
    ServeConnection,
    /// Remove the sockets and stop.
    Stop,
    /// Stop with a failure.
    Failed(PtyError),
}

/// What a serving supervisor does about an event.
pub fn serve_step(event: ServeEvent) -> (step: ServeStep)
    ensures
        match event {
            ServeEvent::ShutdownChanged(Some(true)) => step is Stop,
            ServeEvent::ShutdownChanged(_) => step is GoOn,
            ServeEvent::Accepted => step is ServeConnection,
            ServeEvent::AcceptFailed(error) => step matches ServeStep::Failed(e) && e@
                == PtyErrorModel::Io(error.kind, error.message@),
            ServeEvent::Idle => step is GoOn,
        },
{
    match event {
        ServeEvent::ShutdownChanged(Some(true)) => ServeStep::Stop,
        ServeEvent::ShutdownChanged(_) => ServeStep::GoOn,
        ServeEvent::Accepted => ServeStep::ServeConnection,
        ServeEvent::AcceptFailed(error) => ServeStep::Failed(PtyError::Io(error)),
        ServeEvent::Idle => ServeStep::GoOn,
    }
}

/// The command is started only after both sockets are in place and the grant was checked: every stage
/// before it has to succeed.
pub proof fn law_command_starts_last(stage: StartupStage)
    requires
        after(stage) == StartupStage::SpawnCommand,
    ensures
        stage == StartupStage::ReadGrant,
        control_published(stage),
        attach_published(stage),
{
}

/// During a start the sockets in place only become more, and the viewer socket never stands alone.
pub proof fn law_published_sockets_grow(stage: StartupStage)
    requires
        stage != StartupStage::Serving,
        stage != StartupStage::Failed,
    ensures
        control_published(stage) ==> control_published(after(stage)),
        attach_published(stage) ==> attach_published(after(stage)),
        attach_published(stage) ==> control_published(stage),
{
}

} // verus!
