//! The bridge's own state: whether it runs, and the services it offers.
//! Starting, stopping and talking to the Python process is the caller's;
//! this decides when each happens.

use vstd::prelude::*;
use crate::pybridge::config::PyBridgeConfig;
use crate::pybridge::registry::{HandleView, ServiceRegistry};
use crate::pybridge::types::{PyBridgeError, ServiceHandle};

verus! {

/// What a request to start the bridge does.
#[derive(Debug, Clone, Copy, PartialEq, Eq, Structural)]
pub enum StartStep {
    /// Nothing: the bridge is disabled or already running.
    Skip,
    /// Start the Python process, then `mark_started`.
    Spawn,
}

/// What starting a bridge does: nothing when it is disabled or running,
/// else start the process.
pub open spec fn start_step_of(enabled: bool, running: bool) -> StartStep {
    if !enabled || running { StartStep::Skip } else { StartStep::Spawn }
}

/// Starting is idempotent: once the process was started, starting again does
/// nothing until the bridge is stopped; a stopped, enabled bridge starts
/// again; a disabled bridge never starts.
pub proof fn law_start_once(enabled: bool)
    ensures
        start_step_of(enabled, true) == StartStep::Skip,
        enabled ==> start_step_of(enabled, false) == StartStep::Spawn,
        start_step_of(false, false) == StartStep::Skip,
{
}

/// The bridge between the launcher and its Python helper.
pub struct PyBridge {
    config: PyBridgeConfig,
    registry: ServiceRegistry,
    started: bool,
}

impl PyBridge {
    /// The configuration the bridge was made with.
    pub closed spec fn cfg(&self) -> PyBridgeConfig {
        self.config
    }

    /// The services registered, by name.
    pub closed spec fn services(&self) -> Map<Seq<char>, HandleView> {
        self.registry@
    }

    /// Whether the Python process runs.
    pub closed spec fn running(&self) -> bool {
        self.started
    }

    /// The registry keeps one service per name.
    pub closed spec fn wf(&self) -> bool {
        self.registry.wf()
    }

    /// A stopped bridge with no service.
    pub fn new(config: PyBridgeConfig) -> (r: Self)
        ensures
            r.wf(),
            r.cfg() == config,
            r.services() == Map::<Seq<char>, HandleView>::empty(),
            !r.running(),
    {
        PyBridge { config, registry: ServiceRegistry::new(), started: false }
    }

    /// The configuration.
    pub fn config(&self) -> (r: &PyBridgeConfig)
        ensures
            *r == self.cfg(),
    {
        &self.config
    }

    /// The registry of services.
    pub fn registry(&self) -> (r: &ServiceRegistry)
        ensures
            r@ == self.services(),
            self.wf() ==> r.wf(),
    {
        &self.registry
    }

    /// Offers `service`, replacing one of the same name.
    pub fn register_service(&mut self, service: ServiceHandle)
        requires
            old(self).wf(),
        ensures
            final(self).wf(),
            final(self).services() == old(self).services().insert(service.name@, service.view()),
            final(self).cfg() == old(self).cfg(),
            final(self).running() == old(self).running(),
    {
        self.registry.register(service);
    }

    /// Whether the Python process runs.
    pub fn is_started(&self) -> (r: bool)
        ensures
            r == self.running(),
    {
        self.started
    }

    /// What starting does: nothing when disabled or already running, else
    /// start the process.
    pub fn start_step(&self) -> (r: StartStep)
        ensures
            r == start_step_of(self.cfg().enabled, self.running()),
    {
        if !self.config.enabled || self.started {
            StartStep::Skip
        } else {
            StartStep::Spawn
        }
    }

    /// Records that the process was started.
    pub fn mark_started(&mut self)
        ensures
            final(self).running(),
            final(self).wf() == old(self).wf(),
            final(self).cfg() == old(self).cfg(),
            final(self).services() == old(self).services(),
    {
        self.started = true;
    }

    /// Records that the bridge stops; true when a process was running and
    /// must be stopped.
    pub fn stop(&mut self) -> (was_running: bool)
        ensures
            was_running == old(self).running(),
            !final(self).running(),
            final(self).wf() == old(self).wf(),
            final(self).cfg() == old(self).cfg(),
            final(self).services() == old(self).services(),
    {
        let was = self.started;
        self.started = false;
        was
    }

    /// Whether a request may be sent, given whether a process is at hand:
    /// refused when disabled, and when no process runs.
    pub fn call_check(&self, has_process: bool) -> (r: Result<(), PyBridgeError>)
        ensures
            !self.cfg().enabled ==> (r matches Err(PyBridgeError::NotEnabled)),
            self.cfg().enabled && !has_process ==> (r matches Err(PyBridgeError::NotStarted)),
            self.cfg().enabled && has_process ==> r is Ok,
    {
        if !self.config.enabled {
            Err(PyBridgeError::NotEnabled)
        } else if !has_process {
            Err(PyBridgeError::NotStarted)
        } else {
            Ok(())
        }
    }
}

} // verus!
