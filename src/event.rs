use vstd::prelude::*;

verus! {

/// Exit code a worker uses when it gave up waiting for its own startup.
pub const WORKER_TIMEOUT: i8 = 98;

/// Exit code a worker uses when application initialisation failed.
pub const WORKER_INIT_FAILED: i8 = 99;

/// Exit code a worker uses when booting the application failed.
pub const WORKER_BOOT_FAILED: i8 = 100;

/// Why a worker incarnation ended or could not be brought up.
#[derive(Debug, Clone)]
pub enum ProcessError {
    /// Heartbeat failed
    Heartbeat,
    /// Worker startup process failed, possibly application initialization failed
    FailedToStart(Option<String>),
    /// Timeout during startup
    StartupTimeout,
    /// Timeout during graceful stop
    StopTimeout,
    /// Worker configuration error
    ConfigError(String),
    /// Worker init failed
    InitFailed,
    /// Worker boot failed
    BootFailed,
    /// Worker received signal
    Signal(usize),
    /// Worker exited with code
    ExitCode(i8),
}

/// Reason attached to service events.
#[derive(Debug, Clone)]
pub enum Reason {
    ConsoleRequest,
    Exit,
    HeartbeatFailed,
    FailedToStart(Option<String>),
    StartupTimeout,
    StopTimeout,
    WorkerError(String),
    InitFailed,
    BootFailed,
    Signal(usize),
    ExitCode(i8),
}

/// The error that a worker's exit code stands for: the reserved codes have
/// their own variants, every other code is reported as it is.
pub open spec fn exit_code_error(code: i8) -> ProcessError {
    if code == WORKER_TIMEOUT {
        ProcessError::StartupTimeout
    } else if code == WORKER_INIT_FAILED {
        ProcessError::InitFailed
    } else if code == WORKER_BOOT_FAILED {
        ProcessError::BootFailed
    } else {
        ProcessError::ExitCode(code)
    }
}

/// The reason reported upward for a process error.
pub open spec fn reason_of(e: ProcessError) -> Reason {
    match e {
        ProcessError::Heartbeat => Reason::HeartbeatFailed,
        ProcessError::FailedToStart(m) => Reason::FailedToStart(m),
        ProcessError::StartupTimeout => Reason::StartupTimeout,
        ProcessError::StopTimeout => Reason::StopTimeout,
        ProcessError::ConfigError(m) => Reason::WorkerError(m),
        ProcessError::InitFailed => Reason::InitFailed,
        ProcessError::BootFailed => Reason::BootFailed,
        ProcessError::Signal(s) => Reason::Signal(s),
        ProcessError::ExitCode(c) => Reason::ExitCode(c),
    }
}

impl ProcessError {
    /// Maps a worker's exit code to the error it reports.
    pub fn from(code: i8) -> (r: ProcessError)
        ensures
            r == exit_code_error(code),
    {
        if code == WORKER_TIMEOUT {
            ProcessError::StartupTimeout
        } else if code == WORKER_INIT_FAILED {
            ProcessError::InitFailed
        } else if code == WORKER_BOOT_FAILED {
            ProcessError::BootFailed
        } else {
            ProcessError::ExitCode(code)
        }
    }

    /// Whether a slot that failed with this error gives up for its current
    /// configuration: a failed fork, a configuration error and a failed
    /// initialisation or boot are permanent; the others end one incarnation.
    pub open spec fn spec_is_permanent(&self) -> bool {
        match self {
            ProcessError::FailedToStart(_) | ProcessError::ConfigError(_) | ProcessError::InitFailed | ProcessError::BootFailed => true,
            _ => false,
        }
    }

    pub fn is_permanent(&self) -> (r: bool)
        ensures
            r == self.spec_is_permanent(),
    {
        match self {
            ProcessError::FailedToStart(_) | ProcessError::ConfigError(_) | ProcessError::InitFailed | ProcessError::BootFailed => true,
            _ => false,
        }
    }
}

impl<'a> From<&'a ProcessError> for Reason {
    fn from(ob: &'a ProcessError) -> (r: Reason) {
        match ob {
            ProcessError::Heartbeat => Reason::HeartbeatFailed,
            ProcessError::FailedToStart(err) => Reason::FailedToStart(
                match err {
                    Some(e) => Some(e.clone()),
                    None => None,
                },
            ),
            ProcessError::StartupTimeout => Reason::StartupTimeout,
            ProcessError::StopTimeout => Reason::StopTimeout,
            ProcessError::ConfigError(err) => Reason::WorkerError(err.clone()),
            ProcessError::InitFailed => Reason::InitFailed,
            ProcessError::BootFailed => Reason::BootFailed,
            ProcessError::Signal(sig) => Reason::Signal(*sig),
            ProcessError::ExitCode(code) => Reason::ExitCode(*code),
        }
    }
}

impl<'a> vstd::std_specs::convert::FromSpecImpl<&'a ProcessError> for Reason {
    open spec fn obeys_from_spec() -> bool {
        true
    }

    open spec fn from_spec(ob: &'a ProcessError) -> Reason {
        reason_of(*ob)
    }
}

} // verus!
