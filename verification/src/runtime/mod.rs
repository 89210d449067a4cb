use vstd::prelude::*;
use crate::error::{EpistemError, ErrorView};
use crate::manifest::models::{CapabilityManifest, ReadyProbe, RuntimeType};
use crate::text::{debug_quoted, trim};

verus! {

/// Starts providers and waits for them to be ready. The processes themselves are run
/// elsewhere; this decides what to run and what the outcomes mean.
#[derive(Debug, Default, Clone, Copy)]
pub struct RuntimeController;

/// What to do to learn that a started provider is ready.
#[derive(Debug, Clone, PartialEq, Eq)]
pub enum ReadyCheck {
    /// Nothing: the provider is ready once started.
    Immediate,
    /// Run this shell command in the provider's root; it must succeed.
    RunCommand(String),
    /// Connect to this port on the local host.
    Connect(u16),
    /// Read a line from the provider's output; it must match this text.
    Handshake(String),
}

/// The error a session without captured output gives for a handshake.
pub open spec fn handshake_without_stdout_message() -> Seq<char> {
    "stdio handshake requires captured stdout"@
}

/// What a handshake line comes to: ready when it matches the expected text, leading and
/// trailing white space aside.
pub open spec fn handshake_outcome_of(name: Seq<char>, expected: Seq<char>, line: Seq<char>) -> Result<
    (),
    ErrorView,
> {
    if trim(line) == trim(expected) {
        Ok(())
    } else {
        Err(
            ErrorView::Registry(
                "ready handshake mismatch for "@ + name + ": expected "@ + debug_quoted(expected)
                    + ", got "@ + debug_quoted(line),
            ),
        )
    }
}

impl RuntimeController {
    /// The command that launches the provider: none for a provider that is already
    /// available; a launched provider without an initialize command is an error.
    pub fn launch_command(&self, manifest: &CapabilityManifest) -> (r: Result<
        Option<String>,
        EpistemError,
    >)
        ensures
            manifest.runtime.kind == RuntimeType::Available ==> (r matches Ok(None)),
            manifest.runtime.kind != RuntimeType::Available ==> match manifest.runtime.initialize {
                Some(c) => r matches Ok(Some(x)) && x@ == c@,
                None => r matches Err(e) && e@ == ErrorView::Registry(
                    "missing runtime initialize command for "@ + manifest.name@,
                ),
            },
    {
        match manifest.runtime.kind {
            RuntimeType::Available => Ok(None),
            _ => match &manifest.runtime.initialize {
                Some(c) => Ok(Some(crate::text::owned(c.as_str()))),
                None => Err(
                    EpistemError::Registry(
                        crate::text::concat(
                            "missing runtime initialize command for ",
                            manifest.name.as_str(),
                        ),
                    ),
                ),
            },
        }
    }

    /// How to tell that the launched provider is ready, from its ready probe.
    pub fn ready_check(&self, manifest: &CapabilityManifest) -> (r: ReadyCheck)
        ensures
            match manifest.runtime.ready {
                None => r == ReadyCheck::Immediate,
                Some(ReadyProbe::Process) => r == ReadyCheck::Immediate,
                Some(ReadyProbe::Command { command }) => r matches ReadyCheck::RunCommand(c) && c@
                    == command@,
                Some(ReadyProbe::Tcp { port }) => r == ReadyCheck::Connect(port),
                Some(ReadyProbe::StdioHandshake { expected }) => r matches ReadyCheck::Handshake(e)
                    && e@ == expected@,
            },
    {
        match &manifest.runtime.ready {
            None => ReadyCheck::Immediate,
            Some(ReadyProbe::Process) => ReadyCheck::Immediate,
            Some(ReadyProbe::Command { command }) => ReadyCheck::RunCommand(
                crate::text::owned(command.as_str()),
            ),
            Some(ReadyProbe::Tcp { port }) => ReadyCheck::Connect(*port),
            Some(ReadyProbe::StdioHandshake { expected }) => ReadyCheck::Handshake(
                crate::text::owned(expected.as_str()),
            ),
        }
    }

    /// What the ready command's exit comes to.
    pub fn command_ready_outcome(&self, manifest: &CapabilityManifest, succeeded: bool) -> (r: Result<
        (),
        EpistemError,
    >)
        ensures
            succeeded ==> r is Ok,
            !succeeded ==> (r matches Err(e) && e@ == ErrorView::Registry(
                "ready command failed for "@ + manifest.name@,
            )),
    {
        if succeeded {
            Ok(())
        } else {
            Err(
                EpistemError::Registry(
                    crate::text::concat("ready command failed for ", manifest.name.as_str()),
                ),
            )
        }
    }

    /// What the line a provider printed comes to, against the expected handshake.
    pub fn handshake_outcome(&self, manifest: &CapabilityManifest, expected: &str, line: &str) -> (r:
        Result<(), EpistemError>)
        ensures
            match handshake_outcome_of(manifest.name@, expected@, line@) {
                Ok(()) => r is Ok,
                Err(e) => r matches Err(x) && x@ == e,
            },
    {
        let got = crate::text::trim_text(line);
        let want = crate::text::trim_text(expected);
        if crate::text::str_eq(got.as_str(), want.as_str()) {
            Ok(())
        } else {
            let mut m = crate::text::concat3(
                "ready handshake mismatch for ",
                manifest.name.as_str(),
                ": expected ",
            );
            let e = crate::text::debug_text(expected);
            m.append(e.as_str());
            m.append(", got ");
            let l = crate::text::debug_text(line);
            m.append(l.as_str());
            Err(EpistemError::Registry(m))
        }
    }

    /// The error of a handshake with a provider whose output is not captured.
    pub fn handshake_without_stdout(&self) -> (e: EpistemError)
        ensures
            e@ == ErrorView::Registry(handshake_without_stdout_message()),
    {
        EpistemError::Registry(crate::text::owned("stdio handshake requires captured stdout"))
    }

    /// What the shutdown command's exit comes to.
    pub fn shutdown_outcome(&self, manifest: &CapabilityManifest, succeeded: bool) -> (r: Result<
        (),
        EpistemError,
    >)
        ensures
            succeeded ==> r is Ok,
            !succeeded ==> (r matches Err(e) && e@ == ErrorView::Registry(
                "shutdown command failed for "@ + manifest.name@,
            )),
    {
        if succeeded {
            Ok(())
        } else {
            Err(
                EpistemError::Registry(
                    crate::text::concat("shutdown command failed for ", manifest.name.as_str()),
                ),
            )
        }
    }

    /// A provider's reply line: its trimmed text, or an error when it is blank.
    pub fn reply_text(&self, line: &str) -> (r: Result<String, EpistemError>)
        ensures
            trim(line@).len() == 0 ==> (r matches Err(e) && e@ == ErrorView::Registry(
                "provider returned an empty response"@,
            )),
            trim(line@).len() > 0 ==> (r matches Ok(t) && t@ == trim(line@)),
    {
        let t = crate::text::trim_text(line);
        if t.as_str().is_empty() {
            Err(EpistemError::Registry(crate::text::owned("provider returned an empty response")))
        } else {
            Ok(t)
        }
    }
}

} // verus!
