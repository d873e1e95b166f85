//! The force-fastboot handshake: wait for a MediaTek preloader serial port,
//! then keep writing `FASTBOOT` to it until the device shows up in fastboot
//! mode, following the port when it drops and reappears.
use vstd::prelude::*;

verus! {

/// Where the handshake stands, by the answer it waits for.
#[derive(Debug, Clone, Copy, PartialEq, Eq, Structural)]
pub enum HandshakeStage {
    /// Is the device already in fastboot mode?
    Initial,
    /// Waiting for the preloader port to appear.
    AwaitPort,
    /// Writing `FASTBOOT`.
    Writing,
    /// Fastboot check after a write that went through.
    CheckAfterWrite,
    /// Fastboot check after a write that failed.
    CheckAfterFailure,
    /// The port was lost: waiting for it (or for fastboot mode).
    Rewait,
}

/// The handshake and the number of `FASTBOOT` writes so far.
#[derive(Debug, Clone, Copy, PartialEq, Eq, Structural)]
pub struct Handshake {
    pub stage: HandshakeStage,
    pub sends: u64,
}

/// What the caller does next.
#[derive(Debug)]
pub enum HandshakeCommand {
    /// Check whether a fastboot device is present.
    CheckFastboot,
    /// Wait for a new preloader port; with `check_fastboot`, stop waiting
    /// (answering no port) once a fastboot device is present.
    WaitForPreloader { check_fastboot: bool },
    /// Open the serial port and write `FASTBOOT` to it.
    OpenThenWrite(String),
    /// Write `FASTBOOT` to the port.
    Write,
    /// Pause briefly, then write `FASTBOOT` again.
    PauseThenWrite,
    /// Close the lost port and wait for a preloader port or fastboot mode.
    CloseAndWait,
}

/// The caller's answer.
#[derive(Debug)]
pub enum HandshakeEvent {
    /// Whether a fastboot device is present.
    Fastboot(bool),
    /// The port that appeared, if any.
    Port(Option<String>),
    /// Whether the write went through.
    Written(bool),
    /// The command failed with an error that ends the handshake.
    Failed,
}

/// How the handshake ends.
#[derive(Debug, Clone, Copy, PartialEq, Eq, Structural)]
pub enum HandshakeEnd {
    /// The device was in fastboot mode from the start.
    AlreadyFastboot,
    /// Fastboot mode was reached after this many writes.
    Reached { sends: u64 },
    /// Waiting for the preloader ended without a port.
    NoPort,
    /// The failed command's error ends the handshake.
    Aborted,
}

/// The result of one answer.
#[derive(Debug)]
pub enum HandshakeNext {
    Continue(Handshake, HandshakeCommand),
    Finished(HandshakeEnd),
}

/// A command with its port name as characters.
pub ghost enum HandshakeCommandView {
    CheckFastboot,
    WaitForPreloader(bool),
    OpenThenWrite(Seq<char>),
    Write,
    PauseThenWrite,
    CloseAndWait,
}

pub open spec fn handshake_command_view(c: HandshakeCommand) -> HandshakeCommandView {
    match c {
        HandshakeCommand::CheckFastboot => HandshakeCommandView::CheckFastboot,
        HandshakeCommand::WaitForPreloader { check_fastboot } => HandshakeCommandView::WaitForPreloader(
            check_fastboot,
        ),
        HandshakeCommand::OpenThenWrite(p) => HandshakeCommandView::OpenThenWrite(p@),
        HandshakeCommand::Write => HandshakeCommandView::Write,
        HandshakeCommand::PauseThenWrite => HandshakeCommandView::PauseThenWrite,
        HandshakeCommand::CloseAndWait => HandshakeCommandView::CloseAndWait,
    }
}

/// What the command for a stage is (the command that stage waits on).
pub open spec fn stage_command(s: HandshakeStage) -> HandshakeCommandView {
    match s {
        HandshakeStage::Initial => HandshakeCommandView::CheckFastboot,
        HandshakeStage::AwaitPort => HandshakeCommandView::WaitForPreloader(false),
        HandshakeStage::Writing => HandshakeCommandView::Write,
        HandshakeStage::CheckAfterWrite => HandshakeCommandView::CheckFastboot,
        HandshakeStage::CheckAfterFailure => HandshakeCommandView::CheckFastboot,
        HandshakeStage::Rewait => HandshakeCommandView::CloseAndWait,
    }
}

/// The result of one answer, as the contract states it.
pub ghost enum HandshakeNextView {
    Continue(Handshake, HandshakeCommandView),
    Finished(HandshakeEnd),
    /// The answer was not of the kind the stage waits for: ask again.
    Repeat,
}

/// What one answer does to the handshake.
pub open spec fn spec_handshake(h: Handshake, e: HandshakeEvent) -> HandshakeNextView {
    match e {
        HandshakeEvent::Failed => HandshakeNextView::Finished(HandshakeEnd::Aborted),
        _ => match (h.stage, e) {
            (HandshakeStage::Initial, HandshakeEvent::Fastboot(true)) => HandshakeNextView::Finished(
                HandshakeEnd::AlreadyFastboot,
            ),
            (HandshakeStage::Initial, HandshakeEvent::Fastboot(false)) => HandshakeNextView::Continue(
                Handshake { stage: HandshakeStage::AwaitPort, ..h },
                HandshakeCommandView::WaitForPreloader(false),
            ),
            (HandshakeStage::AwaitPort, HandshakeEvent::Port(Some(p))) => HandshakeNextView::Continue(
                Handshake { stage: HandshakeStage::Writing, ..h },
                HandshakeCommandView::OpenThenWrite(p@),
            ),
            (HandshakeStage::AwaitPort, HandshakeEvent::Port(None)) => HandshakeNextView::Finished(
                HandshakeEnd::NoPort,
            ),
            (HandshakeStage::Writing, HandshakeEvent::Written(true)) => HandshakeNextView::Continue(
                Handshake { stage: HandshakeStage::CheckAfterWrite, sends: (h.sends + 1) as u64 },
                HandshakeCommandView::CheckFastboot,
            ),
            (HandshakeStage::Writing, HandshakeEvent::Written(false)) => HandshakeNextView::Continue(
                Handshake { stage: HandshakeStage::CheckAfterFailure, ..h },
                HandshakeCommandView::CheckFastboot,
            ),
            (HandshakeStage::CheckAfterWrite, HandshakeEvent::Fastboot(true))
            | (HandshakeStage::CheckAfterFailure, HandshakeEvent::Fastboot(true)) =>
                HandshakeNextView::Finished(HandshakeEnd::Reached { sends: h.sends }),
            (HandshakeStage::CheckAfterWrite, HandshakeEvent::Fastboot(false)) =>
                HandshakeNextView::Continue(
                Handshake { stage: HandshakeStage::Writing, ..h },
                HandshakeCommandView::PauseThenWrite,
            ),
            (HandshakeStage::CheckAfterFailure, HandshakeEvent::Fastboot(false)) =>
                HandshakeNextView::Continue(
                Handshake { stage: HandshakeStage::Rewait, ..h },
                HandshakeCommandView::CloseAndWait,
            ),
            (HandshakeStage::Rewait, HandshakeEvent::Port(Some(p))) => HandshakeNextView::Continue(
                Handshake { stage: HandshakeStage::Writing, ..h },
                HandshakeCommandView::OpenThenWrite(p@),
            ),
            (HandshakeStage::Rewait, HandshakeEvent::Port(None)) => HandshakeNextView::Finished(
                HandshakeEnd::Reached { sends: h.sends },
            ),
            _ => HandshakeNextView::Repeat,
        },
    }
}

pub open spec fn handshake_matches(n: HandshakeNext, h: Handshake, v: HandshakeNextView) -> bool {
    match v {
        HandshakeNextView::Continue(h2, c) => n matches HandshakeNext::Continue(h3, cmd) && h3 == h2
            && handshake_command_view(cmd) == c,
        HandshakeNextView::Finished(end) => n matches HandshakeNext::Finished(e2) && e2 == end,
        HandshakeNextView::Repeat => n matches HandshakeNext::Continue(h3, cmd) && h3 == h
            && handshake_command_view(cmd) == stage_command(h.stage),
    }
}

impl Handshake {
    /// Start: check for a fastboot device first.
    pub fn new() -> (r: (Handshake, HandshakeCommand))
        ensures
            r.0 == (Handshake { stage: HandshakeStage::Initial, sends: 0 }),
            handshake_command_view(r.1) == HandshakeCommandView::CheckFastboot,
    {
        (Handshake { stage: HandshakeStage::Initial, sends: 0 }, HandshakeCommand::CheckFastboot)
    }

    /// Take an answer and decide what comes next. An answer that does not
    /// fit the stage repeats the stage's command.
    pub fn step(self, event: HandshakeEvent) -> (r: HandshakeNext)
        requires
            event matches HandshakeEvent::Written(true) ==> self.sends < u64::MAX,
        ensures
            handshake_matches(r, self, spec_handshake(self, event)),
    {
        let h = self;
        match event {
            HandshakeEvent::Failed => HandshakeNext::Finished(HandshakeEnd::Aborted),
            HandshakeEvent::Fastboot(true) => match h.stage {
                HandshakeStage::Initial => HandshakeNext::Finished(HandshakeEnd::AlreadyFastboot),
                HandshakeStage::CheckAfterWrite | HandshakeStage::CheckAfterFailure =>
                    HandshakeNext::Finished(HandshakeEnd::Reached { sends: h.sends }),
                _ => h.repeat(),
            },
            HandshakeEvent::Fastboot(false) => match h.stage {
                HandshakeStage::Initial => HandshakeNext::Continue(
                    Handshake { stage: HandshakeStage::AwaitPort, ..h },
                    HandshakeCommand::WaitForPreloader { check_fastboot: false },
                ),
                HandshakeStage::CheckAfterWrite => HandshakeNext::Continue(
                    Handshake { stage: HandshakeStage::Writing, ..h },
                    HandshakeCommand::PauseThenWrite,
                ),
                HandshakeStage::CheckAfterFailure => HandshakeNext::Continue(
                    Handshake { stage: HandshakeStage::Rewait, ..h },
                    HandshakeCommand::CloseAndWait,
                ),
                _ => h.repeat(),
            },
            HandshakeEvent::Port(Some(p)) => match h.stage {
                HandshakeStage::AwaitPort | HandshakeStage::Rewait => HandshakeNext::Continue(
                    Handshake { stage: HandshakeStage::Writing, ..h },
                    HandshakeCommand::OpenThenWrite(p),
                ),
                _ => h.repeat(),
            },
            HandshakeEvent::Port(None) => match h.stage {
                HandshakeStage::AwaitPort => HandshakeNext::Finished(HandshakeEnd::NoPort),
                HandshakeStage::Rewait => HandshakeNext::Finished(
                    HandshakeEnd::Reached { sends: h.sends },
                ),
                _ => h.repeat(),
            },
            HandshakeEvent::Written(ok) => match h.stage {
                HandshakeStage::Writing => if ok {
                    HandshakeNext::Continue(
                        Handshake { stage: HandshakeStage::CheckAfterWrite, sends: h.sends + 1 },
                        HandshakeCommand::CheckFastboot,
                    )
                } else {
                    HandshakeNext::Continue(
                        Handshake { stage: HandshakeStage::CheckAfterFailure, ..h },
                        HandshakeCommand::CheckFastboot,
                    )
                },
                _ => h.repeat(),
            },
        }
    }

    fn repeat(self) -> (r: HandshakeNext)
        ensures
            handshake_matches(r, self, HandshakeNextView::Repeat),
    {
        let cmd = match self.stage {
            HandshakeStage::Initial => HandshakeCommand::CheckFastboot,
            HandshakeStage::AwaitPort => HandshakeCommand::WaitForPreloader { check_fastboot: false },
            HandshakeStage::Writing => HandshakeCommand::Write,
            HandshakeStage::CheckAfterWrite => HandshakeCommand::CheckFastboot,
            HandshakeStage::CheckAfterFailure => HandshakeCommand::CheckFastboot,
            HandshakeStage::Rewait => HandshakeCommand::CloseAndWait,
        };
        HandshakeNext::Continue(self, cmd)
    }
}

} // verus!

verus! {

/// Finding the device in fastboot mode after a write ends the handshake in
/// success with the writes made so far, whether that write went through or
/// failed (the device may drop the port as it switches); the writes are
/// counted only when one goes through, and a write that goes through is
/// always followed by a fastboot check.
pub proof fn law_fastboot_after_write_is_success(h: Handshake)
    ensures
        (h.stage == HandshakeStage::CheckAfterWrite || h.stage == HandshakeStage::CheckAfterFailure)
            ==> spec_handshake(h, HandshakeEvent::Fastboot(true)) == HandshakeNextView::Finished(
            HandshakeEnd::Reached { sends: h.sends },
        ),
        h.stage == HandshakeStage::Writing && h.sends < u64::MAX ==> (spec_handshake(h, HandshakeEvent::Written(true))
            matches HandshakeNextView::Continue(h2, c) && h2.sends == h.sends + 1 && c
            == HandshakeCommandView::CheckFastboot),
        h.stage == HandshakeStage::Writing ==> (spec_handshake(h, HandshakeEvent::Written(false))
            matches HandshakeNextView::Continue(h2, c) && h2.sends == h.sends && c
            == HandshakeCommandView::CheckFastboot),
{
}

/// No answer but a successful write changes the count of writes (below
/// the counter's limit, which the caller keeps), and only
/// the start can report the device as already in fastboot mode.
pub proof fn law_handshake_counts_writes(h: Handshake, e: HandshakeEvent)
    ensures
        h.sends < u64::MAX ==> (spec_handshake(h, e) matches HandshakeNextView::Continue(h2, _) ==> (h2.sends == h.sends || (
            h.stage == HandshakeStage::Writing && (e matches HandshakeEvent::Written(true)) && h2.sends
                == h.sends + 1))),
        spec_handshake(h, e) == HandshakeNextView::Finished(HandshakeEnd::AlreadyFastboot) ==> h.stage
            == HandshakeStage::Initial,
{
}

} // verus!
