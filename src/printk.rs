use vstd::prelude::*;
use vstd::string::StringSliceAdditionalSpecFns;
use vstd::utf8::encode_utf8;
use crate::manager::{lemma_shown_chain, ScreenManager};

verus! {

/// The screen that kernel messages go to.
pub const LOG_SCREEN: usize = 1;

/// Severity of a kernel message.
#[derive(Clone, Copy, Debug, PartialEq, Eq, Structural)]
pub enum LogLevel {
    Emergency,
    Alert,
    Critical,
    Error,
    Warn,
    Notice,
    Info,
    Debug,
    Default,
}

/// The tag written before a message of the given level.
pub open spec fn level_tag(level: LogLevel) -> Seq<char> {
    match level {
        LogLevel::Emergency => "<0> "@,
        LogLevel::Alert => "<1> "@,
        LogLevel::Critical => "<2> "@,
        LogLevel::Error => "<3> "@,
        LogLevel::Warn => "<4> "@,
        LogLevel::Notice => "<5> "@,
        LogLevel::Info => "<6> "@,
        LogLevel::Debug => "<7> "@,
        LogLevel::Default => ""@,
    }
}

impl LogLevel {
    pub fn as_str(&self) -> (r: &'static str)
        ensures
            r@ == level_tag(*self),
    {
        match self {
            LogLevel::Emergency => "<0> ",
            LogLevel::Alert => "<1> ",
            LogLevel::Critical => "<2> ",
            LogLevel::Error => "<3> ",
            LogLevel::Warn => "<4> ",
            LogLevel::Notice => "<5> ",
            LogLevel::Info => "<6> ",
            LogLevel::Debug => "<7> ",
            LogLevel::Default => "",
        }
    }
}

/// Writes tagged messages to the log screen.
pub struct Logger {
    pub level: LogLevel,
}

/// The manager after a message with the given tag bytes was appended to the
/// log screen and shown when that screen is active; unchanged without a log
/// screen.
pub open spec fn logged(m1: ScreenManager, m0: ScreenManager, tag: Seq<u8>, text: Seq<u8>) -> bool {
    if m0.populated(LOG_SCREEN as int) {
        m1.with_screen_shown(
            m0,
            LOG_SCREEN as int,
            m0.slot(LOG_SCREEN as int)->0.write_bytes(tag + text),
        )
    } else {
        m1 == m0
    }
}

impl Logger {
    pub fn new(level: LogLevel) -> (l: Logger)
        ensures
            l.level == level,
    {
        Logger { level }
    }

    /// Writes the level's tag, then `s`, to the log screen.
    pub fn write_str(&self, manager: &mut ScreenManager, s: &str)
        requires
            old(manager).wf(),
        ensures
            final(manager).wf(),
            logged(
                *final(manager),
                *old(manager),
                encode_utf8(level_tag(self.level)),
                s.spec_bytes(),
            ),
    {
        let ghost m0 = *old(manager);
        let tag = self.level.as_str();
        manager.write_to_screen(LOG_SCREEN, tag);
        let ghost m1 = *manager;
        manager.write_to_screen(LOG_SCREEN, s);
        proof {
            let s0 = m0.slot(LOG_SCREEN as int)->0;
            crate::screen::lemma_write_bytes_concat(s0, tag.spec_bytes(), s.spec_bytes());
            if m0.populated(LOG_SCREEN as int) {
                lemma_shown_chain(
                    m0,
                    m1,
                    *manager,
                    LOG_SCREEN as int,
                    s0.write_bytes(tag.spec_bytes()),
                    s0.write_bytes(tag.spec_bytes() + s.spec_bytes()),
                );
            }
        }
    }
}

} // verus!
