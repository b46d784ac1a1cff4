use vstd::prelude::*;

use crate::clock::since;
use crate::config::Config;
use crate::frame::{capped, frame_due, trailing_count, FrameDetector};
use crate::hook::{texts, HookEngine, HookError};
use crate::screen::ScreenManager;

verus! {

/// Rows of the virtual screen.
pub const SCREEN_ROWS: u16 = 24;

/// Columns of the virtual screen.
pub const SCREEN_COLS: u16 = 80;

/// What a non-blocking check found of the wrapped child.
pub enum ChildStatus {
    /// It exited with this code.
    Exited(i32),
    /// A signal with this number ended it.
    Signaled(u8),
    /// It is still there (running, stopped or continued).
    Running,
}

/// The wrapper's exit code for a child status, if the child has ended.
pub open spec fn exit_code_of(status: ChildStatus) -> Option<int> {
    match status {
        ChildStatus::Exited(code) => Some(code as int),
        ChildStatus::Signaled(sig) => Some(128 + sig),
        ChildStatus::Running => None,
    }
}

/// A normal exit passes its code on; an exit by signal `n` gives `128 + n`.
pub fn exit_code(status: &ChildStatus) -> (r: Option<i32>)
    ensures
        r matches Some(c) ==> exit_code_of(*status) == Some(c as int),
        r is None <==> exit_code_of(*status) is None,
{
    match status {
        ChildStatus::Exited(code) => Some(*code),
        ChildStatus::Signaled(sig) => Some(128 + *sig as i32),
        ChildStatus::Running => None,
    }
}

/// The decisions of the main loop: what the wrapped program's output does to
/// the screen, and which commands a tick fires.
pub struct Monitor {
    pub screen: ScreenManager,
    pub frames: FrameDetector,
    pub hooks: HookEngine,
}

impl Monitor {
    pub open spec fn wf(&self) -> bool {
        &&& self.screen.wf()
        &&& self.hooks.wf()
    }

    /// `next` is `self` after a tick with the detector's clock at
    /// `frame_ns` and the engine's at `hook_ns`, which returned `out`.
    pub open spec fn ticked(
        &self,
        next: &Monitor,
        frame_ns: u64,
        hook_ns: u64,
        out: Seq<Seq<char>>,
    ) -> bool {
        &&& next.wf()
        &&& if frame_due(since(self.frames.last_data(), frame_ns), self.frames.pending()) {
            &&& next.screen.previous() == self.screen.current()
            &&& next.screen.current() == self.screen.rendered()
            &&& next.screen.input() == self.screen.input()
            &&& next.frames.pending() == 0
            &&& self.hooks.evaluated(
                &next.hooks,
                self.screen.current(),
                self.screen.rendered(),
                hook_ns,
                out,
            )
        } else {
            &&& out.len() == 0
            &&& next.screen == self.screen
            &&& next.frames == self.frames
            &&& next.hooks == self.hooks
        }
    }

    /// A monitor over a blank 24 x 80 screen. Fails when a hook's pattern
    /// does not compile, as `HookEngine::new` does.
    pub fn new(config: Config) -> (r: Result<Monitor, HookError>)
        ensures
            r is Ok <==> forall|i: int|
                0 <= i < config.hooks@.len() ==> crate::hook::valid_pattern(
                    config.hooks@[i].regex@,
                ),
            r matches Ok(m) ==> {
                &&& m.wf()
                &&& m.screen.rows() == SCREEN_ROWS
                &&& m.screen.cols() == SCREEN_COLS
                &&& m.screen.input() == Seq::<u8>::empty()
                &&& m.screen.current() == Seq::<char>::empty()
                &&& m.frames.pending() == 0
                &&& m.hooks.hook_count() == config.hooks@.len()
                &&& forall|i: int|
                    0 <= i < config.hooks@.len() ==> {
                        &&& m.hooks.pattern(i) == config.hooks@[i].regex@
                        &&& m.hooks.command(i) == config.hooks@[i].command@
                        &&& m.hooks.cooldown(i) == config.hooks@[i].cooldown_ms
                        &&& m.hooks.last_fired(i) is None
                    }
            },
    {
        let hooks = match HookEngine::new(config.hooks) {
            Ok(h) => h,
            Err(e) => return Err(e),
        };
        Ok(Monitor { screen: ScreenManager::new(SCREEN_ROWS, SCREEN_COLS), frames: FrameDetector::new(), hooks })
    }

    /// A chunk of the child's output: the screen and the frame detector both
    /// see it, the detector at `now_ns`.
    pub fn on_output_at(&mut self, data: &[u8], now_ns: u64)
        requires
            old(self).wf(),
        ensures
            final(self).wf(),
            old(self).screen.processed(data@, &final(self).screen),
            final(self).frames.last_data() == now_ns,
            final(self).frames.pending() == capped(
                trailing_count(old(self).frames.pending(), data@),
            ),
            final(self).hooks == old(self).hooks,
    {
        self.screen.process(data);
        self.frames.on_data_at(data, now_ns);
    }

    /// A chunk of the child's output, arriving now.
    pub fn on_output(&mut self, data: &[u8])
        requires
            old(self).wf(),
        ensures
            final(self).wf(),
            old(self).screen.processed(data@, &final(self).screen),
            final(self).frames.pending() == capped(
                trailing_count(old(self).frames.pending(), data@),
            ),
            final(self).hooks == old(self).hooks,
    {
        let now = self.frames.now_ns();
        self.on_output_at(data, now);
    }

    /// A tick of the loop, with the detector's clock at `frame_ns` and the
    /// engine's at `hook_ns`. When a frame is due, the screen is snapshot,
    /// the hooks are evaluated on the last two snapshots, the byte counter
    /// is cleared, and the commands that fire are returned; else nothing
    /// changes and nothing fires.
    pub fn on_tick_at(&mut self, frame_ns: u64, hook_ns: u64) -> (r: Vec<String>)
        requires
            old(self).wf(),
        ensures
            old(self).ticked(final(self), frame_ns, hook_ns, texts(r@)),
    {
        if self.frames.should_capture_frame_at(frame_ns) {
            let (prev, cur) = self.screen.take_snapshot();
            let commands = self.hooks.evaluate_at(prev.as_str(), cur.as_str(), hook_ns);
            self.frames.reset();
            commands
        } else {
            Vec::new()
        }
    }

    /// A tick of the loop at the time the clocks read now.
    pub fn on_tick(&mut self) -> (r: Vec<String>)
        requires
            old(self).wf(),
        ensures
            exists|frame_ns: u64, hook_ns: u64|
                #[trigger] old(self).ticked(final(self), frame_ns, hook_ns, texts(r@)),
    {
        let frame_ns = self.frames.now_ns();
        let hook_ns = self.hooks.now_ns();
        self.on_tick_at(frame_ns, hook_ns)
    }
}

} // verus!
