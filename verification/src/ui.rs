use vstd::prelude::*;

verus! {

/// What a progress display has been asked to do: start, or end with a
/// message.
pub enum RenderEvent {
    /// The display was started.
    Start,
    /// The display was ended with this message.
    End(Seq<char>),
}

/// Interface for the progress display shown while searching or blaming.
///
/// Implementations are supplied by the users of the library. One that keeps
/// the log of its calls says so with `keeps_events`: then `events` holds the
/// calls received so far, each call adding its event at the end. By default
/// an implementation claims nothing of the kind.
pub trait ProgressRenderer {
    /// Whether this implementation keeps the log of its calls in `events`.
    open spec fn keeps_events() -> bool {
        false
    }

    /// The calls received so far, in order.
    open spec fn events(&self) -> Seq<RenderEvent> {
        Seq::empty()
    }

    /// Starts the rendering.
    fn start(&mut self)
        ensures
            Self::keeps_events() ==> final(self).events() == old(self).events().push(RenderEvent::Start),
    ;

    /// Ends the rendering, showing `end_message`.
    fn end(&mut self, end_message: String)
        ensures
            Self::keeps_events() ==> final(self).events() == old(self).events().push(
                RenderEvent::End(end_message@),
            ),
    ;
}

/// A progress display that shows nothing and keeps the log of its calls.
pub struct SilentProgress {
    log: Ghost<Seq<RenderEvent>>,
}

impl SilentProgress {
    /// A display that has received no call.
    pub fn new() -> (r: SilentProgress)
        ensures
            r.events() == Seq::<RenderEvent>::empty(),
    {
        SilentProgress { log: Ghost(Seq::empty()) }
    }
}

impl ProgressRenderer for SilentProgress {
    open spec fn keeps_events() -> bool {
        true
    }

    closed spec fn events(&self) -> Seq<RenderEvent> {
        self.log@
    }

    fn start(&mut self) {
        self.log = Ghost(self.log@.push(RenderEvent::Start));
    }

    fn end(&mut self, end_message: String) {
        self.log = Ghost(self.log@.push(RenderEvent::End(end_message@)));
    }
}

} // verus!
