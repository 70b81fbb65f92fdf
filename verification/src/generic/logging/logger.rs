//! The kernel logger: writes text to a sink.
use vstd::prelude::*;
use crate::drivers::logs::sinks::Sink;

verus! {

pub struct Logger<'a, S: Sink> {
    pub sink: &'a mut S,
}

impl<'a, S: Sink> Logger<'a, S> {
    pub fn new(sink: &'a mut S) -> (logger: Self)
        ensures
            *logger.sink == *old(sink),
            *final(logger.sink) == *final(sink),
    {
        Logger { sink }
    }

    /// Writes `s` to the sink. Writing cannot fail, so there is no error to report.
    pub fn write_str(&mut self, s: &str)
        requires
            old(self).sink.accepts_str(s@),
        ensures
            old(self).sink.put_str_result(s@, final(self).sink),
    {
        self.sink.putstr(s);
    }
}

} // verus!
