use vstd::prelude::*;

verus! {

/// What to do next with a connection that is being shut down.
#[derive(Clone, Copy, Debug, PartialEq, Eq, Structural)]
pub enum Closing {
    /// The shutdown is over; the stream is dropped.
    Done,
    /// The timeout has not fired: drive the shutdown of the stream.
    Shutdown,
    /// Neither the timeout nor the shutdown has completed: wait.
    Pending,
}

/// The clean shutdown of a retired stream, raced against a timeout.
/// Whichever of the two completes first ends it.
pub struct CloseConnection<Io> {
    pub io: Io,
    /// The time that the shutdown is given, in nanoseconds.
    pub timeout: u64,
}

impl<Io> CloseConnection<Io> {
    /// The shutdown of `io`, given `timeout` nanoseconds.
    pub fn new(io: Io, timeout: u64) -> (closing: Self)
        ensures
            closing.io == io,
            closing.timeout == timeout,
    {
        CloseConnection { io, timeout }
    }

    /// The timeout is looked at first: once it has fired the shutdown is
    /// over, whatever the stream does; before that the stream's shutdown is
    /// driven.
    pub fn timer_polled(&self, fired: bool) -> (next: Closing)
        ensures
            next == (if fired {
                Closing::Done
            } else {
                Closing::Shutdown
            }),
    {
        if fired {
            Closing::Done
        } else {
            Closing::Shutdown
        }
    }

    /// The stream's shutdown was driven: once it has completed, with or
    /// without an error, the shutdown is over; before that there is nothing
    /// to do but wait.
    pub fn shutdown_polled(&self, completed: bool) -> (next: Closing)
        ensures
            next == (if completed {
                Closing::Done
            } else {
                Closing::Pending
            }),
    {
        if completed {
            Closing::Done
        } else {
            Closing::Pending
        }
    }

    /// One poll of the shutdown: it is over when the timeout has fired or
    /// the stream's shutdown has completed, and pending otherwise.
    pub fn poll(&self, fired: bool, completed: bool) -> (over: bool)
        ensures
            over == (fired || completed),
    {
        match self.timer_polled(fired) {
            Closing::Shutdown => match self.shutdown_polled(completed) {
                Closing::Done => true,
                _ => false,
            },
            Closing::Done => true,
            Closing::Pending => false,
        }
    }
}

} // verus!
