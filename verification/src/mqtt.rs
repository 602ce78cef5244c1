//! One publication to the message sink: connect, send one message,
//! disconnect. The steps are carried out by the caller; which step comes
//! next, and what a failed step means, is decided here.

use vstd::prelude::*;

verus! {

/// TCP port of the broker.
pub const BROKER_PORT: u16 = 1883;

/// Seconds after which a silent connection is given up.
pub const SOCKET_TIMEOUT_SECS: u64 = 10;

/// Keep-alive announced to the broker, in seconds.
pub const KEEP_ALIVE_SECS: u16 = 30;

/// Largest packet accepted from the broker, in bytes.
pub const MAX_PACKET_SIZE: u32 = 100;

/// Milliseconds left to the network stack after the socket is closed.
pub const SETTLE_MILLIS: u64 = 100;

/// Why a publication did not go through.
#[derive(Clone, Copy, Debug, PartialEq, Eq, Structural)]
pub enum Error {
    DnsResolveFailed,
    ConnectionFailed,
    PublishFailed,
    DisconnectFailed,
}

/// The steps of one publication.
#[derive(Clone, Copy, Debug, PartialEq, Eq, Structural)]
pub enum Step {
    /// Look up the address of the broker.
    Resolve,
    /// Open the connection.
    Connect,
    /// Introduce the client to the broker.
    Greet,
    /// Send the message.
    Send,
    /// Take leave of the broker.
    Disconnect,
}

impl Step {
    /// The step that a publication begins with.
    pub open spec fn first_spec() -> Step {
        Step::Resolve
    }

    /// The error that stands for a failure of this step.
    pub open spec fn failure(self) -> Error {
        match self {
            Step::Resolve => Error::DnsResolveFailed,
            Step::Connect => Error::ConnectionFailed,
            Step::Greet => Error::ConnectionFailed,
            Step::Send => Error::PublishFailed,
            Step::Disconnect => Error::DisconnectFailed,
        }
    }

    /// The step that follows this one, if any.
    pub open spec fn following(self) -> Option<Step> {
        match self {
            Step::Resolve => Some(Step::Connect),
            Step::Connect => Some(Step::Greet),
            Step::Greet => Some(Step::Send),
            Step::Send => Some(Step::Disconnect),
            Step::Disconnect => None,
        }
    }

    /// Number of steps from this one to the end, this one included.
    pub open spec fn remaining(self) -> nat {
        match self {
            Step::Resolve => 5,
            Step::Connect => 4,
            Step::Greet => 3,
            Step::Send => 2,
            Step::Disconnect => 1,
        }
    }

    /// The step that a publication begins with.
    #[verifier::when_used_as_spec(first_spec)]
    pub fn first() -> (step: Step)
        ensures
            step == Step::first_spec(),
    {
        Step::Resolve
    }

    /// What comes after this step: the next step where this one succeeded
    /// and is not the last, nothing more where the last one succeeded, and
    /// the step's error where it failed.
    pub fn advance(self, succeeded: bool) -> (next: Result<Option<Step>, Error>)
        ensures
            next == if succeeded {
                Ok::<Option<Step>, Error>(self.following())
            } else {
                Err(self.failure())
            },
    {
        if !succeeded {
            return Err(
                match self {
                    Step::Resolve => Error::DnsResolveFailed,
                    Step::Connect => Error::ConnectionFailed,
                    Step::Greet => Error::ConnectionFailed,
                    Step::Send => Error::PublishFailed,
                    Step::Disconnect => Error::DisconnectFailed,
                },
            );
        }
        Ok(
            match self {
                Step::Resolve => Some(Step::Connect),
                Step::Connect => Some(Step::Greet),
                Step::Greet => Some(Step::Send),
                Step::Send => Some(Step::Disconnect),
                Step::Disconnect => None,
            },
        )
    }
}

/// How a publication ends when its steps, from `step` on, end as `results`
/// says: with the error of the first step that fails, and well when none
/// does.
pub open spec fn conclusion(step: Step, results: Seq<bool>) -> Result<(), Error>
    decreases step.remaining(),
{
    if results.len() == 0 || !results[0] {
        Err(step.failure())
    } else {
        match step.following() {
            Some(next) => conclusion(next, results.drop_first()),
            None => Ok(()),
        }
    }
}

/// A publication goes through exactly when each of its five steps does.
pub proof fn lemma_publication_needs_every_step(results: Seq<bool>)
    requires
        results.len() == 5,
    ensures
        conclusion(Step::first(), results) is Ok <==> forall|i: int|
            0 <= i < 5 ==> #[trigger] results[i],
{
    reveal_with_fuel(conclusion, 6);
    let r1 = results.drop_first();
    let r2 = r1.drop_first();
    let r3 = r2.drop_first();
    let r4 = r3.drop_first();
    assert(r1[0] == results[1]);
    assert(r2[0] == results[2]);
    assert(r3[0] == results[3]);
    assert(r4[0] == results[4]);
}

/// The address to connect to among those that the lookup found: the first
/// one. A lookup that found none has failed.
pub fn first_address<T: Copy>(found: &[T]) -> (address: Result<T, Error>)
    ensures
        found@.len() == 0 ==> address == Err::<T, Error>(Error::DnsResolveFailed),
        found@.len() > 0 ==> address == Ok::<T, Error>(found@[0]),
{
    if found.len() == 0 {
        Err(Error::DnsResolveFailed)
    } else {
        Ok(found[0])
    }
}

} // verus!
