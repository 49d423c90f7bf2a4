//! The numeric codes that the engine uses for results, events, stored
//! objects and network configuration operations, and their decoding.
//!
//! The engine may grow new codes. Decoding therefore never fails hard: a
//! code that is not in a table decodes to `None`, and the caller decides
//! what an unknown code means.

use vstd::prelude::*;

verus! {

/// The outcome of a call into the engine.
#[derive(Clone, Copy, Debug, PartialEq, Eq, Structural)]
pub enum ResultCode {
    Success,
    FatalErrorOutOfMemory,
    FatalErrorDataStoreFailed,
    FatalErrorInternal,
    ErrorNetworkNotFound,
    ErrorUnsupportedOperation,
    ErrorBadParameter,
    ErrorInvalidCredential,
    ErrorCollidingObject,
    ErrorInternalNonFatal,
}

impl ResultCode {
    /// The number that the engine uses for this result.
    pub open spec fn code(self) -> int {
        match self {
            ResultCode::Success => 0,
            ResultCode::FatalErrorOutOfMemory => 100,
            ResultCode::FatalErrorDataStoreFailed => 101,
            ResultCode::FatalErrorInternal => 102,
            ResultCode::ErrorNetworkNotFound => 1000,
            ResultCode::ErrorUnsupportedOperation => 1001,
            ResultCode::ErrorBadParameter => 1002,
            ResultCode::ErrorInvalidCredential => 1003,
            ResultCode::ErrorCollidingObject => 1004,
            ResultCode::ErrorInternalNonFatal => 1005,
        }
    }

    /// Whether some result has the number `code`.
    pub open spec fn is_known(code: int) -> bool {
        exists|r: ResultCode| r.code() == code
    }

    /// What a raw status of an ordinary engine call means: the result with
    /// that number, or a non-fatal internal error for a number that no
    /// result has.
    pub open spec fn of_engine(rc: int) -> ResultCode {
        if Self::is_known(rc) {
            choose|r: ResultCode| r.code() == rc
        } else {
            ResultCode::ErrorInternalNonFatal
        }
    }

    /// What a raw status of engine construction means when it is not zero:
    /// the result with that number, or a fatal internal error for a number
    /// that no result has.
    pub open spec fn of_failed_construction(rc: int) -> ResultCode {
        if Self::is_known(rc) {
            choose|r: ResultCode| r.code() == rc
        } else {
            ResultCode::FatalErrorInternal
        }
    }

    /// Whether the result is one of the fatal errors.
    pub open spec fn is_fatal_spec(self) -> bool {
        100 <= self.code() < 1000
    }

    /// The number that the engine uses for this result.
    pub fn to_i32(self) -> (code: i32)
        ensures
            code as int == self.code(),
    {
        match self {
            ResultCode::Success => 0,
            ResultCode::FatalErrorOutOfMemory => 100,
            ResultCode::FatalErrorDataStoreFailed => 101,
            ResultCode::FatalErrorInternal => 102,
            ResultCode::ErrorNetworkNotFound => 1000,
            ResultCode::ErrorUnsupportedOperation => 1001,
            ResultCode::ErrorBadParameter => 1002,
            ResultCode::ErrorInvalidCredential => 1003,
            ResultCode::ErrorCollidingObject => 1004,
            ResultCode::ErrorInternalNonFatal => 1005,
        }
    }

    /// Decodes a number: the one result that has it, or `None` when no
    /// result has it.
    pub fn from_i32(code: i32) -> (r: Option<ResultCode>)
        ensures
            r is Some <==> Self::is_known(code as int),
            r matches Some(v) ==> v.code() == code as int,
    {
        let r = if code == 0 {
            Some(ResultCode::Success)
        } else if code == 100 {
            Some(ResultCode::FatalErrorOutOfMemory)
        } else if code == 101 {
            Some(ResultCode::FatalErrorDataStoreFailed)
        } else if code == 102 {
            Some(ResultCode::FatalErrorInternal)
        } else if code == 1000 {
            Some(ResultCode::ErrorNetworkNotFound)
        } else if code == 1001 {
            Some(ResultCode::ErrorUnsupportedOperation)
        } else if code == 1002 {
            Some(ResultCode::ErrorBadParameter)
        } else if code == 1003 {
            Some(ResultCode::ErrorInvalidCredential)
        } else if code == 1004 {
            Some(ResultCode::ErrorCollidingObject)
        } else if code == 1005 {
            Some(ResultCode::ErrorInternalNonFatal)
        } else {
            None
        };
        proof {
            if let Some(v) = r {
                assert(v.code() == code as int);
            }
        }
        r
    }

    /// The result of an ordinary engine call that returned `rc`. A number
    /// that no result has counts as a non-fatal internal error.
    pub fn from_engine(rc: i32) -> (r: ResultCode)
        ensures
            r == Self::of_engine(rc as int),
            Self::is_known(rc as int) ==> r.code() == rc as int,
            !Self::is_known(rc as int) ==> r == ResultCode::ErrorInternalNonFatal,
            r == ResultCode::Success <==> rc == 0,
    {
        proof {
            lemma_result_codes_distinct();
            assert(ResultCode::Success.code() == 0);
        }
        match Self::from_i32(rc) {
            Some(v) => v,
            None => ResultCode::ErrorInternalNonFatal,
        }
    }

    /// Whether the result is one of the fatal errors.
    pub fn is_fatal(self) -> (fatal: bool)
        ensures
            fatal == self.is_fatal_spec(),
            fatal <==> (self == ResultCode::FatalErrorOutOfMemory || self
                == ResultCode::FatalErrorDataStoreFailed || self == ResultCode::FatalErrorInternal),
    {
        match self {
            ResultCode::FatalErrorOutOfMemory => true,
            ResultCode::FatalErrorDataStoreFailed => true,
            ResultCode::FatalErrorInternal => true,
            _ => false,
        }
    }
}

/// No two results share a number.
pub proof fn lemma_result_codes_distinct()
    ensures
        forall|a: ResultCode, b: ResultCode| a.code() == b.code() ==> a == b,
{
}

/// A notification from the engine about the node as a whole.
#[derive(Clone, Copy, Debug, PartialEq, Eq, Structural)]
pub enum Event {
    Up,
    Offline,
    Online,
    Down,
    Trace,
    UserMessage,
}

impl Event {
    /// The number that the engine uses for this event.
    pub open spec fn code(self) -> int {
        match self {
            Event::Up => 0,
            Event::Offline => 1,
            Event::Online => 2,
            Event::Down => 3,
            Event::Trace => 5,
            Event::UserMessage => 6,
        }
    }

    /// Whether some event has the number `code`.
    pub open spec fn is_known(code: int) -> bool {
        exists|e: Event| e.code() == code
    }

    /// The number that the engine uses for this event.
    pub fn to_i32(self) -> (code: i32)
        ensures
            code as int == self.code(),
    {
        match self {
            Event::Up => 0,
            Event::Offline => 1,
            Event::Online => 2,
            Event::Down => 3,
            Event::Trace => 5,
            Event::UserMessage => 6,
        }
    }

    /// Decodes a number: the one event that has it, or `None` when no event
    /// has it.
    pub fn from_i32(code: i32) -> (r: Option<Event>)
        ensures
            r is Some <==> Self::is_known(code as int),
            r matches Some(v) ==> v.code() == code as int,
    {
        let r = if code == 0 {
            Some(Event::Up)
        } else if code == 1 {
            Some(Event::Offline)
        } else if code == 2 {
            Some(Event::Online)
        } else if code == 3 {
            Some(Event::Down)
        } else if code == 5 {
            Some(Event::Trace)
        } else if code == 6 {
            Some(Event::UserMessage)
        } else {
            None
        };
        proof {
            if let Some(v) = r {
                assert(v.code() == code as int);
            }
        }
        r
    }
}

/// No two events share a number.
pub proof fn lemma_event_codes_distinct()
    ensures
        forall|a: Event, b: Event| a.code() == b.code() ==> a == b,
{
}

/// The category of an object that the engine asks the host to keep.
#[derive(Clone, Copy, Debug, PartialEq, Eq, Structural)]
pub enum StateObjectType {
    IdentityPublic,
    IdentitySecret,
    Locator,
    Peer,
    NetworkConfig,
    TrustStore,
    Certificate,
}

impl StateObjectType {
    /// The number that the engine uses for this category.
    pub open spec fn code(self) -> int {
        match self {
            StateObjectType::IdentityPublic => 1,
            StateObjectType::IdentitySecret => 2,
            StateObjectType::Locator => 3,
            StateObjectType::Peer => 5,
            StateObjectType::NetworkConfig => 6,
            StateObjectType::TrustStore => 7,
            StateObjectType::Certificate => 8,
        }
    }

    /// Whether some category has the number `code`.
    pub open spec fn is_known(code: int) -> bool {
        exists|t: StateObjectType| t.code() == code
    }

    /// The number that the engine uses for this category.
    pub fn to_i32(self) -> (code: i32)
        ensures
            code as int == self.code(),
    {
        match self {
            StateObjectType::IdentityPublic => 1,
            StateObjectType::IdentitySecret => 2,
            StateObjectType::Locator => 3,
            StateObjectType::Peer => 5,
            StateObjectType::NetworkConfig => 6,
            StateObjectType::TrustStore => 7,
            StateObjectType::Certificate => 8,
        }
    }

    /// Decodes a number: the one category that has it, or `None` when no
    /// category has it.
    pub fn from_i32(code: i32) -> (r: Option<StateObjectType>)
        ensures
            r is Some <==> Self::is_known(code as int),
            r matches Some(v) ==> v.code() == code as int,
    {
        let r = if code == 1 {
            Some(StateObjectType::IdentityPublic)
        } else if code == 2 {
            Some(StateObjectType::IdentitySecret)
        } else if code == 3 {
            Some(StateObjectType::Locator)
        } else if code == 5 {
            Some(StateObjectType::Peer)
        } else if code == 6 {
            Some(StateObjectType::NetworkConfig)
        } else if code == 7 {
            Some(StateObjectType::TrustStore)
        } else if code == 8 {
            Some(StateObjectType::Certificate)
        } else {
            None
        };
        proof {
            if let Some(v) = r {
                assert(v.code() == code as int);
            }
        }
        r
    }
}

/// No two categories share a number.
pub proof fn lemma_state_object_codes_distinct()
    ensures
        forall|a: StateObjectType, b: StateObjectType| a.code() == b.code() ==> a == b,
{
}

/// What the engine asks the host to do with a network's configuration.
#[derive(Clone, Copy, Debug, PartialEq, Eq, Structural)]
pub enum VirtualNetworkConfigOperation {
    Up,
    ConfigUpdate,
    Down,
    Destroy,
}

impl VirtualNetworkConfigOperation {
    /// The number that the engine uses for this operation.
    pub open spec fn code(self) -> int {
        match self {
            VirtualNetworkConfigOperation::Up => 1,
            VirtualNetworkConfigOperation::ConfigUpdate => 2,
            VirtualNetworkConfigOperation::Down => 3,
            VirtualNetworkConfigOperation::Destroy => 4,
        }
    }

    /// Whether some operation has the number `code`.
    pub open spec fn is_known(code: int) -> bool {
        exists|o: VirtualNetworkConfigOperation| o.code() == code
    }

    /// The number that the engine uses for this operation.
    pub fn to_i32(self) -> (code: i32)
        ensures
            code as int == self.code(),
    {
        match self {
            VirtualNetworkConfigOperation::Up => 1,
            VirtualNetworkConfigOperation::ConfigUpdate => 2,
            VirtualNetworkConfigOperation::Down => 3,
            VirtualNetworkConfigOperation::Destroy => 4,
        }
    }

    /// Decodes a number: the one operation that has it, or `None` when no
    /// operation has it.
    pub fn from_i32(code: i32) -> (r: Option<VirtualNetworkConfigOperation>)
        ensures
            r is Some <==> Self::is_known(code as int),
            r matches Some(v) ==> v.code() == code as int,
    {
        let r = if code == 1 {
            Some(VirtualNetworkConfigOperation::Up)
        } else if code == 2 {
            Some(VirtualNetworkConfigOperation::ConfigUpdate)
        } else if code == 3 {
            Some(VirtualNetworkConfigOperation::Down)
        } else if code == 4 {
            Some(VirtualNetworkConfigOperation::Destroy)
        } else {
            None
        };
        proof {
            if let Some(v) = r {
                assert(v.code() == code as int);
            }
        }
        r
    }
}

/// No two operations share a number.
pub proof fn lemma_config_operation_codes_distinct()
    ensures
        forall|a: VirtualNetworkConfigOperation, b: VirtualNetworkConfigOperation|
            a.code() == b.code() ==> a == b,
{
}

} // verus!
