use vstd::prelude::*;
use vstd::string::StringExecFns;

verus! {

/// The closed set of services an avatar identifier can be submitted to.
/// Each kind owns a distinct power-of-two bit inside the cached bitmask,
/// so a single unsigned integer records which services have already
/// accepted a given identifier.
#[derive(Clone, Copy, PartialEq, Eq, Structural, Debug)]
pub enum ProviderKind {
    CACHE,
    AVTRDB,
    NSVR,
    PAW,
    VRCDB,
    VRCDS,
    VRCWB,
}

impl ProviderKind {
    /// Position of this kind's bit inside a provider bitmask.
    pub open spec fn spec_bit_index(self) -> u32 {
        match self {
            ProviderKind::CACHE => 0,
            ProviderKind::AVTRDB => 1,
            ProviderKind::NSVR => 2,
            ProviderKind::PAW => 3,
            ProviderKind::VRCDB => 4,
            ProviderKind::VRCDS => 5,
            ProviderKind::VRCWB => 6,
        }
    }

    /// The bit this kind owns inside a stored bitmask.
    pub open spec fn spec_bits(self) -> u32 {
        1u32 << self.spec_bit_index()
    }

    /// The bit this kind owns inside a stored bitmask.
    pub fn bits(self) -> (r: u32)
        ensures
            r == self.spec_bits(),
    {
        proof {
            assert(1u32 << 0 == 1 && 1u32 << 1 == 2 && 1u32 << 2 == 4 && 1u32 << 3 == 8
                && 1u32 << 4 == 16 && 1u32 << 5 == 32 && 1u32 << 6 == 64) by (bit_vector);
        }
        match self {
            ProviderKind::CACHE => 1,
            ProviderKind::AVTRDB => 2,
            ProviderKind::NSVR => 4,
            ProviderKind::PAW => 8,
            ProviderKind::VRCDB => 16,
            ProviderKind::VRCDS => 32,
            ProviderKind::VRCWB => 64,
        }
    }

    /// Distinct kinds reserve disjoint bits: no two services ever share
    /// a position inside a stored bitmask.
    pub proof fn lemma_bits_disjoint(a: ProviderKind, b: ProviderKind)
        requires
            a != b,
        ensures
            a.spec_bits() & b.spec_bits() == 0,
    {
        let i = a.spec_bit_index();
        let j = b.spec_bit_index();
        assert(i != j);
        assert(forall|i: u32, j: u32|
            i < 7 && j < 7 && i != j ==> ((1u32 << i) & (1u32 << j)) == 0) by (bit_vector);
    }

    /// Every member of the closed enumeration, in declaration order.
    pub fn all_kinds() -> (r: Vec<ProviderKind>)
        ensures
            r@ =~= seq![
                ProviderKind::CACHE,
                ProviderKind::AVTRDB,
                ProviderKind::NSVR,
                ProviderKind::PAW,
                ProviderKind::VRCDB,
                ProviderKind::VRCDS,
                ProviderKind::VRCWB,
            ],
    {
        let mut v: Vec<ProviderKind> = Vec::new();
        v.push(ProviderKind::CACHE);
        v.push(ProviderKind::AVTRDB);
        v.push(ProviderKind::NSVR);
        v.push(ProviderKind::PAW);
        v.push(ProviderKind::VRCDB);
        v.push(ProviderKind::VRCDS);
        v.push(ProviderKind::VRCWB);
        v
    }

    /// View of the human-readable label of this kind.
    pub open spec fn spec_name(self) -> Seq<char> {
        match self {
            ProviderKind::CACHE => "CACHE"@,
            ProviderKind::AVTRDB => "avtrDB - Avatar Search"@,
            ProviderKind::NSVR => "NSVR - NekoSuneVR"@,
            ProviderKind::PAW => "PAW - Puppy's Avatar World"@,
            ProviderKind::VRCDB => "VRCDB - Avatar Search"@,
            ProviderKind::VRCDS => "VRCDS - Project Dark Star"@,
            ProviderKind::VRCWB => "VRCWB - World Balancer"@,
        }
    }

    /// Human-readable label used when reporting submissions.
    pub fn name(self) -> (r: String)
        ensures
            r@ == self.spec_name(),
    {
        match self {
            ProviderKind::CACHE => <String as StringExecFns>::from_str("CACHE"),
            ProviderKind::AVTRDB => <String as StringExecFns>::from_str("avtrDB - Avatar Search"),
            ProviderKind::NSVR => <String as StringExecFns>::from_str("NSVR - NekoSuneVR"),
            ProviderKind::PAW => <String as StringExecFns>::from_str("PAW - Puppy's Avatar World"),
            ProviderKind::VRCDB => <String as StringExecFns>::from_str("VRCDB - Avatar Search"),
            ProviderKind::VRCDS => <String as StringExecFns>::from_str("VRCDS - Project Dark Star"),
            ProviderKind::VRCWB => <String as StringExecFns>::from_str("VRCWB - World Balancer"),
        }
    }
}

/// Errors a provider can surface while submitting one identifier.
#[derive(Clone, Copy, PartialEq, Eq, Structural, Debug)]
pub enum ProviderError {
    /// The remote service asked the caller to back off and retry.
    RateLimited,
    /// The remote service answered with a non-retryable status.
    Rejected(u16),
    /// A network-level failure; treated as a soft miss, not fatal.
    Transient,
}

/// The uniform capability every remote service implements.
/// `send_avatar_id` returns `true` when the service newly accepted the
/// identifier and `false` when the service already knew it.
pub trait Provider {
    fn kind(&self) -> ProviderKind;

    fn check_avatar_id(&mut self, avatar_id: &str) -> Result<bool, ProviderError>;

    fn send_avatar_id(&mut self, avatar_id: &str) -> Result<bool, ProviderError>;
}

/// What a provider's submission endpoint told us, classified from the
/// HTTP status line alone.
#[derive(Clone, Copy, PartialEq, Eq, Structural, Debug)]
pub enum SendDecision {
    /// The service newly accepted the identifier.
    Unique,
    /// The service already knew the identifier.
    Duplicate,
    /// Rate limited: wait this many seconds and resend the same request.
    RetryAfter(u64),
    /// The response body must be inspected to decide.
    Inspect,
    /// A hard, non-retryable failure.
    Reject(u16),
}

/// How each direct-submission service maps an HTTP status to an outcome.
pub open spec fn spec_classify_send_status(kind: ProviderKind, status: u16) -> SendDecision {
    match kind {
        ProviderKind::NSVR => if status == 200 {
            SendDecision::Duplicate
        } else if status == 404 {
            SendDecision::Unique
        } else if status == 429 {
            SendDecision::RetryAfter(60)
        } else {
            SendDecision::Reject(status)
        },
        ProviderKind::VRCWB => if status == 200 {
            SendDecision::Duplicate
        } else if status == 404 {
            SendDecision::Unique
        } else if status == 429 {
            SendDecision::RetryAfter(60)
        } else {
            SendDecision::Reject(status)
        },
        ProviderKind::VRCDS => if status == 200 {
            SendDecision::Duplicate
        } else if status == 404 {
            SendDecision::Unique
        } else {
            SendDecision::Reject(status)
        },
        ProviderKind::VRCDB => if status == 200 {
            SendDecision::Duplicate
        } else if status == 404 {
            SendDecision::Unique
        } else if status == 429 {
            SendDecision::RetryAfter(60)
        } else if status == 500 {
            // Submissions queue server-side; treated as newly accepted.
            SendDecision::Unique
        } else {
            SendDecision::Reject(status)
        },
        ProviderKind::PAW => if status == 200 {
            SendDecision::Inspect
        } else if status == 429 {
            SendDecision::RetryAfter(10)
        } else {
            SendDecision::Reject(status)
        },
        _ => SendDecision::Reject(status),
    }
}

/// Classify a submission response status for one of the services that
/// submit a single identifier per request.
pub fn classify_send_status(kind: ProviderKind, status: u16) -> (r: SendDecision)
    requires
        kind != ProviderKind::CACHE,
        kind != ProviderKind::AVTRDB,
    ensures
        r == spec_classify_send_status(kind, status),
{
    match kind {
        ProviderKind::NSVR | ProviderKind::VRCWB => {
            if status == 200 {
                SendDecision::Duplicate
            } else if status == 404 {
                SendDecision::Unique
            } else if status == 429 {
                SendDecision::RetryAfter(60)
            } else {
                SendDecision::Reject(status)
            }
        },
        ProviderKind::VRCDS => {
            if status == 200 {
                SendDecision::Duplicate
            } else if status == 404 {
                SendDecision::Unique
            } else {
                SendDecision::Reject(status)
            }
        },
        ProviderKind::VRCDB => {
            if status == 200 {
                SendDecision::Duplicate
            } else if status == 404 {
                SendDecision::Unique
            } else if status == 429 {
                SendDecision::RetryAfter(60)
            } else if status == 500 {
                SendDecision::Unique
            } else {
                SendDecision::Reject(status)
            }
        },
        ProviderKind::PAW => {
            if status == 200 {
                SendDecision::Inspect
            } else if status == 429 {
                SendDecision::RetryAfter(10)
            } else {
                SendDecision::Reject(status)
            }
        },
        _ => SendDecision::Reject(status),
    }
}

/// Shape of the `avatar` field in a lookup service's reply body.
#[derive(Clone, Copy, PartialEq, Eq, Structural, Debug)]
pub enum PawAvatarField {
    /// No `avatar` field in the reply.
    Missing,
    /// The field was present but null.
    Null,
    /// The field was an empty list.
    EmptyList,
    /// The field carried data: the avatar is already known there.
    Data,
}

/// An identifier is newly accepted unless the reply's `avatar` field
/// actually carried data.
pub fn paw_send_unique(avatar: PawAvatarField) -> (r: bool)
    ensures
        r == (avatar != PawAvatarField::Data),
{
    match avatar {
        PawAvatarField::Data => false,
        _ => true,
    }
}

/// The lookup endpoint reports an avatar as present only when the reply
/// says success, carries code 200, and has a result attached.
pub fn paw_check_found(success: bool, code: u16, has_result: bool) -> (r: bool)
    ensures
        r == (success && code == 200 && has_result),
{
    success && code == 200 && has_result
}

/// Reply envelope of the legacy submission service: a status object.
pub struct Response {
    pub status: Status,
}

/// Inner status object: a message and a numeric status code.
pub struct Status {
    pub message: String,
    pub status: i64,
}

impl Response {
    /// The legacy service signals a newly stored avatar with code 201.
    pub fn is_accepted(&self) -> (r: bool)
        ensures
            r == (self.status.status == 201),
    {
        self.status.status == 201
    }
}

} // verus!
