use vstd::prelude::*;
use vstd::string::StringExecFns;

use crate::provider::ProviderKind;

verus! {

/// Identity credited for anonymous submissions.
pub const DEVELOPER_ID: &'static str = "358558305997684739";

/// How submissions are credited. The identity carried by each variant is
/// resolved once at startup and injected here; this module never performs
/// the lookup itself.
pub enum Attribution {
    /// Credit the developer account; the carried value is ignored.
    Anonymous(String),
    /// Credit the identity resolved over the local RPC session.
    DiscordRPC(String),
    /// Credit a manually entered identity.
    DiscordID(String),
}

impl Attribution {
    /// The identity a submission is credited to.
    pub open spec fn spec_user_id(&self) -> Seq<char> {
        match self {
            Attribution::Anonymous(_) => DEVELOPER_ID@,
            Attribution::DiscordRPC(id) => id@,
            Attribution::DiscordID(id) => id@,
        }
    }

    /// Resolve the identity string attached to outgoing submissions.
    pub fn get_user_id(&self) -> (r: String)
        ensures
            r@ == self.spec_user_id(),
    {
        match self {
            Attribution::Anonymous(_) => <String as StringExecFns>::from_str(DEVELOPER_ID),
            Attribution::DiscordRPC(id) => id.clone(),
            Attribution::DiscordID(id) => id.clone(),
        }
    }
}

/// An identity reported over the local RPC session is usable unless it
/// is the placeholder identity that stand-in RPC bridges answer with,
/// which cannot be attributed to a real account.
pub fn rpc_user_usable(user_id: &String) -> (r: bool)
    ensures
        r == (user_id@ != "1045800378228281345"@),
{
    !(*user_id == <String as StringExecFns>::from_str("1045800378228281345"))
}

/// User-chosen configuration: how to be credited, which services receive
/// submissions, and whether the telemetry file is wiped after reading.
pub struct Settings {
    pub clear_amplitude: bool,
    pub attribution: Attribution,
    pub providers: Vec<ProviderKind>,
}

/// The choices the setup wizard offers: every remote service, with the
/// local cache excluded since it is not a remote destination.
pub fn wizard_provider_choices() -> (r: Vec<ProviderKind>)
    ensures
        r@ =~= seq![
            ProviderKind::AVTRDB,
            ProviderKind::NSVR,
            ProviderKind::PAW,
            ProviderKind::VRCDB,
            ProviderKind::VRCDS,
            ProviderKind::VRCWB,
        ],
        forall|i: int| 0 <= i < r@.len() ==> r@[i] != ProviderKind::CACHE,
{
    let mut out: Vec<ProviderKind> = Vec::new();
    out.push(ProviderKind::AVTRDB);
    out.push(ProviderKind::NSVR);
    out.push(ProviderKind::PAW);
    out.push(ProviderKind::VRCDB);
    out.push(ProviderKind::VRCDS);
    out.push(ProviderKind::VRCWB);
    out
}

/// A wizard selection is valid only when at least one service was picked.
pub fn selection_is_valid(selected: usize) -> (r: bool)
    ensures
        r == (selected > 0),
{
    selected > 0
}

} // verus!
