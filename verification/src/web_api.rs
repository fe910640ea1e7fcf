//! Data carried to and from the remote notification service, and the
//! endpoint addresses it is reached under.  The HTTP calls themselves live
//! in the surrounding program; these are the plain values they exchange.

use vstd::prelude::*;
use vstd::string::*;

verus! {

/// The address of one endpoint under the configured service location: the
/// location, a separating `/` unless the location already ends in one, then
/// the endpoint's path.
pub open spec fn spec_endpoint_url(api_url: Seq<char>, endpoint: Seq<char>) -> Seq<char> {
    if api_url.len() > 0 && api_url.last() == '/' {
        api_url + endpoint
    } else {
        api_url + seq!['/'] + endpoint
    }
}

/// Address of an endpoint under the configured service location.
pub fn endpoint_url(api_url: &String, endpoint: &str) -> (r: String)
    ensures
        r@ == spec_endpoint_url(api_url@, endpoint@),
{
    let s = api_url.as_str();
    let n = s.unicode_len();
    let mut url = api_url.clone();
    if n == 0 || s.get_char(n - 1) != '/' {
        url.append("/");
        proof {
            reveal_strlit("/");
            assert(url@ =~= api_url@ + seq!['/']);
        }
    }
    url.append(endpoint);
    proof {
        assert(url@ =~= spec_endpoint_url(api_url@, endpoint@));
    }
    url
}

/// One addon as the remote service describes it.
pub struct WebAddon {
    /// The addon's name.
    pub addon_name: String,
    /// Folder the addon lives in on the remote side.
    pub addon_foldername: String,
    /// Remote identifier of the addon.
    pub addon_uuid: String,
    /// Version tag the remote side holds.
    pub addon_version: String,
}

/// Reference to an addon group, as listed by the remote service.
pub struct WebAddonGroupInfo {
    /// Remote identifier of the group.
    pub addon_group_uuid: String,
}

/// One addon group with its members, as the remote service describes it.
pub struct WebAddonGroup {
    /// Name of the group.
    pub addon_group_name: String,
    /// Author of the group.
    pub addon_group_author: String,
    /// Remote identifier of the group.
    pub addon_group_uuid: String,
    /// Version tag of the group.
    pub addon_group_version: String,
    /// The group's member addons.
    pub addons: Vec<WebAddon>,
}

} // verus!
