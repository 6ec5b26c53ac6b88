//! The address of the sign-in page.

use vstd::prelude::*;

verus! {

/// The sign-in page's address: the authorization endpoint with the
/// client id, code response in the query, the desktop redirect and the
/// requested scopes, always prompting for the account.
pub open spec fn sign_in_url_spec() -> Seq<char> {
    "https://login.microsoftonline.com/consumers/oauth2/v2.0/authorize"@ + "?client_id="@ + "00000000402b5328"@
        + "&response_type=code&response_mode=query&redirect_uri="@
        + "https%3A%2F%2Flogin.live.com%2Foauth20_desktop.srf"@ + "&scope="@
        + "XboxLive.signin%20offline_access"@ + "&prompt=select_account"@
}

/// Builds the sign-in page's address.
pub fn build_url() -> (r: String)
    ensures
        r@ == sign_in_url_spec(),
{
    let mut u = String::from_str("https://login.microsoftonline.com/consumers/oauth2/v2.0/authorize");
    u.append("?client_id=");
    u.append("00000000402b5328");
    u.append("&response_type=code&response_mode=query&redirect_uri=");
    u.append("https%3A%2F%2Flogin.live.com%2Foauth20_desktop.srf");
    u.append("&scope=");
    u.append("XboxLive.signin%20offline_access");
    u.append("&prompt=select_account");
    u
}

} // verus!
