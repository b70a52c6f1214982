//! Endpoints, paths, versions and default stop patterns.

use vstd::prelude::*;
use vstd::slice::{slice_subrange, slice_to_vec};
use crate::text::{chars_of, string_from_chars, trim_end_slashes};

verus! {

pub const DEVIN_DEFAULT_BASE_URL: &'static str = "https://server.codeium.com";
pub const DEVIN_APP_BASE_URL: &'static str = "https://app.devin.ai";
pub const DEVIN_AUTH_BASE_URL: &'static str = "https://api.devin.ai";
pub const DEVIN_SESSION_TOKEN_PREFIX: &'static str = "devin-session-token$";
pub const DEVIN_IDE_VERSION: &'static str = "3.2.23";
pub const DEVIN_EXTENSION_VERSION: &'static str = "1.48.2";
pub const DEVIN_AUTH_PATH: &'static str = "/exa.auth_pb.AuthService/GetUserJwt";
pub const DEVIN_CHAT_PATH: &'static str = "/exa.api_server_pb.ApiServerService/GetChatMessage";
pub const DEVIN_MODELS_PATH: &'static str = "/exa.api_server_pb.ApiServerService/GetCliModelConfigs";
pub const DEVIN_OAUTH_CALLBACK_PORT: u16 = 59653;
pub const DEVIN_OAUTH_CALLBACK_PATH: &'static str = "/callback";
pub const DEVIN_OAUTH_TOKEN_PATH: &'static str = "/auth/cli/token";

/// Stop patterns every chat request carries before the caller's own.
pub const DEVIN_DEFAULT_STOP_PATTERNS: [&'static str; 5] = [
    "<|user|>",
    "<|bot|>",
    "<|context_request|>",
    "<|endoftext|>",
    "<|end_of_turn|>",
];

/// `value` without its trailing `/` characters.
pub fn trim_trailing_slashes(value: &str) -> (r: String)
    ensures
        r@ == trim_end_slashes(value@),
{
    let v = chars_of(value);
    let ghost p = crate::text::slash_pred();
    let mut end: usize = v.len();
    assert(v@.subrange(0, v@.len() as int) =~= v@);
    while end > 0 && v[end - 1] == '/'
        invariant
            end <= v@.len(),
            p == crate::text::slash_pred(),
            trim_end_slashes(value@) == crate::text::trim_end_by(v@.subrange(0, end as int), p),
        decreases end,
    {
        assert(v@.subrange(0, end as int).drop_last() =~= v@.subrange(0, end - 1));
        assert(v@.subrange(0, end as int).last() == v@[end - 1]);
        end = end - 1;
    }
    let kept = slice_to_vec(slice_subrange(v.as_slice(), 0, end));
    assert(kept@ =~= v@.subrange(0, end as int));
    string_from_chars(&kept)
}

} // verus!
