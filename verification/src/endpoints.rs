//! The addresses of the remote operations and the names of the stored sets.

use crate::item_id::{decimal_text, push_item_id};
use crate::queue::SetName;
use vstd::prelude::*;
use vstd::string::StringExecFns;

verus! {

/// The address of the listing of trending items.
pub const LISTING_URL: &'static str = "https://api.codemao.cn/web/forums/posts/hots/all";

/// The address at which a captcha ticket is asked for.
pub const CAPTCHA_URL: &'static str = "https://open-service.codemao.cn/captcha/rule/v3";

/// The address of the login.
pub const LOGIN_URL: &'static str = "https://api.codemao.cn/tiger/v3/web/accounts/login/security";

/// The name of the header that carries the captcha ticket to the login.
pub const CAPTCHA_HEADER: &'static str = "X-Captcha-Ticket";

/// What every address of an item says before the identifier.
pub open spec fn item_opening() -> Seq<char> {
    "https://api.codemao.cn/web/forums/posts/"@
}

/// The address of the detail of item `id`.
pub open spec fn detail_address(id: u32) -> Seq<char> {
    item_opening() + decimal_text(id as nat) + "/details"@
}

/// The address to which a reply to item `id` is published.
pub open spec fn replies_address(id: u32) -> Seq<char> {
    item_opening() + decimal_text(id as nat) + "/replies"@
}

/// The address of the detail of item `id`.
pub fn detail_url(id: u32) -> (r: String)
    ensures
        r@ == detail_address(id),
{
    let mut url = String::from_str("https://api.codemao.cn/web/forums/posts/");
    push_item_id(&mut url, id);
    url.append("/details");
    url
}

/// The address to which a reply to item `id` is published.
pub fn replies_url(id: u32) -> (r: String)
    ensures
        r@ == replies_address(id),
{
    let mut url = String::from_str("https://api.codemao.cn/web/forums/posts/");
    push_item_id(&mut url, id);
    url.append("/replies");
    url
}

/// The key under which the store keeps the named set.
pub fn store_key(which: SetName) -> (r: &'static str)
    ensures
        r@ == (match which {
            SetName::Pending => "poi"@,
            SetName::Cooldown => "processed_poi"@,
        }),
{
    match which {
        SetName::Pending => "poi",
        SetName::Cooldown => "processed_poi",
    }
}

} // verus!
