//! The link that invites the bot to a server.

use crate::catalog::{invite, invite_declared, module_view};
use crate::registry::ModuleDescriptor;
use vstd::prelude::*;
use vstd::string::StringExecFns;

verus! {

/// The link that invites the bot with the client identifier `client_id`.
pub open spec fn invite_link_text(client_id: Seq<char>) -> Seq<char> {
    "https://discordapp.com/oauth2/authorize?client_id="@ + client_id
        + "&scope=bot&permissions=271707152"@
}

/// What is said when the client identifier is not configured.
pub open spec fn missing_client_id_text() -> Seq<char> {
    "Please set the YALTER_BOT_CLIENT_ID environment variable"@
}

/// The private message that hands out the link.
pub open spec fn invite_text(link: Seq<char>) -> Seq<char> {
    "Follow this link to invite the bot to your server: "@ + link
}

/// Writes the link that invites the bot, from the client identifier as it
/// is configured. Without a client identifier there is no link, and the
/// text says what is missing.
pub fn invite_link(client_id: Option<&str>) -> (res: Result<String, String>)
    ensures
        match client_id {
            Some(id) => res is Ok && res->Ok_0@ == invite_link_text(id@),
            None => res is Err && res->Err_0@ == missing_client_id_text(),
        },
{
    match client_id {
        Some(id) => {
            let mut link = String::new();
            link.append("https://discordapp.com/oauth2/authorize?client_id=");
            link.append(id);
            link.append("&scope=bot&permissions=271707152");
            Ok(link)
        },
        None => Err("Please set the YALTER_BOT_CLIENT_ID environment variable".to_owned()),
    }
}

/// Makes the module, which needs the link.
pub fn new(link: &Result<String, String>) -> (res: Result<ModuleDescriptor, String>)
    ensures
        match *link {
            Ok(_) => res is Ok && module_view(res->Ok_0) == invite_declared(),
            Err(reason) => res is Err && res->Err_0@ == reason@,
        },
{
    match link {
        Ok(_) => Ok(invite()),
        Err(reason) => Err(reason.clone()),
    }
}

/// Writes the private message that hands out the link.
pub fn handle(link: &str) -> (reply: String)
    ensures
        reply@ == invite_text(link@),
{
    let mut reply = String::new();
    reply.append("Follow this link to invite the bot to your server: ");
    reply.append(link);
    reply
}

} // verus!
