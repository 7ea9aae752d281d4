//! Messages for the Discord webhook and the console.
use vstd::prelude::*;
use crate::text::{decimal, decimal_string};

verus! {

/// The texts os_info's `Bitness` displays as.
pub open spec fn bitness_text(b: Seq<char>) -> bool {
    b == "32-bit"@ || b == "64-bit"@ || b == "unknown bitness"@
}

/// Descriptions of a machine that os_info can give: a non-empty type name
/// and one of the bitness texts; the version and edition are free.
pub open spec fn os_texts(os_type: Seq<char>, bitness: Seq<char>) -> bool {
    os_type.len() > 0 && bitness_text(bitness)
}

/// Calls `os_info::get` and renders the operating system's type, version and
/// bitness with their `Display` impls, and its edition (empty when unknown).
/// The contract claims what os_info's `Display` impls show: a type's name is
/// never empty, and a bitness reads "32-bit", "64-bit" or "unknown bitness".
/// The texts themselves describe the machine.
#[verifier::external_body]
fn os_description() -> (r: (String, String, String, String))
    ensures
        os_texts(r.0@, r.2@),
{
    let info = os_info::get();
    (
        info.os_type().to_string(),
        info.version().to_string(),
        info.bitness().to_string(),
        info.edition().unwrap_or_default().to_string(),
    )
}

/// "OS: {type} {version} (Type: {bitness}, Version: {edition})".
pub open spec fn system_details_spec(
    os_type: Seq<char>,
    version: Seq<char>,
    bitness: Seq<char>,
    edition: Seq<char>,
) -> Seq<char> {
    "OS: "@ + os_type + " "@ + version + " (Type: "@ + bitness + ", Version: "@ + edition + ")"@
}

/// Renders the description of the machine appended to webhook messages.
pub fn format_system_details(os_type: &str, version: &str, bitness: &str, edition: &str) -> (r: String)
    ensures
        r@ == system_details_spec(os_type@, version@, bitness@, edition@),
{
    let mut s = "OS: ".to_owned();
    s.append(os_type);
    s.append(" ");
    s.append(version);
    s.append(" (Type: ");
    s.append(bitness);
    s.append(", Version: ");
    s.append(edition);
    s.append(")");
    s
}

/// Describes the machine the bot runs on.
pub fn system_details() -> (r: String)
    ensures
        exists|os_type: Seq<char>, version: Seq<char>, bitness: Seq<char>, edition: Seq<char>|
            os_texts(os_type, bitness) && r@ == #[trigger] system_details_spec(os_type, version, bitness, edition),
{
    let (os_type, version, bitness, edition) = os_description();
    format_system_details(os_type.as_str(), version.as_str(), bitness.as_str(), edition.as_str())
}

/// The content posted to the webhook: the message, a line break, and the
/// machine's description.
pub open spec fn webhook_content_spec(message: Seq<char>, details: Seq<char>) -> Seq<char> {
    message + "\n"@ + details
}

/// Assembles the content posted to the webhook.
pub fn webhook_content(message: &str, details: &str) -> (r: String)
    ensures
        r@ == webhook_content_spec(message@, details@),
{
    let mut s = message.to_owned();
    s.append("\n");
    s.append(details);
    s
}

/// Prepares a webhook message: nothing when the webhook is configured as
/// "none", else the message followed by the machine's description.
pub fn prepare_discord_message(webhook_url: &str, message: &str) -> (r: Option<String>)
    ensures
        r is None <==> webhook_url@ == "none"@,
        r matches Some(c) ==> exists|os_type: Seq<char>, version: Seq<char>, bitness: Seq<char>, edition: Seq<char>|
            os_texts(os_type, bitness)
                && c@ == #[trigger] webhook_content_spec(message@, system_details_spec(os_type, version, bitness, edition)),
{
    if webhook_url.to_owned() == "none".to_owned() {
        None
    } else {
        let details = system_details();
        Some(webhook_content(message, details.as_str()))
    }
}

/// `|n|` for a signed value other than the least one.
pub open spec fn magnitude(n: i64) -> nat {
    if n < 0 { (-n) as nat } else { n as nat }
}

/// The report of an accepted invitation: its heading, how many nanoseconds
/// after the opening time the request went out, and who it was for.
pub open spec fn success_message_spec(header: Seq<char>, delay_nanos: i64, user_name: Seq<char>) -> Seq<char> {
    "API request sent for "@ + header + "\nWith a total of "@ + decimal(magnitude(delay_nanos))
        + " nanoseconds time delay\n Congrats "@ + user_name + "!"@
}

/// Writes the report of an accepted invitation.
pub fn success_message(header: &str, delay_nanos: i64, user_name: &str) -> (r: String)
    requires
        delay_nanos != i64::MIN,
    ensures
        r@ == success_message_spec(header@, delay_nanos, user_name@),
{
    let m: u64 = if delay_nanos < 0 { (-delay_nanos) as u64 } else { delay_nanos as u64 };
    let mut s = "API request sent for ".to_owned();
    s.append(header);
    s.append("\nWith a total of ");
    let digits = decimal_string(m);
    s.append(digits.as_str());
    s.append(" nanoseconds time delay\n Congrats ");
    s.append(user_name);
    s.append("!");
    s
}

/// The notice sent when no next event could be chosen.
pub open spec fn next_event_error_notice_spec(reason: Seq<char>) -> Seq<char> {
    "Error getting next event: "@ + reason + "\nYou should do it manually to still get a spot"@
}

/// Writes the notice sent when no next event could be chosen.
pub fn next_event_error_notice(reason: &str) -> (r: String)
    ensures
        r@ == next_event_error_notice_spec(reason@),
{
    let mut s = "Error getting next event: ".to_owned();
    s.append(reason);
    s.append("\nYou should do it manually to still get a spot");
    s
}

} // verus!
