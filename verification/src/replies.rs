//! The texts the bot replies with. The help and acknowledgement texts are
//! rendered by `handlebars`; the uptime is worded by `humantime`.
use vstd::prelude::*;
use vstd::string::*;
use crate::text::{decimal, decimal_string};

verus! {

#[verifier::external_type_specification]
#[verifier::external_body]
pub struct ExRenderError(handlebars::RenderError);

#[verifier::external_type_specification]
#[verifier::external_body]
pub struct ExJsonValue(serde_json::Value);

/// The help text: the commands, then the version, uptime and channel of the
/// running bot.
pub const HELP_MESSAGE: &'static str = "
**try**:
`!help`
`!collect` - will collect all new entries to add
`!ack` - will put checkboxes on all found entries
`!scrape` - will scrape reddit for the last 7 days

version: {{version}} - uptime: {{uptime}} - channel: {{channel}}
";

/// The acknowledgement text: how many entries were checked.
pub const ACK_MSG: &'static str = "
acknowledged: {{count}} entries
";

/// A value handed to a template: a JSON string or a JSON number.
pub enum TemplateValue {
    Text(String),
    Number(u64),
}

/// A template value as a value.
pub enum TemplateArg {
    Text(Seq<char>),
    Number(u64),
}

impl View for TemplateValue {
    type V = TemplateArg;

    open spec fn view(&self) -> TemplateArg {
        match self {
            TemplateValue::Text(t) => TemplateArg::Text(t@),
            TemplateValue::Number(n) => TemplateArg::Number(*n),
        }
    }
}

/// The views of named template values.
pub open spec fn fields_view(fields: Seq<(String, TemplateValue)>) -> Seq<(Seq<char>, TemplateArg)> {
    fields.map_values(|f: (String, TemplateValue)| (f.0@, f.1@))
}

/// What `handlebars::Handlebars::new().render_template(template, data)`
/// returns when `data` is the JSON object with the given fields: the
/// rendered text, or `None` when rendering fails.
pub uninterp spec fn handlebars_rendering(template: Seq<char>, data: Seq<(Seq<char>, TemplateArg)>) -> Option<Seq<char>>;

/// How `humantime::format_duration` words a duration of `secs` seconds and
/// `nanos` nanoseconds (such as `1h 2m 3s`).
pub uninterp spec fn humantime_wording(secs: nat, nanos: nat) -> Seq<char>;

/// The JSON value `serde_json::Value::from` makes of a string slice with
/// the given text (a JSON string holding that text).
pub uninterp spec fn json_string_value(text: Seq<char>) -> serde_json::Value;

/// The JSON value `serde_json::Value::from` makes of a `u64` (a JSON number
/// of that value).
pub uninterp spec fn json_number_value(n: u64) -> serde_json::Value;

/// The JSON value that stands for a template value: a JSON string for a
/// text, a JSON number for a number.
pub open spec fn json_of(arg: TemplateArg) -> serde_json::Value {
    match arg {
        TemplateArg::Text(t) => json_string_value(t),
        TemplateArg::Number(n) => json_number_value(n),
    }
}

/// `serde_json::Value::from` of a string slice (a JSON string).
/// Claimed: the value depends on the text alone; it is the named
/// `json_string_value` of the text.
#[verifier::external_body]
fn json_string(s: &str) -> (v: serde_json::Value)
    ensures
        v == json_string_value(s@),
{
    serde_json::Value::from(s)
}

/// `serde_json::Value::from` of a `u64` (a JSON number).
/// Claimed: the value depends on the number alone; it is the named
/// `json_number_value` of the number.
#[verifier::external_body]
fn json_number(n: u64) -> (v: serde_json::Value)
    ensures
        v == json_number_value(n),
{
    serde_json::Value::from(n)
}

impl TemplateValue {
    /// The JSON value handed to the template engine: a JSON string for a
    /// text, a JSON number for a number.
    fn to_json(&self) -> (v: serde_json::Value)
        ensures
            v == json_of(self@),
    {
        match self {
            TemplateValue::Text(t) => json_string(t.as_str()),
            TemplateValue::Number(n) => json_number(*n),
        }
    }
}

/// Renders `template` with a fresh `handlebars::Handlebars` registry
/// (`Handlebars::new`, then `render_template`), the data being the JSON
/// object of `fields`.
/// Claimed: the result is the named `handlebars_rendering` of the template
/// and the fields, `Err` exactly when that is `None`.
#[verifier::external_body]
fn render_template(template: &str, fields: &Vec<(String, TemplateValue)>) -> (res: Result<String, handlebars::RenderError>)
    ensures
        match res {
            Ok(s) => handlebars_rendering(template@, fields_view(fields@)) == Some(s@),
            Err(_) => handlebars_rendering(template@, fields_view(fields@)) is None,
        },
{
    let object: serde_json::Map<String, serde_json::Value> = fields.iter().map(|f| (f.0.clone(), f.1.to_json())).collect();
    handlebars::Handlebars::new().render_template(template, &serde_json::Value::Object(object))
}

/// Words a duration with `humantime::format_duration` and `to_string`.
/// Claimed: the text is the named `humantime_wording`; as the crate's
/// `Display` shows, a zero duration reads `0s`.
#[verifier::external_body]
fn format_uptime(secs: u64, nanos: u32) -> (s: String)
    requires
        nanos < 1_000_000_000,
    ensures
        s@ == humantime_wording(secs as nat, nanos as nat),
        secs == 0 && nanos == 0 ==> s@ == "0s"@,
{
    humantime::format_duration(std::time::Duration::new(secs, nanos)).to_string()
}

/// The fields of the help text. A missing channel reads as the default
/// channel id, 1.
pub open spec fn help_fields(version: Seq<char>, uptime: Seq<char>, channel_id: Option<u64>) -> Seq<(Seq<char>, TemplateArg)> {
    let channel = match channel_id {
        Some(c) => c,
        None => 1u64,
    };
    seq![
        ("version"@, TemplateArg::Text(version)),
        ("uptime"@, TemplateArg::Text(uptime)),
        ("channel"@, TemplateArg::Text(decimal(channel as nat))),
    ]
}

/// The help reply of a bot at `version` that has been up for `up_secs`
/// seconds and `up_nanos` nanoseconds and serves `channel_id`.
pub fn help_reply(version: &str, up_secs: u64, up_nanos: u32, channel_id: Option<u64>) -> (r: Result<String, handlebars::RenderError>)
    requires
        up_nanos < 1_000_000_000,
    ensures
        match r {
            Ok(s) => handlebars_rendering(HELP_MESSAGE@, help_fields(version@, humantime_wording(up_secs as nat, up_nanos as nat), channel_id)) == Some(s@),
            Err(_) => handlebars_rendering(HELP_MESSAGE@, help_fields(version@, humantime_wording(up_secs as nat, up_nanos as nat), channel_id)) is None,
        },
{
    let uptime = format_uptime(up_secs, up_nanos);
    let channel = match channel_id {
        Some(c) => c,
        None => 1,
    };
    let mut fields: Vec<(String, TemplateValue)> = Vec::new();
    fields.push(("version".to_owned(), TemplateValue::Text(version.to_owned())));
    fields.push(("uptime".to_owned(), TemplateValue::Text(uptime)));
    fields.push(("channel".to_owned(), TemplateValue::Text(decimal_string(channel))));
    assert(fields_view(fields@) =~= help_fields(version@, humantime_wording(up_secs as nat, up_nanos as nat), channel_id));
    render_template(HELP_MESSAGE, &fields)
}

/// The fields of the acknowledgement text.
pub open spec fn ack_fields(count: nat) -> Seq<(Seq<char>, TemplateArg)> {
    seq![("count"@, TemplateArg::Number(count as u64))]
}

/// The reply after checking `count` entries.
pub fn ack_reply(count: usize) -> (r: Result<String, handlebars::RenderError>)
    ensures
        match r {
            Ok(s) => handlebars_rendering(ACK_MSG@, ack_fields(count as nat)) == Some(s@),
            Err(_) => handlebars_rendering(ACK_MSG@, ack_fields(count as nat)) is None,
        },
{
    let mut fields: Vec<(String, TemplateValue)> = Vec::new();
    fields.push(("count".to_owned(), TemplateValue::Number(count as u64)));
    assert(fields_view(fields@) =~= ack_fields(count as nat));
    render_template(ACK_MSG, &fields)
}

/// The reply to a command that failed with the message `err`.
pub fn error_reply(err: &str) -> (s: String)
    ensures
        s@ == "cmd error: "@ + err@,
{
    let mut s = String::new();
    s.append("cmd error: ");
    s.append(err);
    s
}

/// The reply to a scrape: how many posts each source gave.
pub fn scrape_summary(reddit_count: usize, lobsters_count: usize) -> (s: String)
    ensures
        s@ == "scrape results: "@ + decimal(reddit_count as nat) + "/"@ + decimal(lobsters_count as nat),
{
    let mut s = String::new();
    s.append("scrape results: ");
    let r = decimal_string(reddit_count as u64);
    s.append(r.as_str());
    s.append("/");
    let l = decimal_string(lobsters_count as u64);
    s.append(l.as_str());
    s
}

} // verus!
