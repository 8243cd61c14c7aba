//! Discord webhook posts for saved clips: what the embed says, and when a
//! failed post is tried again.
use vstd::prelude::*;
use crate::config::opt_view;
use crate::text::{decimal, owned, push_decimal};

verus! {

/// A clip to announce on a Discord webhook.
#[derive(Debug)]
pub struct DiscordWebhookRequest {
    pub webhook_url: String,
    pub clip_title: String,
    pub clip_path: Option<String>,
    pub clip_url: Option<String>,
    pub score: u32,
    pub profile_name: String,
    pub rule_name: String,
    pub character_name: String,
    pub location_label: String,
    pub event_timestamp_label: String,
    pub include_thumbnail: bool,
}

/// The footer of an embed.
#[derive(Debug)]
pub struct DiscordFooter {
    pub text: String,
}

/// The thumbnail of an embed.
#[derive(Debug)]
pub struct DiscordThumbnail {
    pub url: String,
}

/// The embed that describes a clip.
#[derive(Debug)]
pub struct DiscordEmbed {
    pub title: String,
    pub description: String,
    pub url: Option<String>,
    pub color: u32,
    pub footer: DiscordFooter,
    pub thumbnail: Option<DiscordThumbnail>,
}

/// What is posted to the webhook.
#[derive(Debug)]
pub struct DiscordWebhookPayload {
    pub content: Option<String>,
    pub embeds: Vec<DiscordEmbed>,
}

/// The lines of the embed's description.
pub open spec fn embed_description(r: DiscordWebhookRequest) -> Seq<char> {
    "Profile: "@ + r.profile_name@ + "\n"@ + "Rule: "@ + r.rule_name@ + "\n"@ + "Character: "@ + r.character_name@ + "\n"@
        + "Location: "@ + r.location_label@ + "\n"@ + "Triggered: "@ + r.event_timestamp_label@
}

impl DiscordWebhookPayload {
    /// The post for a clip: the clip's URL as the message, and one embed with
    /// the title, the description lines, the URL, the score in the footer
    /// and, when one is attached, the thumbnail.
    pub fn from_request(request: &DiscordWebhookRequest, has_thumbnail: bool) -> (r: Self)
        ensures
            opt_view(r.content) == opt_view(request.clip_url),
            r.embeds@.len() == 1,
            r.embeds@[0].title@ == request.clip_title@,
            r.embeds@[0].description@ == embed_description(*request),
            opt_view(r.embeds@[0].url) == opt_view(request.clip_url),
            r.embeds@[0].color == 0x4A90E2,
            r.embeds@[0].footer.text@ == "Score "@ + decimal(request.score as nat),
            has_thumbnail <==> r.embeds@[0].thumbnail is Some,
            r.embeds@[0].thumbnail matches Some(t) ==> t.url@ == "attachment://thumbnail.png"@,
    {
        let mut d = owned("Profile: ");
        d.push_str(request.profile_name.as_str());
        d.push_str("\n");
        d.push_str("Rule: ");
        d.push_str(request.rule_name.as_str());
        d.push_str("\n");
        d.push_str("Character: ");
        d.push_str(request.character_name.as_str());
        d.push_str("\n");
        d.push_str("Location: ");
        d.push_str(request.location_label.as_str());
        d.push_str("\n");
        d.push_str("Triggered: ");
        d.push_str(request.event_timestamp_label.as_str());
        let mut footer = owned("Score ");
        push_decimal(&mut footer, request.score as u64);
        let url = match &request.clip_url {
            Some(u) => Some(owned(u.as_str())),
            None => None,
        };
        let content = match &request.clip_url {
            Some(u) => Some(owned(u.as_str())),
            None => None,
        };
        let thumbnail = if has_thumbnail {
            Some(DiscordThumbnail { url: owned("attachment://thumbnail.png") })
        } else {
            None
        };
        let mut embeds: Vec<DiscordEmbed> = Vec::new();
        embeds.push(DiscordEmbed {
            title: owned(request.clip_title.as_str()),
            description: d,
            url,
            color: 0x4A90E2,
            footer: DiscordFooter { text: footer },
            thumbnail,
        });
        DiscordWebhookPayload { content, embeds }
    }
}

/// The most posts made for one clip.
pub const WEBHOOK_ATTEMPTS: u32 = 4;

/// What to do after a post got an answer.
#[derive(Debug)]
pub enum WebhookStep {
    Delivered,
    /// Rate limited: wait as Discord asks, then post again.
    RetryAfterRateLimit,
    Failed(String),
}

/// What to do after post number `attempt` (from zero) got the HTTP status
/// `status_code` (written `status_text`) with `body`: delivered on success,
/// tried again when rate limited and attempts are left, else failed.
pub fn webhook_step(attempt: u32, status_code: u16, status_text: &str, body: &str) -> (r: WebhookStep)
    ensures
        200 <= status_code < 300 ==> r is Delivered,
        status_code == 429 && attempt < 3 ==> r is RetryAfterRateLimit,
        !(200 <= status_code < 300) && !(status_code == 429 && attempt < 3) ==> (r matches WebhookStep::Failed(m)
            && m@ == "Discord webhook failed with "@ + status_text@ + ": "@ + body@),
{
    if 200 <= status_code && status_code < 300 {
        return WebhookStep::Delivered;
    }
    if status_code == 429 && attempt < 3 {
        return WebhookStep::RetryAfterRateLimit;
    }
    let mut m = owned("Discord webhook failed with ");
    m.push_str(status_text);
    m.push_str(": ");
    m.push_str(body);
    WebhookStep::Failed(m)
}

/// The arguments that make ffmpeg write the frame at one second of `input`
/// to `output`.
pub fn thumbnail_ffmpeg_args(input: &str, output: &str) -> (r: Vec<String>)
    ensures
        r@.len() == 8,
        r@[0]@ == "-y"@ && r@[1]@ == "-ss"@ && r@[2]@ == "00:00:01"@ && r@[3]@ == "-i"@ && r@[4]@ == input@
            && r@[5]@ == "-frames:v"@ && r@[6]@ == "1"@ && r@[7]@ == output@,
{
    let mut r: Vec<String> = Vec::new();
    r.push(owned("-y"));
    r.push(owned("-ss"));
    r.push(owned("00:00:01"));
    r.push(owned("-i"));
    r.push(owned(input));
    r.push(owned("-frames:v"));
    r.push(owned("1"));
    r.push(owned(output));
    r
}

} // verus!
