use vstd::prelude::*;

verus! {

/// Captcha settings of the instance configuration.
pub struct CaptchaFeature {
    pub enabled: bool,
    pub key: String,
}

/// An optional service of the instance, with the URL it is reached at.
pub struct Feature {
    pub enabled: bool,
    pub url: String,
}

/// The voice service, reached over both HTTP and a websocket.
pub struct VoiceFeature {
    pub enabled: bool,
    pub url: String,
    pub ws: String,
}

pub struct RevoltFeatures {
    pub captcha: CaptchaFeature,
    pub email: bool,
    pub invite_only: bool,
    pub autumn: Feature,
    pub january: Feature,
    pub voso: VoiceFeature,
}

pub struct BuildInformation {
    pub commit_sha: String,
    pub commit_timestamp: String,
    pub semver: String,
    pub origin_url: String,
    pub timestamp: String,
}

/// The configuration fetched once at startup: feature flags, the websocket
/// URL and build metadata.
pub struct RevoltConfig {
    pub revolt: String,
    pub features: RevoltFeatures,
    pub ws: String,
    pub app: String,
    pub vapid: String,
    pub build: BuildInformation,
}

/// What the outbound request executor needs to reach the API: the base
/// URL and the session token sent with every request.  The transport that
/// uses it lives outside the verified core.
pub struct HttpClient {
    pub base: String,
    pub token: String,
}

impl HttpClient {
    pub fn new(base: String, token: String) -> (s: Self)
        ensures
            s == (HttpClient { base, token }),
    {
        HttpClient { base, token }
    }

    /// The full URL of a request: the base followed by the route.
    pub fn request_url(&self, route: &str) -> (r: String)
        ensures
            r@ == self.base@ + route@,
    {
        let mut r = self.base.clone();
        r.append(route);
        r
    }
}

/// The JSON body of a send-message call; everything but `content` is
/// optional.
pub struct DataMessageSend {
    pub content: Option<String>,
    pub nonce: Option<String>,
    pub attachments: Option<Vec<String>>,
    pub replies: Option<Vec<String>>,
    pub embeds: Option<Vec<String>>,
    pub masquerade: Option<crate::model::Masquerade>,
    pub interactions: Option<String>,
    pub flags: Option<u32>,
}

/// One unit of outbound work for the dispatcher: a send-message call
/// against a channel.  The network call itself runs outside the verified
/// core; its result reaches the model later through the event stream.
pub struct SendCommand {
    pub channel: String,
    pub body: DataMessageSend,
}

/// The route of the send-message call for a channel.
pub fn message_route(channel: &str) -> (r: String)
    ensures
        r@ == "/"@ + channel@ + "/messages"@,
{
    let mut r = "/".to_owned();
    r.append(channel);
    r.append("/messages");
    r
}

/// The compose box's decision step.  `activated` is whether the user asked
/// to send this frame (button or enter).  A command is produced exactly
/// when the user asked, the buffer is non-empty and a channel is selected;
/// the buffer is then cleared optimistically, before any network result.
pub fn message_box_step(
    current: &mut String,
    selected_channel: &Option<String>,
    activated: bool,
) -> (r: Option<SendCommand>)
    ensures
        (r is Some) == (activated && old(current)@.len() > 0 && selected_channel is Some),
        match r {
            Some(cmd) => {
                &&& cmd.channel == selected_channel->0
                &&& cmd.body.content matches Some(c) && c@ == old(current)@
                &&& cmd.body.nonce is None
                &&& cmd.body.attachments is None
                &&& cmd.body.replies is None
                &&& cmd.body.embeds is None
                &&& cmd.body.masquerade is None
                &&& cmd.body.interactions is None
                &&& cmd.body.flags is None
                &&& final(current)@ == Seq::<char>::empty()
            },
            None => *final(current) == *old(current),
        },
{
    if activated && !current.as_str().is_empty() {
        if let Some(channel_id) = selected_channel {
            let body = DataMessageSend {
                content: Some(current.clone()),
                nonce: None,
                attachments: None,
                replies: None,
                embeds: None,
                masquerade: None,
                interactions: None,
                flags: None,
            };
            let cmd = SendCommand { channel: channel_id.clone(), body };
            *current = String::new();
            return Some(cmd);
        }
    }
    None
}

} // verus!
