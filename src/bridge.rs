use vstd::prelude::*;

use crate::config::Config;
use crate::text::{decimal_string, decimal_text, find_char, first_index_of, lemma_first_index_of};

verus! {

/// One message crossing the local bridge: `author:body`.
pub struct WireFrame {
    pub author: String,
    pub body: String,
}

/// The author of a frame: everything before its first colon (the whole frame when it has none).
pub open spec fn frame_author(s: Seq<char>) -> Seq<char> {
    s.take(first_index_of(s, ':') as int)
}

/// The body of a frame: everything after its first colon, later colons included (empty when
/// the frame has no colon).
pub open spec fn frame_body(s: Seq<char>) -> Seq<char> {
    if first_index_of(s, ':') < s.len() {
        s.skip(first_index_of(s, ':') + 1 as int)
    } else {
        Seq::empty()
    }
}

/// Splits a frame on its first colon. A frame without a colon is all author and no body.
pub fn parse_frame(frame: &str) -> (r: WireFrame)
    ensures
        r.author@ == frame_author(frame@),
        r.body@ == frame_body(frame@),
{
    let n = frame.unicode_len();
    let c = find_char(frame, ':');
    let author = String::from_str(frame.substring_char(0, c));
    let body = if c < n {
        String::from_str(frame.substring_char(c + 1, n))
    } else {
        String::new()
    };
    proof {
        assert(author@ =~= frame_author(frame@));
        assert(body@ =~= frame_body(frame@));
    }
    WireFrame { author, body }
}

/// Splitting a frame that holds a colon and joining the parts with one colon gives the frame
/// back; the author holds no colon, so colons of the body survive the split.
pub proof fn lemma_frame_rejoin(s: Seq<char>)
    requires
        s.contains(':'),
    ensures
        frame_author(s) + seq![':'] + frame_body(s) == s,
        !frame_author(s).contains(':'),
{
    lemma_first_index_of(s, ':');
    let c = first_index_of(s, ':');
    let k = choose|k: int| 0 <= k < s.len() && s[k] == ':';
    assert(c < s.len()) by {
        if c >= s.len() {
            assert(s[k] != ':');
        }
    }
    assert(frame_author(s) + seq![':'] + frame_body(s) =~= s);
    assert forall|j: int| 0 <= j < frame_author(s).len() implies frame_author(s)[j] != ':' by {
        assert(frame_author(s)[j] == s[j]);
    }
}

/// `host:port`, where the bridge listener binds.
pub open spec fn bridge_addr(config: Config) -> Seq<char> {
    config.messenger_host@ + seq![':'] + decimal_text(config.messenger_port as nat)
}

/// The address the bridge listener binds to.
pub fn bridge_address(config: &Config) -> (r: String)
    ensures
        r@ == bridge_addr(*config),
{
    let mut r = config.messenger_host.clone();
    let colon = ":";
    proof {
        reveal_strlit(":");
    }
    r.append(colon);
    let port = decimal_string(config.messenger_port as u64);
    r.append(port.as_str());
    assert(r@ =~= bridge_addr(*config));
    r
}

/// Whether the bridge listener has been started.
#[derive(PartialEq, Eq, Structural, Clone, Copy, Debug)]
pub enum BridgeState {
    AwaitingServerReady,
    BridgeRunning,
}

/// What to do about a "server ready" event.
#[derive(PartialEq, Eq, Structural, Clone, Copy, Debug)]
pub enum ReadyAction {
    /// Another server, or the bridge already runs: nothing to do.
    Ignore,
    /// Start the bridge listener with the webhook at this index of the server's list.
    StartBridge(usize),
    /// The configured webhook is not among the server's webhooks: a configuration error.
    WebhookMissing,
}

/// Whether a "server ready" event for `server_name` can start the listener: it names the
/// configured server and the listener does not run yet.
pub fn should_start(state: &BridgeState, config: &Config, server_name: &String) -> (r: bool)
    ensures
        r == (*state == BridgeState::AwaitingServerReady && server_name@ == config.discord_server@),
{
    *state == BridgeState::AwaitingServerReady && *server_name == config.discord_server
}

/// Decides what a "server ready" event for `server_name`, whose webhooks carry the ids
/// `webhook_ids`, calls for. The listener is started at most once: the first time the
/// configured server is ready and lists the configured webhook.
pub fn on_server_ready(
    state: &mut BridgeState,
    config: &Config,
    server_name: &String,
    webhook_ids: &Vec<u64>,
) -> (r: ReadyAction)
    ensures
        *old(state) == BridgeState::BridgeRunning ==> r == ReadyAction::Ignore,
        server_name@ != config.discord_server@ ==> r == ReadyAction::Ignore,
        *old(state) == BridgeState::AwaitingServerReady && server_name@ == config.discord_server@
            ==> match r {
            ReadyAction::StartBridge(i) => {
                &&& i < webhook_ids@.len()
                &&& webhook_ids@[i as int] == config.discord_webhook_id
                &&& forall|j: int| 0 <= j < i ==> webhook_ids@[j] != config.discord_webhook_id
            },
            ReadyAction::WebhookMissing => forall|j: int|
                0 <= j < webhook_ids@.len() ==> webhook_ids@[j] != config.discord_webhook_id,
            ReadyAction::Ignore => false,
        },
        *final(state) == (if r is StartBridge {
            BridgeState::BridgeRunning
        } else {
            *old(state)
        }),
{
    if *state == BridgeState::BridgeRunning || *server_name != config.discord_server {
        return ReadyAction::Ignore;
    }
    let mut i: usize = 0;
    while i < webhook_ids.len()
        invariant
            i <= webhook_ids@.len(),
            forall|j: int| 0 <= j < i ==> webhook_ids@[j] != config.discord_webhook_id,
            *state == BridgeState::AwaitingServerReady,
            *old(state) == BridgeState::AwaitingServerReady,
            server_name@ == config.discord_server@,
        decreases webhook_ids@.len() - i,
    {
        if webhook_ids[i] == config.discord_webhook_id {
            *state = BridgeState::BridgeRunning;
            return ReadyAction::StartBridge(i);
        }
        i = i + 1;
    }
    ReadyAction::WebhookMissing
}

} // verus!
