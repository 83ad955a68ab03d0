use vstd::prelude::*;

verus! {

/// Pause between two synthetic keystrokes, in milliseconds.
pub const MESSENGER_DELAY: u16 = 100;

/// Settings of the bridge, read once at startup and never changed.
pub struct Config {
    /// The name of the server whose readiness starts the bridge listener.
    pub discord_server: String,
    /// The name of the one channel that is relayed.
    pub discord_channel: String,
    /// The webhook used to republish local messages.
    pub discord_webhook_id: u64,
    /// The credential of the remote client.
    pub discord_token: String,
    /// The host the bridge listener binds to.
    pub messenger_host: String,
    /// The port the bridge listener binds to.
    pub messenger_port: u16,
}

/// The host the bridge listens on when none is configured.
pub open spec fn spec_default_host() -> Seq<char> {
    seq!['1', '2', '7', '.', '0', '.', '0', '.', '1']
}

/// The loopback address, used when no bridge host is configured.
pub fn default_messenger_host() -> (r: String)
    ensures
        r@ == spec_default_host(),
{
    let s = "127.0.0.1";
    proof {
        reveal_strlit("127.0.0.1");
    }
    let r = String::from_str(s);
    assert(r@ =~= spec_default_host());
    r
}

} // verus!
