use vstd::prelude::*;

use crate::config::Config;
use crate::mention::{display_name_of, replace_mentions, substitute, User, lemma_no_users_unchanged};

verus! {

/// A message posted on the remote server, as the relay needs to see it.
pub struct MessageEvent {
    /// The name of the channel it was posted in.
    pub channel_name: String,
    /// Whether a webhook posted it (the bridge's own republished messages are such).
    pub from_webhook: bool,
    pub author: User,
    pub content: String,
    /// The users that the message mentions.
    pub mentions: Vec<User>,
    /// The retrieval URLs of the attachments, in attachment order.
    pub attachments: Vec<String>,
}

/// A message is relayed when it was posted in the configured channel and not by a webhook.
pub open spec fn accepts(config: Config, e: MessageEvent) -> bool {
    e.channel_name@ == config.discord_channel@ && !e.from_webhook
}

/// One line per attachment, each opened by a newline, in attachment order.
pub open spec fn attachment_lines(urls: Seq<String>) -> Seq<char>
    decreases urls.len(),
{
    if urls.len() == 0 {
        Seq::empty()
    } else {
        attachment_lines(urls.drop_last()) + seq!['\n'] + urls.last()@
    }
}

/// The body with mentions replaced by names.
pub open spec fn normalized_body(e: MessageEvent) -> Seq<char> {
    substitute(e.content@, e.mentions@)
}

/// The body, a trailing space that dismisses an autocomplete popup, then the attachment lines.
pub open spec fn relayed_text(e: MessageEvent) -> Seq<char> {
    normalized_body(e) + seq![' '] + attachment_lines(e.attachments@)
}

/// `*<display name>*: <relayed text>`.
pub open spec fn payload(e: MessageEvent) -> Seq<char> {
    seq!['*'] + display_name_of(e.author) + seq!['*', ':', ' '] + relayed_text(e)
}

/// Decides whether a message posted in `channel_name` is relayed; `from_webhook` says whether
/// a webhook posted it.
pub fn is_relayed(config: &Config, channel_name: &String, from_webhook: bool) -> (r: bool)
    ensures
        r == (channel_name@ == config.discord_channel@ && !from_webhook),
{
    *channel_name == config.discord_channel && !from_webhook
}

/// The body with mentions replaced, a trailing space, and one line per attachment URL.
pub fn relay_text(event: &MessageEvent) -> (r: String)
    ensures
        r@ == relayed_text(*event),
{
    let mut out = replace_mentions(event.content.as_str(), &event.mentions);
    let space = " ";
    proof {
        reveal_strlit(" ");
    }
    out.append(space);
    let ghost head = out@;
    let mut i: usize = 0;
    assert(event.attachments@.take(0) =~= Seq::<String>::empty());
    while i < event.attachments.len()
        invariant
            i <= event.attachments@.len(),
            head == normalized_body(*event) + seq![' '],
            out@ == head + attachment_lines(event.attachments@.take(i as int)),
        decreases event.attachments@.len() - i,
    {
        let ghost prev = out@;
        out.append("\n");
        proof {
            reveal_strlit("\n");
        }
        out.append(event.attachments[i].as_str());
        proof {
            assert(out@ == prev + seq!['\n'] + event.attachments@[i as int]@);
            let taken = event.attachments@.take(i + 1);
            assert(taken.drop_last() =~= event.attachments@.take(i as int));
            assert(taken.last() == event.attachments@[i as int]);
            assert(out@ =~= head + attachment_lines(taken));
        }
        i = i + 1;
    }
    assert(event.attachments@.take(i as int) =~= event.attachments@);
    out
}

/// The text handed to the local side for a posted message: `None` when the message is not
/// relayed, else `*<author's display name>*: ` followed by the relayed text.
pub fn relay_message(config: &Config, event: &MessageEvent) -> (r: Option<String>)
    ensures
        r is Some <==> accepts(*config, *event),
        r is Some ==> r->0@ == payload(*event),
{
    if !is_relayed(config, &event.channel_name, event.from_webhook) {
        return None;
    }
    let star = "*";
    let sep = "*: ";
    proof {
        reveal_strlit("*");
        reveal_strlit("*: ");
    }
    let mut out = String::from_str(star);
    let name = event.author.display_name();
    out.append(name.as_str());
    out.append(sep);
    let text = relay_text(event);
    out.append(text.as_str());
    assert(out@ =~= payload(*event));
    Some(out)
}

/// For every relayed message, the payload ends with the normalized body and one space,
/// followed only by the attachment lines.
pub proof fn lemma_payload_ends_with_body(config: Config, e: MessageEvent)
    requires
        accepts(config, e),
    ensures
        ({
            let p = payload(e);
            let tail = attachment_lines(e.attachments@);
            let body = normalized_body(e);
            &&& p.len() >= body.len() + 1 + tail.len()
            &&& p.subrange(p.len() - tail.len() - 1 - body.len(), p.len() - tail.len()) == body
                + seq![' ']
            &&& p.subrange(p.len() - tail.len(), p.len() as int) == tail
        }),
{
    let p = payload(e);
    let tail = attachment_lines(e.attachments@);
    let body = normalized_body(e);
    let prefix = seq!['*'] + display_name_of(e.author) + seq!['*', ':', ' '];
    assert(p =~= prefix + (body + seq![' ']) + tail);
    assert(p.subrange(p.len() - tail.len() - 1 - body.len(), p.len() - tail.len()) =~= body + seq![' ']);
    assert(p.subrange(p.len() - tail.len(), p.len() as int) =~= tail);
}

/// A message without attachments gets no appended lines; one without mentions keeps its body
/// as written, followed only by the trailing space.
pub proof fn lemma_plain_message_payload(e: MessageEvent)
    ensures
        e.attachments@.len() == 0 ==> attachment_lines(e.attachments@) == Seq::<char>::empty(),
        e.mentions@.len() == 0 ==> normalized_body(e) == e.content@,
        e.attachments@.len() == 0 && e.mentions@.len() == 0 ==> payload(e) == seq!['*']
            + display_name_of(e.author) + seq!['*', ':', ' '] + e.content@ + seq![' '],
{
    if e.mentions@.len() == 0 {
        assert(e.mentions@ =~= Seq::<User>::empty());
        lemma_no_users_unchanged(e.content@);
    }
    if e.attachments@.len() == 0 && e.mentions@.len() == 0 {
        assert(payload(e) =~= seq!['*'] + display_name_of(e.author) + seq!['*', ':', ' ']
            + e.content@ + seq![' ']);
    }
}

} // verus!
