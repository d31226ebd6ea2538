use vstd::prelude::*;

use crate::color::{rgb_value, RgbColor};
use crate::types::RequestType;

verus! {

/// How many notifications a batch holds at most before it is sent.
pub const MAX_EMBEDS_PER_MESSAGE: usize = 10;

/// One notification: a title, a text and an accent color `0xRRGGBB`.
pub struct Embed {
    pub title: String,
    pub description: String,
    pub color: i32,
}

/// What is delivered to the sink at once: a batch of notifications, in the order they
/// were recorded.
pub struct WebhookPayload {
    pub embeds: Vec<Embed>,
}

impl WebhookPayload {
    pub fn new(embeds: Vec<Embed>) -> (r: WebhookPayload)
        ensures
            r.embeds@ == embeds@,
    {
        WebhookPayload { embeds }
    }
}

/// The notifications a payload carries, where there is one.
pub open spec fn sent(r: Option<WebhookPayload>) -> Option<Seq<Embed>> {
    match r {
        Some(p) => Some(p.embeds@),
        None => None,
    }
}

/// Recording one notification: it joins the batch, and a batch that reaches the cap is
/// sent whole and starts over empty.
pub open spec fn record_step(batch: Seq<Embed>, e: Embed) -> (Seq<Embed>, Option<Seq<Embed>>) {
    if batch.len() + 1 >= MAX_EMBEDS_PER_MESSAGE {
        (Seq::empty(), Some(batch.push(e)))
    } else {
        (batch.push(e), None)
    }
}

/// Recording the notifications `events` in turn, starting from an empty batch: the batch
/// left and the batches sent, in order.
pub open spec fn record_all(events: Seq<Embed>) -> (Seq<Embed>, Seq<Seq<Embed>>)
    decreases events.len(),
{
    if events.len() == 0 {
        (Seq::empty(), Seq::empty())
    } else {
        let (batch, sent) = record_all(events.drop_last());
        let (next, out) = record_step(batch, events.last());
        match out {
            Some(b) => (next, sent.push(b)),
            None => (next, sent),
        }
    }
}

proof fn lemma_record_below_cap(events: Seq<Embed>, k: int)
    requires
        0 <= k < MAX_EMBEDS_PER_MESSAGE,
        k <= events.len(),
    ensures
        record_all(events.take(k)) == (events.take(k), Seq::<Seq<Embed>>::empty()),
    decreases k,
{
    if k > 0 {
        lemma_record_below_cap(events, k - 1);
        assert(events.take(k).drop_last() =~= events.take(k - 1));
        assert(events.take(k - 1).push(events.take(k).last()) =~= events.take(k));
    }
}

/// Recording fewer notifications than the cap sends nothing and keeps them all, in order;
/// recording the one that reaches the cap sends exactly one batch, all of them in order,
/// and leaves the batch empty.
pub proof fn lemma_batching(events: Seq<Embed>)
    requires
        events.len() == MAX_EMBEDS_PER_MESSAGE,
    ensures
        forall|k: int|
            0 <= k < MAX_EMBEDS_PER_MESSAGE ==> #[trigger] record_all(events.take(k)) == (
                events.take(k),
                Seq::<Seq<Embed>>::empty(),
            ),
        record_all(events) == (Seq::<Embed>::empty(), seq![events]),
{
    assert forall|k: int| 0 <= k < MAX_EMBEDS_PER_MESSAGE implies #[trigger] record_all(
        events.take(k),
    ) == (events.take(k), Seq::<Seq<Embed>>::empty()) by {
        lemma_record_below_cap(events, k);
    }
    lemma_record_below_cap(events, 9);
    assert(events.drop_last() =~= events.take(9));
    assert(events.take(9).push(events.last()) =~= events);
    assert(Seq::<Seq<Embed>>::empty().push(events) =~= seq![events]);
}

/// The batch of notifications not yet sent, and where it goes.
pub struct WebhookBuffer {
    pub embeds: Vec<Embed>,
    pub url: String,
}

/// A message to the worker that owns the batch.
pub enum Message {
    /// Send what the batch holds now.
    Flush,
    /// Record a notification.
    AddEmbed(Embed),
}

impl WebhookBuffer {
    /// A full batch never waits: it holds fewer than the cap.
    pub open spec fn wf(&self) -> bool {
        self.embeds@.len() < MAX_EMBEDS_PER_MESSAGE
    }

    pub fn new(url: String) -> (r: WebhookBuffer)
        ensures
            r.wf(),
            r.embeds@ == Seq::<Embed>::empty(),
            r.url@ == url@,
    {
        WebhookBuffer { embeds: Vec::new(), url }
    }

    /// Records a notification; returns the batch to send where it reached the cap.
    pub fn add_message(&mut self, embed: Embed) -> (r: Option<WebhookPayload>)
        requires
            old(self).wf(),
        ensures
            final(self).wf(),
            final(self).url == old(self).url,
            (final(self).embeds@, sent(r)) == record_step(old(self).embeds@, embed),
    {
        self.embeds.push(embed);
        if self.embeds.len() >= MAX_EMBEDS_PER_MESSAGE {
            self.flush()
        } else {
            None
        }
    }

    /// Takes the whole batch to send, where it is not empty, and leaves it empty.
    pub fn flush(&mut self) -> (r: Option<WebhookPayload>)
        ensures
            final(self).embeds@ == Seq::<Embed>::empty(),
            final(self).url == old(self).url,
            sent(r) == (if old(self).embeds@.len() == 0 {
                None
            } else {
                Some(old(self).embeds@)
            }),
    {
        if self.embeds.len() == 0 {
            return None;
        }
        let mut batch: Vec<Embed> = Vec::new();
        batch.append(&mut self.embeds);
        Some(WebhookPayload::new(batch))
    }

    /// Acts on one message to the worker; returns the batch to send, if any.
    pub fn handle(&mut self, message: Message) -> (r: Option<WebhookPayload>)
        requires
            old(self).wf(),
        ensures
            final(self).wf(),
            final(self).url == old(self).url,
            match message {
                Message::Flush => final(self).embeds@ == Seq::<Embed>::empty() && sent(r) == (if old(
                    self,
                ).embeds@.len() == 0 {
                    None
                } else {
                    Some(old(self).embeds@)
                }),
                Message::AddEmbed(e) => (final(self).embeds@, sent(r)) == record_step(
                    old(self).embeds@,
                    e,
                ),
            },
    {
        match message {
            Message::Flush => self.flush(),
            Message::AddEmbed(e) => self.add_message(e),
        }
    }
}

/// The accent color of a notification about a request.
pub open spec fn accent_color(request_type: &RequestType) -> int {
    match request_type {
        RequestType::Join(_) => rgb_value(250, 20, 20),
        RequestType::LegacyPing(_) => rgb_value(220, 150, 20),
        RequestType::ModernPing(_) => rgb_value(20, 250, 20),
    }
}

/// Red for a login attempt, orange for a legacy ping, green for a modern ping.
pub fn get_color_from_request_type(request_type: &RequestType) -> (r: i32)
    ensures
        r == accent_color(request_type),
{
    match request_type {
        RequestType::Join(_) => RgbColor::new(250, 20, 20).rgb(),
        RequestType::LegacyPing(_) => RgbColor::new(220, 150, 20).rgb(),
        RequestType::ModernPing(_) => RgbColor::new(20, 250, 20).rgb(),
    }
}

} // verus!
