use vstd::prelude::*;
use vstd::string::*;

use crate::error::{failure_message, Error, Failure};
use crate::json::{copy_strings, subscription_message, subscription_text};

verus! {

/// The plain state of a market data client: where it connects, the assets it
/// has subscribed to (in the order of the subscriptions), and its
/// automatic-reconnection flag, which closing turns off.
pub struct MarketSessionView {
    pub url: Seq<char>,
    pub subscribed_assets: Seq<Seq<char>>,
    pub auto_reconnect: bool,
}

/// The state that a market data client keeps besides its connection.
pub struct MarketSession {
    url: String,
    subscribed_assets: Vec<String>,
    auto_reconnect: bool,
}

impl View for MarketSession {
    type V = MarketSessionView;

    closed spec fn view(&self) -> MarketSessionView {
        MarketSessionView {
            url: self.url@,
            subscribed_assets: self.subscribed_assets.deep_view(),
            auto_reconnect: self.auto_reconnect,
        }
    }
}

/// The state after a subscription message for `asset_ids` was sent, or failed
/// to be sent: only a sent subscription is recorded, and it is appended.
pub open spec fn after_subscription(
    session: MarketSessionView,
    asset_ids: Seq<Seq<char>>,
    sent: bool,
) -> MarketSessionView {
    if sent {
        MarketSessionView {
            subscribed_assets: session.subscribed_assets + asset_ids,
            ..session
        }
    } else {
        session
    }
}

impl MarketSession {
    /// The state of a freshly connected client: nothing subscribed, automatic
    /// reconnection on.
    pub fn new(url: &str) -> (session: MarketSession)
        ensures
            session@ == (MarketSessionView {
                url: url@,
                subscribed_assets: Seq::empty(),
                auto_reconnect: true,
            }),
    {
        let session = MarketSession {
            url: String::from_str(url),
            subscribed_assets: Vec::new(),
            auto_reconnect: true,
        };
        assert(session.subscribed_assets.deep_view() =~= Seq::<Seq<char>>::empty());
        session
    }

    /// The endpoint the client connects to.
    pub fn url(&self) -> (url: &str)
        ensures
            url@ == self@.url,
    {
        self.url.as_str()
    }

    /// The assets subscribed so far.
    pub fn subscribed_assets(&self) -> (assets: &Vec<String>)
        ensures
            assets.deep_view() == self@.subscribed_assets,
    {
        &self.subscribed_assets
    }

    /// The automatic-reconnection flag: on from the start, off once the client
    /// is closed. The receive step does not consult it: a lost connection
    /// ends the stream.
    pub fn auto_reconnect(&self) -> (on: bool)
        ensures
            on == self@.auto_reconnect,
    {
        self.auto_reconnect
    }

    /// The message to send to subscribe to `asset_ids`, or the error when no
    /// connection is open for writing.
    pub fn subscription_request(writer_attached: bool, asset_ids: &Vec<String>) -> (request:
        Result<String, Error>)
        ensures
            writer_attached ==> (request matches Ok(text) && text@ == subscription_text(
                asset_ids.deep_view(),
            )),
            !writer_attached ==> (request matches Err(e) && e.message_view()
                == "WebSocket not connected"@),
    {
        if writer_attached {
            Ok(subscription_message(asset_ids))
        } else {
            Err(Error::not_connected())
        }
    }

    /// Records the outcome of sending a subscription for `asset_ids`: `sent`
    /// is `Ok` when the message went out, or the outside error's text. Only a
    /// sent subscription is recorded; a failed one is reported.
    pub fn record_subscription(&mut self, asset_ids: Vec<String>, sent: Result<(), String>) -> (result:
        Result<(), Error>)
        ensures
            final(self)@ == after_subscription(old(self)@, asset_ids.deep_view(), sent is Ok),
            sent is Ok ==> final(self)@.subscribed_assets == old(self)@.subscribed_assets
                + asset_ids.deep_view(),
            sent is Err ==> final(self)@.subscribed_assets == old(self)@.subscribed_assets,
            final(self)@.url == old(self)@.url,
            final(self)@.auto_reconnect == old(self)@.auto_reconnect,
            sent is Ok ==> result is Ok,
            sent matches Err(detail) ==> (result matches Err(e) && e.message_view()
                == failure_message(Failure::SendSubscription, detail@)),
    {
        let ghost ids = asset_ids.deep_view();
        match sent {
            Ok(()) => {
                let mut added = asset_ids;
                let ghost before = self.subscribed_assets.deep_view();
                self.subscribed_assets.append(&mut added);
                assert(self.subscribed_assets.deep_view() =~= before + ids);
                Ok(())
            },
            Err(detail) => Err(Error::from_failure(Failure::SendSubscription, detail.as_str())),
        }
    }

    /// After a reconnection: the assets to subscribe to again, or `None` when
    /// there are none.
    pub fn resubscription(&self) -> (assets: Option<Vec<String>>)
        ensures
            assets is None <==> self@.subscribed_assets.len() == 0,
            assets matches Some(v) ==> v.deep_view() == self@.subscribed_assets,
    {
        if self.subscribed_assets.len() == 0 {
            None
        } else {
            Some(copy_strings(&self.subscribed_assets))
        }
    }

    /// Turns the automatic-reconnection flag off, as closing the client does; nothing
    /// else changes.
    pub fn close(&mut self)
        ensures
            final(self)@ == (MarketSessionView { auto_reconnect: false, ..old(self)@ }),
    {
        self.auto_reconnect = false;
    }
}

/// Whether every entry of `decoded` is a decoded message.
pub open spec fn all_decoded<T>(decoded: Seq<Result<T, String>>) -> bool {
    forall|i: int| 0 <= i < decoded.len() ==> #[trigger] decoded[i] is Ok
}

/// The outcome of a market data frame whose elements decoded to `entries`:
/// the messages in order, or the message of the error of the first element
/// that did not decode.
pub open spec fn batch_result<T>(entries: Seq<Result<T, String>>) -> Result<Seq<T>, Seq<char>>
    decreases entries.len(),
{
    if entries.len() == 0 {
        Ok(Seq::empty())
    } else {
        match entries[0] {
            Err(detail) => Err(failure_message(Failure::MarketParse, detail@)),
            Ok(message) => match batch_result(entries.drop_first()) {
                Ok(rest) => Ok(seq![message] + rest),
                Err(text) => Err(text),
            },
        }
    }
}

proof fn lemma_batch_result_ok<T>(entries: Seq<Result<T, String>>, messages: Seq<T>)
    requires
        messages.len() == entries.len(),
        forall|i: int| 0 <= i < entries.len() ==> entries[i] == Ok::<T, String>(#[trigger] messages[i]),
    ensures
        batch_result(entries) == Ok::<Seq<T>, Seq<char>>(messages),
    decreases entries.len(),
{
    if entries.len() > 0 {
        let rest = messages.drop_first();
        assert forall|i: int| 0 <= i < entries.drop_first().len() implies entries.drop_first()[i]
            == Ok::<T, String>(#[trigger] rest[i]) by {
            assert(entries[i + 1] == Ok::<T, String>(messages[i + 1]));
        }
        lemma_batch_result_ok(entries.drop_first(), rest);
        assert(entries[0] == Ok::<T, String>(messages[0]));
        assert(seq![messages[0]] + rest =~= messages);
    } else {
        assert(messages =~= Seq::<T>::empty());
    }
}

proof fn lemma_batch_result_err<T>(entries: Seq<Result<T, String>>, index: int, detail: String)
    requires
        0 <= index < entries.len(),
        forall|j: int| 0 <= j < index ==> #[trigger] entries[j] is Ok,
        entries[index] == Err::<T, String>(detail),
    ensures
        batch_result(entries) == Err::<Seq<T>, Seq<char>>(
            failure_message(Failure::MarketParse, detail@),
        ),
    decreases entries.len(),
{
    if index > 0 {
        assert forall|j: int| 0 <= j < index - 1 implies #[trigger] entries.drop_first()[j] is Ok by {
            assert(entries[j + 1] is Ok);
        }
        assert(entries.drop_first()[index - 1] == entries[index]);
        lemma_batch_result_err(entries.drop_first(), index - 1, detail);
        assert(entries[0] is Ok);
    }
}

/// Collects the decoded elements of one market data frame, all or nothing: the
/// messages in order when every element was decoded, else the error of the
/// first element that was not. A frame that holds a single message rather
/// than an array is passed as a batch of one.
pub fn market_batch<T>(decoded: Vec<Result<T, String>>) -> (batch: Result<Vec<T>, Error>)
    ensures
        batch matches Ok(messages) ==> batch_result(decoded@) == Ok::<Seq<T>, Seq<char>>(
            messages@,
        ),
        batch matches Err(e) ==> batch_result(decoded@) == Err::<Seq<T>, Seq<char>>(
            e.message_view(),
        ),
        batch is Ok <==> all_decoded(decoded@),
        batch matches Ok(messages) ==> messages@.len() == decoded@.len() && forall|i: int|
            0 <= i < decoded@.len() ==> decoded@[i] == Ok::<T, String>(#[trigger] messages@[i]),
        batch matches Err(e) ==> exists|i: int|
            0 <= i < decoded@.len() && (forall|j: int| 0 <= j < i ==> #[trigger] decoded@[j] is Ok)
                && (#[trigger] decoded@[i] matches Err(detail) && e.message_view()
                == failure_message(Failure::MarketParse, detail@)),
{
    let ghost all = decoded@;
    let mut rest = decoded;
    let mut messages: Vec<T> = Vec::new();
    while rest.len() > 0
        invariant
            all == decoded@,
            messages@.len() + rest@.len() == all.len(),
            rest@ == all.skip(messages@.len() as int),
            forall|j: int| 0 <= j < messages@.len() ==> all[j] == Ok::<T, String>(#[trigger] messages@[j]),
        decreases rest@.len(),
    {
        let ghost k = messages@.len() as int;
        assert(all[k] == rest@[0]);
        let ghost first = rest@[0];
        let item = rest.remove(0);
        assert(item == first);
        match item {
            Ok(message) => {
                messages.push(message);
                assert(rest@ =~= all.skip(k + 1));
            },
            Err(detail) => {
                let e = Error::from_failure(Failure::MarketParse, detail.as_str());
                assert forall|j: int| 0 <= j < k implies #[trigger] all[j] is Ok by {
                    assert(all[j] == Ok::<T, String>(messages@[j]));
                }
                assert(all[k] is Err);
                assert(!all_decoded(all));
                assert(all[k] matches Err(d) && e.message_view() == failure_message(Failure::MarketParse, d@));
                proof {
                    lemma_batch_result_err(all, k, detail);
                }
                return Err(e);
            },
        }
    }
    assert forall|i: int| 0 <= i < all.len() implies #[trigger] all[i] is Ok by {
        assert(all[i] == Ok::<T, String>(messages@[i]));
    }
    proof {
        lemma_batch_result_ok(all, messages@);
    }
    Ok(messages)
}

/// The decoded form of one market data frame: a top-level array, element by
/// element, or a lone message.
pub enum DecodedFrame<T> {
    /// The frame was an array; each element decoded or failed on its own.
    Batch(Vec<Result<T, String>>),
    /// The frame was a single message.
    Single(Result<T, String>),
}

/// The entries of a decoded frame: a lone message is a batch of one.
pub open spec fn frame_entries<T>(frame: DecodedFrame<T>) -> Seq<Result<T, String>> {
    match frame {
        DecodedFrame::Batch(entries) => entries@,
        DecodedFrame::Single(entry) => seq![entry],
    }
}

/// The messages of one market data frame, all or nothing; a lone message is
/// answered exactly as an array holding only that message.
pub fn market_frame<T>(frame: DecodedFrame<T>) -> (batch: Result<Vec<T>, Error>)
    ensures
        batch matches Ok(messages) ==> batch_result(frame_entries(frame)) == Ok::<
            Seq<T>,
            Seq<char>,
        >(messages@),
        batch matches Err(e) ==> batch_result(frame_entries(frame)) == Err::<Seq<T>, Seq<char>>(
            e.message_view(),
        ),
        frame matches DecodedFrame::Batch(entries) ==> (batch is Ok <==> all_decoded(entries@)),
        frame matches DecodedFrame::Batch(entries) ==> (batch matches Ok(messages) ==> (
        messages@.len() == entries@.len() && forall|i: int|
            0 <= i < entries@.len() ==> entries@[i] == Ok::<T, String>(#[trigger] messages@[i]))),
        frame matches DecodedFrame::Single(entry) ==> (batch is Ok <==> entry is Ok),
        frame matches DecodedFrame::Single(entry) ==> (batch matches Ok(messages) ==> (
        messages@.len() == 1 && entry == Ok::<T, String>(messages@[0]))),
        frame matches DecodedFrame::Single(entry) ==> (entry matches Err(detail) ==> (
        batch matches Err(e) && e.message_view() == failure_message(
            Failure::MarketParse,
            detail@,
        ))),
{
    match frame {
        DecodedFrame::Batch(entries) => market_batch(entries),
        DecodedFrame::Single(entry) => {
            let mut entries: Vec<Result<T, String>> = Vec::new();
            entries.push(entry);
            assert(entries@ =~= frame_entries(frame));
            let ghost view = entries@;
            let batch = market_batch(entries);
            proof {
                if batch is Err {
                    let i = choose|i: int|
                        0 <= i < view.len() && (forall|j: int| 0 <= j < i ==> #[trigger] view[j] is Ok)
                            && (#[trigger] view[i] matches Err(detail) && batch->Err_0.message_view()
                            == failure_message(Failure::MarketParse, detail@));
                    assert(i == 0);
                }
                if batch is Ok {
                    assert(all_decoded(view));
                    assert(view[0] is Ok);
                }
                if entry is Ok {
                    assert(view[0] is Ok);
                    assert(all_decoded(view));
                }
            }
            batch
        },
    }
}

/// A frame decodes to messages exactly when every entry decoded, and then it
/// yields every entry's message, in order: none dropped, none added, none
/// reordered.
pub proof fn lemma_batch_keeps_every_message<T>(entries: Seq<Result<T, String>>)
    ensures
        batch_result(entries) is Ok <==> all_decoded(entries),
        batch_result(entries) matches Ok(messages) ==> messages.len() == entries.len() && forall|
            i: int,
        | 0 <= i < entries.len() ==> entries[i] == Ok::<T, String>(#[trigger] messages[i]),
    decreases entries.len(),
{
    if entries.len() > 0 {
        let rest = entries.drop_first();
        lemma_batch_keeps_every_message(rest);
        if all_decoded(entries) {
            assert forall|i: int| 0 <= i < rest.len() implies #[trigger] rest[i] is Ok by {
                assert(entries[i + 1] is Ok);
            }
            assert(entries[0] is Ok);
        }
        if batch_result(entries) is Ok {
            assert(entries[0] is Ok);
            let messages = batch_result(entries)->Ok_0;
            let tail = batch_result(rest)->Ok_0;
            assert forall|i: int| 0 <= i < entries.len() implies #[trigger] entries[i] is Ok by {
                if i > 0 {
                    assert(rest[i - 1] == entries[i]);
                    assert(rest[i - 1] == Ok::<T, String>(tail[i - 1]));
                }
            }
            assert forall|i: int| 0 <= i < entries.len() implies entries[i] == Ok::<T, String>(
                #[trigger] messages[i],
            ) by {
                if i > 0 {
                    assert(rest[i - 1] == entries[i]);
                    assert(rest[i - 1] == Ok::<T, String>(tail[i - 1]));
                    assert(messages[i] == tail[i - 1]);
                }
            }
        }
    }
}

/// A frame fails exactly on its first entry that did not decode, with that
/// entry's error text.
pub proof fn lemma_batch_fails_on_first_error<T>(entries: Seq<Result<T, String>>, index: int)
    requires
        0 <= index < entries.len(),
        forall|j: int| 0 <= j < index ==> #[trigger] entries[j] is Ok,
        entries[index] is Err,
    ensures
        batch_result(entries) == Err::<Seq<T>, Seq<char>>(
            failure_message(Failure::MarketParse, entries[index]->Err_0@),
        ),
{
    lemma_batch_result_err(entries, index, entries[index]->Err_0);
}

/// A lone market message is handled exactly as an array holding only that
/// message: same messages, or the same error.
pub proof fn lemma_lone_message_is_batch_of_one<T>(entry: Result<T, String>, batch: Vec<Result<T, String>>)
    requires
        batch@ == seq![entry],
    ensures
        batch_result(frame_entries(DecodedFrame::Single(entry))) == batch_result(
            frame_entries(DecodedFrame::Batch(batch)),
        ),
{
}

/// A sent subscription appends exactly the requested ids, in order, after
/// those already subscribed: every requested id is subscribed afterwards and
/// nothing else changes. A failed one changes nothing.
pub proof fn lemma_sent_subscription_appends(
    session: MarketSessionView,
    asset_ids: Seq<Seq<char>>,
)
    ensures
        ({
            let after = after_subscription(session, asset_ids, true);
            &&& after.subscribed_assets.len() == session.subscribed_assets.len() + asset_ids.len()
            &&& forall|i: int|
                0 <= i < session.subscribed_assets.len() ==> after.subscribed_assets[i]
                    == #[trigger] session.subscribed_assets[i]
            &&& forall|i: int|
                0 <= i < asset_ids.len() ==> after.subscribed_assets[session.subscribed_assets.len()
                    + i] == #[trigger] asset_ids[i]
            &&& forall|i: int| 0 <= i < asset_ids.len() ==> after.subscribed_assets.contains(#[trigger] asset_ids[i])
            &&& after.url == session.url
            &&& after.auto_reconnect == session.auto_reconnect
        }),
        after_subscription(session, asset_ids, false) == session,
{
    let after = after_subscription(session, asset_ids, true);
    assert forall|i: int| 0 <= i < asset_ids.len() implies after.subscribed_assets.contains(
        #[trigger] asset_ids[i],
    ) by {
        assert(after.subscribed_assets[session.subscribed_assets.len() + i] == asset_ids[i]);
    }
}

/// Subscribing again to everything after a reconnection keeps the set of
/// subscribed assets: the list is appended to itself, so it doubles in length
/// while naming the same assets.
pub proof fn lemma_resubscription_keeps_assets(session: MarketSessionView)
    ensures
        ({
            let after = after_subscription(session, session.subscribed_assets, true);
            &&& after.subscribed_assets.to_set() == session.subscribed_assets.to_set()
            &&& after.subscribed_assets.len() == 2 * session.subscribed_assets.len()
            &&& after.url == session.url
            &&& after.auto_reconnect == session.auto_reconnect
        }),
{
    let s = session.subscribed_assets;
    let doubled = s + s;
    assert forall|x: Seq<char>| doubled.contains(x) implies s.contains(x) by {
        let i = choose|i: int| 0 <= i < doubled.len() && doubled[i] == x;
        if i < s.len() {
            assert(s[i] == x);
        } else {
            assert(s[i - s.len()] == x);
        }
    }
    assert forall|x: Seq<char>| s.contains(x) implies doubled.contains(x) by {
        let i = choose|i: int| 0 <= i < s.len() && s[i] == x;
        assert(doubled[i] == x);
    }
    assert(doubled.to_set() =~= s.to_set());
}

/// A subscription never drops an asset: whatever was subscribed before is
/// still subscribed afterwards, whether or not the message went out.
pub proof fn lemma_subscriptions_only_grow(
    session: MarketSessionView,
    asset_ids: Seq<Seq<char>>,
    sent: bool,
    asset: Seq<char>,
)
    requires
        session.subscribed_assets.contains(asset),
    ensures
        after_subscription(session, asset_ids, sent).subscribed_assets.contains(asset),
{
    if sent {
        let i = choose|i: int|
            0 <= i < session.subscribed_assets.len() && session.subscribed_assets[i] == asset;
        assert((session.subscribed_assets + asset_ids)[i] == asset);
    }
}

} // verus!
