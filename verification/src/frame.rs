use vstd::prelude::*;

verus! {

/// What one read from the connection produced.
#[derive(Debug)]
pub enum Incoming {
    /// No reader is installed, so nothing can be read.
    NoReader,
    /// A text frame.
    Text(String),
    /// A ping frame with its payload.
    Ping(Vec<u8>),
    /// The peer closed the connection, the read failed, or the stream ended.
    Closed,
    /// Any other frame (binary, pong, raw frame); it carries nothing for the
    /// client.
    Other,
}

/// What the receive loop does after a read.
#[derive(Debug)]
pub enum ReadStep {
    /// Decode the text and hand the result to the caller.
    Deliver(String),
    /// Answer with a pong frame carrying the payload, then read again.
    SendPong(Vec<u8>),
    /// Read again.
    Skip,
    /// Stop: the caller receives `None`.
    Finish,
}

/// The step taken after a read.
pub open spec fn read_step_spec(incoming: Incoming) -> ReadStep {
    match incoming {
        Incoming::NoReader => ReadStep::Finish,
        Incoming::Text(text) => ReadStep::Deliver(text),
        Incoming::Ping(payload) => ReadStep::SendPong(payload),
        Incoming::Closed => ReadStep::Finish,
        Incoming::Other => ReadStep::Skip,
    }
}

/// Decides what the receive loop does with what a read produced: text is
/// delivered as it came, a ping is answered with the same payload, other
/// frames are skipped, and a closed connection, a failed read, the end of the
/// stream or a missing reader end the stream (the caller receives `None`).
pub fn read_step(incoming: Incoming) -> (step: ReadStep)
    ensures
        step == read_step_spec(incoming),
{
    match incoming {
        Incoming::NoReader => ReadStep::Finish,
        Incoming::Text(text) => ReadStep::Deliver(text),
        Incoming::Ping(payload) => ReadStep::SendPong(payload),
        Incoming::Closed => ReadStep::Finish,
        Incoming::Other => ReadStep::Skip,
    }
}

/// Whether a read ends the stream.
pub open spec fn ends_stream(incoming: Incoming) -> bool {
    incoming is Closed || incoming is NoReader
}

/// What a caller has seen after a run of reads: the texts handed over (one per
/// call of `next`), the payloads of the pongs sent, and whether the stream has
/// ended.
pub struct ReceiveTrace {
    pub delivered: Seq<Seq<char>>,
    pub pongs: Seq<Seq<u8>>,
    pub finished: bool,
}

/// The trace after one more step; once the stream has ended nothing changes.
pub open spec fn apply_step(trace: ReceiveTrace, step: ReadStep) -> ReceiveTrace {
    if trace.finished {
        trace
    } else {
        match step {
            ReadStep::Deliver(text) => ReceiveTrace {
                delivered: trace.delivered.push(text@),
                ..trace
            },
            ReadStep::SendPong(payload) => ReceiveTrace {
                pongs: trace.pongs.push(payload@),
                ..trace
            },
            ReadStep::Skip => trace,
            ReadStep::Finish => ReceiveTrace { finished: true, ..trace },
        }
    }
}

/// The trace of a run of reads, each answered by `read_step`.
pub open spec fn receive_trace(reads: Seq<Incoming>) -> ReceiveTrace
    decreases reads.len(),
{
    if reads.len() == 0 {
        ReceiveTrace { delivered: Seq::empty(), pongs: Seq::empty(), finished: false }
    } else {
        apply_step(receive_trace(reads.drop_last()), read_step_spec(reads.last()))
    }
}

/// The texts of the text frames among `reads`, in order.
pub open spec fn texts_of(reads: Seq<Incoming>) -> Seq<Seq<char>>
    decreases reads.len(),
{
    if reads.len() == 0 {
        Seq::empty()
    } else {
        let earlier = texts_of(reads.drop_last());
        match reads.last() {
            Incoming::Text(text) => earlier.push(text@),
            _ => earlier,
        }
    }
}

/// The payloads of the ping frames among `reads`, in order.
pub open spec fn pings_of(reads: Seq<Incoming>) -> Seq<Seq<u8>>
    decreases reads.len(),
{
    if reads.len() == 0 {
        Seq::empty()
    } else {
        let earlier = pings_of(reads.drop_last());
        match reads.last() {
            Incoming::Ping(payload) => earlier.push(payload@),
            _ => earlier,
        }
    }
}

/// While the connection holds, every text frame is handed to the caller in
/// the order it came, every ping is answered by a pong with the same payload
/// in the order the pings came, and nothing else happens: no other frame is
/// sent and the stream does not end.
pub proof fn lemma_open_connection_trace(reads: Seq<Incoming>)
    requires
        forall|i: int| 0 <= i < reads.len() ==> !ends_stream(#[trigger] reads[i]),
    ensures
        receive_trace(reads) == (ReceiveTrace {
            delivered: texts_of(reads),
            pongs: pings_of(reads),
            finished: false,
        }),
    decreases reads.len(),
{
    if reads.len() > 0 {
        let earlier = reads.drop_last();
        assert forall|i: int| 0 <= i < earlier.len() implies !ends_stream(#[trigger] earlier[i]) by {
            assert(earlier[i] == reads[i]);
        }
        lemma_open_connection_trace(earlier);
        assert(!ends_stream(reads[reads.len() - 1]));
    }
}

/// A closed connection, a failed read, the end of the stream or a missing
/// reader ends the stream, and nothing read afterwards is delivered or
/// answered.
pub proof fn lemma_lost_connection_ends_stream(
    before: Seq<Incoming>,
    lost: Incoming,
    after: Seq<Incoming>,
)
    requires
        ends_stream(lost),
    ensures
        ({
            let trace = receive_trace(before.push(lost) + after);
            &&& trace.finished
            &&& trace.delivered == receive_trace(before).delivered
            &&& trace.pongs == receive_trace(before).pongs
        }),
    decreases after.len(),
{
    let reads = before.push(lost) + after;
    if after.len() == 0 {
        assert(reads =~= before.push(lost));
        assert(reads.drop_last() =~= before);
    } else {
        let shorter = after.drop_last();
        lemma_lost_connection_ends_stream(before, lost, shorter);
        assert(reads.drop_last() =~= before.push(lost) + shorter);
    }
}

} // verus!
