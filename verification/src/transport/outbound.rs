//! Bounded serial outbound writer: per-connection FIFO with backpressure.
//!
//! Frames are enqueued in order and handed to the sink one at a time. Overflow
//! beyond [`MAX_QUEUED_FRAMES`] or [`MAX_QUEUED_BYTES`] fails fast; a sink error
//! marks the writer closed.

use crate::json::json_text;
use crate::json::Json;
use crate::json::JsonView;
use crate::text::concat3;
use crate::text::decimal;
use crate::text::decimal_text;
use std::collections::VecDeque;
use vstd::prelude::*;
use vstd::string::StringExecFns;
use vstd::utf8::encode_utf8;

verus! {

/// Maximum frames buffered in the outbound queue.
pub const MAX_QUEUED_FRAMES: usize = 64;

/// Maximum bytes buffered in the outbound queue.
pub const MAX_QUEUED_BYTES: usize = 2097152;

#[derive(Debug, Clone, Copy, PartialEq, Eq, Structural)]
pub enum OutboundQueueError {
    FrameLimit { queued: usize, cap: usize },
    ByteLimit { queued: usize, cap: usize },
    Closed,
}

impl OutboundQueueError {
    /// The message of the error.
    pub open spec fn text(self) -> Seq<char> {
        match self {
            OutboundQueueError::FrameLimit { queued, cap } => "frame limit reached ("@ + decimal(
                queued as nat,
            ) + "/"@ + decimal(cap as nat) + ")"@,
            OutboundQueueError::ByteLimit { queued, cap } => "byte limit reached ("@ + decimal(
                queued as nat,
            ) + "/"@ + decimal(cap as nat) + ")"@,
            OutboundQueueError::Closed => "connection closed"@,
        }
    }

    /// The message of the error.
    pub fn message(&self) -> (r: String)
        ensures
            r@ == self.text(),
    {
        let (head, queued, cap) = match self {
            OutboundQueueError::FrameLimit { queued, cap } => (
                "frame limit reached (",
                *queued,
                *cap,
            ),
            OutboundQueueError::ByteLimit { queued, cap } => ("byte limit reached (", *queued, *cap),
            OutboundQueueError::Closed => return "connection closed".to_owned(),
        };
        let mut out = concat3(head, decimal_text(queued as u64).as_str(), "/");
        out.append(decimal_text(cap as u64).as_str());
        out.append(")");
        out
    }
}

/// The bytes that a frame takes on the wire, delimiter included.
pub open spec fn frame_size(v: JsonView) -> nat {
    encode_utf8(json_text(v)).len() + 1
}

/// The bytes that the frames of a queue take.
pub open spec fn total_size(frames: Seq<JsonView>) -> nat
    decreases frames.len(),
{
    if frames.len() == 0 {
        0
    } else {
        frame_size(frames[0]) + total_size(frames.skip(1))
    }
}

proof fn lemma_total_push(frames: Seq<JsonView>, v: JsonView)
    ensures
        total_size(frames.push(v)) == total_size(frames) + frame_size(v),
    decreases frames.len(),
{
    if frames.len() == 0 {
        assert(frames.push(v).skip(1) =~= Seq::<JsonView>::empty());
        assert(total_size(Seq::<JsonView>::empty()) == 0);
    } else {
        assert(frames.push(v).skip(1) =~= frames.skip(1).push(v));
        lemma_total_push(frames.skip(1), v);
    }
}

/// One queued frame.
struct Item {
    frame: Json,
    size: usize,
}

/// Serializes outbound frames FIFO with bounded buffering.
pub struct BoundedSerialOutboundWriter {
    items: VecDeque<Item>,
    queued_bytes: usize,
    closed: bool,
}

/// What the drain of a writer does next.
#[derive(Debug)]
pub enum DrainStep {
    /// Hand this frame to the sink.
    Send(Json),
    /// Nothing is queued: wait for work.
    Wait,
    /// Nothing is queued and nothing more will be.
    Exit,
}

/// What a writer holds.
pub struct WriterView {
    /// The queued frames, oldest first.
    pub frames: Seq<JsonView>,
    pub closed: bool,
}

impl View for BoundedSerialOutboundWriter {
    type V = WriterView;

    closed spec fn view(&self) -> WriterView {
        WriterView {
            frames: Seq::new(self.items@.len(), |i: int| self.items@[i].frame@),
            closed: self.closed,
        }
    }
}

impl WriterView {
    /// The writer with one more frame.
    pub open spec fn enqueued(self, v: JsonView) -> WriterView {
        WriterView { frames: self.frames.push(v), ..self }
    }

    /// The writer once its oldest frame has left.
    pub open spec fn sent(self) -> WriterView {
        WriterView { frames: self.frames.skip(1), ..self }
    }

    /// The writer once its `n` oldest frames have left.
    pub open spec fn sent_times(self, n: nat) -> WriterView
        decreases n,
    {
        if n == 0 {
            self
        } else {
            self.sent_times((n - 1) as nat).sent()
        }
    }
}

proof fn lemma_sent_times(w: WriterView, n: nat)
    requires
        n <= w.frames.len(),
    ensures
        w.sent_times(n).frames == w.frames.skip(n as int),
        w.sent_times(n).closed == w.closed,
    decreases n,
{
    if n == 0 {
        assert(w.frames.skip(0) =~= w.frames);
    } else {
        lemma_sent_times(w, (n - 1) as nat);
        assert(w.frames.skip(n - 1).skip(1) =~= w.frames.skip(n as int));
    }
}

/// Why a writer refuses a frame.
pub open spec fn refusal(w: WriterView, v: JsonView) -> Option<OutboundQueueError> {
    if w.closed {
        Some(OutboundQueueError::Closed)
    } else if w.frames.len() >= MAX_QUEUED_FRAMES {
        Some(
            OutboundQueueError::FrameLimit {
                queued: w.frames.len() as usize,
                cap: MAX_QUEUED_FRAMES,
            },
        )
    } else if total_size(w.frames) + frame_size(v) > MAX_QUEUED_BYTES {
        Some(
            OutboundQueueError::ByteLimit {
                queued: total_size(w.frames) as usize,
                cap: MAX_QUEUED_BYTES,
            },
        )
    } else {
        None
    }
}

impl BoundedSerialOutboundWriter {
    /// The queue is within its bounds, and each frame's size is known.
    pub closed spec fn wf(&self) -> bool {
        &&& self.items@.len() <= MAX_QUEUED_FRAMES
        &&& self.queued_bytes == total_size(self@.frames)
        &&& self.queued_bytes <= MAX_QUEUED_BYTES
        &&& forall|i: int|
            0 <= i < self.items@.len() ==> (#[trigger] self.items@[i]).size == frame_size(
                self.items@[i].frame@,
            )
    }

    /// A writer never buffers more than its bounds.
    pub proof fn law_buffering_is_bounded(&self)
        requires
            self.wf(),
        ensures
            self@.frames.len() <= MAX_QUEUED_FRAMES,
            total_size(self@.frames) <= MAX_QUEUED_BYTES,
    {
    }

    pub fn new() -> (r: Self)
        ensures
            r.wf(),
            r@ == (WriterView { frames: Seq::empty(), closed: false }),
    {
        let r = BoundedSerialOutboundWriter {
            items: VecDeque::new(),
            queued_bytes: 0,
            closed: false,
        };
        assert(r@.frames =~= Seq::empty());
        r
    }

    /// Enqueues one frame. Fails fast on overflow or if closed.
    pub fn enqueue(&mut self, frame: Json) -> (r: Result<(), OutboundQueueError>)
        requires
            old(self).wf(),
        ensures
            final(self).wf(),
            match r {
                Ok(_) => refusal(old(self)@, frame@) is None && final(self)@ == old(self)@.enqueued(
                    frame@,
                ),
                Err(e) => refusal(old(self)@, frame@) == Some(e) && final(self)@ == old(self)@,
            },
    {
        if self.closed {
            return Err(OutboundQueueError::Closed);
        }
        if self.items.len() >= MAX_QUEUED_FRAMES {
            return Err(
                OutboundQueueError::FrameLimit {
                    queued: self.items.len(),
                    cap: MAX_QUEUED_FRAMES,
                },
            );
        }
        let text = frame.to_text();
        let len = text.as_str().as_bytes().len();
        if len >= MAX_QUEUED_BYTES - self.queued_bytes {
            return Err(
                OutboundQueueError::ByteLimit { queued: self.queued_bytes, cap: MAX_QUEUED_BYTES },
            );
        }
        let ghost before = self@;
        let ghost item = frame@;
        let size: usize = len + 1;
        self.items.push_back(Item { frame, size });
        self.queued_bytes = self.queued_bytes + size;
        proof {
            lemma_total_push(before.frames, item);
            assert(self@.frames =~= before.frames.push(item));
        }
        Ok(())
    }

    /// Takes the oldest frame for the sink; its bytes leave the queue with it.
    pub fn next_frame(&mut self) -> (r: DrainStep)
        requires
            old(self).wf(),
        ensures
            final(self).wf(),
            match r {
                DrainStep::Send(v) => old(self)@.frames.len() > 0 && v@ == old(self)@.frames[0]
                    && final(self)@ == old(self)@.sent(),
                DrainStep::Wait => old(self)@.frames.len() == 0 && !old(self)@.closed
                    && final(self)@ == old(self)@,
                DrainStep::Exit => old(self)@.frames.len() == 0 && old(self)@.closed
                    && final(self)@ == old(self)@,
            },
    {
        let ghost before = self@;
        match self.items.pop_front() {
            Some(item) => {
                self.queued_bytes = self.queued_bytes - item.size;
                assert(self@.frames =~= before.frames.skip(1));
                DrainStep::Send(item.frame)
            },
            None => if self.closed {
                DrainStep::Exit
            } else {
                DrainStep::Wait
            },
        }
    }

    /// Whether a sink error or explicit close has shut the writer down.
    pub fn is_closed(&self) -> (r: bool)
        ensures
            r == self@.closed,
    {
        self.closed
    }

    /// Marks the writer closed, also on a sink error. What is queued is still
    /// drained.
    pub fn close(&mut self)
        requires
            old(self).wf(),
        ensures
            final(self).wf(),
            final(self)@ == (WriterView { frames: old(self)@.frames, closed: true }),
    {
        self.closed = true;
        assert(self@.frames =~= old(self)@.frames);
    }
}

/// Frames leave in the order in which they were enqueued: a new frame is the next
/// to leave when those before it have, and it holds none of them up.
pub proof fn law_frames_leave_in_order(w: WriterView, v: JsonView)
    ensures
        w.enqueued(v).sent_times(w.frames.len()).frames == seq![v],
        forall|i: nat|
            i < w.frames.len() ==> (#[trigger] w.enqueued(v).sent_times(i)).frames[0]
                == w.frames[i as int],
{
    lemma_sent_times(w.enqueued(v), w.frames.len());
    assert(w.frames.push(v).skip(w.frames.len() as int) =~= seq![v]);
    assert forall|i: nat| i < w.frames.len() implies (#[trigger] w.enqueued(v).sent_times(
        i,
    )).frames[0] == w.frames[i as int] by {
        lemma_sent_times(w.enqueued(v), i);
    }
}

/// A closed writer takes no more frames.
pub proof fn law_closed_writer_refuses(w: WriterView, v: JsonView)
    requires
        w.closed,
    ensures
        refusal(w, v) == Some(OutboundQueueError::Closed),
{
}

/// The bounds of a writer: 64 frames, and two mebibytes with each frame's line end. A frame
/// is refused exactly where the writer is closed or the frame would exceed one of them.
pub proof fn law_writers_refuse_only_beyond_their_bounds(w: WriterView, v: JsonView)
    ensures
        refusal(w, v) is None <==> !w.closed && w.frames.len() < 64 && total_size(w.frames)
            + encode_utf8(json_text(v)).len() + 1 <= 2 * 1024 * 1024,
        refusal(w, v) matches Some(OutboundQueueError::Closed) <==> w.closed,
        total_size(w.enqueued(v).frames) == total_size(w.frames) + encode_utf8(json_text(v)).len()
            + 1,
        w.enqueued(v).closed == w.closed && w.sent().closed == w.closed,
{
    lemma_total_push(w.frames, v);
}

/// The messages of refused frames: which bound was reached, and how much was queued.
pub proof fn law_refusals_have_messages(e: &OutboundQueueError, r: String)
    requires
        call_ensures(OutboundQueueError::message, (e,), r),
    ensures
        e is Closed ==> r@ == "connection closed"@,
        *e matches OutboundQueueError::FrameLimit { queued, cap } ==> r@ == "frame limit reached ("@
            + decimal(queued as nat) + "/"@ + decimal(cap as nat) + ")"@,
        *e matches OutboundQueueError::ByteLimit { queued, cap } ==> r@ == "byte limit reached ("@
            + decimal(queued as nat) + "/"@ + decimal(cap as nat) + ")"@,
{
}

/// A refusal names the bound that the frame would exceed: how much is queued, and the bound.
pub proof fn law_refusals_name_the_bound(w: WriterView, v: JsonView)
    requires
        w.frames.len() <= 64,
        total_size(w.frames) <= 2 * 1024 * 1024,
    ensures
        refusal(w, v) matches Some(OutboundQueueError::FrameLimit { queued, cap }) ==> queued
            == w.frames.len() && cap == 64 && queued == cap,
        refusal(w, v) matches Some(OutboundQueueError::ByteLimit { queued, cap }) ==> queued
            == total_size(w.frames) && cap == 2 * 1024 * 1024 && w.frames.len() < 64,
        !w.closed && w.frames.len() == 64 ==> refusal(w, v) matches Some(
            OutboundQueueError::FrameLimit { .. },
        ),
{
}

} // verus!
