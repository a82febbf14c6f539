//! Sample buffer pair and acquisition arbiter: two fixed-capacity buffers, one
//! filled by the producer while the consumer reads the other.

use vstd::prelude::*;
use crate::window::SMP_POINTS;

verus! {

/// One sample buffer: a `heapless::Vec` of `SMP_POINTS` samples.
///
/// The verifier does not look inside. It knows a buffer by `buffer_samples`
/// and by the contracts of the methods below, which say what the source of
/// `heapless` shows and are assumed, not proved.
#[verifier::external_body]
pub struct SamplingBuffer {
    samples: heapless::Vec<u16, heapless::consts::U2048>,
}

/// The samples that a buffer holds, oldest first.
pub uninterp spec fn buffer_samples(b: SamplingBuffer) -> Seq<u16>;

impl SamplingBuffer {
    /// Calls `heapless::Vec::new`. Assumed: the new buffer holds nothing.
    #[verifier::external_body]
    pub(crate) fn new() -> (b: SamplingBuffer)
        ensures
            buffer_samples(b) == Seq::<u16>::empty(),
    {
        SamplingBuffer { samples: heapless::Vec::new() }
    }

    /// Calls `heapless::Vec::capacity`. Assumed: the result is the length
    /// that the buffer's type names, `SMP_POINTS`.
    #[verifier::external_body]
    pub(crate) fn capacity(&self) -> (c: usize)
        ensures
            c == SMP_POINTS,
    {
        self.samples.capacity()
    }

    /// Calls `heapless::Vec::push`. Assumed: while fewer than `SMP_POINTS`
    /// samples are held, the sample is appended and the result is `Ok`;
    /// otherwise the buffer stays as it is and the sample comes back in
    /// `Err`. The call does not panic.
    #[verifier::external_body]
    pub(crate) fn push(&mut self, sample: u16) -> (r: Result<(), u16>)
        ensures
            (match r {
                Ok(()) => buffer_samples(*old(self)).len() < SMP_POINTS && buffer_samples(
                    *final(self),
                ) == buffer_samples(*old(self)).push(sample),
                Err(back) => buffer_samples(*old(self)).len() >= SMP_POINTS && back == sample
                    && buffer_samples(*final(self)) == buffer_samples(*old(self)),
            }),
        no_unwind
    {
        self.samples.push(sample)
    }

    /// Dereferences the `heapless::Vec` to its slice. Assumed: the slice
    /// holds the samples of the buffer, oldest first.
    #[verifier::external_body]
    pub(crate) fn as_slice(&self) -> (s: &[u16])
        ensures
            s@ == buffer_samples(*self),
    {
        &self.samples
    }

    /// Calls `heapless::Vec::clear`. Assumed: the buffer holds nothing
    /// afterwards. The call does not panic.
    #[verifier::external_body]
    pub(crate) fn clear(&mut self)
        ensures
            buffer_samples(*final(self)) == Seq::<u16>::empty(),
        no_unwind
    {
        self.samples.clear()
    }
}

/// The two buffers of a pair.
#[derive(Clone, Copy, Debug, PartialEq, Eq, Structural)]
pub enum Slot {
    First,
    Second,
}

/// What a buffer is used for at a given moment.
#[derive(Clone, Copy, Debug, PartialEq, Eq, Structural)]
pub enum Role {
    /// The producer appends to it.
    Sampling,
    /// The consumer reads and clears it.
    Processing,
}

/// What one delivered sample did to the pair.
#[derive(Clone, Copy, Debug, PartialEq, Eq, Structural)]
pub enum Delivery {
    /// The sample was appended to the sampling buffer.
    Appended,
    /// The sampling buffer was full and the processing buffer empty: the two
    /// exchanged their roles. The sample itself is not kept.
    Swapped,
    /// Both buffers were in use: the full sampling buffer was cleared, and a
    /// whole window is lost. The sample itself is not kept.
    Dropped,
}

/// What the producer or the consumer does to the pair.
pub enum Event {
    /// The producer delivers one sample.
    Deliver(u16),
    /// The consumer clears the processing buffer.
    Clear,
}

/// The pair as a mathematical value: what each buffer holds, and which of
/// them is the sampling buffer.
pub struct PairView {
    pub first: Seq<u16>,
    pub second: Seq<u16>,
    pub sampling_slot: Slot,
}

impl PairView {
    /// A pair of empty buffers; the first one samples.
    pub open spec fn empty() -> PairView {
        PairView { first: Seq::empty(), second: Seq::empty(), sampling_slot: Slot::First }
    }

    /// Neither buffer holds more than `SMP_POINTS` samples.
    pub open spec fn wf(self) -> bool {
        self.first.len() <= SMP_POINTS && self.second.len() <= SMP_POINTS
    }

    /// The slot of the processing buffer.
    pub open spec fn processing_slot(self) -> Slot {
        match self.sampling_slot {
            Slot::First => Slot::Second,
            Slot::Second => Slot::First,
        }
    }

    /// The role of the buffer in `slot`.
    pub open spec fn role(self, slot: Slot) -> Role {
        if slot == self.sampling_slot {
            Role::Sampling
        } else {
            Role::Processing
        }
    }

    /// What the buffer in `slot` holds.
    pub open spec fn samples(self, slot: Slot) -> Seq<u16> {
        match slot {
            Slot::First => self.first,
            Slot::Second => self.second,
        }
    }

    /// What the sampling buffer holds.
    pub open spec fn sampling(self) -> Seq<u16> {
        self.samples(self.sampling_slot)
    }

    /// What the processing buffer holds.
    pub open spec fn processing(self) -> Seq<u16> {
        self.samples(self.processing_slot())
    }

    /// The pair with `samples` in `slot`.
    pub open spec fn with_samples(self, slot: Slot, samples: Seq<u16>) -> PairView {
        match slot {
            Slot::First => PairView { first: samples, ..self },
            Slot::Second => PairView { second: samples, ..self },
        }
    }

    /// What the delivery of one sample does.
    pub open spec fn delivery(self) -> Delivery {
        if self.sampling().len() < SMP_POINTS {
            Delivery::Appended
        } else if self.processing().len() == 0 {
            Delivery::Swapped
        } else {
            Delivery::Dropped
        }
    }

    /// The pair after the delivery of `sample`.
    pub open spec fn delivered(self, sample: u16) -> PairView {
        match self.delivery() {
            Delivery::Appended => self.with_samples(
                self.sampling_slot,
                self.sampling().push(sample),
            ),
            Delivery::Swapped => PairView { sampling_slot: self.processing_slot(), ..self },
            Delivery::Dropped => self.with_samples(self.sampling_slot, Seq::empty()),
        }
    }

    /// The pair after the consumer has cleared the processing buffer.
    pub open spec fn cleared(self) -> PairView {
        self.with_samples(self.processing_slot(), Seq::empty())
    }

    /// The pair after `event`.
    pub open spec fn after(self, event: Event) -> PairView {
        match event {
            Event::Deliver(sample) => self.delivered(sample),
            Event::Clear => self.cleared(),
        }
    }

    /// The pair after the events of `history`, in order.
    pub open spec fn after_all(self, history: Seq<Event>) -> PairView
        decreases history.len(),
    {
        if history.len() == 0 {
            self
        } else {
            self.after_all(history.drop_last()).after(history.last())
        }
    }
}

/// The two buffers and their roles.
pub struct BufferPair {
    first: SamplingBuffer,
    second: SamplingBuffer,
    sampling_first: bool,
}

impl View for BufferPair {
    type V = PairView;

    closed spec fn view(&self) -> PairView {
        PairView {
            first: buffer_samples(self.first),
            second: buffer_samples(self.second),
            sampling_slot: if self.sampling_first {
                Slot::First
            } else {
                Slot::Second
            },
        }
    }
}

impl BufferPair {
    /// What holds of every pair.
    #[verifier::type_invariant]
    pub open spec fn within_capacity(self) -> bool {
        self@.wf()
    }

    /// The buffer in the sampling role.
    fn sampling(&self) -> (b: &SamplingBuffer)
        ensures
            buffer_samples(*b) == self@.sampling(),
    {
        if self.sampling_first {
            &self.first
        } else {
            &self.second
        }
    }

    /// The buffer in the processing role.
    fn processing(&self) -> (b: &SamplingBuffer)
        ensures
            buffer_samples(*b) == self@.processing(),
    {
        if self.sampling_first {
            &self.second
        } else {
            &self.first
        }
    }

    /// A pair of empty buffers; the first one samples.
    pub fn new() -> (pair: BufferPair)
        ensures
            pair@ == PairView::empty(),
    {
        BufferPair { first: SamplingBuffer::new(), second: SamplingBuffer::new(), sampling_first: true }
    }

    /// Takes one sample from the producer.
    ///
    /// The sample is appended while the sampling buffer has room. Once it is
    /// full, the buffers exchange their roles if the consumer has cleared the
    /// processing buffer; else the full window is dropped. The processing
    /// buffer's samples are never touched.
    pub fn deliver(&mut self, sample: u16) -> (r: Delivery)
        ensures
            final(self)@.wf(),
            r == old(self)@.delivery(),
            final(self)@ == old(self)@.delivered(sample),
            final(self)@.samples(old(self)@.processing_slot()) == old(self)@.processing(),
    {
        proof {
            use_type_invariant(&*self);
        }
        if self.sampling().as_slice().len() == self.sampling().capacity() {
            if self.processing().as_slice().len() == 0 {
                self.sampling_first = !self.sampling_first;
                Delivery::Swapped
            } else {
                if self.sampling_first {
                    self.first.clear();
                } else {
                    self.second.clear();
                }
                Delivery::Dropped
            }
        } else {
            let _ = if self.sampling_first {
                self.first.push(sample)
            } else {
                self.second.push(sample)
            };
            Delivery::Appended
        }
    }

    /// Whether the processing buffer holds a whole window.
    pub fn processing_is_full(&self) -> (full: bool)
        ensures
            full == (self@.processing().len() == SMP_POINTS),
    {
        self.processing().as_slice().len() == self.processing().capacity()
    }

    /// The samples of the processing buffer.
    pub fn processing_window(&self) -> (window: &[u16])
        ensures
            window@ == self@.processing(),
            window@.len() <= SMP_POINTS,
    {
        proof {
            use_type_invariant(self);
        }
        self.processing().as_slice()
    }

    /// Clears the processing buffer: the consumer is done with the window.
    pub fn clear_processing(&mut self)
        ensures
            final(self)@ == old(self)@.cleared(),
            final(self)@.wf(),
    {
        proof {
            use_type_invariant(&*self);
        }
        if self.sampling_first {
            self.second.clear();
        } else {
            self.first.clear();
        }
    }
}

/// At every moment one buffer samples and the other one is processed.
pub proof fn lemma_roles_exclusive(pair: PairView)
    ensures
        pair.role(Slot::First) != pair.role(Slot::Second),
        pair.role(pair.sampling_slot) == Role::Sampling,
        pair.role(pair.processing_slot()) == Role::Processing,
{
}

/// No event appends to a buffer in the processing role, and none makes a
/// buffer longer than `SMP_POINTS`.
pub proof fn lemma_event_spares_processing(pair: PairView, event: Event)
    requires
        pair.wf(),
    ensures
        pair.after(event).wf(),
        pair.after(event).samples(pair.processing_slot()) == pair.processing() || pair.after(
            event,
        ).samples(pair.processing_slot()) == Seq::<u16>::empty(),
        event is Deliver ==> pair.after(event).samples(pair.processing_slot())
            == pair.processing(),
{
}

/// A full sampling buffer is never appended to: the delivery swaps the roles
/// or clears it.
pub proof fn lemma_full_buffer_never_grows(pair: PairView, sample: u16)
    requires
        pair.wf(),
        pair.sampling().len() == SMP_POINTS,
    ensures
        pair.delivery() != Delivery::Appended,
        pair.delivered(sample).first.len() <= pair.first.len(),
        pair.delivered(sample).second.len() <= pair.second.len(),
{
}

/// Whatever the producer and the consumer do, and in whatever order, the
/// buffers stay within `SMP_POINTS` samples.
pub proof fn lemma_history_within_capacity(history: Seq<Event>)
    ensures
        PairView::empty().after_all(history).wf(),
    decreases history.len(),
{
    if history.len() > 0 {
        lemma_history_within_capacity(history.drop_last());
        lemma_event_spares_processing(
            PairView::empty().after_all(history.drop_last()),
            history.last(),
        );
    }
}

/// At every step of every history, the buffer that is in the processing role
/// before the step holds the same samples after it, unless the step is the
/// consumer's clearing; a delivery never touches it.
pub proof fn lemma_history_spares_processing(history: Seq<Event>, step: int)
    requires
        0 <= step < history.len(),
    ensures
        ({
            let before = PairView::empty().after_all(history.take(step));
            let after = PairView::empty().after_all(history.take(step + 1));
            &&& before.wf()
            &&& after.wf()
            &&& before.role(Slot::First) != before.role(Slot::Second)
            &&& history[step] is Deliver ==> after.samples(before.processing_slot())
                == before.processing()
            &&& history[step] is Clear ==> after.samples(before.processing_slot())
                == Seq::<u16>::empty() && after.sampling() == before.sampling()
        }),
{
    let earlier = history.take(step);
    let later = history.take(step + 1);
    assert(later.drop_last() =~= earlier);
    assert(later.last() == history[step]);
    lemma_history_within_capacity(earlier);
    lemma_history_within_capacity(later);
}

} // verus!
