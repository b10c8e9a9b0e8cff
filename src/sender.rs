use vstd::prelude::*;
use std::collections::VecDeque;
use std::sync::Arc;
use crate::value::LogEvent;

verus! {

/// One named output stream, with its bounded queue of events.
#[derive(Debug)]
pub struct NamedOutput {
    pub name: String,
    pub capacity: usize,
    pub queue: VecDeque<Arc<LogEvent>>,
}

/// What an output looks like to a contract: its name, its capacity and the
/// events queued in it, oldest first.
pub ghost struct OutputView {
    pub name: Seq<char>,
    pub capacity: nat,
    pub queue: Seq<Arc<LogEvent>>,
}

/// Routes a source's events to its named outputs.
#[derive(Debug)]
pub struct Sender {
    pub outputs: Vec<NamedOutput>,
    /// The batch handle attached to events that carry none yet.
    pub batch: Option<usize>,
}

/// Why registering an output was refused.
#[derive(Debug, Clone, Copy, PartialEq, Eq, Structural)]
pub enum SenderError {
    /// An output with that name is already registered.
    DuplicateName,
    /// An output must be able to hold at least one event.
    ZeroCapacity,
}

/// The result of offering one event to the outputs.
#[derive(Debug)]
pub enum SendOutcome {
    /// A copy of the event was queued in every output.
    Sent,
    /// Some output is full; nothing was queued, and the event is handed back.
    Blocked(LogEvent),
}

pub open spec fn names_unique(v: Seq<OutputView>) -> bool {
    forall|i: int, j: int| 0 <= i < v.len() && 0 <= j < v.len() && i != j ==> v[i].name != v[j].name
}

/// Whether every output has room for one more event.
pub open spec fn accepts(v: Seq<OutputView>) -> bool {
    forall|i: int| 0 <= i < v.len() ==> #[trigger] v[i].queue.len() < v[i].capacity
}

/// The outputs after `e` was queued in each.
pub open spec fn after_send(v: Seq<OutputView>, e: Arc<LogEvent>) -> Seq<OutputView> {
    v.map_values(|o: OutputView| OutputView { queue: o.queue.push(e), ..o })
}

/// The outputs after each of `es` was queued in each, in order.
pub open spec fn after_send_all(v: Seq<OutputView>, es: Seq<Arc<LogEvent>>) -> Seq<OutputView> {
    v.map_values(|o: OutputView| OutputView { queue: o.queue + es, ..o })
}

/// Whether every output has room for `k` more events.
pub open spec fn fits(v: Seq<OutputView>, k: nat) -> bool {
    forall|i: int| 0 <= i < v.len() ==> #[trigger] v[i].queue.len() + k <= v[i].capacity
}

/// Whether `sent` holds the events of `events`, in order, as they are queued:
/// the same fields, attached to a batch.
pub open spec fn sent_as(sent: Seq<Arc<LogEvent>>, events: Seq<LogEvent>, current: Option<usize>) -> bool {
    &&& sent.len() <= events.len()
    &&& forall|i: int|
        0 <= i < sent.len() ==> (#[trigger] sent[i]).fields == events[i].fields && sent[i].batch
            == attached_batch(events[i], current)
}

/// The outputs after the consumer of output `o` took its oldest event.
pub open spec fn after_receive(v: Seq<OutputView>, o: int) -> Seq<OutputView> {
    v.update(o, OutputView { queue: v[o].queue.drop_first(), ..v[o] })
}

/// The batch that an event ends up attached to.
pub open spec fn attached_batch(e: LogEvent, current: Option<usize>) -> Option<usize> {
    if e.batch is Some {
        e.batch
    } else {
        current
    }
}

impl NamedOutput {
    pub open spec fn view(&self) -> OutputView {
        OutputView { name: self.name@, capacity: self.capacity as nat, queue: self.queue@ }
    }
}

impl Sender {
    pub open spec fn view(&self) -> Seq<OutputView> {
        self.outputs@.map_values(|o: NamedOutput| o.view())
    }

    pub open spec fn wf(&self) -> bool {
        &&& names_unique(self.view())
        &&& forall|i: int|
            0 <= i < self.view().len() ==> #[trigger] self.view()[i].queue.len()
                <= self.view()[i].capacity
    }

    /// A sender with no outputs, attaching `batch` to the events it sends.
    pub fn new(batch: Option<usize>) -> (r: Sender)
        ensures
            r.wf(),
            r.view().len() == 0,
            r.batch == batch,
    {
        Sender { outputs: Vec::new(), batch }
    }

    /// The index of the output named `name`, if any.
    pub fn output_index(&self, name: &str) -> (r: Option<usize>)
        ensures
            r matches Some(i) ==> i < self.view().len() && self.view()[i as int].name == name@,
            r is None ==> forall|i: int| 0 <= i < self.view().len() ==> self.view()[i].name != name@,
    {
        let wanted = String::from_str(name);
        let mut i: usize = 0;
        while i < self.outputs.len()
            invariant
                i <= self.outputs@.len(),
                wanted@ == name@,
                forall|k: int| 0 <= k < i ==> self.outputs@[k].name@ != name@,
            decreases self.outputs@.len() - i,
        {
            let same: bool = self.outputs[i].name.eq(&wanted);
            if same {
                return Some(i);
            }
            i = i + 1;
        }
        None
    }

    /// Registers an output named `name` that holds up to `capacity` events, and
    /// returns its index.
    pub fn add_output(&mut self, name: String, capacity: usize) -> (r: Result<usize, SenderError>)
        requires
            old(self).wf(),
        ensures
            final(self).wf(),
            final(self).batch == old(self).batch,
            capacity == 0 ==> r == Err::<usize, _>(SenderError::ZeroCapacity) && final(self).view()
                == old(self).view(),
            capacity > 0 && (exists|i: int|
                0 <= i < old(self).view().len() && old(self).view()[i].name == name@) ==> r
                == Err::<usize, _>(SenderError::DuplicateName) && final(self).view()
                == old(self).view(),
            capacity > 0 && (forall|i: int|
                0 <= i < old(self).view().len() ==> old(self).view()[i].name != name@) ==> r
                is Ok && r->Ok_0 == old(self).view().len() && final(self).view()
                == old(self).view().push(
                OutputView { name: name@, capacity: capacity as nat, queue: seq![] },
            ),
    {
        if capacity == 0 {
            return Err(SenderError::ZeroCapacity);
        }
        if self.output_index(name.as_str()).is_some() {
            return Err(SenderError::DuplicateName);
        }
        let index = self.outputs.len();
        self.outputs.push(NamedOutput { name, capacity, queue: VecDeque::new() });
        assert(self.view() =~= old(self).view().push(
            OutputView { name: name@, capacity: capacity as nat, queue: seq![] },
        ));
        Ok(index)
    }

    /// Whether every output has room for one more event.
    pub fn has_room(&self) -> (r: bool)
        ensures
            r == accepts(self.view()),
    {
        let mut i: usize = 0;
        while i < self.outputs.len()
            invariant
                i <= self.outputs@.len(),
                forall|k: int| 0 <= k < i ==> #[trigger] self.view()[k].queue.len() < self.view()[k].capacity,
            decreases self.outputs@.len() - i,
        {
            if self.outputs[i].queue.len() >= self.outputs[i].capacity {
                assert(self.view()[i as int].queue.len() >= self.view()[i as int].capacity);
                return false;
            }
            i = i + 1;
        }
        true
    }

    /// Offers one event to every output. Where some output is full, nothing is
    /// queued and the event comes back, to be offered again once the consumer
    /// has drained that output.
    pub fn try_send(&mut self, event: LogEvent) -> (r: SendOutcome)
        requires
            old(self).wf(),
        ensures
            final(self).wf(),
            final(self).batch == old(self).batch,
            !accepts(old(self).view()) ==> r == SendOutcome::Blocked(event) && final(self).view()
                == old(self).view(),
            accepts(old(self).view()) ==> r is Sent && exists|e: Arc<LogEvent>|
                {
                    &&& e.fields == event.fields
                    &&& e.batch == attached_batch(event, old(self).batch)
                    &&& final(self).view() == after_send(old(self).view(), e)
                },
    {
        if !self.has_room() {
            return SendOutcome::Blocked(event);
        }
        let mut event = event;
        if event.batch.is_none() {
            event.batch = self.batch;
        }
        let shared = Arc::new(event);
        let ghost v0 = self.view();
        let ghost b0 = self.batch;
        let mut i: usize = 0;
        while i < self.outputs.len()
            invariant
                i <= self.outputs@.len(),
                self.batch == b0,
                self.outputs@.len() == v0.len(),
                accepts(v0),
                names_unique(v0),
                forall|k: int| 0 <= k < i ==> #[trigger] self.view()[k] == after_send(v0, shared)[k],
                forall|k: int| i <= k < v0.len() ==> #[trigger] self.view()[k] == v0[k],
            decreases self.outputs@.len() - i,
        {
            let ghost o0 = self.outputs@;
            let ghost vprev = self.view();
            assert(self.view()[i as int] == v0[i as int]);
            assert(o0[i as int].view() == v0[i as int]);
            let mut out = self.outputs.remove(i);
            let ghost q0 = out.queue@;
            let copy = shared.clone();
            out.queue.push_back(copy);

            self.outputs.insert(i, out);
            proof {
                assert(self.outputs@ =~= o0.update(i as int, out));
                assert(self.view()[i as int] == after_send(v0, shared)[i as int]);
                assert forall|k: int| 0 <= k < v0.len() && k != i implies #[trigger] self.view()[k]
                    == vprev[k] by {
                    assert(self.outputs@[k] == o0[k]);
                }
            }
            i = i + 1;
        }
        assert(self.view() =~= after_send(v0, shared));
        SendOutcome::Sent
    }

    /// Offers the events in order, queueing a copy of each in every output until
    /// some output is full, and hands back the events not yet queued, to be
    /// offered again once the consumers have drained their outputs.
    pub fn send_batch(&mut self, events: Vec<LogEvent>) -> (r: Vec<LogEvent>)
        requires
            old(self).wf(),
        ensures
            final(self).wf(),
            final(self).batch == old(self).batch,
            exists|sent: Seq<Arc<LogEvent>>|
                {
                    &&& sent_as(sent, events@, old(self).batch)
                    &&& fits(old(self).view(), sent.len())
                    &&& (sent.len() == events@.len() || !fits(old(self).view(), sent.len() + 1))
                    &&& final(self).view() == after_send_all(old(self).view(), sent)
                    &&& r@ == events@.skip(sent.len() as int)
                },
    {
        let ghost v0 = self.view();
        let ghost all = events@;
        let ghost mut sent: Seq<Arc<LogEvent>> = Seq::empty();
        let mut rest = events;
        proof {
            assert(self.view() =~= after_send_all(v0, sent));
            assert(rest@ =~= all.skip(0));
        }
        while rest.len() > 0 && self.has_room()
            invariant
                self.wf(),
                self.batch == old(self).batch,
                v0 == old(self).view(),
                sent_as(sent, all, self.batch),
                fits(v0, sent.len()),
                self.view() == after_send_all(v0, sent),
                rest@ == all.skip(sent.len() as int),
            decreases rest@.len(),
        {
            proof {
                assert forall|i: int| 0 <= i < v0.len() implies #[trigger] v0[i].queue.len() + (
                sent.len() + 1) <= v0[i].capacity by {
                    assert(self.view()[i].queue.len() < self.view()[i].capacity);
                }
            }
            let ev = rest.remove(0);
            let ghost pre = self.view();
            let outcome = self.try_send(ev);
            proof {
                let e = choose|e: Arc<LogEvent>|
                    {
                        &&& e.fields == ev.fields
                        &&& e.batch == attached_batch(ev, self.batch)
                        &&& self.view() == after_send(pre, e)
                    };
                assert(ev == all[sent.len() as int]);
                let s1 = sent.push(e);
                assert(after_send(after_send_all(v0, sent), e) =~= after_send_all(v0, s1)) by {
                    assert forall|i: int| 0 <= i < v0.len() implies (#[trigger] after_send(
                        after_send_all(v0, sent),
                        e,
                    )[i]).queue == after_send_all(v0, s1)[i].queue by {
                        assert((v0[i].queue + sent).push(e) =~= v0[i].queue + s1);
                    }
                }
                sent = s1;
                assert(rest@ =~= all.skip(sent.len() as int));
            }
        }
        proof {
            if rest@.len() > 0 {
                let i = choose|i: int|
                    0 <= i < self.view().len() && !(#[trigger] self.view()[i].queue.len()
                        < self.view()[i].capacity);
                assert(!(v0[i].queue.len() + (sent.len() + 1) <= v0[i].capacity));
            }
        }
        rest
    }

    /// Takes the oldest event queued in output `index`, if any.
    pub fn receive(&mut self, index: usize) -> (r: Option<Arc<LogEvent>>)
        requires
            old(self).wf(),
            index < old(self).view().len(),
        ensures
            final(self).wf(),
            final(self).batch == old(self).batch,
            old(self).view()[index as int].queue.len() == 0 ==> r is None && final(self).view()
                == old(self).view(),
            old(self).view()[index as int].queue.len() > 0 ==> r == Some(
                old(self).view()[index as int].queue[0],
            ) && final(self).view() == after_receive(old(self).view(), index as int),
    {
        let ghost o0 = self.outputs@;
        let mut out = self.outputs.remove(index);
        let r = out.queue.pop_front();
        self.outputs.insert(index, out);
        assert(self.outputs@ =~= o0.update(index as int, out));
        assert(self.view() =~= old(self).view() || self.view() =~= after_receive(
            old(self).view(),
            index as int,
        ));
        r
    }
}

/// An output at capacity blocks every send; once its consumer takes one event,
/// and the other outputs have room, the next send goes through. Nothing queued
/// is lost on the way: draining removes only the oldest event of that output.
pub proof fn lemma_full_output_blocks_until_drained(v: Seq<OutputView>, o: int)
    requires
        0 <= o < v.len(),
        v[o].capacity > 0,
        v[o].queue.len() == v[o].capacity,
    ensures
        !accepts(v),
        (forall|i: int| 0 <= i < v.len() && i != o ==> v[i].queue.len() < v[i].capacity) ==> accepts(
            after_receive(v, o),
        ),
        after_receive(v, o)[o].queue.len() == v[o].queue.len() - 1,
        forall|k: int|
            0 <= k < after_receive(v, o)[o].queue.len() ==> after_receive(v, o)[o].queue[k]
                == v[o].queue[k + 1],
{
    assert(v[o].queue.len() >= v[o].capacity);
}

} // verus!
