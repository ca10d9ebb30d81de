//! A chain of keypads ending in a display sink.
//!
//! Link 0 is the manual pad: a command character pressed by the operator
//! selects that button directly and forwards its label. Every deeper link
//! interprets the forwarded label as a cursor movement or an activation of
//! its own, and the final link's activations are appended to the sink.

use vstd::prelude::*;

use crate::keypad::{Keypad, PadType, spec_press, spec_step};

verus! {

/// The terminal sink of a chain: collects the characters emitted by the
/// final keypad's activations.
pub struct Display {
    /// A label for display purposes only.
    pub name: String,
    /// The characters emitted so far, oldest first.
    pub text: Vec<char>,
}

/// The sink contents after one signal: an emitted character is appended,
/// the idle signal changes nothing.
pub open spec fn spec_sink(t: Seq<char>, sig: Option<char>) -> Seq<char> {
    match sig {
        Some(c) => t.push(c),
        None => t,
    }
}

impl Display {
    /// An empty sink.
    pub fn new(name: String) -> (d: Display)
        ensures
            d.name == name,
            d.text@ == Seq::<char>::empty(),
    {
        Display { name, text: Vec::new() }
    }

    /// Receives one signal: appends the character if there is one.
    pub fn send_signal(&mut self, signal: Option<char>)
        ensures
            final(self).name == old(self).name,
            final(self).text@ == spec_sink(old(self).text@, signal),
    {
        if let Some(c) = signal {
            self.text.push(c);
        }
    }
}

/// A device a signal can be sent to: either a keypad that may forward a
/// derived signal, or a display sink that only collects.
pub enum Device {
    Keypad(Keypad),
    Display(Display),
}

impl Device {
    /// A device is well-formed when its keypad state is.
    pub open spec fn wf(self) -> bool {
        match self {
            Device::Keypad(k) => k.wf(),
            Device::Display(_) => true,
        }
    }

    /// Receives one signal. A keypad steps its state machine and hands back
    /// the signal it forwards; a display appends the character and forwards
    /// nothing.
    pub fn send_signal(&mut self, signal: Option<char>) -> (emit: Option<char>)
        requires
            old(self).wf(),
        ensures
            final(self).wf(),
            *old(self) matches Device::Keypad(k) ==> *final(self) == Device::Keypad(
                spec_step(k, signal).0,
            ) && emit == spec_step(k, signal).1,
            *old(self) matches Device::Display(d0) ==> emit is None && (*final(self)
                matches Device::Display(d1) && d1.name == d0.name && d1.text@ == spec_sink(
                d0.text@,
                signal,
            )),
    {
        match self {
            Device::Keypad(k) => k.send_signal(signal),
            Device::Display(d) => {
                d.send_signal(signal);
                None
            },
        }
    }
}

/// Threads one signal through a row of keypads, each link's forwarded
/// output becoming the next link's input. Yields the row after the step
/// and the signal the last link forwards onward.
pub open spec fn spec_thread(links: Seq<Keypad>, sig: Option<char>) -> (Seq<Keypad>, Option<
    char,
>)
    decreases links.len(),
{
    if links.len() == 0 {
        (links, sig)
    } else {
        let front = spec_thread(links.drop_last(), sig);
        let stepped = spec_step(links.last(), front.1);
        (front.0.push(stepped.0), stepped.1)
    }
}

/// The manual pad's part of one chain step: a command character is pressed
/// on link 0; the idle signal is received the ordinary way.
pub open spec fn spec_chain_first(k: Keypad, msig: Option<char>) -> (Keypad, Option<char>) {
    match msig {
        Some(c) => spec_press(k, c),
        None => spec_step(k, None),
    }
}

/// One whole chain step: the manual signal enters link 0 and the derived
/// signals thread through the remaining links. Yields the links after the
/// step and the signal offered to the sink.
pub open spec fn spec_chain_step(links: Seq<Keypad>, msig: Option<char>) -> (Seq<Keypad>, Option<
    char,
>)
    recommends
        links.len() >= 1,
{
    let first = spec_chain_first(links[0], msig);
    let rest = spec_thread(links.skip(1), first.1);
    (seq![first.0] + rest.0, rest.1)
}

/// `spec_thread` keeps the row's length, every link's kind and label, and
/// well-formedness.
pub proof fn lemma_thread_props(links: Seq<Keypad>, sig: Option<char>)
    ensures
        spec_thread(links, sig).0.len() == links.len(),
        forall|j: int|
            0 <= j < links.len() ==> (#[trigger] spec_thread(links, sig).0[j]).pad_type
                == links[j].pad_type && spec_thread(links, sig).0[j].name == links[j].name && (
            links[j].wf() ==> spec_thread(links, sig).0[j].wf()),
    decreases links.len(),
{
    if links.len() > 0 {
        lemma_thread_props(links.drop_last(), sig);
        let front = spec_thread(links.drop_last(), sig);
        let last0 = links.last();
        let stepped = spec_step(last0, front.1);
        if last0.wf() {
            crate::keypad::lemma_step_wf(last0, front.1);
        }
        assert forall|j: int|
            0 <= j < links.len() implies (#[trigger] spec_thread(links, sig).0[j]).pad_type
            == links[j].pad_type && spec_thread(links, sig).0[j].name == links[j].name && (
        links[j].wf() ==> spec_thread(links, sig).0[j].wf()) by {
            if j < links.len() - 1 {
                assert(spec_thread(links, sig).0[j] == front.0[j]);
                assert(links.drop_last()[j] == links[j]);
            } else {
                assert(spec_thread(links, sig).0[j] == stepped.0);
            }
        }
    }
}

/// An ordered row of keypads terminated by a display sink. Link 0 is the
/// manual pad; each link forwards derived signals only to its successor.
pub struct SignalChain {
    /// The keypads, manual pad first.
    pub links: Vec<Keypad>,
    /// The terminal sink fed by the last keypad's activations.
    pub sink: Display,
}

impl SignalChain {
    /// The chain invariant: at least one link, every link well-formed.
    pub open spec fn wf(self) -> bool {
        &&& self.links@.len() >= 1
        &&& forall|j: int| 0 <= j < self.links@.len() ==> (#[trigger] self.links@[j]).wf()
    }

    /// Builds a chain of freshly constructed keypads of the given kinds,
    /// manual pad first, with an empty sink.
    pub fn new(kinds: &Vec<PadType>, sink_name: String) -> (ch: SignalChain)
        requires
            kinds@.len() >= 1,
        ensures
            ch.wf(),
            ch.links@.len() == kinds@.len(),
            forall|j: int|
                0 <= j < kinds@.len() ==> (#[trigger] ch.links@[j]).pad_type == kinds@[j]
                    && ch.links@[j].cursor == crate::keypad::spec_home(kinds@[j])
                    && ch.links@[j].error is None && ch.links@[j].transition
                    == crate::keypad::Transition::Idle,
            ch.sink.name == sink_name,
            ch.sink.text@ == Seq::<char>::empty(),
    {
        let mut links: Vec<Keypad> = Vec::new();
        let mut i: usize = 0;
        while i < kinds.len()
            invariant
                0 <= i <= kinds@.len(),
                links@.len() == i,
                forall|j: int|
                    0 <= j < i ==> (#[trigger] links@[j]).pad_type == kinds@[j] && links@[j].wf()
                        && links@[j].cursor == crate::keypad::spec_home(kinds@[j])
                        && links@[j].error is None && links@[j].transition
                        == crate::keypad::Transition::Idle,
            decreases kinds@.len() - i,
        {
            let pad = Keypad::new(kinds[i], String::new());
            links.push(pad);
            i += 1;
        }
        SignalChain { links, sink: Display::new(sink_name) }
    }

    /// Resets every link and clears the sink.
    pub fn reset(&mut self)
        requires
            old(self).wf(),
        ensures
            final(self).wf(),
            final(self).links@.len() == old(self).links@.len(),
            forall|j: int|
                0 <= j < old(self).links@.len() ==> #[trigger] final(self).links@[j] == old(
                    self,
                ).links@[j].spec_reset(),
            final(self).sink.name == old(self).sink.name,
            final(self).sink.text@ == Seq::<char>::empty(),
    {
        let n = self.links.len();
        let mut i: usize = 0;
        while i < n
            invariant
                0 <= i <= n,
                n == self.links@.len(),
                n == old(self).links@.len(),
                forall|j: int|
                    0 <= j < i ==> #[trigger] self.links@[j] == old(self).links@[j].spec_reset(),
                forall|j: int| i <= j < n ==> #[trigger] self.links@[j] == old(self).links@[j],
                forall|j: int| 0 <= j < n ==> (#[trigger] self.links@[j]).wf()
                    || old(self).links@[j] == self.links@[j],
                self.sink == old(self).sink,
            decreases n - i,
        {
            self.links[i].reset();
            i += 1;
        }
        self.sink = Display::new(self.sink.name.clone());
        proof {
            assert forall|j: int| 0 <= j < n implies (#[trigger] self.links@[j]).wf() by {
                assert(self.links@[j] == old(self).links@[j].spec_reset());
            }
        }
    }

    /// Sends one externally supplied signal through the whole chain:
    /// a command character is pressed on the manual pad (the idle signal is
    /// merely received), the derived signal threads through the deeper
    /// links in order, and whatever the final link forwards is appended to
    /// the sink.
    pub fn propagate(&mut self, manual_signal: Option<char>)
        requires
            old(self).wf(),
        ensures
            final(self).wf(),
            final(self).links@ == spec_chain_step(old(self).links@, manual_signal).0,
            final(self).sink.name == old(self).sink.name,
            final(self).sink.text@ == spec_sink(
                old(self).sink.text@,
                spec_chain_step(old(self).links@, manual_signal).1,
            ),
    {
        let ghost links0 = self.links@;
        let ghost first = spec_chain_first(links0[0], manual_signal);
        let mut sig: Option<char> = match manual_signal {
            Some(c) => self.links[0].press(c),
            None => self.links[0].send_signal(None),
        };
        assert(self.links@ == links0.update(0, first.0));
        assert(sig == first.1);
        let ghost rest_full = links0.skip(1);
        let n = self.links.len();
        proof {
            assert(rest_full.take(0) =~= Seq::<Keypad>::empty());
            assert(self.links@ =~= seq![first.0] + spec_thread(rest_full.take(0), first.1).0
                + links0.skip(1));
        }
        let mut i: usize = 1;
        while i < n
            invariant
                1 <= i <= n,
                n == self.links@.len(),
                n == links0.len(),
                rest_full == links0.skip(1),
                first == spec_chain_first(links0[0], manual_signal),
                forall|j: int| 0 <= j < n ==> (#[trigger] links0[j]).wf(),
                forall|j: int| 0 <= j < n ==> (#[trigger] self.links@[j]).wf(),
                self.links@ == seq![first.0] + spec_thread(rest_full.take(i - 1), first.1).0
                    + links0.skip(i as int),
                sig == spec_thread(rest_full.take(i - 1), first.1).1,
                self.sink == old(self).sink,
            decreases n - i,
        {
            let ghost pre_links = self.links@;
            let ghost pre_sig = sig;
            proof {
                lemma_thread_props(rest_full.take(i - 1), first.1);
                assert(pre_links[i as int] == links0.skip(i as int)[0]);
                assert(pre_links[i as int] == links0[i as int]);
            }
            sig = self.links[i].send_signal(sig);
            proof {
                let tprev = rest_full.take(i - 1);
                let tcur = rest_full.take(i as int);
                assert(tcur.drop_last() =~= tprev);
                assert(tcur.last() == links0[i as int]);
                assert(spec_thread(tcur, first.1).0 == spec_thread(tprev, first.1).0.push(
                    spec_step(links0[i as int], pre_sig).0,
                ));
                assert(sig == spec_thread(tcur, first.1).1);
                assert(self.links@ =~= seq![first.0] + spec_thread(tcur, first.1).0 + links0.skip(
                    i + 1,
                ));
            }
            i += 1;
        }
        proof {
            assert(rest_full.take(n - 1) =~= rest_full);
            assert(links0.skip(n as int) =~= Seq::<Keypad>::empty());
            assert(self.links@ =~= seq![first.0] + spec_thread(rest_full, first.1).0);
            assert(self.links@ == spec_chain_step(links0, manual_signal).0);
            assert(sig == spec_chain_step(links0, manual_signal).1);
        }
        self.sink.send_signal(sig);
    }
}

} // verus!
