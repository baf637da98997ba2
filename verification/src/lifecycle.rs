//! The lifecycle of one element: which events a component is owed for each
//! signal of the platform, and that its children are injected exactly once,
//! on the way to the first connection.
use vstd::prelude::*;
use crate::event::{names_view, events_view, EventView, LifecycleEvent, Signal, SignalView};

verus! {

/// Where a constructed element stands.
#[derive(Clone, Copy, Debug, PartialEq, Eq)]
pub enum Phase {
    /// Constructed and never connected: its children are not injected yet.
    Constructed,
    /// Part of a connected document.
    Connected,
    /// Connected before, and removed since.
    Disconnected,
}

/// The mathematical state of one element's lifecycle.
pub struct Lifecycle {
    /// The element is part of a connected document.
    pub connected: bool,
    /// The component has been asked to inject its children.
    pub children_injected: bool,
}

impl Lifecycle {
    /// The state of an element that was just constructed.
    pub open spec fn initial() -> Lifecycle {
        Lifecycle { connected: false, children_injected: false }
    }

    /// A connected element has its children.
    pub open spec fn wf(self) -> bool {
        self.connected ==> self.children_injected
    }

    /// The phase that the state stands for.
    pub open spec fn phase(self) -> Phase {
        if self.connected {
            Phase::Connected
        } else if self.children_injected {
            Phase::Disconnected
        } else {
            Phase::Constructed
        }
    }

    /// The state after one signal.
    pub open spec fn step(self, signal: SignalView) -> Lifecycle {
        match signal {
            SignalView::Connected => Lifecycle { connected: true, children_injected: true },
            SignalView::Disconnected => Lifecycle {
                connected: false,
                children_injected: self.children_injected,
            },
            SignalView::Adopted => self,
            SignalView::AttributeChanged { .. } => self,
        }
    }

    /// The events that one signal makes the bridge deliver, in order, to a
    /// component registered with the attribute names `observed`.
    pub open spec fn events(self, signal: SignalView, observed: Seq<Seq<char>>) -> Seq<EventView> {
        match signal {
            SignalView::Connected => if self.children_injected {
                seq![EventView::Connected]
            } else {
                seq![EventView::ChildrenInjected, EventView::Connected]
            },
            SignalView::Disconnected => seq![EventView::Disconnected],
            SignalView::Adopted => seq![EventView::Adopted],
            SignalView::AttributeChanged { name, old_value, new_value } => if observed.contains(name) {
                seq![EventView::AttributeChanged { name, old_value, new_value }]
            } else {
                seq![]
            },
        }
    }

    /// The state after a sequence of signals.
    pub open spec fn run(self, signals: Seq<SignalView>) -> Lifecycle
        decreases signals.len(),
    {
        if signals.len() == 0 {
            self
        } else {
            self.step(signals[0]).run(signals.drop_first())
        }
    }

    /// All the events that a sequence of signals makes the bridge deliver, in
    /// order.
    pub open spec fn trace(self, signals: Seq<SignalView>, observed: Seq<Seq<char>>) -> Seq<EventView>
        decreases signals.len(),
    {
        if signals.len() == 0 {
            seq![]
        } else {
            self.events(signals[0], observed) + self.step(signals[0]).trace(
                signals.drop_first(),
                observed,
            )
        }
    }
}

/// How often `event` occurs in `events`.
pub open spec fn occurrences(events: Seq<EventView>, event: EventView) -> nat
    decreases events.len(),
{
    if events.len() == 0 {
        0
    } else {
        (if events[0] == event { 1nat } else { 0nat }) + occurrences(events.drop_first(), event)
    }
}

/// One more signal at the end of a run adds the events owed for it, in the
/// state that the run reached, to the end of the trace.
pub proof fn lemma_trace_push(
    state: Lifecycle,
    signals: Seq<SignalView>,
    signal: SignalView,
    observed: Seq<Seq<char>>,
)
    ensures
        state.run(signals.push(signal)) == state.run(signals).step(signal),
        state.trace(signals.push(signal), observed) == state.trace(signals, observed) + state.run(
            signals,
        ).events(signal, observed),
    decreases signals.len(),
{
    let longer = signals.push(signal);
    if signals.len() == 0 {
        assert(longer.drop_first() =~= Seq::<SignalView>::empty());
        assert(state.run(longer) == state.step(signal).run(longer.drop_first()));
        assert(state.step(signal).run(longer.drop_first()) == state.step(signal));
        assert(state.step(signal).trace(longer.drop_first(), observed) =~= Seq::<EventView>::empty());
        assert(state.trace(longer, observed) =~= state.events(signal, observed));
        assert(state.trace(signals, observed) + state.events(signal, observed) =~= state.events(
            signal,
            observed,
        ));
    } else {
        assert(longer.drop_first() =~= signals.drop_first().push(signal));
        lemma_trace_push(state.step(signals[0]), signals.drop_first(), signal, observed);
        assert(state.run(longer) == state.step(longer[0]).run(longer.drop_first()));
        assert(state.trace(longer, observed) =~= state.trace(signals, observed) + state.run(
            signals,
        ).events(signal, observed));
    }
}

/// Occurrences add up over a concatenation.
pub proof fn lemma_occurrences_concat(first: Seq<EventView>, second: Seq<EventView>, event: EventView)
    ensures
        occurrences(first + second, event) == occurrences(first, event) + occurrences(second, event),
    decreases first.len(),
{
    if first.len() == 0 {
        assert(first + second =~= second);
    } else {
        assert((first + second).drop_first() =~= first.drop_first() + second);
        lemma_occurrences_concat(first.drop_first(), second, event);
    }
}

/// Every state that a run of signals reaches from a well-formed state is
/// well-formed: no element is connected without its children.
pub proof fn lemma_run_preserves_wf(state: Lifecycle, signals: Seq<SignalView>)
    requires
        state.wf(),
    ensures
        state.run(signals).wf(),
    decreases signals.len(),
{
    if signals.len() > 0 {
        lemma_run_preserves_wf(state.step(signals[0]), signals.drop_first());
    }
}

/// Over any run of signals, the component is asked to inject its children
/// exactly once if the children were not injected before and the run holds a
/// connection, and never otherwise.
pub proof fn lemma_children_injected_once(
    state: Lifecycle,
    signals: Seq<SignalView>,
    observed: Seq<Seq<char>>,
)
    ensures
        occurrences(state.trace(signals, observed), EventView::ChildrenInjected) == (if !state.children_injected
            && signals.contains(SignalView::Connected) {
            1nat
        } else {
            0nat
        }),
    decreases signals.len(),
{
    if signals.len() > 0 {
        let head = state.events(signals[0], observed);
        let rest = signals.drop_first();
        let next = state.step(signals[0]);
        lemma_children_injected_once(next, rest, observed);
        lemma_occurrences_concat(head, next.trace(rest, observed), EventView::ChildrenInjected);
        assert(signals.contains(SignalView::Connected) <==> (signals[0] == SignalView::Connected
            || rest.contains(SignalView::Connected))) by {
            if signals.contains(SignalView::Connected) && signals[0] != SignalView::Connected {
                let i = choose|i: int| 0 <= i < signals.len() && signals[i] == SignalView::Connected;
                assert(rest[i - 1] == SignalView::Connected);
            }
            if rest.contains(SignalView::Connected) {
                let i = choose|i: int| 0 <= i < rest.len() && rest[i] == SignalView::Connected;
                assert(signals[i + 1] == SignalView::Connected);
            }
        }
        reveal_with_fuel(occurrences, 3);
        assert(head.len() <= 2);
        if head.len() == 2 {
            assert(head.drop_first().len() == 1);
            assert(head.drop_first().drop_first().len() == 0);
        } else if head.len() == 1 {
            assert(head.drop_first().len() == 0);
        }
    }
}

/// Over any run of signals that starts before the children were injected,
/// each delivery of the connection event comes after the injection of the
/// children.
pub proof fn lemma_children_injected_before_connected(
    state: Lifecycle,
    signals: Seq<SignalView>,
    observed: Seq<Seq<char>>,
    i: int,
)
    requires
        !state.children_injected,
        0 <= i < state.trace(signals, observed).len(),
        state.trace(signals, observed)[i] == EventView::Connected,
    ensures
        exists|j: int| 0 <= j < i && state.trace(signals, observed)[j] == EventView::ChildrenInjected,
    decreases signals.len(),
{
    let trace = state.trace(signals, observed);
    let head = state.events(signals[0], observed);
    let rest = signals.drop_first();
    let next = state.step(signals[0]);
    if signals[0] == SignalView::Connected {
        assert(trace[0] == EventView::ChildrenInjected);
        assert(0 <= 0 < i && trace[0] == EventView::ChildrenInjected);
    } else {
        assert(i >= head.len());
        assert(trace[i] == next.trace(rest, observed)[i - head.len()]);
        lemma_children_injected_before_connected(next, rest, observed, i - head.len());
        let j = choose|j: int|
            0 <= j < i - head.len() && next.trace(rest, observed)[j] == EventView::ChildrenInjected;
        assert(trace[j + head.len()] == EventView::ChildrenInjected);
    }
}

/// The lifecycle state that the bridge keeps beside each component.
#[derive(Clone, Copy, Debug, PartialEq, Eq)]
pub struct ElementState {
    connected: bool,
    children_injected: bool,
}

impl View for ElementState {
    type V = Lifecycle;

    closed spec fn view(&self) -> Lifecycle {
        Lifecycle { connected: self.connected, children_injected: self.children_injected }
    }
}

/// Whether `name` is one of the attribute names in `observed`.
pub fn is_observed(observed: &Vec<String>, name: &String) -> (found: bool)
    ensures
        found == names_view(observed@).contains(name@),
{
    let mut i: usize = 0;
    while i < observed.len()
        invariant
            i <= observed.len(),
            forall|j: int| 0 <= j < i ==> names_view(observed@)[j] != name@,
        decreases observed.len() - i,
    {
        if observed[i] == *name {
            assert(names_view(observed@)[i as int] == name@);
            return true;
        }
        i += 1;
    }
    false
}

impl ElementState {
    #[verifier::type_invariant]
    spec fn inv(self) -> bool {
        self.connected ==> self.children_injected
    }

    /// The state of an element that was just constructed.
    pub fn new() -> (state: ElementState)
        ensures
            state@ == Lifecycle::initial(),
    {
        ElementState { connected: false, children_injected: false }
    }

    /// Whether the element is part of a connected document.
    pub fn is_connected(&self) -> (connected: bool)
        ensures
            connected == self@.connected,
    {
        self.connected
    }

    /// Whether the component has been asked to inject its children.
    pub fn children_injected(&self) -> (injected: bool)
        ensures
            injected == self@.children_injected,
            self@.wf(),
    {
        proof {
            use_type_invariant(self);
        }
        self.children_injected
    }

    /// The phase that the element is in.
    pub fn phase(&self) -> (phase: Phase)
        ensures
            phase == self@.phase(),
            self@.wf(),
    {
        proof {
            use_type_invariant(self);
        }
        if self.connected {
            Phase::Connected
        } else if self.children_injected {
            Phase::Disconnected
        } else {
            Phase::Constructed
        }
    }

    /// Takes one signal of the platform: moves to the next state and returns
    /// the events that the component is owed for it, in the order of
    /// delivery. The first connection puts the injection of children before
    /// the connection itself; a change of an attribute that is not in
    /// `observed` is owed nothing.
    pub fn on_signal(&mut self, signal: Signal, observed: &Vec<String>) -> (events: Vec<LifecycleEvent>)
        ensures
            final(self)@ == old(self)@.step(signal@),
            events_view(events@) == old(self)@.events(signal@, names_view(observed@)),
            final(self)@.wf(),
    {
        proof {
            use_type_invariant(&*self);
        }
        let mut events: Vec<LifecycleEvent> = Vec::new();
        match signal {
            Signal::Connected => {
                if !self.children_injected {
                    events.push(LifecycleEvent::ChildrenInjected);
                }
                events.push(LifecycleEvent::Connected);
                self.children_injected = true;
                self.connected = true;
            },
            Signal::Disconnected => {
                events.push(LifecycleEvent::Disconnected);
                self.connected = false;
            },
            Signal::Adopted => {
                events.push(LifecycleEvent::Adopted);
            },
            Signal::AttributeChanged { name, old_value, new_value } => {
                if is_observed(observed, &name) {
                    events.push(LifecycleEvent::AttributeChanged { name, old_value, new_value });
                }
            },
        }
        assert(events_view(events@) =~= old(self)@.events(signal@, names_view(observed@)));
        events
    }
}

} // verus!
