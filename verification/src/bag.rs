//! An aggregation over a growing number of signals.

use crate::output::{Output, Trigger};
use leptos::prelude::ArcRwSignal;
use vstd::prelude::*;

verus! {

/// The signals that are aggregated, each as a getter of its value, and the signal by which those
/// who look at the aggregate are notified.
pub struct SignalBag<G> {
    trigger: Output<()>,
    getters: Vec<G>,
}

/// The subscribers of a bag are to be notified, by [`Self::send`], once nothing keeps them from
/// looking into the bag.
#[must_use]
pub struct Notification {
    trigger: Trigger,
}

impl Notification {
    /// The signal whose subscribers are to be notified.
    pub closed spec fn handle(&self) -> ArcRwSignal<()> {
        self.trigger.handle()
    }

    /// How often they have been notified so far.
    pub closed spec fn sent(&self) -> nat {
        self.trigger@
    }

    /// Notifies the subscribers, once.
    pub fn send(self) -> (res: Trigger)
        ensures
            res.handle() == self.handle(),
            res@ == self.sent() + 1,
    {
        let mut trigger = self.trigger;
        trigger.notify();
        trigger
    }
}

/// What watches one of the signals in a bag.
pub struct Member {
    trigger: Trigger,
}

impl Member {
    /// The signal whose subscribers are notified.
    pub closed spec fn handle(&self) -> ArcRwSignal<()> {
        self.trigger.handle()
    }

    /// How often they have been notified because of this member.
    pub closed spec fn sent(&self) -> nat {
        self.trigger@
    }

    /// The signal has changed: notifies the subscribers of the bag, once. The bag stays as it is.
    pub fn changed(&mut self)
        ensures
            final(self).handle() == old(self).handle(),
            final(self).sent() == old(self).sent() + 1,
    {
        self.trigger.notify();
    }
}

impl<G> View for SignalBag<G> {
    type V = Seq<G>;

    /// The getters, in the order in which they were pushed.
    closed spec fn view(&self) -> Seq<G> {
        self.getters@
    }
}

impl<G> SignalBag<G> {
    /// The signal by which subscribers are notified.
    pub closed spec fn handle(&self) -> ArcRwSignal<()> {
        self.trigger.handle()
    }

    /// An empty bag.
    pub fn new() -> (res: Self)
        ensures
            res@ == Seq::<G>::empty(),
    {
        SignalBag { trigger: Output::new(()), getters: Vec::new() }
    }

    /// A handle on the signal by which subscribers are notified.
    pub fn trigger(&self) -> (res: Trigger)
        ensures
            res.handle() == self.handle(),
            res@ == 0,
    {
        self.trigger.trigger()
    }

    /// What is to watch a signal that is pushed.
    pub fn member(&self) -> (res: Member)
        ensures
            res.handle() == self.handle(),
            res.sent() == 0,
    {
        Member { trigger: self.trigger.trigger() }
    }

    /// Puts a signal into the bag, after those that are in it. The subscribers are to be notified.
    #[must_use]
    pub fn push(&mut self, getter: G) -> (res: Notification)
        ensures
            final(self)@ == old(self)@.push(getter),
            final(self).handle() == old(self).handle(),
            res.handle() == old(self).handle(),
            res.sent() == 0,
    {
        self.getters.push(getter);
        Notification { trigger: self.trigger.trigger() }
    }

    /// The number of signals in the bag.
    pub fn len(&self) -> (res: usize)
        ensures
            res == self@.len(),
    {
        self.getters.len()
    }

    /// The value of every signal in the bag, in the order in which they were pushed.
    pub fn inputs<I>(&self) -> (res: Vec<I>) where G: Fn() -> I
        requires
            forall|i: int| 0 <= i < self@.len() ==> (#[trigger] self@[i]).requires(()),
        ensures
            answers(self@, res@),
    {
        let mut res: Vec<I> = Vec::new();
        let mut i: usize = 0;
        while i < self.getters.len()
            invariant
                i <= self.getters.len(),
                res@.len() == i,
                forall|k: int| 0 <= k < self@.len() ==> (#[trigger] self@[k]).requires(()),
                forall|k: int|
                    0 <= k < i ==> self@[k].ensures((), #[trigger] res@[k]),
            decreases self.getters.len() - i,
        {
            let getter = &self.getters[i];
            assert(self@[i as int].requires(()));
            let input = getter();
            res.push(input);
            i = i + 1;
        }
        res
    }

    /// Applies `f` to the values of the signals in the bag.
    pub fn map<I, O, F: FnOnce(Vec<I>) -> O>(&self, f: F) -> (res: O) where G: Fn() -> I
        requires
            forall|i: int| 0 <= i < self@.len() ==> (#[trigger] self@[i]).requires(()),
            forall|inputs: Vec<I>| answers(self@, inputs@) ==> #[trigger] f.requires((inputs,)),
        ensures
            exists|inputs: Vec<I>|
                #![trigger f.ensures((inputs,), res)]
                answers(self@, inputs@) && f.ensures((inputs,), res),
    {
        let inputs = self.inputs();
        f(inputs)
    }
}

/// `values` are what the getters return, one for each and in their order.
pub open spec fn answers<G: Fn() -> I, I>(getters: Seq<G>, values: Seq<I>) -> bool {
    &&& values.len() == getters.len()
    &&& forall|i: int|
        0 <= i < getters.len() ==> getters[i].ensures((), #[trigger] values[i])
}

/// A signal that is pushed adds its value behind the values of the signals that were in the bag,
/// which stay as they are.
pub proof fn law_pushed_signal_comes_last<G: Fn() -> I, I>(
    getters: Seq<G>,
    getter: G,
    values: Seq<I>,
)
    requires
        answers(getters.push(getter), values),
    ensures
        values.len() == getters.len() + 1,
        answers(getters, values.drop_last()),
        getter.ensures((), values.last()),
{
    let all = getters.push(getter);
    assert forall|i: int| 0 <= i < getters.len() implies getters[i].ensures(
        (),
        #[trigger] values.drop_last()[i],
    ) by {
        assert(all[i].ensures((), values[i]));
    }
    assert(all[getters.len() as int].ensures((), values[getters.len() as int]));
}

/// What can happen to a [`SignalBag`].
pub enum BagEvent<G> {
    /// A signal is pushed, and the [`Notification`] is sent.
    Pushed(G),
    /// A signal in the bag changes, and its [`Member`] is told.
    Changed,
}

/// The getters in a bag after `events`, one after the other, and how often its subscribers were
/// notified.
pub open spec fn bag_after<G>(events: Seq<BagEvent<G>>) -> (Seq<G>, nat)
    decreases events.len(),
{
    if events.len() == 0 {
        (Seq::empty(), 0)
    } else {
        let (getters, sent) = bag_after(events.drop_last());
        match events.last() {
            BagEvent::Pushed(getter) => (getters.push(getter), sent + 1),
            BagEvent::Changed => (getters, sent + 1),
        }
    }
}

/// Every push and every change of a signal in the bag notifies the subscribers of the bag, once.
pub proof fn law_every_push_and_change_notifies<G>(events: Seq<BagEvent<G>>)
    ensures
        bag_after(events).1 == events.len(),
    decreases events.len(),
{
    if events.len() > 0 {
        law_every_push_and_change_notifies(events.drop_last());
    }
}

/// What subscribers look at after a push: one more value than before it, that of the new signal
/// last. After a change of a signal in the bag, it is the values of the same signals.
pub proof fn law_bag_grows_by_pushes_alone<G: Fn() -> I, I>(
    events: Seq<BagEvent<G>>,
    event: BagEvent<G>,
    values: Seq<I>,
)
    requires
        answers(bag_after(events.push(event)).0, values),
    ensures
        match event {
            BagEvent::Pushed(getter) => {
                &&& values.len() == bag_after(events).0.len() + 1
                &&& answers(bag_after(events).0, values.drop_last())
                &&& getter.ensures((), values.last())
            },
            BagEvent::Changed => answers(bag_after(events).0, values),
        },
{
    assert(events.push(event).drop_last() == events);
    if let BagEvent::Pushed(getter) = event {
        law_pushed_signal_comes_last(bag_after(events).0, getter, values);
    }
}

/// After a push, the values of the bag are one more than before: those of the signals that were in
/// it, in the same order, and then the value of the new signal.
pub proof fn law_values_after_a_push<G: Fn() -> I, I>(
    bag: &mut SignalBag<G>,
    getter: G,
    notification: Notification,
    count: usize,
    values: Vec<I>,
)
    requires
        call_ensures(SignalBag::<G>::push, (bag, getter), notification),
        call_ensures(SignalBag::<G>::len, (&*final(bag),), count),
        call_ensures(SignalBag::<G>::inputs::<I>, (&*final(bag),), values),
    ensures
        count == old(bag)@.len() + 1,
        values@.len() == old(bag)@.len() + 1,
        forall|i: int|
            0 <= i < old(bag)@.len() ==> old(bag)@[i].ensures((), #[trigger] values@[i]),
        getter.ensures((), values@.last()),
        final(bag)@.drop_last() == old(bag)@,
        final(bag)@.last() == getter,
{
    assert(final(bag)@.drop_last() == old(bag)@);
    assert forall|i: int| 0 <= i < old(bag)@.len() implies old(bag)@[i].ensures(
        (),
        #[trigger] values@[i],
    ) by {
        assert(final(bag)@[i].ensures((), values@[i]));
    }
    assert(final(bag)@[old(bag)@.len() as int].ensures((), values@[old(bag)@.len() as int]));
}

/// A bag starts empty, and has no values then.
pub proof fn law_bag_starts_empty<G: Fn() -> I, I>(bag: SignalBag<G>, values: Vec<I>)
    requires
        call_ensures(SignalBag::<G>::new, (), bag),
        call_ensures(SignalBag::<G>::inputs::<I>, (&bag,), values),
    ensures
        bag@.len() == 0,
        values@.len() == 0,
{
}

/// What `f` is applied to are the values of the signals in the bag, one of each and in order.
pub proof fn law_map_sees_every_value<G: Fn() -> I, I, O, F: FnOnce(Vec<I>) -> O>(
    bag: SignalBag<G>,
    f: F,
    res: O,
)
    requires
        call_ensures(SignalBag::<G>::map::<I, O, F>, (&bag, f), res),
    ensures
        exists|inputs: Vec<I>|
            #![trigger f.ensures((inputs,), res)]
            f.ensures((inputs,), res) && inputs@.len() == bag@.len() && forall|i: int|
                0 <= i < bag@.len() ==> bag@[i].ensures((), #[trigger] inputs@[i]),
{
    let inputs = choose|inputs: Vec<I>|
        #![trigger f.ensures((inputs,), res)]
        answers(bag@, inputs@) && f.ensures((inputs,), res);
    assert(f.ensures((inputs,), res));
    assert forall|i: int| 0 <= i < bag@.len() implies bag@[i].ensures(
        (),
        #[trigger] inputs@[i],
    ) by {}
}

/// A push and each change of a signal that was pushed notify those who subscribed to the bag, each
/// of them once.
pub proof fn law_subscribers_are_notified<G>(
    bag: &mut SignalBag<G>,
    subscribed: Trigger,
    member: Member,
    getter: G,
    notification: Notification,
    sent: Trigger,
    watched: &mut Member,
)
    requires
        call_ensures(SignalBag::<G>::trigger, (&*old(bag),), subscribed),
        call_ensures(SignalBag::<G>::member, (&*old(bag),), member),
        call_ensures(SignalBag::<G>::push, (bag, getter), notification),
        call_ensures(Notification::send, (notification,), sent),
        *old(watched) == member,
        call_ensures(Member::changed, (watched,), ()),
    ensures
        sent.handle() == subscribed.handle(),
        sent@ == 1,
        final(bag).handle() == subscribed.handle(),
        final(watched).handle() == subscribed.handle(),
        final(watched).sent() == 1,
{
}

/// Every further change notifies once more.
pub proof fn law_every_change_notifies_again(watched: &mut Member)
    requires
        call_ensures(Member::changed, (watched,), ()),
    ensures
        final(watched).handle() == old(watched).handle(),
        final(watched).sent() == old(watched).sent() + 1,
{
}

/// Every signal can be pushed, and the bag can be looked into if its getters can be called.
pub proof fn law_bag_accepts_every_signal<G: Fn() -> I, I>(bag: &mut SignalBag<G>, getter: G)
    requires
        forall|i: int| 0 <= i < old(bag)@.len() ==> (#[trigger] old(bag)@[i]).requires(()),
    ensures
        call_requires(SignalBag::<G>::push, (bag, getter)),
        call_requires(SignalBag::<G>::inputs::<I>, (&*old(bag),)),
{
}

} // verus!
