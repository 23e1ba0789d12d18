//! The laws the two components obey, stated over the ghost models that the
//! executable contracts step, and proved for every input.  Each law speaks
//! about whole call sequences or about the composition of several
//! operations; single-call behaviour is already pinned by the operations'
//! own contracts.

use vstd::prelude::*;

use crate::registry::Listener;
use crate::registry::RegistryModel;
use crate::registry::first_match;
use crate::writable::WritableModel;
use crate::writable::finish_name;

verus! {

/// The model after a whole sequence of back-insertion subscriptions of
/// persistent listeners, each call a `(name, listener)` pair, applied first
/// to last.
pub open spec fn apply_subscribes(
    m: RegistryModel,
    calls: Seq<(Seq<char>, Listener)>,
) -> RegistryModel
    decreases calls.len(),
{
    if calls.len() == 0 {
        m
    } else {
        apply_subscribes(m.after_subscribe(calls[0].0, calls[0].1, false, false), calls.drop_first())
    }
}

/// The listeners among `calls` aimed at `name`, in call order.
pub open spec fn listeners_for(calls: Seq<(Seq<char>, Listener)>, name: Seq<char>) -> Seq<Listener>
    decreases calls.len(),
{
    if calls.len() == 0 {
        Seq::empty()
    } else if calls[0].0 == name {
        seq![calls[0].1] + listeners_for(calls.drop_first(), name)
    } else {
        listeners_for(calls.drop_first(), name)
    }
}

/// How many of the listeners aimed at one name the cap lets in: those that
/// still find room, first come first kept.
pub open spec fn accepted_prefix(ls: Seq<Listener>, room: int) -> Seq<Listener> {
    if room <= 0 {
        Seq::empty()
    } else if ls.len() <= room {
        ls
    } else {
        ls.take(room)
    }
}

/// Law: subscriptions without prepending keep subscription order.  After any
/// sequence of back-insertion subscriptions, the persistent list for `name`
/// is what it was with the listeners subscribed to `name` appended in call
/// order — all of them when the cap leaves room, and otherwise exactly those
/// that arrived while room was left.  A listener snapshot therefore returns
/// listeners in subscription order.
pub proof fn law_subscription_order(
    m: RegistryModel,
    calls: Seq<(Seq<char>, Listener)>,
    name: Seq<char>,
)
    requires
        m.wf(),
        m.known(name),
    ensures
        apply_subscribes(m, calls).persistent_of(name) == m.persistent_of(name) + accepted_prefix(
            listeners_for(calls, name),
            m.max - m.count(name),
        ),
    decreases calls.len(),
{
    let ls = listeners_for(calls, name);
    let room = m.max - m.count(name);
    if calls.len() == 0 {
        assert(m.persistent_of(name) + accepted_prefix(ls, room) =~= m.persistent_of(name));
    } else {
        let c0 = calls[0];
        let ls1 = listeners_for(calls.drop_first(), name);
        let m1 = m.after_subscribe(c0.0, c0.1, false, false);
        m.lemma_subscribe_effects(c0.0, c0.1, false, false);
        law_subscription_order(m1, calls.drop_first(), name);
        if c0.0 == name {
            if m.count(name) < m.max {
                assert(m1.persistent_of(name) =~= m.persistent_of(name).push(c0.1));
                assert(accepted_prefix(ls, room) =~= seq![c0.1] + accepted_prefix(ls1, room - 1));
            } else {
                assert(accepted_prefix(ls, room) =~= Seq::<Listener>::empty());
                assert(accepted_prefix(ls1, m1.max - m1.count(name)) =~= Seq::<
                    Listener,
                >::empty());
            }
        }
        assert(apply_subscribes(m, calls).persistent_of(name) =~= m.persistent_of(name)
            + accepted_prefix(ls, room));
    }
}

/// Law: a prepended persistent listener lands before every listener already
/// registered for its name.
pub proof fn law_prepend_puts_first(m: RegistryModel, name: Seq<char>, x: Listener)
    requires
        m.wf(),
        m.subscribe_accepted(name, false),
    ensures
        ({
            let after = m.after_subscribe(name, x, false, true).persistent_of(name);
            &&& after.len() == m.persistent_of(name).len() + 1
            &&& after[0] == x
            &&& forall|j: int|
                0 <= j < m.persistent_of(name).len() ==> after[j + 1] == m.persistent_of(name)[j]
        }),
{
    m.lemma_subscribe_effects(name, x, false, true);
}

/// Law: a one-shot listener fires on exactly one emission of its name,
/// however many emissions follow.  The first emission's plan carries the
/// one-shot listeners and clears their list; every later emission — the
/// state no longer changes — reaches the persistent listeners alone.
pub proof fn law_once_fires_exactly_once(m: RegistryModel, name: Seq<char>)
    requires
        m.wf(),
    ensures
        m.emitted(name) == m.once_of(name) + m.persistent_of(name),
        m.after_emit(name).once_of(name).len() == 0,
        m.after_emit(name).emitted(name) == m.persistent_of(name),
        m.after_emit(name).after_emit(name) == m.after_emit(name),
{
    m.lemma_emit_effects(name);
    let a = m.after_emit(name);
    a.lemma_emit_effects(name);
    assert(a.emitted(name) =~= m.persistent_of(name));
    if m.known(name) {
        assert(a.once[a.idx(name)] =~= Seq::<Listener>::empty());
        assert(a.after_emit(name).once =~= a.once);
        assert(a.after_emit(name) =~= a);
    }
}

/// The model after a whole sequence of emissions, first to last.
pub open spec fn apply_emits(m: RegistryModel, names: Seq<Seq<char>>) -> RegistryModel
    decreases names.len(),
{
    if names.len() == 0 {
        m
    } else {
        apply_emits(m.after_emit(names[0]), names.drop_first())
    }
}

/// Law: a cleared one-shot list stays clear through any further emissions,
/// whatever their names — so after the first emission of `name`, every later
/// emission of `name` reaches the persistent listeners alone.  Together with
/// [`law_once_fires_exactly_once`] this pins that a one-shot listener fires
/// on exactly one emission, regardless of how many occur.
pub proof fn law_once_never_refires(m: RegistryModel, names: Seq<Seq<char>>, name: Seq<char>)
    requires
        m.wf(),
        m.once_of(name) == Seq::<Listener>::empty(),
    ensures
        apply_emits(m, names).wf(),
        apply_emits(m, names).once_of(name) == Seq::<Listener>::empty(),
        apply_emits(m, names).emitted(name) == m.persistent_of(name),
    decreases names.len(),
{
    if names.len() == 0 {
        assert(m.emitted(name) =~= m.persistent_of(name));
    } else {
        m.lemma_emit_effects(names[0]);
        let m1 = m.after_emit(names[0]);
        assert(m1.once_of(name) == Seq::<Listener>::empty());
        law_once_never_refires(m1, names.drop_first(), name);
    }
}

/// Law: unsubscribing right after subscribing leaves no listener behind, and
/// the removal is found — so exactly one `removeListener` emission, with
/// that name and listener as payload, is carried out.
pub proof fn law_subscribe_then_unsubscribe(m: RegistryModel, name: Seq<char>, x: Listener)
    requires
        m.wf(),
        m.known(name),
        m.count(name) == 0,
        m.max >= 1,
    ensures
        ({
            let m1 = m.after_subscribe(name, x, false, false);
            &&& m1.count(name) == 1
            &&& m1.unsubscribe_found(name, x)
            &&& m1.after_unsubscribe(name, x).count(name) == 0
        }),
{
    m.lemma_subscribe_effects(name, x, false, false);
    let m1 = m.after_subscribe(name, x, false, false);
    assert(m1.persistent_of(name) =~= seq![x]);
    assert(m1.persistent_of(name)[0] == x);
    assert(m1.unsubscribe_found(name, x));
    m1.lemma_unsubscribe_effects(name, x);
    assert(first_match(m1.persistent_of(name), x) == Some(0int));
    assert(m1.persistent_of(name).remove(0) =~= Seq::<Listener>::empty());
}

/// The model after a sequence of back-insertion persistent subscriptions of
/// `ls`, in order, all to one name.
pub open spec fn apply_appends(m: RegistryModel, name: Seq<char>, ls: Seq<Listener>) -> RegistryModel
    decreases ls.len(),
{
    if ls.len() == 0 {
        m
    } else {
        apply_appends(m.after_subscribe(name, ls[0], false, false), name, ls.drop_first())
    }
}

/// Law: the cap holds.  Subscribing any number of listeners to one name
/// fills its list up to the cap and no further — subscribing one more than
/// the cap allows leaves the count at the cap.
pub proof fn law_listener_cap(m: RegistryModel, name: Seq<char>, ls: Seq<Listener>)
    requires
        m.wf(),
        m.known(name),
        m.count(name) <= m.max,
    ensures
        apply_appends(m, name, ls).count(name) == if m.count(name) + ls.len() <= m.max {
            m.count(name) + ls.len()
        } else {
            m.max
        },
    decreases ls.len(),
{
    if ls.len() > 0 {
        let m1 = m.after_subscribe(name, ls[0], false, false);
        m.lemma_subscribe_effects(name, ls[0], false, false);
        if m.count(name) < m.max {
            assert(m1.persistent_of(name) =~= m.persistent_of(name).push(ls[0]));
        }
        law_listener_cap(m1, name, ls.drop_first());
    }
}

/// Law: corking twice and uncorking once from rest leaves depth one, and
/// uncorking at depth zero leaves it at zero — the depth never goes
/// negative.
pub proof fn law_cork_depth(m: WritableModel)
    requires
        m.cork_depth == 0,
    ensures
        m.after_cork().after_cork().after_uncork().cork_depth == 1,
        m.after_uncork().cork_depth == 0,
{
}

/// Law: `end` is idempotent.  The first `end` raises `ended` for good and
/// returns the one `finish` plan; a second `end`, whatever it carries,
/// changes nothing and returns the empty plan — `finish` is emitted exactly
/// once.
pub proof fn law_end_idempotent(
    m: WritableModel,
    chunk1: Option<Seq<u8>>,
    chunk2: Option<Seq<u8>>,
)
    requires
        !m.ended,
    ensures
        m.end_plan() == m.registry.emitted(finish_name()),
        m.after_end(chunk1).ended,
        m.after_end(chunk1).end_plan() == Seq::<Listener>::empty(),
        m.after_end(chunk1).after_end(chunk2) == m.after_end(chunk1),
{
}

/// Law: the backpressure signal is exactly "more is buffered than the
/// high-water mark allows" — what `writable_need_drain` reports.
pub proof fn law_need_drain(m: WritableModel)
    ensures
        m.need_drain() <==> m.buffer.len() > m.high_water_mark,
{
}

} // verus!
