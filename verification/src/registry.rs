//! The event registry: named, ordered listener lists with one-shot
//! subscriptions, a soft per-name cap, and the `newListener` /
//! `removeListener` meta-events.
//!
//! A [`Listener`] is an opaque handle compared by identity; the registry
//! never invokes anything itself.  Every operation that emits an event
//! returns the ordered invocation plan (which listeners to call, in which
//! order) and the embedding host performs the calls.  The plan is a
//! snapshot: subscriptions or removals made while the host walks it affect
//! only future emissions.
//!
//! The behaviour of each operation is pinned by the ghost [`RegistryModel`]
//! and its transition functions; the executable methods promise to step the
//! model exactly as those functions say.

use vstd::prelude::*;

verus! {

/// An opaque, identity-compared handle standing for one callable listener.
/// The embedding host picks the identities and owns whatever they refer to.
#[derive(Clone, Copy, PartialEq, Eq, Structural, Debug)]
pub struct Listener {
    pub id: u64,
}

/// The name of the meta-event fired before a persistent listener is added.
pub open spec fn new_listener_name() -> Seq<char> {
    "newListener"@
}

/// The name of the meta-event fired after a persistent listener is removed.
pub open spec fn remove_listener_name() -> Seq<char> {
    "removeListener"@
}

/// Where a new listener lands in a list: at the back, or — when prepending —
/// before every listener already there.
pub open spec fn inserted(l: Seq<Listener>, x: Listener, prepend: bool) -> Seq<Listener> {
    if prepend {
        seq![x] + l
    } else {
        l.push(x)
    }
}

/// The first position holding `x`, if any.
pub open spec fn first_match(l: Seq<Listener>, x: Listener) -> Option<int>
    decreases l.len(),
{
    if l.len() == 0 {
        None
    } else if l[0] == x {
        Some(0)
    } else {
        match first_match(l.drop_first(), x) {
            None => None,
            Some(i) => Some(i + 1),
        }
    }
}

/// A forward scan that stops at position `k` has found the first match.
pub proof fn lemma_first_match_at(l: Seq<Listener>, x: Listener, k: int)
    requires
        0 <= k < l.len(),
        l[k] == x,
        forall|j: int| 0 <= j < k ==> l[j] != x,
    ensures
        first_match(l, x) == Some(k),
        l.contains(x),
    decreases k,
{
    if k > 0 {
        assert(forall|j: int| 0 <= j < k - 1 ==> l.drop_first()[j] != x);
        lemma_first_match_at(l.drop_first(), x, k - 1);
    }
}

/// A forward scan that found nothing is right: there is no match.
pub proof fn lemma_first_match_none(l: Seq<Listener>, x: Listener)
    requires
        forall|j: int| 0 <= j < l.len() ==> l[j] != x,
    ensures
        first_match(l, x) is None,
        !l.contains(x),
    decreases l.len(),
{
    if l.len() > 0 {
        assert(forall|j: int| 0 <= j < l.drop_first().len() ==> l.drop_first()[j] != x);
        lemma_first_match_none(l.drop_first(), x);
    }
}

/// The mathematical state of a registry: the known event names in
/// registration order, and for each name (by the same index) its persistent
/// and its one-shot listener list.
#[verifier::ext_equal]
pub ghost struct RegistryModel {
    pub max: nat,
    pub names: Seq<Seq<char>>,
    pub persistent: Seq<Seq<Listener>>,
    pub once: Seq<Seq<Listener>>,
}

impl RegistryModel {
    /// Every known name has both lists, and names never repeat.
    pub open spec fn wf(self) -> bool {
        &&& self.persistent.len() == self.names.len()
        &&& self.once.len() == self.names.len()
        &&& forall|i: int, j: int|
            0 <= i < j < self.names.len() ==> self.names[i] != self.names[j]
    }

    pub open spec fn known(self, name: Seq<char>) -> bool {
        self.names.contains(name)
    }

    /// The index of a known name; meaningful only under [`Self::wf`], where
    /// it is unique.
    pub open spec fn idx(self, name: Seq<char>) -> int {
        self.names.index_of(name)
    }

    /// The persistent listeners for `name`; an unknown name has none.
    pub open spec fn persistent_of(self, name: Seq<char>) -> Seq<Listener> {
        if self.known(name) {
            self.persistent[self.idx(name)]
        } else {
            Seq::empty()
        }
    }

    /// The one-shot listeners for `name`; an unknown name has none.
    pub open spec fn once_of(self, name: Seq<char>) -> Seq<Listener> {
        if self.known(name) {
            self.once[self.idx(name)]
        } else {
            Seq::empty()
        }
    }

    /// The listener count reported for `name`: the persistent list's size.
    pub open spec fn count(self, name: Seq<char>) -> nat {
        self.persistent_of(name).len()
    }

    /// The invocation plan of one emission of `name`: first the one-shot
    /// listeners, in list order, then the persistent ones, in list order.
    pub open spec fn emitted(self, name: Seq<char>) -> Seq<Listener> {
        self.once_of(name) + self.persistent_of(name)
    }

    /// The state after one emission of `name`: the one-shot list is cleared
    /// the moment its snapshot is taken; everything else stays.
    pub open spec fn after_emit(self, name: Seq<char>) -> RegistryModel {
        if self.known(name) {
            RegistryModel { once: self.once.update(self.idx(name), Seq::empty()), ..self }
        } else {
            self
        }
    }

    /// Whether a subscription to `name` is taken: the name must be known and
    /// the targeted list (one-shot or persistent) still under the cap.
    pub open spec fn subscribe_accepted(self, name: Seq<char>, once: bool) -> bool {
        &&& self.known(name)
        &&& (if once {
            self.once_of(name).len()
        } else {
            self.persistent_of(name).len()
        }) < self.max
    }

    /// The state after a subscription.  A persistent subscription first
    /// carries out the `newListener` emission — before the insertion, so the
    /// new listener never observes its own registration — while a one-shot
    /// subscription inserts silently.
    pub open spec fn after_subscribe(
        self,
        name: Seq<char>,
        x: Listener,
        once: bool,
        prepend: bool,
    ) -> RegistryModel {
        if !self.subscribe_accepted(name, once) {
            self
        } else if once {
            RegistryModel {
                once: self.once.update(self.idx(name), inserted(self.once_of(name), x, prepend)),
                ..self
            }
        } else {
            let m = self.after_emit(new_listener_name());
            RegistryModel {
                persistent: m.persistent.update(
                    m.idx(name),
                    inserted(m.persistent_of(name), x, prepend),
                ),
                ..m
            }
        }
    }

    /// The invocation plan a subscription returns: the `newListener`
    /// emission for a taken persistent subscription, nothing otherwise.
    pub open spec fn subscribe_plan(self, name: Seq<char>, once: bool) -> Seq<Listener> {
        if self.subscribe_accepted(name, once) && !once {
            self.emitted(new_listener_name())
        } else {
            Seq::empty()
        }
    }

    /// Whether an unsubscription of `x` from `name` finds an entry to
    /// remove.  Only persistent listeners can be removed this way.
    pub open spec fn unsubscribe_found(self, name: Seq<char>, x: Listener) -> bool {
        self.persistent_of(name).contains(x)
    }

    /// The state right after the first matching entry is taken out, before
    /// the `removeListener` emission.
    pub open spec fn after_removal(self, name: Seq<char>, x: Listener) -> RegistryModel {
        let l = self.persistent_of(name);
        RegistryModel {
            persistent: self.persistent.update(
                self.idx(name),
                l.remove(first_match(l, x).unwrap()),
            ),
            ..self
        }
    }

    /// The state after an unsubscription: if `x` is found, it is removed and
    /// the `removeListener` emission is carried out; otherwise nothing moves.
    pub open spec fn after_unsubscribe(self, name: Seq<char>, x: Listener) -> RegistryModel {
        if self.unsubscribe_found(name, x) {
            self.after_removal(name, x).after_emit(remove_listener_name())
        } else {
            self
        }
    }

    /// The invocation plan of the `removeListener` emission, taken after the
    /// removal; empty when nothing was removed.
    pub open spec fn unsubscribe_plan(self, name: Seq<char>, x: Listener) -> Seq<Listener> {
        if self.unsubscribe_found(name, x) {
            self.after_removal(name, x).emitted(remove_listener_name())
        } else {
            Seq::empty()
        }
    }

    /// The state after registering `name`: a no-op when it is already known,
    /// else the name is appended with two empty lists.
    pub open spec fn after_add_event(self, name: Seq<char>) -> RegistryModel {
        if self.known(name) {
            self
        } else {
            RegistryModel {
                names: self.names.push(name),
                persistent: self.persistent.push(Seq::empty()),
                once: self.once.push(Seq::empty()),
                ..self
            }
        }
    }

    /// The state after clearing one name's persistent list.  One-shot lists
    /// are untouched, and no meta-event is emitted.
    pub open spec fn after_clear_one(self, name: Seq<char>) -> RegistryModel {
        if self.known(name) {
            RegistryModel {
                persistent: self.persistent.update(self.idx(name), Seq::empty()),
                ..self
            }
        } else {
            self
        }
    }

    /// The state after clearing every persistent list.
    pub open spec fn after_clear_all(self) -> RegistryModel {
        RegistryModel {
            persistent: Seq::new(self.persistent.len(), |i: int| Seq::empty()),
            ..self
        }
    }

    /// The state after a cap change: out-of-range requests are ignored.
    pub open spec fn after_set_max(self, n: int) -> RegistryModel {
        if 0 <= n <= u32::MAX {
            RegistryModel { max: n as nat, ..self }
        } else {
            self
        }
    }

    /// The state after teardown: every held listener is released and both
    /// maps are gone.
    pub open spec fn after_teardown(self) -> RegistryModel {
        RegistryModel {
            max: self.max,
            names: Seq::empty(),
            persistent: Seq::empty(),
            once: Seq::empty(),
        }
    }

    /// What one emission leaves behind: names, cap and every persistent list
    /// stay; only the emitted name's one-shot list is cleared.
    pub proof fn lemma_emit_effects(self, name: Seq<char>)
        requires
            self.wf(),
        ensures
            self.after_emit(name).wf(),
            self.after_emit(name).names == self.names,
            self.after_emit(name).max == self.max,
            self.after_emit(name).persistent == self.persistent,
            forall|n2: Seq<char>|
                #[trigger] self.after_emit(name).persistent_of(n2) == self.persistent_of(n2),
            self.after_emit(name).once_of(name) == Seq::<Listener>::empty(),
            forall|n2: Seq<char>|
                n2 != name ==> #[trigger] self.after_emit(name).once_of(n2) == self.once_of(n2),
    {
        let a = self.after_emit(name);
        if self.known(name) {
            assert(self.names[self.idx(name)] == name);
            assert(a.once_of(name) =~= Seq::<Listener>::empty());
            assert forall|n2: Seq<char>| n2 != name implies #[trigger] a.once_of(n2)
                == self.once_of(n2) by {
                if self.known(n2) {
                    assert(self.names[self.idx(n2)] == n2);
                    assert(self.idx(n2) != self.idx(name));
                }
            }
        } else {
            assert(a.once_of(name) =~= Seq::<Listener>::empty());
        }
    }

    /// What a subscription leaves behind, by case: refused requests change
    /// nothing; a one-shot subscription only inserts into the target name's
    /// one-shot list; a persistent subscription inserts into the target
    /// name's persistent list and, through the `newListener` emission,
    /// clears that meta-event's one-shot list.
    pub proof fn lemma_subscribe_effects(self, name: Seq<char>, x: Listener, once: bool, prepend: bool)
        requires
            self.wf(),
        ensures
            self.after_subscribe(name, x, once, prepend).wf(),
            self.after_subscribe(name, x, once, prepend).names == self.names,
            self.after_subscribe(name, x, once, prepend).max == self.max,
            !self.subscribe_accepted(name, once) ==> self.after_subscribe(name, x, once, prepend)
                == self,
            self.subscribe_accepted(name, once) && once ==> {
                let a = self.after_subscribe(name, x, once, prepend);
                &&& a.persistent == self.persistent
                &&& a.once_of(name) == inserted(self.once_of(name), x, prepend)
                &&& forall|n2: Seq<char>| n2 != name ==> #[trigger] a.once_of(n2) == self.once_of(n2)
            },
            self.subscribe_accepted(name, once) && !once ==> {
                let a = self.after_subscribe(name, x, once, prepend);
                &&& a.persistent_of(name) == inserted(self.persistent_of(name), x, prepend)
                &&& forall|n2: Seq<char>|
                    n2 != name ==> #[trigger] a.persistent_of(n2) == self.persistent_of(n2)
                &&& a.once_of(new_listener_name()) == Seq::<Listener>::empty()
                &&& forall|n2: Seq<char>|
                    n2 != new_listener_name() ==> #[trigger] a.once_of(n2) == self.once_of(n2)
            },
    {
        let a = self.after_subscribe(name, x, once, prepend);
        if !self.subscribe_accepted(name, once) {
        } else if once {
            assert(self.names[self.idx(name)] == name);
            assert(a.once_of(name) =~= inserted(self.once_of(name), x, prepend));
            assert forall|n2: Seq<char>| n2 != name implies #[trigger] a.once_of(n2)
                == self.once_of(n2) by {
                if self.known(n2) {
                    assert(self.names[self.idx(n2)] == n2);
                }
            }
        } else {
            let m = self.after_emit(new_listener_name());
            self.lemma_emit_effects(new_listener_name());
            assert(self.names[self.idx(name)] == name);
            assert(m.idx(name) == self.idx(name));
            assert(a.persistent_of(name) =~= inserted(self.persistent_of(name), x, prepend));
            assert forall|n2: Seq<char>| n2 != name implies #[trigger] a.persistent_of(n2)
                == self.persistent_of(n2) by {
                if self.known(n2) {
                    assert(self.names[self.idx(n2)] == n2);
                    assert(self.idx(n2) != self.idx(name));
                }
                assert(m.persistent_of(n2) == self.persistent_of(n2));
            }
            assert(a.once == m.once);
            assert forall|n2: Seq<char>| n2 != new_listener_name() implies #[trigger] a.once_of(n2)
                == self.once_of(n2) by {
                assert(m.once_of(n2) == self.once_of(n2));
                if m.known(n2) {
                    assert(m.names[m.idx(n2)] == n2);
                }
            }
            assert(a.once_of(new_listener_name()) == m.once_of(new_listener_name()));
        }
    }

    /// What an unsubscription leaves behind: when `x` is found, the target
    /// name's persistent list loses its first match and the
    /// `removeListener` one-shot list is cleared; nothing else moves.
    pub proof fn lemma_unsubscribe_effects(self, name: Seq<char>, x: Listener)
        requires
            self.wf(),
        ensures
            self.after_unsubscribe(name, x).wf(),
            self.after_unsubscribe(name, x).names == self.names,
            self.after_unsubscribe(name, x).max == self.max,
            !self.unsubscribe_found(name, x) ==> self.after_unsubscribe(name, x) == self,
            self.unsubscribe_found(name, x) ==> {
                let a = self.after_unsubscribe(name, x);
                &&& a.persistent_of(name) == self.persistent_of(name).remove(
                    first_match(self.persistent_of(name), x).unwrap(),
                )
                &&& forall|n2: Seq<char>|
                    n2 != name ==> #[trigger] a.persistent_of(n2) == self.persistent_of(n2)
                &&& a.once_of(remove_listener_name()) == Seq::<Listener>::empty()
                &&& forall|n2: Seq<char>|
                    n2 != remove_listener_name() ==> #[trigger] a.once_of(n2) == self.once_of(n2)
            },
    {
        if self.unsubscribe_found(name, x) {
            let r = self.after_removal(name, x);
            let a = self.after_unsubscribe(name, x);
            assert(self.known(name));
            assert(self.names[self.idx(name)] == name);
            assert(r.wf());
            r.lemma_emit_effects(remove_listener_name());
            assert(r.persistent_of(name) == self.persistent_of(name).remove(
                first_match(self.persistent_of(name), x).unwrap(),
            ));
            assert forall|n2: Seq<char>| n2 != name implies #[trigger] r.persistent_of(n2)
                == self.persistent_of(n2) by {
                if self.known(n2) {
                    assert(self.names[self.idx(n2)] == n2);
                    assert(self.idx(n2) != self.idx(name));
                }
            }
            assert forall|n2: Seq<char>| n2 != remove_listener_name() implies #[trigger] a.once_of(
                n2,
            ) == self.once_of(n2) by {
                assert(a.once_of(n2) == r.once_of(n2));
                assert(r.once == self.once);
                if self.known(n2) {
                    assert(self.names[self.idx(n2)] == n2);
                }
            }
        }
    }

    /// The model a fresh registry starts from.
    pub open spec fn initial(max: nat) -> RegistryModel {
        RegistryModel {
            max: max,
            names: seq![new_listener_name(), remove_listener_name()],
            persistent: seq![Seq::empty(), Seq::empty()],
            once: seq![Seq::empty(), Seq::empty()],
        }
    }
}

/// Character-by-character string comparison, so that equality of event
/// names is established against their views.
fn str_eq(a: &str, b: &str) -> (r: bool)
    ensures
        r == (a@ == b@),
{
    let alen = a.unicode_len();
    let blen = b.unicode_len();
    if alen != blen {
        return false;
    }
    let mut i: usize = 0;
    while i < alen
        invariant
            0 <= i <= alen,
            alen == a@.len(),
            alen == b@.len(),
            forall|j: int| 0 <= j < i ==> a@[j] == b@[j],
        decreases alen - i,
    {
        if a.get_char(i) != b.get_char(i) {
            return false;
        }
        i = i + 1;
    }
    proof {
        assert(a@ =~= b@);
    }
    true
}

/// The event registry.  Its whole behaviour is given by the ghost
/// [`RegistryModel`] it views to; each method's contract steps that model by
/// the matching transition function.
pub struct EventRegistry {
    max_listeners: u32,
    events: Vec<String>,
    persistent: Vec<Vec<Listener>>,
    once: Vec<Vec<Listener>>,
}

impl View for EventRegistry {
    type V = RegistryModel;

    closed spec fn view(&self) -> RegistryModel {
        RegistryModel {
            max: self.max_listeners as nat,
            names: self.events@.map_values(|s: String| s@),
            persistent: self.persistent@.map_values(|v: Vec<Listener>| v@),
            once: self.once@.map_values(|v: Vec<Listener>| v@),
        }
    }
}

impl EventRegistry {
    /// A fresh registry: it knows the two meta-event names, holds no
    /// listeners, and caps each list at `max_listeners` (ten by default).
    pub fn new(max_listeners: Option<u32>) -> (r: Self)
        ensures
            r@ == RegistryModel::initial(
                match max_listeners {
                    Some(m) => m as nat,
                    None => 10,
                },
            ),
            r@.wf(),
    {
        let max = match max_listeners {
            Some(m) => m,
            None => 10,
        };
        let mut events: Vec<String> = Vec::new();
        events.push("newListener".to_owned());
        events.push("removeListener".to_owned());
        let mut persistent: Vec<Vec<Listener>> = Vec::new();
        persistent.push(Vec::new());
        persistent.push(Vec::new());
        let mut once: Vec<Vec<Listener>> = Vec::new();
        once.push(Vec::new());
        once.push(Vec::new());
        let r = EventRegistry { max_listeners: max, events, persistent, once };
        proof {
            assert(r@.names =~= RegistryModel::initial(r@.max).names);
            assert(r@.persistent =~= RegistryModel::initial(r@.max).persistent);
            assert(r@.once =~= RegistryModel::initial(r@.max).once);
            assert(r@ =~= RegistryModel::initial(r@.max));
            reveal_strlit("newListener");
            reveal_strlit("removeListener");
            assert(new_listener_name().len() != remove_listener_name().len());
        }
        r
    }

    /// The position of `name` among the known events, if it is known.
    fn find_event(&self, name: &str) -> (r: Option<usize>)
        requires
            self@.wf(),
        ensures
            match r {
                Some(i) => {
                    &&& self@.known(name@)
                    &&& i < self@.names.len()
                    &&& i as int == self@.idx(name@)
                },
                None => !self@.known(name@),
            },
    {
        let n = self.events.len();
        let mut j: usize = 0;
        while j < n
            invariant
                0 <= j <= n,
                n == self.events@.len(),
                self@.wf(),
                forall|k: int| 0 <= k < j ==> self@.names[k] != name@,
            decreases n - j,
        {
            if str_eq(self.events[j].as_str(), name) {
                proof {
                    assert(self@.names[j as int] == name@);
                    assert(self@.known(name@));
                    let i = self@.idx(name@);
                    assert(0 <= i < self@.names.len() && self@.names[i] == name@);
                    assert(i == j as int);
                }
                return Some(j);
            }
            j = j + 1;
        }
        proof {
            assert(forall|k: int| 0 <= k < self@.names.len() ==> self@.names[k] != name@);
        }
        None
    }

    /// The number of persistent listeners registered for `name`.
    pub fn listener_count(&self, name: &str) -> (r: usize)
        requires
            self@.wf(),
        ensures
            r == self@.count(name@),
    {
        match self.find_event(name) {
            Some(i) => self.persistent[i].len(),
            None => 0,
        }
    }

    /// A snapshot copy of the persistent listeners for `name`, in list
    /// order; walking it never touches the registry.
    pub fn listeners(&self, name: &str) -> (r: Vec<Listener>)
        requires
            self@.wf(),
        ensures
            r@ == self@.persistent_of(name@),
    {
        let mut r: Vec<Listener> = Vec::new();
        match self.find_event(name) {
            Some(i) => {
                let n = self.persistent[i].len();
                let mut k: usize = 0;
                while k < n
                    invariant
                        0 <= k <= n,
                        self@.wf(),
                        i < self.persistent@.len(),
                        n == self.persistent@[i as int]@.len(),
                        r@ =~= self.persistent@[i as int]@.take(k as int),
                    decreases n - k,
                {
                    r.push(self.persistent[i][k]);
                    k = k + 1;
                }
                proof {
                    assert(r@ =~= self@.persistent_of(name@));
                }
                r
            },
            None => r,
        }
    }

    /// The known event names, in registration order.
    pub fn event_names(&self) -> (r: Vec<String>)
        ensures
            r@.map_values(|s: String| s@) == self@.names,
    {
        let n = self.events.len();
        let mut r: Vec<String> = Vec::new();
        let mut j: usize = 0;
        while j < n
            invariant
                0 <= j <= n,
                n == self.events@.len(),
                r@.len() == j,
                r@.map_values(|s: String| s@) =~= self@.names.take(j as int),
            decreases n - j,
        {
            let s = self.events[j].clone();
            r.push(s);
            proof {
                assert(s@ == self@.names[j as int]);
                assert(r@.map_values(|t: String| t@) =~= self@.names.take(j as int + 1));
            }
            j = j + 1;
        }
        proof {
            assert(r@.map_values(|s: String| s@) =~= self@.names);
        }
        r
    }

    /// The soft cap on the length of each listener list.
    pub fn get_max_listeners(&self) -> (r: u32)
        ensures
            r as nat == self@.max,
    {
        self.max_listeners
    }

    /// One emission of `name`.  The one-shot list is snapshotted and cleared
    /// at once, so nothing a listener does while the host walks the plan can
    /// make a one-shot listener fire twice.  Returns whether the plan
    /// reaches at least one listener, and the plan itself: the snapshotted
    /// one-shot listeners first, then the persistent ones, each in list
    /// order.  An unknown name reaches nobody and is not an error.
    pub fn emit(&mut self, name: &str) -> (r: (bool, Vec<Listener>))
        requires
            old(self)@.wf(),
        ensures
            final(self)@ == old(self)@.after_emit(name@),
            final(self)@.wf(),
            r.1@ == old(self)@.emitted(name@),
            r.0 == (old(self)@.emitted(name@).len() > 0),
    {
        match self.find_event(name) {
            None => {
                proof {
                    assert(old(self)@.emitted(name@) =~= Seq::<Listener>::empty());
                }
                (false, Vec::new())
            },
            Some(i) => {
                let ghost onc = self@.once[i as int];
                let mut plan: Vec<Listener> = Vec::new();
                let n1 = self.once[i].len();
                let mut k: usize = 0;
                while k < n1
                    invariant
                        0 <= k <= n1,
                        i < self.once@.len(),
                        n1 == self.once@[i as int]@.len(),
                        onc == self.once@[i as int]@,
                        plan@ == onc.take(k as int),
                    decreases n1 - k,
                {
                    plan.push(self.once[i][k]);
                    proof {
                        assert(plan@ =~= onc.take(k as int + 1));
                    }
                    k = k + 1;
                }
                self.once[i].clear();
                let n2 = self.persistent[i].len();
                let mut k2: usize = 0;
                while k2 < n2
                    invariant
                        0 <= k2 <= n2,
                        i < self.persistent@.len(),
                        n2 == self.persistent@[i as int]@.len(),
                        plan@ == onc + self.persistent@[i as int]@.take(k2 as int),
                    decreases n2 - k2,
                {
                    plan.push(self.persistent[i][k2]);
                    proof {
                        assert(plan@ =~= onc + self.persistent@[i as int]@.take(k2 as int + 1));
                    }
                    k2 = k2 + 1;
                }
                let fired = plan.len() > 0;
                proof {
                    assert(onc == onc.take(onc.len() as int));
                    assert(self.persistent@[i as int]@ == self.persistent@[i as int]@.take(n2 as int));
                    assert(plan@ =~= old(self)@.emitted(name@));
                    assert(self@.once =~= old(self)@.once.update(i as int, Seq::empty()));
                    assert(self@ =~= old(self)@.after_emit(name@));
                }
                (fired, plan)
            },
        }
    }

    /// A subscription of `listener` under `name`.  An unknown name, or a
    /// target list already at the cap, drops the request silently.  A taken
    /// persistent subscription first carries out the `newListener` emission
    /// — before the insertion, so the new listener never observes its own
    /// registration — and returns its plan; a one-shot subscription emits
    /// nothing.  With `prepend` the listener lands before all existing ones,
    /// otherwise at the back.
    pub fn subscribe(&mut self, name: &str, listener: Listener, once: bool, prepend: bool) -> (plan:
        Vec<Listener>)
        requires
            old(self)@.wf(),
        ensures
            final(self)@ == old(self)@.after_subscribe(name@, listener, once, prepend),
            final(self)@.wf(),
            plan@ == old(self)@.subscribe_plan(name@, once),
    {
        match self.find_event(name) {
            None => Vec::new(),
            Some(i) => {
                let cap = self.max_listeners as usize;
                if once {
                    if self.once[i].len() < cap {
                        if prepend {
                            self.once[i].insert(0, listener);
                        } else {
                            self.once[i].push(listener);
                        }
                        proof {
                            assert(inserted(old(self)@.once_of(name@), listener, prepend)
                                =~= self.once@[i as int]@);
                            assert(self@.once =~= old(self)@.once.update(
                                i as int,
                                inserted(old(self)@.once_of(name@), listener, prepend),
                            ));
                            assert(self@ =~= old(self)@.after_subscribe(
                                name@,
                                listener,
                                once,
                                prepend,
                            ));
                        }
                    } else {
                        proof {
                            assert(self@ =~= old(self)@.after_subscribe(
                                name@,
                                listener,
                                once,
                                prepend,
                            ));
                        }
                    }
                    Vec::new()
                } else {
                    if self.persistent[i].len() < cap {
                        let (_, plan) = self.emit("newListener");
                        let ghost mid = self@;
                        proof {
                            assert(mid == old(self)@.after_emit(new_listener_name()));
                            assert(mid.names == old(self)@.names);
                            assert(mid.idx(name@) == i as int);
                            assert(mid.persistent == old(self)@.persistent);
                        }
                        if prepend {
                            self.persistent[i].insert(0, listener);
                        } else {
                            self.persistent[i].push(listener);
                        }
                        proof {
                            assert(inserted(mid.persistent_of(name@), listener, prepend)
                                =~= self.persistent@[i as int]@);
                            assert(self@.persistent =~= mid.persistent.update(
                                i as int,
                                inserted(mid.persistent_of(name@), listener, prepend),
                            ));
                            assert(self@ =~= old(self)@.after_subscribe(
                                name@,
                                listener,
                                once,
                                prepend,
                            ));
                        }
                        plan
                    } else {
                        proof {
                            assert(self@ =~= old(self)@.after_subscribe(
                                name@,
                                listener,
                                once,
                                prepend,
                            ));
                        }
                        Vec::new()
                    }
                }
            },
        }
    }

    /// An unsubscription: the first persistent entry for `name` whose
    /// identity matches `listener` is removed, and the `removeListener`
    /// emission is then carried out; its plan is returned.  When nothing
    /// matches — one-shot listeners never do — nothing moves.
    pub fn unsubscribe(&mut self, name: &str, listener: Listener) -> (r: (bool, Vec<Listener>))
        requires
            old(self)@.wf(),
        ensures
            final(self)@ == old(self)@.after_unsubscribe(name@, listener),
            final(self)@.wf(),
            r.0 == old(self)@.unsubscribe_found(name@, listener),
            r.1@ == old(self)@.unsubscribe_plan(name@, listener),
    {
        match self.find_event(name) {
            None => (false, Vec::new()),
            Some(i) => {
                let n = self.persistent[i].len();
                let mut k: usize = 0;
                while k < n
                    invariant
                        0 <= k <= n,
                        self == old(self),
                        self@.wf(),
                        self@.known(name@),
                        i < self.persistent@.len(),
                        i as int == self@.idx(name@),
                        n == self.persistent@[i as int]@.len(),
                        self.persistent@[i as int]@ == self@.persistent_of(name@),
                        forall|j: int|
                            0 <= j < k ==> self.persistent@[i as int]@[j] != listener,
                    decreases n - k,
                {
                    if self.persistent[i][k] == listener {
                        proof {
                            lemma_first_match_at(
                                old(self)@.persistent_of(name@),
                                listener,
                                k as int,
                            );
                        }
                        self.persistent[i].remove(k);
                        proof {
                            assert(self@.persistent =~= old(self)@.persistent.update(
                                i as int,
                                old(self)@.persistent_of(name@).remove(k as int),
                            ));
                            assert(self@ =~= old(self)@.after_removal(name@, listener));
                        }
                        let (_, plan) = self.emit("removeListener");
                        return (true, plan);
                    }
                    k = k + 1;
                }
                proof {
                    lemma_first_match_none(old(self)@.persistent_of(name@), listener);
                }
                (false, Vec::new())
            },
        }
    }

    /// Clears the persistent list of one name, or of every known name when
    /// no name is given.  One-shot lists stay, and no meta-event is emitted
    /// by this bulk operation.
    pub fn unsubscribe_all(&mut self, name: Option<&str>)
        requires
            old(self)@.wf(),
        ensures
            final(self)@ == match name {
                Some(n) => old(self)@.after_clear_one(n@),
                None => old(self)@.after_clear_all(),
            },
            final(self)@.wf(),
    {
        match name {
            Some(n) => {
                match self.find_event(n) {
                    Some(i) => {
                        self.persistent[i].clear();
                        proof {
                            assert(self@.persistent =~= old(self)@.persistent.update(
                                i as int,
                                Seq::empty(),
                            ));
                            assert(self@ =~= old(self)@.after_clear_one(n@));
                        }
                    },
                    None => {},
                }
            },
            None => {
                let n = self.persistent.len();
                let mut j: usize = 0;
                while j < n
                    invariant
                        0 <= j <= n,
                        n == self.persistent@.len(),
                        self.events@ == old(self).events@,
                        self.once@ == old(self).once@,
                        self.max_listeners == old(self).max_listeners,
                        forall|k: int|
                            0 <= k < j ==> self.persistent@[k]@ == Seq::<Listener>::empty(),
                        forall|k: int|
                            j <= k < n ==> self.persistent@[k] == old(self).persistent@[k],
                    decreases n - j,
                {
                    self.persistent[j].clear();
                    j = j + 1;
                }
                proof {
                    assert(self@.persistent =~= old(self)@.after_clear_all().persistent);
                    assert(self@ =~= old(self)@.after_clear_all());
                }
            },
        }
    }

    /// Registers `name`, idempotently: a known name is left as it is, a new
    /// one gets empty persistent and one-shot lists.
    pub fn add_event(&mut self, name: &str)
        requires
            old(self)@.wf(),
        ensures
            final(self)@ == old(self)@.after_add_event(name@),
            final(self)@.wf(),
    {
        match self.find_event(name) {
            Some(_) => {},
            None => {
                self.events.push(name.to_owned());
                self.persistent.push(Vec::new());
                self.once.push(Vec::new());
                proof {
                    assert(self@.names =~= old(self)@.names.push(name@));
                    assert(self@.persistent =~= old(self)@.persistent.push(Seq::empty()));
                    assert(self@.once =~= old(self)@.once.push(Seq::empty()));
                    assert(self@ =~= old(self)@.after_add_event(name@));
                    assert forall|a: int, b: int|
                        0 <= a < b < self@.names.len() implies self@.names[a] != self@.names[b] by {
                        if b == self@.names.len() - 1 {
                            assert(!old(self)@.names.contains(name@));
                            assert(old(self)@.names[a] != name@);
                        }
                    }
                }
            },
        }
    }

    /// Teardown at the end of the registry's life: every held listener is
    /// released and all lists are dropped.
    pub fn teardown(&mut self)
        ensures
            final(self)@ == old(self)@.after_teardown(),
            final(self)@.wf(),
    {
        self.events.clear();
        self.persistent.clear();
        self.once.clear();
        proof {
            assert(self@.names =~= Seq::<Seq<char>>::empty());
            assert(self@.persistent =~= Seq::<Seq<Listener>>::empty());
            assert(self@.once =~= Seq::<Seq<Listener>>::empty());
            assert(self@ =~= old(self)@.after_teardown());
        }
    }

    /// Changes the cap.  A value outside the unsigned 32-bit range is
    /// ignored and the previous cap is kept.
    pub fn set_max_listeners(&mut self, n: i64)
        ensures
            final(self)@ == old(self)@.after_set_max(n as int),
    {
        if 0 <= n && n <= u32::MAX as i64 {
            self.max_listeners = n as u32;
            proof {
                assert(self@ =~= old(self)@.after_set_max(n as int));
            }
        } else {
            proof {
                assert(self@ =~= old(self)@.after_set_max(n as int));
            }
        }
    }
}

} // verus!
