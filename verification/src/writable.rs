//! The writable-stream state machine: cork/uncork depth, end/destroy
//! lifecycle, a buffered chunk queue with backpressure signalling, and one
//! embedded [`EventRegistry`] through which `finish`, `error`, `close` and
//! `drain` reach their subscribers.
//!
//! As in the registry, nothing is invoked here: operations that emit return
//! the ordered invocation plan and the embedding host runs it.  Chunks are
//! plain byte strings the host has marshalled; the stream runs in object
//! mode, so the buffered length counts chunks.

use vstd::prelude::*;

use crate::registry::EventRegistry;
use crate::registry::Listener;
use crate::registry::RegistryModel;
use crate::registry::new_listener_name;
use crate::registry::remove_listener_name;

verus! {

/// The stream's own event names, known to the embedded registry from
/// construction on.
pub open spec fn close_name() -> Seq<char> {
    "close"@
}

pub open spec fn drain_name() -> Seq<char> {
    "drain"@
}

pub open spec fn error_name() -> Seq<char> {
    "error"@
}

pub open spec fn finish_name() -> Seq<char> {
    "finish"@
}

pub open spec fn pipe_name() -> Seq<char> {
    "pipe"@
}

pub open spec fn unpipe_name() -> Seq<char> {
    "unpipe"@
}

/// All names a fresh stream's registry knows, in registration order: the
/// two meta-events first, then the six stream events.
pub open spec fn fixed_names() -> Seq<Seq<char>> {
    seq![
        new_listener_name(),
        remove_listener_name(),
        close_name(),
        drain_name(),
        error_name(),
        finish_name(),
        pipe_name(),
        unpipe_name(),
    ]
}

/// The eight fixed names are pairwise distinct.
pub proof fn lemma_fixed_names_distinct()
    ensures
        forall|i: int, j: int|
            0 <= i < j < fixed_names().len() ==> fixed_names()[i] != fixed_names()[j],
{
    reveal_strlit("newListener");
    reveal_strlit("removeListener");
    reveal_strlit("close");
    reveal_strlit("drain");
    reveal_strlit("error");
    reveal_strlit("finish");
    reveal_strlit("pipe");
    reveal_strlit("unpipe");
    assert(new_listener_name().len() == 11);
    assert(remove_listener_name().len() == 14);
    assert(close_name().len() == 5);
    assert(drain_name().len() == 5);
    assert(error_name().len() == 5);
    assert(finish_name().len() == 6);
    assert(pipe_name().len() == 4);
    assert(unpipe_name().len() == 6);
    assert(close_name()[0] == 'c' && drain_name()[0] == 'd' && error_name()[0] == 'e');
    assert(finish_name()[0] == 'f' && unpipe_name()[0] == 'u');
}

/// The mathematical state of a writable stream.
#[verifier::ext_equal]
pub ghost struct WritableModel {
    pub registry: RegistryModel,
    pub cork_depth: nat,
    pub ended: bool,
    pub destroyed: bool,
    pub closed: bool,
    pub high_water_mark: nat,
    pub buffer: Seq<Seq<u8>>,
    pub error: Option<Seq<char>>,
    pub encoding: Seq<char>,
}

impl WritableModel {
    /// The embedded registry is well-formed and knows the fixed names, so
    /// the stream's own emissions always find their lists.
    pub open spec fn wf(self) -> bool {
        &&& self.registry.wf()
        &&& forall|i: int| 0 <= i < fixed_names().len() ==> self.registry.known(#[trigger] fixed_names()[i])
    }

    /// The registry a fresh stream embeds: cap ten, the fixed names, no
    /// listeners.
    pub open spec fn initial_registry() -> RegistryModel {
        RegistryModel {
            max: 10,
            names: fixed_names(),
            persistent: Seq::new(fixed_names().len(), |i: int| Seq::empty()),
            once: Seq::new(fixed_names().len(), |i: int| Seq::empty()),
        }
    }

    /// A fresh stream: all flags down, cork depth zero, an empty buffer, the
    /// default high-water mark of ten, and no recorded error.
    pub open spec fn initial() -> WritableModel {
        WritableModel {
            registry: Self::initial_registry(),
            cork_depth: 0,
            ended: false,
            destroyed: false,
            closed: false,
            high_water_mark: 10,
            buffer: Seq::empty(),
            error: None,
            encoding: Seq::empty(),
        }
    }

    /// Backpressure: the caller should pause once more chunks are buffered
    /// than the high-water mark allows.
    pub open spec fn need_drain(self) -> bool {
        self.buffer.len() > self.high_water_mark
    }

    /// Whether the stream still takes chunks at all.
    pub open spec fn write_accepted(self) -> bool {
        !(self.destroyed || self.closed || self.ended)
    }

    pub open spec fn after_cork(self) -> WritableModel {
        WritableModel { cork_depth: self.cork_depth + 1, ..self }
    }

    /// Uncorking never drives the depth below zero.
    pub open spec fn after_uncork(self) -> WritableModel {
        if self.cork_depth > 0 {
            WritableModel { cork_depth: (self.cork_depth - 1) as nat, ..self }
        } else {
            self
        }
    }

    /// A taken write queues its chunk; a refused one changes nothing.
    pub open spec fn after_write(self, chunk: Seq<u8>) -> WritableModel {
        if self.write_accepted() {
            WritableModel { buffer: self.buffer.push(chunk), ..self }
        } else {
            self
        }
    }

    /// Ending the stream: a first `end` queues the optional final chunk
    /// (unless the stream can no longer take one), raises `ended` for good
    /// and carries out the `finish` emission.  Any further `end` is a no-op.
    pub open spec fn after_end(self, chunk: Option<Seq<u8>>) -> WritableModel {
        if self.ended {
            self
        } else {
            let buf = if chunk is Some && !self.destroyed && !self.closed {
                self.buffer.push(chunk.unwrap())
            } else {
                self.buffer
            };
            WritableModel {
                buffer: buf,
                ended: true,
                registry: self.registry.after_emit(finish_name()),
                ..self
            }
        }
    }

    /// The `finish` plan a first `end` returns; a repeated `end` returns
    /// nothing.
    pub open spec fn end_plan(self) -> Seq<Listener> {
        if self.ended {
            Seq::empty()
        } else {
            self.registry.emitted(finish_name())
        }
    }

    /// Destroying the stream, once: both terminal flags go up, the error (if
    /// any) is recorded, and the `error` emission (only when an error is
    /// given) and then the `close` emission are carried out.  A destroyed
    /// stream ignores further `destroy` calls.
    pub open spec fn after_destroy(self, err: Option<Seq<char>>) -> WritableModel {
        if self.destroyed {
            self
        } else {
            let reg = if err is Some {
                self.registry.after_emit(error_name())
            } else {
                self.registry
            };
            WritableModel {
                destroyed: true,
                closed: true,
                error: err,
                registry: reg.after_emit(close_name()),
                ..self
            }
        }
    }

    /// The `error` plan of a first destroy with an error; empty otherwise.
    pub open spec fn destroy_error_plan(self, err: Option<Seq<char>>) -> Seq<Listener> {
        if !self.destroyed && err is Some {
            self.registry.emitted(error_name())
        } else {
            Seq::empty()
        }
    }

    /// The `close` plan of a first destroy; empty on a repeat.
    pub open spec fn destroy_close_plan(self, err: Option<Seq<char>>) -> Seq<Listener> {
        if self.destroyed {
            Seq::empty()
        } else if err is Some {
            self.registry.after_emit(error_name()).emitted(close_name())
        } else {
            self.registry.emitted(close_name())
        }
    }

    /// Whether a flush does anything: draining is the embedding caller's to
    /// arrange, and only an uncorked, undestroyed, unclosed stream drains.
    pub open spec fn flush_active(self) -> bool {
        !self.destroyed && !self.closed && self.cork_depth == 0
    }

    /// Flushing empties the queue; when the queue was over the high-water
    /// mark — so it falls back under it — the `drain` emission is carried
    /// out.
    pub open spec fn after_flush(self) -> WritableModel {
        if self.flush_active() {
            WritableModel {
                buffer: Seq::empty(),
                registry: if self.need_drain() {
                    self.registry.after_emit(drain_name())
                } else {
                    self.registry
                },
                ..self
            }
        } else {
            self
        }
    }

    /// The chunks a flush hands back for processing, in write order.
    pub open spec fn flush_chunks(self) -> Seq<Seq<u8>> {
        if self.flush_active() {
            self.buffer
        } else {
            Seq::empty()
        }
    }

    /// The `drain` plan of a flush that crossed back under the high-water
    /// mark; empty otherwise.
    pub open spec fn flush_plan(self) -> Seq<Listener> {
        if self.flush_active() && self.need_drain() {
            self.registry.emitted(drain_name())
        } else {
            Seq::empty()
        }
    }
}

/// The refusal a write against an ended, destroyed or closed stream gets.
#[derive(Clone, Copy, PartialEq, Eq, Structural, Debug)]
pub struct StreamClosed;

/// The writable stream.  Its behaviour is pinned by the ghost
/// [`WritableModel`] it views to.
pub struct Writable {
    registry: EventRegistry,
    cork_depth: u64,
    ended: bool,
    destroyed: bool,
    closed: bool,
    high_water_mark: usize,
    buffer: Vec<Vec<u8>>,
    error: Option<String>,
    default_encoding: String,
}

impl View for Writable {
    type V = WritableModel;

    closed spec fn view(&self) -> WritableModel {
        WritableModel {
            registry: self.registry@,
            cork_depth: self.cork_depth as nat,
            ended: self.ended,
            destroyed: self.destroyed,
            closed: self.closed,
            high_water_mark: self.high_water_mark as nat,
            buffer: self.buffer@.map_values(|v: Vec<u8>| v@),
            error: match self.error {
                Some(s) => Some(s@),
                None => None,
            },
            encoding: self.default_encoding@,
        }
    }
}

impl Writable {
    /// A fresh stream with the default settings.
    pub fn new() -> (r: Self)
        ensures
            r@ == WritableModel::initial(),
            r@.wf(),
    {
        let mut registry = EventRegistry::new(Some(10));
        proof {
            lemma_fixed_names_distinct();
        }
        registry.add_event("close");
        registry.add_event("drain");
        registry.add_event("error");
        registry.add_event("finish");
        registry.add_event("pipe");
        registry.add_event("unpipe");
        proof {
            assert(registry@.names =~= fixed_names());
            assert(registry@.persistent =~= WritableModel::initial_registry().persistent);
            assert(registry@.once =~= WritableModel::initial_registry().once);
            assert(registry@ =~= WritableModel::initial_registry());
        }
        let r = Writable {
            registry,
            cork_depth: 0,
            ended: false,
            destroyed: false,
            closed: false,
            high_water_mark: 10,
            buffer: Vec::new(),
            error: None,
            default_encoding: String::new(),
        };
        proof {
            assert(r@.buffer =~= Seq::<Seq<u8>>::empty());
            assert(r@ =~= WritableModel::initial());
            assert forall|i: int| 0 <= i < fixed_names().len() implies r@.registry.known(
                #[trigger] fixed_names()[i],
            ) by {
                assert(r@.registry.names[i] == fixed_names()[i]);
            }
        }
        r
    }

    /// Asks that writes be buffered rather than processed.  Depths nest: a
    /// matching number of `uncork` calls restores processing.
    pub fn cork(&mut self)
        requires
            old(self)@.cork_depth < u64::MAX,
        ensures
            final(self)@ == old(self)@.after_cork(),
    {
        self.cork_depth = self.cork_depth + 1;
        proof {
            assert(self@ =~= old(self)@.after_cork());
        }
    }

    /// Takes one cork level back; at depth zero it does nothing.
    pub fn uncork(&mut self)
        ensures
            final(self)@ == old(self)@.after_uncork(),
    {
        if self.cork_depth > 0 {
            self.cork_depth = self.cork_depth - 1;
            proof {
                assert(self@ =~= old(self)@.after_uncork());
            }
        } else {
            proof {
                assert(self@ =~= old(self)@.after_uncork());
            }
        }
    }

    /// Queues one chunk.  A stream that is ended, destroyed or closed
    /// refuses the chunk instead of silently accepting it.  `Ok(true)` says
    /// the caller may keep writing, `Ok(false)` that the buffered length is
    /// past the high-water mark and the caller should pause.  Any completion
    /// callback is the embedding host's to invoke once this returns.
    pub fn write(&mut self, chunk: Vec<u8>, _encoding: Option<String>) -> (r: Result<
        bool,
        StreamClosed,
    >)
        requires
            old(self)@.wf(),
        ensures
            final(self)@ == old(self)@.after_write(chunk@),
            final(self)@.wf(),
            r is Ok <==> old(self)@.write_accepted(),
            r matches Ok(ok) ==> ok == !final(self)@.need_drain(),
    {
        if self.destroyed || self.closed || self.ended {
            return Err(StreamClosed);
        }
        self.buffer.push(chunk);
        proof {
            assert(self@.buffer =~= old(self)@.buffer.push(chunk@));
            assert(self@ =~= old(self)@.after_write(chunk@));
        }
        Ok(self.buffer.len() <= self.high_water_mark)
    }

    /// Ends the stream: queues the optional final chunk (when the stream
    /// can still take one), raises `ended` for good, and returns the plan of
    /// the one `finish` emission.  Repeated calls do nothing and return the
    /// empty plan; any completion callback is the host's to invoke before it
    /// runs the plan.
    pub fn end(&mut self, chunk: Option<Vec<u8>>, _encoding: Option<String>) -> (plan: Vec<
        Listener,
    >)
        requires
            old(self)@.wf(),
        ensures
            final(self)@ == old(self)@.after_end(
                match chunk {
                    Some(c) => Some(c@),
                    None => None,
                },
            ),
            final(self)@.wf(),
            plan@ == old(self)@.end_plan(),
    {
        let ghost c = match &chunk {
            Some(c) => Some(c@),
            None => None,
        };
        if self.ended {
            return Vec::new();
        }
        match chunk {
            Some(data) => {
                if !self.destroyed && !self.closed {
                    self.buffer.push(data);
                    proof {
                        assert(self@.buffer =~= old(self)@.buffer.push(c.unwrap()));
                    }
                }
            },
            None => {},
        }
        self.ended = true;
        let (_, plan) = self.registry.emit("finish");
        proof {
            assert(self@ =~= old(self)@.after_end(c));
        }
        plan
    }

    /// Destroys the stream, terminally: no operation revives it.  The first
    /// call records the error (if one is given) and returns the plans of the
    /// `error` emission — carried out only when an error is given — and then
    /// of the `close` emission.  Later calls do nothing.
    pub fn destroy(&mut self, error: Option<String>) -> (r: (Vec<Listener>, Vec<Listener>))
        requires
            old(self)@.wf(),
        ensures
            final(self)@ == old(self)@.after_destroy(
                match error {
                    Some(s) => Some(s@),
                    None => None,
                },
            ),
            final(self)@.wf(),
            r.0@ == old(self)@.destroy_error_plan(
                match error {
                    Some(s) => Some(s@),
                    None => None,
                },
            ),
            r.1@ == old(self)@.destroy_close_plan(
                match error {
                    Some(s) => Some(s@),
                    None => None,
                },
            ),
    {
        let ghost e = match &error {
            Some(s) => Some(s@),
            None => None,
        };
        if self.destroyed {
            return (Vec::new(), Vec::new());
        }
        self.destroyed = true;
        self.closed = true;
        let has_error = error.is_some();
        self.error = error;
        let mut error_plan: Vec<Listener> = Vec::new();
        if has_error {
            let (_, p) = self.registry.emit("error");
            error_plan = p;
        }
        let (_, close_plan) = self.registry.emit("close");
        proof {
            assert(self@ =~= old(self)@.after_destroy(e));
        }
        (error_plan, close_plan)
    }

    /// Hands the queued chunks out for processing, oldest first, when the
    /// stream is uncorked and alive; a corked, destroyed or closed stream
    /// keeps its queue.  When the queue was over the high-water mark — so it
    /// now falls back under it — the returned plan carries the one `drain`
    /// emission.  Draining is never autonomous: the embedding caller decides
    /// when to flush.
    pub fn flush(&mut self) -> (r: (Vec<Vec<u8>>, Vec<Listener>))
        requires
            old(self)@.wf(),
        ensures
            final(self)@ == old(self)@.after_flush(),
            final(self)@.wf(),
            r.0@.map_values(|v: Vec<u8>| v@) == old(self)@.flush_chunks(),
            r.1@ == old(self)@.flush_plan(),
    {
        if self.destroyed || self.closed || self.cork_depth > 0 {
            let none: Vec<Vec<u8>> = Vec::new();
            proof {
                assert(old(self)@.flush_chunks() =~= Seq::<Seq<u8>>::empty());
                assert(none@.map_values(|v: Vec<u8>| v@) =~= Seq::<Seq<u8>>::empty());
            }
            return (none, Vec::new());
        }
        let was_over = self.buffer.len() > self.high_water_mark;
        let chunks = self.buffer.split_off(0);
        proof {
            assert(chunks@ =~= old(self).buffer@);
            assert(self@.buffer =~= Seq::<Seq<u8>>::empty());
        }
        let mut plan: Vec<Listener> = Vec::new();
        if was_over {
            let (_, p) = self.registry.emit("drain");
            plan = p;
        }
        proof {
            assert(self@ =~= old(self)@.after_flush());
        }
        (chunks, plan)
    }

    /// Stores the default encoding name; it is informational only and does
    /// not bear on object-mode buffering.
    pub fn set_default_encoding(&mut self, encoding: String)
        ensures
            final(self)@ == (WritableModel { encoding: encoding@, ..old(self)@ }),
    {
        self.default_encoding = encoding;
        proof {
            assert(self@ =~= (WritableModel { encoding: self.default_encoding@, ..old(self)@ }));
        }
    }

    /// Whether the stream has been closed.
    pub fn closed(&self) -> (r: bool)
        ensures
            r == self@.closed,
    {
        self.closed
    }

    /// Whether the stream has been destroyed.
    pub fn destroyed(&self) -> (r: bool)
        ensures
            r == self@.destroyed,
    {
        self.destroyed
    }

    /// Whether the stream still accepts operations at all.
    pub fn writable(&self) -> (r: bool)
        ensures
            r == !(self@.destroyed || self@.closed),
    {
        !(self.destroyed || self.closed)
    }

    /// Whether `end` has been called.
    pub fn writable_ended(&self) -> (r: bool)
        ensures
            r == self@.ended,
    {
        self.ended
    }

    /// Whether the stream has finished; with no autonomous draining this
    /// coincides with `writable_ended`.
    pub fn writable_finished(&self) -> (r: bool)
        ensures
            r == self@.ended,
    {
        self.ended
    }

    /// The current cork depth.
    pub fn writable_corked(&self) -> (r: u64)
        ensures
            r as nat == self@.cork_depth,
    {
        self.cork_depth
    }

    /// The error a destroy recorded, if any.
    pub fn errored(&self) -> (r: &Option<String>)
        ensures
            match r {
                Some(s) => self@.error == Some(s@),
                None => self@.error is None,
            },
    {
        &self.error
    }

    /// The configured high-water mark.
    pub fn writable_high_water_mark(&self) -> (r: usize)
        ensures
            r as nat == self@.high_water_mark,
    {
        self.high_water_mark
    }

    /// How many chunks are buffered.
    pub fn writable_length(&self) -> (r: usize)
        ensures
            r as nat == self@.buffer.len(),
    {
        self.buffer.len()
    }

    /// True exactly when more chunks are buffered than the high-water mark
    /// allows.
    pub fn writable_need_drain(&self) -> (r: bool)
        ensures
            r == self@.need_drain(),
    {
        self.buffer.len() > self.high_water_mark
    }

    /// This stream buffers whole chunks, always.
    pub fn writable_object_mode(&self) -> (r: bool)
        ensures
            r == true,
    {
        true
    }

    /// Subscribes `listener` under `name` on the embedded registry; see
    /// [`EventRegistry::subscribe`].  The stream's own state is untouched.
    pub fn subscribe(&mut self, name: &str, listener: Listener, once: bool, prepend: bool) -> (plan:
        Vec<Listener>)
        requires
            old(self)@.wf(),
        ensures
            final(self)@ == (WritableModel {
                registry: old(self)@.registry.after_subscribe(name@, listener, once, prepend),
                ..old(self)@
            }),
            final(self)@.wf(),
            plan@ == old(self)@.registry.subscribe_plan(name@, once),
    {
        let plan = self.registry.subscribe(name, listener, once, prepend);
        proof {
            old(self)@.registry.lemma_subscribe_effects(name@, listener, once, prepend);
            assert(self@ =~= (WritableModel {
                registry: old(self)@.registry.after_subscribe(name@, listener, once, prepend),
                ..old(self)@
            }));
        }
        plan
    }

    /// Unsubscribes `listener` from `name` on the embedded registry; see
    /// [`EventRegistry::unsubscribe`].
    pub fn unsubscribe(&mut self, name: &str, listener: Listener) -> (r: (bool, Vec<Listener>))
        requires
            old(self)@.wf(),
        ensures
            final(self)@ == (WritableModel {
                registry: old(self)@.registry.after_unsubscribe(name@, listener),
                ..old(self)@
            }),
            final(self)@.wf(),
            r.0 == old(self)@.registry.unsubscribe_found(name@, listener),
            r.1@ == old(self)@.registry.unsubscribe_plan(name@, listener),
    {
        let r = self.registry.unsubscribe(name, listener);
        proof {
            old(self)@.registry.lemma_unsubscribe_effects(name@, listener);
            assert(self@ =~= (WritableModel {
                registry: old(self)@.registry.after_unsubscribe(name@, listener),
                ..old(self)@
            }));
        }
        r
    }

    /// Clears persistent listeners on the embedded registry; see
    /// [`EventRegistry::unsubscribe_all`].
    pub fn unsubscribe_all(&mut self, name: Option<&str>)
        requires
            old(self)@.wf(),
        ensures
            final(self)@ == (WritableModel {
                registry: match name {
                    Some(n) => old(self)@.registry.after_clear_one(n@),
                    None => old(self)@.registry.after_clear_all(),
                },
                ..old(self)@
            }),
            final(self)@.wf(),
    {
        self.registry.unsubscribe_all(name);
        proof {
            assert(self@ =~= (WritableModel {
                registry: match name {
                    Some(n) => old(self)@.registry.after_clear_one(n@),
                    None => old(self)@.registry.after_clear_all(),
                },
                ..old(self)@
            }));
            assert(self@.registry.names == old(self)@.registry.names);
        }
    }

    /// One emission of `name` through the embedded registry; see
    /// [`EventRegistry::emit`].
    pub fn emit(&mut self, name: &str) -> (r: (bool, Vec<Listener>))
        requires
            old(self)@.wf(),
        ensures
            final(self)@ == (WritableModel {
                registry: old(self)@.registry.after_emit(name@),
                ..old(self)@
            }),
            final(self)@.wf(),
            r.1@ == old(self)@.registry.emitted(name@),
            r.0 == (old(self)@.registry.emitted(name@).len() > 0),
    {
        let r = self.registry.emit(name);
        proof {
            assert(self@ =~= (WritableModel {
                registry: old(self)@.registry.after_emit(name@),
                ..old(self)@
            }));
        }
        r
    }

    /// The number of persistent listeners for `name`.
    pub fn listener_count(&self, name: &str) -> (r: usize)
        requires
            self@.wf(),
        ensures
            r == self@.registry.count(name@),
    {
        self.registry.listener_count(name)
    }

    /// A snapshot copy of the persistent listeners for `name`.
    pub fn listeners(&self, name: &str) -> (r: Vec<Listener>)
        requires
            self@.wf(),
        ensures
            r@ == self@.registry.persistent_of(name@),
    {
        self.registry.listeners(name)
    }

    /// The known event names, in registration order.
    pub fn event_names(&self) -> (r: Vec<String>)
        ensures
            r@.map_values(|s: String| s@) == self@.registry.names,
    {
        self.registry.event_names()
    }

    /// The embedded registry's listener cap.
    pub fn get_max_listeners(&self) -> (r: u32)
        ensures
            r as nat == self@.registry.max,
    {
        self.registry.get_max_listeners()
    }

    /// Teardown at the end of the stream's life: the embedded registry
    /// releases every held listener and drops its lists.  Safe to call
    /// exactly once; nothing meaningful can be emitted afterwards.
    pub fn teardown(&mut self)
        ensures
            final(self)@ == (WritableModel {
                registry: old(self)@.registry.after_teardown(),
                ..old(self)@
            }),
    {
        self.registry.teardown();
        proof {
            assert(self@ =~= (WritableModel {
                registry: old(self)@.registry.after_teardown(),
                ..old(self)@
            }));
        }
    }

    /// Changes the embedded registry's listener cap; out-of-range values are
    /// ignored.
    pub fn set_max_listeners(&mut self, n: i64)
        requires
            old(self)@.wf(),
        ensures
            final(self)@ == (WritableModel {
                registry: old(self)@.registry.after_set_max(n as int),
                ..old(self)@
            }),
            final(self)@.wf(),
    {
        self.registry.set_max_listeners(n);
        proof {
            assert(self@ =~= (WritableModel {
                registry: old(self)@.registry.after_set_max(n as int),
                ..old(self)@
            }));
        }
    }
}

} // verus!
