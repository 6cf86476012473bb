//! The plugins of a session and the events they raise.
//!
//! Plugins are known by name, in the order in which they were registered,
//! and stanzas are offered to them in that order. What a plugin makes of a
//! stanza is the plugin's business: the registry takes the events it raised,
//! marks each with the plugin it came from, and queues them in the order of
//! their arrival. The application takes events from the queue, the next of
//! all or the next of one plugin; taking one plugin's event leaves the
//! others' where they were. A plugin that fails is noted, and nothing else
//! comes of it.

use vstd::prelude::*;
use crate::text::same_text;

verus! {

/// The texts of a list of strings.
pub open spec fn names_of(v: Seq<String>) -> Seq<Seq<char>> {
    Seq::new(v.len(), |i: int| v[i]@)
}

/// The plugins of a session, with the events that wait for the application
/// and the failures that were noted. `T` is what an event holds.
pub struct Registry<T> {
    names: Vec<String>,
    queue: Vec<(usize, T)>,
    faults: Vec<(usize, String)>,
}

impl<T> Registry<T> {
    /// The names of the plugins, in the order of registration.
    pub closed spec fn plugins(&self) -> Seq<Seq<char>> {
        names_of(self.names@)
    }

    /// The events that wait, oldest first, each with the number of the
    /// plugin that raised it.
    pub closed spec fn pending(&self) -> Seq<(usize, T)> {
        self.queue@
    }

    /// The failures that were noted, oldest first, each with the number of
    /// the plugin that failed.
    pub closed spec fn noted(&self) -> Seq<(usize, Seq<char>)> {
        Seq::new(self.faults@.len(), |i: int| (self.faults@[i].0, self.faults@[i].1@))
    }

    /// A registry without plugins.
    pub fn new() -> (r: Registry<T>)
        ensures
            r.plugins() == Seq::<Seq<char>>::empty(),
            r.pending() == Seq::<(usize, T)>::empty(),
            r.noted() == Seq::<(usize, Seq<char>)>::empty(),
    {
        let r = Registry { names: Vec::new(), queue: Vec::new(), faults: Vec::new() };
        assert(r.plugins() =~= Seq::<Seq<char>>::empty());
        assert(r.noted() =~= Seq::<(usize, Seq<char>)>::empty());
        r
    }

    /// The number of the plugin with this name, if it is registered.
    pub fn plugin(&self, name: &str) -> (r: Option<usize>)
        ensures
            match r {
                Some(id) => id < self.plugins().len() && self.plugins()[id as int] == name@
                    && forall|j: int| 0 <= j < id ==> self.plugins()[j] != name@,
                None => !self.plugins().contains(name@),
            },
    {
        let mut i: usize = 0;
        while i < self.names.len()
            invariant
                i <= self.names.len(),
                forall|j: int| 0 <= j < i ==> self.plugins()[j] != name@,
            decreases self.names.len() - i,
        {
            if same_text(self.names[i].as_str(), name) {
                return Some(i);
            }
            i = i + 1;
        }
        None
    }

    /// Registers a plugin under a name and gives its number: the next one.
    /// A name that is taken registers nothing.
    pub fn register(&mut self, name: &str) -> (r: Option<usize>)
        ensures
            final(self).pending() == old(self).pending(),
            final(self).noted() == old(self).noted(),
            match r {
                Some(id) => !old(self).plugins().contains(name@) && id == old(self).plugins().len()
                    && final(self).plugins() == old(self).plugins().push(name@),
                None => old(self).plugins().contains(name@) && final(self).plugins() == old(
                    self,
                ).plugins(),
            },
    {
        match self.plugin(name) {
            Some(_) => None,
            None => {
                let id = self.names.len();
                self.names.push(name.to_owned());
                assert(self.plugins() =~= old(self).plugins().push(name@));
                assert(self.noted() =~= old(self).noted());
                Some(id)
            },
        }
    }

    /// The number of plugins: stanzas are offered to the plugins `0`, `1`
    /// and so on below this number, in that order.
    pub fn count(&self) -> (r: usize)
        ensures
            r == self.plugins().len(),
    {
        self.names.len()
    }

    /// The name of a plugin.
    pub fn name_of(&self, id: usize) -> (r: Option<&str>)
        ensures
            match r {
                Some(name) => id < self.plugins().len() && name@ == self.plugins()[id as int],
                None => id >= self.plugins().len(),
            },
    {
        if id < self.names.len() {
            Some(self.names[id].as_str())
        } else {
            None
        }
    }

    /// Takes what a plugin made of a stanza: its events join the queue in
    /// their order, marked with the plugin's number; its failure is noted,
    /// and the queue stays as it is. What comes of a plugin that is not
    /// registered is dropped.
    pub fn handled(&mut self, origin: usize, outcome: Result<Vec<T>, String>) -> (accepted: bool)
        ensures
            final(self).plugins() == old(self).plugins(),
            accepted == (origin < old(self).plugins().len()),
            !accepted ==> final(self).pending() == old(self).pending() && final(self).noted()
                == old(self).noted(),
            accepted ==> match outcome {
                Ok(events) => final(self).pending() == old(self).pending() + Seq::new(
                    events@.len(),
                    |i: int| (origin, events@[i]),
                ) && final(self).noted() == old(self).noted(),
                Err(why) => final(self).pending() == old(self).pending() && final(self).noted()
                    == old(self).noted().push((origin, why@)),
            },
    {
        if origin >= self.names.len() {
            return false;
        }
        match outcome {
            Ok(events) => {
                let ghost all = events@;
                let total: usize = events.len();
                let mut rest = events;
                let mut moved: usize = 0;
                let ghost start = self.queue@;
                assert(start + Seq::new(0, |i: int| (origin, all[i])) =~= start);
                while rest.len() > 0
                    invariant
                        self.names == old(self).names,
                        self.faults == old(self).faults,
                        moved + rest@.len() == all.len(),
                        all.len() == total,
                        rest@ == all.skip(moved as int),
                        self.queue@ == start + Seq::new(moved as nat, |i: int| (origin, all[i])),
                    decreases rest.len(),
                {
                    let event = rest.remove(0);
                    self.queue.push((origin, event));
                    moved = moved + 1;
                    assert(rest@ =~= all.skip(moved as int));
                    assert(self.queue@ =~= start + Seq::new(
                        moved as nat,
                        |i: int| (origin, all[i]),
                    ));
                }
                true
            },
            Err(why) => {
                self.faults.push((origin, why));
                assert(self.noted() =~= old(self).noted().push((origin, why@)));
                true
            },
        }
    }

    /// Takes the oldest event that waits, whatever plugin raised it.
    pub fn next_event(&mut self) -> (r: Option<(usize, T)>)
        ensures
            final(self).plugins() == old(self).plugins(),
            final(self).noted() == old(self).noted(),
            match r {
                Some(event) => old(self).pending().len() > 0 && event == old(self).pending()[0]
                    && final(self).pending() == old(self).pending().drop_first(),
                None => old(self).pending().len() == 0 && final(self).pending() == old(
                    self,
                ).pending(),
            },
    {
        if self.queue.len() == 0 {
            None
        } else {
            let event = self.queue.remove(0);
            assert(self.queue@ =~= old(self).queue@.drop_first());
            Some(event)
        }
    }

    /// Takes the oldest event that one plugin raised. The events of the
    /// other plugins stay where they are; where that plugin has raised
    /// nothing that waits, nothing is taken.
    pub fn next_event_of(&mut self, origin: usize) -> (r: Option<T>)
        ensures
            final(self).plugins() == old(self).plugins(),
            final(self).noted() == old(self).noted(),
            match r {
                Some(event) => exists|i: int|
                    0 <= i < old(self).pending().len() && #[trigger] old(self).pending()[i] == (
                        origin,
                        event,
                    ) && (forall|j: int| 0 <= j < i ==> old(self).pending()[j].0 != origin)
                        && final(self).pending() == old(self).pending().remove(i),
                None => (forall|j: int|
                    0 <= j < old(self).pending().len() ==> old(self).pending()[j].0 != origin)
                    && final(self).pending() == old(self).pending(),
            },
    {
        let mut i: usize = 0;
        while i < self.queue.len()
            invariant
                i <= self.queue.len(),
                *self == *old(self),
                forall|j: int| 0 <= j < i ==> self.queue@[j].0 != origin,
            decreases self.queue.len() - i,
        {
            if self.queue[i].0 == origin {
                let event = self.queue.remove(i);
                assert(old(self).pending()[i as int] == (origin, event.1));
                return Some(event.1);
            }
            i = i + 1;
        }
        None
    }

    /// Takes the oldest failure that was noted.
    pub fn next_fault(&mut self) -> (r: Option<(usize, String)>)
        ensures
            final(self).plugins() == old(self).plugins(),
            final(self).pending() == old(self).pending(),
            match r {
                Some(fault) => old(self).noted().len() > 0 && (fault.0, fault.1@) == old(
                    self,
                ).noted()[0] && final(self).noted() == old(self).noted().drop_first(),
                None => old(self).noted().len() == 0 && final(self).noted() == old(self).noted(),
            },
    {
        if self.faults.len() == 0 {
            None
        } else {
            let fault = self.faults.remove(0);
            assert(self.noted() =~= old(self).noted().drop_first());
            Some(fault)
        }
    }
}

} // verus!
