//! Component health signals: a registry that components report their
//! state, criticality, metrics and last error to, and that monitors query.

use vstd::prelude::*;
use crate::lib5250::telnet::{first_index, insert_entry, lemma_first_index, lookup};
use crate::monitoring::integration_monitor::ComponentState;
use crate::text::{str_equal, str_to_string};

verus! {

/// What a component last reported.
#[derive(Debug)]
pub struct ComponentSignal {
    pub state: ComponentState,
    pub is_critical: bool,
    pub last_error: Option<String>,
    /// (name, value) metric pairs, each name once, in the order first set.
    pub metrics: Vec<(String, String)>,
}

/// A signal as plain values: state, criticality, last error and metrics.
pub type SignalView = (ComponentState, bool, Option<Seq<char>>, Seq<(Seq<char>, Seq<char>)>);

/// The text pairs of a list of string pairs.
pub open spec fn pair_views(v: Seq<(String, String)>) -> Seq<(Seq<char>, Seq<char>)> {
    v.map_values(|p: (String, String)| (p.0@, p.1@))
}

/// The text of an optional string.
pub open spec fn opt_view(o: Option<String>) -> Option<Seq<char>> {
    match o {
        Some(s) => Some(s@),
        None => None,
    }
}

impl ComponentSignal {
    /// The signal as plain values.
    pub open spec fn view_of(&self) -> SignalView {
        (self.state, self.is_critical, opt_view(self.last_error), pair_views(self.metrics@))
    }

    /// A component that reported nothing yet: running, not critical, no
    /// error, no metrics.
    pub fn new_default() -> (r: Self)
        ensures
            r.view_of() == default_signal(),
    {
        let r = ComponentSignal { state: ComponentState::Running, is_critical: false, last_error: None, metrics: Vec::new() };
        assert(pair_views(r.metrics@) =~= Seq::<(Seq<char>, Seq<char>)>::empty());
        r
    }

    /// A copy with the same contents.
    pub fn duplicate(&self) -> (r: Self)
        ensures
            r.view_of() == self.view_of(),
    {
        let mut metrics: Vec<(String, String)> = Vec::new();
        let mut i: usize = 0;
        while i < self.metrics.len()
            invariant
                i <= self.metrics@.len(),
                pair_views(metrics@) == pair_views(self.metrics@.take(i as int)),
            decreases self.metrics@.len() - i,
        {
            let k = str_to_string(self.metrics[i].0.as_str());
            let v = str_to_string(self.metrics[i].1.as_str());
            let ghost before = metrics@;
            let ghost pv = (k@, v@);
            metrics.push((k, v));
            proof {
                assert(self.metrics@.take(i + 1) =~= self.metrics@.take(i as int).push(self.metrics@[i as int]));
                assert(pair_views(metrics@) =~= pair_views(before).push(pv));
                assert(pair_views(metrics@) =~= pair_views(self.metrics@.take(i + 1)));
            }
            i = i + 1;
        }
        assert(self.metrics@.take(i as int) =~= self.metrics@);
        let last_error = match &self.last_error {
            Some(e) => Some(str_to_string(e.as_str())),
            None => None,
        };
        ComponentSignal { state: self.state, is_critical: self.is_critical, last_error, metrics }
    }
}

/// The signal of a component that reported nothing yet.
pub open spec fn default_signal() -> SignalView {
    (ComponentState::Running, false, None, Seq::empty())
}

/// The signal a component has in a registry, or the default.
pub open spec fn signal_or_default(s: Seq<(Seq<char>, SignalView)>, name: Seq<char>) -> SignalView {
    match lookup(s, name) {
        Some(v) => v,
        None => default_signal(),
    }
}

/// The registry after changing one component's signal.
pub open spec fn with_signal(s: Seq<(Seq<char>, SignalView)>, name: Seq<char>, v: SignalView) -> Seq<(Seq<char>, SignalView)> {
    insert_entry(s, name, v)
}

/// The signals of all components, each name once, in the order the
/// components first reported.
#[derive(Debug)]
pub struct SignalRegistry {
    entries: Vec<(String, ComponentSignal)>,
}

impl SignalRegistry {
    /// The signals as plain values.
    pub closed spec fn signals(&self) -> Seq<(Seq<char>, SignalView)> {
        self.entries@.map_values(|e: (String, ComponentSignal)| (e.0@, e.1.view_of()))
    }

    /// An empty registry.
    pub fn new() -> (r: Self)
        ensures
            r.signals() == Seq::<(Seq<char>, SignalView)>::empty(),
    {
        let r = SignalRegistry { entries: Vec::new() };
        assert(r.signals() =~= Seq::<(Seq<char>, SignalView)>::empty());
        r
    }

    /// Where the component's entry is, if it has one.
    fn find(&self, name: &str) -> (r: Option<usize>)
        ensures
            match r {
                Some(i) => i as int == first_index(self.signals(), name@) && i < self.entries@.len(),
                None => first_index(self.signals(), name@) == -1,
            },
    {
        let ghost s = self.signals();
        let mut i: usize = 0;
        while i < self.entries.len()
            invariant
                s == self.signals(),
                s.len() == self.entries@.len(),
                i <= self.entries@.len(),
                forall|j: int| 0 <= j < i ==> s[j].0 != name@,
            decreases self.entries@.len() - i,
        {
            if str_equal(self.entries[i].0.as_str(), name) {
                proof {
                    lemma_first_index(s, name@, i as int);
                }
                return Some(i);
            }
            i = i + 1;
        }
        proof {
            lemma_first_index(s, name@, i as int);
        }
        None
    }

    /// Take the component's signal out (or a default one) to change it.
    fn take_signal(&mut self, name: &str) -> (r: (Option<usize>, ComponentSignal))
        ensures
            r.1.view_of() == signal_or_default(old(self).signals(), name@),
            match r.0 {
                Some(i) => i as int == first_index(old(self).signals(), name@)
                    && final(self).entries@ == old(self).entries@.remove(i as int),
                None => first_index(old(self).signals(), name@) == -1 && final(self).entries@ == old(self).entries@,
            },
    {
        match self.find(name) {
            Some(i) => {
                let (_, sig) = self.entries.remove(i);
                (Some(i), sig)
            },
            None => (None, ComponentSignal::new_default()),
        }
    }

    /// Put a changed signal back where it was (or at the end).
    fn put_signal(&mut self, name: &str, at: Option<usize>, sig: ComponentSignal)
        requires
            match at {
                Some(i) => i <= old(self).entries@.len(),
                None => true,
            },
        ensures
            final(self).entries@.len() == old(self).entries@.len() + 1,
            match at {
                Some(i) => final(self).signals() == old(self).signals().insert(i as int, (name@, sig.view_of())),
                None => final(self).signals() == old(self).signals().push((name@, sig.view_of())),
            },
    {
        let ghost v = (name@, sig.view_of());
        match at {
            Some(i) => {
                self.entries.insert(i, (str_to_string(name), sig));
                assert(self.signals() =~= old(self).signals().insert(i as int, v));
            },
            None => {
                self.entries.push((str_to_string(name), sig));
                assert(self.signals() =~= old(self).signals().push(v));
            },
        }
    }

    /// Taking an entry out and putting it back changed is setting it.
    proof fn lemma_replace(s: Seq<(Seq<char>, SignalView)>, name: Seq<char>, i: int, v: SignalView)
        requires
            i == first_index(s, name),
            0 <= i < s.len(),
        ensures
            s.remove(i).insert(i, (name, v)) == with_signal(s, name, v),
    {
        assert(s.remove(i).insert(i, (name, v)) =~= s.update(i, (name, v)));
    }

    /// Record a component's state.
    pub fn set_component_status(&mut self, name: &str, state: ComponentState)
        ensures
            final(self).signals() == with_signal(old(self).signals(), name@, ({
                let v = signal_or_default(old(self).signals(), name@);
                (state, v.1, v.2, v.3)
            })),
    {
        let (at, mut sig) = self.take_signal(name);
        proof {
            if let Some(i) = at {
                assert(self.signals() =~= old(self).signals().remove(i as int));
            }
        }
        sig.state = state;
        self.put_signal(name, at, sig);
        proof {
            if let Some(i) = at {
                Self::lemma_replace(old(self).signals(), name@, i as int, sig.view_of());
            }
        }
    }

    /// Record whether a component is critical.
    pub fn set_component_critical(&mut self, name: &str, is_critical: bool)
        ensures
            final(self).signals() == with_signal(old(self).signals(), name@, ({
                let v = signal_or_default(old(self).signals(), name@);
                (v.0, is_critical, v.2, v.3)
            })),
    {
        let (at, mut sig) = self.take_signal(name);
        proof {
            if let Some(i) = at {
                assert(self.signals() =~= old(self).signals().remove(i as int));
            }
        }
        sig.is_critical = is_critical;
        self.put_signal(name, at, sig);
        proof {
            if let Some(i) = at {
                Self::lemma_replace(old(self).signals(), name@, i as int, sig.view_of());
            }
        }
    }

    /// Record a metric of a component (a metric set again is replaced).
    pub fn set_component_metric(&mut self, name: &str, key: &str, value: &str)
        ensures
            final(self).signals() == with_signal(old(self).signals(), name@, ({
                let v = signal_or_default(old(self).signals(), name@);
                (v.0, v.1, v.2, insert_entry(v.3, key@, value@))
            })),
    {
        let (at, mut sig) = self.take_signal(name);
        proof {
            if let Some(i) = at {
                assert(self.signals() =~= old(self).signals().remove(i as int));
            }
        }
        let ghost m = pair_views(sig.metrics@);
        let mut found: Option<usize> = None;
        let mut i: usize = 0;
        while i < sig.metrics.len()
            invariant
                m == pair_views(sig.metrics@),
                i <= sig.metrics@.len(),
                match found {
                    Some(k) => k < sig.metrics@.len() && k as int == first_index(m, key@),
                    None => forall|j: int| 0 <= j < i ==> m[j].0 != key@,
                },
            decreases sig.metrics@.len() - i,
        {
            if found.is_none() && str_equal(sig.metrics[i].0.as_str(), key) {
                proof {
                    lemma_first_index(m, key@, i as int);
                }
                found = Some(i);
            }
            i = i + 1;
        }
        match found {
            Some(k) => {
                sig.metrics.set(k, (str_to_string(key), str_to_string(value)));
                assert(pair_views(sig.metrics@) =~= m.update(k as int, (key@, value@)));
            },
            None => {
                proof {
                    lemma_first_index(m, key@, i as int);
                }
                sig.metrics.push((str_to_string(key), str_to_string(value)));
                assert(pair_views(sig.metrics@) =~= m.push((key@, value@)));
            },
        }
        self.put_signal(name, at, sig);
        proof {
            if let Some(i) = at {
                Self::lemma_replace(old(self).signals(), name@, i as int, sig.view_of());
            }
        }
    }

    /// Record a component's last error (or that it has none).
    pub fn set_component_error(&mut self, name: &str, err: Option<&str>)
        ensures
            final(self).signals() == with_signal(old(self).signals(), name@, ({
                let v = signal_or_default(old(self).signals(), name@);
                (v.0, v.1, match err { Some(e) => Some(e@), None => None }, v.3)
            })),
    {
        let (at, mut sig) = self.take_signal(name);
        proof {
            if let Some(i) = at {
                assert(self.signals() =~= old(self).signals().remove(i as int));
            }
        }
        sig.last_error = match err {
            Some(e) => Some(str_to_string(e)),
            None => None,
        };
        self.put_signal(name, at, sig);
        proof {
            if let Some(i) = at {
                Self::lemma_replace(old(self).signals(), name@, i as int, sig.view_of());
            }
        }
    }

    /// A copy of a component's signal, if it reported.
    pub fn get_component_signal(&self, name: &str) -> (r: Option<ComponentSignal>)
        ensures
            match lookup(self.signals(), name@) {
                Some(v) => r matches Some(x) && x.view_of() == v,
                None => r is None,
            },
    {
        match self.find(name) {
            Some(i) => Some(self.entries[i].1.duplicate()),
            None => None,
        }
    }

    /// A copy of every signal, in the registry's order.
    pub fn get_all_signals(&self) -> (r: Vec<(String, ComponentSignal)>)
        ensures
            r@.map_values(|e: (String, ComponentSignal)| (e.0@, e.1.view_of())) == self.signals(),
    {
        let mut out: Vec<(String, ComponentSignal)> = Vec::new();
        let mut i: usize = 0;
        while i < self.entries.len()
            invariant
                i <= self.entries@.len(),
                out@.map_values(|e: (String, ComponentSignal)| (e.0@, e.1.view_of())) == self.signals().take(i as int),
            decreases self.entries@.len() - i,
        {
            let k = str_to_string(self.entries[i].0.as_str());
            let v = self.entries[i].1.duplicate();
            let ghost before = out@;
            let ghost pv = (k@, v.view_of());
            out.push((k, v));
            proof {
                assert(self.signals()[i as int] == (self.entries@[i as int].0@, self.entries@[i as int].1.view_of()));
                assert(self.signals().take(i + 1) =~= self.signals().take(i as int).push(self.signals()[i as int]));
                assert(out@.map_values(|e: (String, ComponentSignal)| (e.0@, e.1.view_of())) =~= before.map_values(
                    |e: (String, ComponentSignal)| (e.0@, e.1.view_of()),
                ).push(pv));
                assert(out@.map_values(|e: (String, ComponentSignal)| (e.0@, e.1.view_of())) =~= self.signals().take(i + 1));
            }
            i = i + 1;
        }
        assert(self.signals().take(i as int) =~= self.signals());
        out
    }

    /// Forget every signal.
    pub fn clear_registry(&mut self)
        ensures
            final(self).signals() == Seq::<(Seq<char>, SignalView)>::empty(),
    {
        self.entries = Vec::new();
        assert(self.signals() =~= Seq::<(Seq<char>, SignalView)>::empty());
    }
}

} // verus!
