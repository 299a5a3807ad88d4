//! The model registry: a mapping from model name to a registered handler
//! capability, filled at startup and read-only while serving.

use vstd::prelude::*;
use crate::text::dec_nat;

verus! {

use vstd::string::StringExecFns;

/// A registered computation unit: a pure function of a prompt and the
/// accumulated context, fallible. A handler must not keep state of its own;
/// the session owns the conversational memory and replays it on every call.
pub trait ModelHandler: Sized {
    fn generate(&self, prompt: &str, context: &[String]) -> Result<String, String>;
}

/// The reply the example handler gives: it echoes the prompt and counts the
/// completed exchanges in the context.
pub open spec fn example_reply(prompt: Seq<char>, turn: nat) -> Seq<char> {
    "Response to: "@ + prompt + ". This is turn #"@ + dec_nat(turn) + " in the conversation."@
}

/// A demonstration handler: replies with the prompt and the turn number,
/// never fails.
pub fn example_model_handler(prompt: &str, context: &[String]) -> (r: Result<String, String>)
    ensures
        r matches Ok(s) && s@ == example_reply(prompt@, (context@.len() / 2 + 1) as nat),
{
    let turn: usize = context.len() / 2 + 1;
    let mut s = String::from_str("Response to: ");
    s.append(prompt);
    s.append(". This is turn #");
    s.append(crate::text::u64_to_string(turn as u64).as_str());
    s.append(" in the conversation.");
    Ok(s)
}

/// The example handler as a registrable capability.
pub struct ExampleModel;

impl ModelHandler for ExampleModel {
    fn generate(&self, prompt: &str, context: &[String]) -> Result<String, String> {
        example_model_handler(prompt, context)
    }
}

/// Law: the set of registered names does not depend on registration order.
/// `register` turns the name set `s` into `s.insert(name)`, and two inserts
/// commute, so any order of the same registrations leaves the same set for
/// `list` to report.
pub proof fn lemma_register_order_irrelevant(names: Set<Seq<char>>, a: Seq<char>, b: Seq<char>)
    ensures
        names.insert(a).insert(b) == names.insert(b).insert(a),
{
    assert(names.insert(a).insert(b) =~= names.insert(b).insert(a));
}

/// The map a list of keyed handlers stands for; a later entry for the same
/// key would win, though a well-formed registry never holds two.
spec fn registry_map<H>(s: Seq<(String, H)>) -> Map<Seq<char>, H>
    decreases s.len(),
{
    if s.len() == 0 {
        Map::empty()
    } else {
        registry_map(s.drop_last()).insert(s.last().0@, s.last().1)
    }
}

spec fn reg_keys_distinct<H>(s: Seq<(String, H)>) -> bool {
    forall|i: int, j: int| 0 <= i < j < s.len() ==> s[i].0@ != s[j].0@
}

proof fn lemma_registry_map_contains<H>(s: Seq<(String, H)>, k: Seq<char>)
    ensures
        registry_map(s).contains_key(k) <==> exists|i: int| 0 <= i < s.len() && s[i].0@ == k,
    decreases s.len(),
{
    if s.len() == 0 {
    } else {
        lemma_registry_map_contains(s.drop_last(), k);
        if k == s.last().0@ {
            assert(s[s.len() - 1].0@ == k);
        } else {
            if exists|i: int| 0 <= i < s.len() && s[i].0@ == k {
                let i = choose|i: int| 0 <= i < s.len() && s[i].0@ == k;
                assert(s.drop_last()[i].0@ == k);
            }
            if exists|i: int| 0 <= i < s.drop_last().len() && s.drop_last()[i].0@ == k {
                let i = choose|i: int| 0 <= i < s.drop_last().len() && s.drop_last()[i].0@ == k;
                assert(s[i].0@ == k);
            }
        }
    }
}

proof fn lemma_registry_map_index<H>(s: Seq<(String, H)>, i: int)
    requires
        reg_keys_distinct(s),
        0 <= i < s.len(),
    ensures
        registry_map(s).contains_key(s[i].0@),
        registry_map(s)[s[i].0@] == s[i].1,
    decreases s.len(),
{
    if i == s.len() - 1 {
    } else {
        assert(reg_keys_distinct(s.drop_last()));
        assert(s.drop_last()[i] == s[i]);
        lemma_registry_map_index(s.drop_last(), i);
        assert(s[i].0@ != s.last().0@);
    }
}

proof fn lemma_registry_map_update<H>(s: Seq<(String, H)>, i: int, e: (String, H))
    requires
        reg_keys_distinct(s),
        0 <= i < s.len(),
        e.0@ == s[i].0@,
    ensures
        registry_map(s.update(i, e)) == registry_map(s).insert(e.0@, e.1),
    decreases s.len(),
{
    let t = s.update(i, e);
    if i == s.len() - 1 {
        assert(t.drop_last() =~= s.drop_last());
        assert(t.last() == e);
        assert(registry_map(t) =~= registry_map(s).insert(e.0@, e.1));
    } else {
        assert(t.drop_last() =~= s.drop_last().update(i, e));
        assert(reg_keys_distinct(s.drop_last()));
        assert(s.drop_last()[i] == s[i]);
        lemma_registry_map_update(s.drop_last(), i, e);
        assert(t.last() == s.last());
        assert(e.0@ != s.last().0@);
        assert(registry_map(t) =~= registry_map(s).insert(e.0@, e.1));
    }
}

/// The registry: model names, each bound to one handler. Immutable once
/// serving begins; lookups never fail in any way but "not found".
pub struct ModelRegistry<H> {
    entries: Vec<(String, H)>,
}

impl<H> ModelRegistry<H> {
    /// The registered names, in registration order, each name once.
    pub closed spec fn names(&self) -> Seq<Seq<char>> {
        Seq::new(self.entries@.len(), |i: int| self.entries@[i].0@)
    }

    /// The bindings: which handler each registered name maps to.
    pub closed spec fn handlers(&self) -> Map<Seq<char>, H> {
        registry_map(self.entries@)
    }

    /// The list of names and the entry list agree pointwise, and so do
    /// their distinctness statements.
    proof fn lemma_names_bridge(&self)
        ensures
            forall|i: int| 0 <= i < self.names().len() ==> self.names()[i] == self.entries@[i].0@,
            reg_keys_distinct(self.entries@) <==> (forall|i: int, j: int|
                0 <= i < j < self.names().len() ==> self.names()[i] != self.names()[j]),
    {
        assert(forall|i: int| 0 <= i < self.names().len() ==> self.names()[i] == self.entries@[i].0@);
        if reg_keys_distinct(self.entries@) {
            assert forall|i: int, j: int|
                0 <= i < j < self.names().len() implies self.names()[i] != self.names()[j] by {
                assert(self.entries@[i].0@ != self.entries@[j].0@);
            }
        }
        if forall|i: int, j: int|
            0 <= i < j < self.names().len() ==> self.names()[i] != self.names()[j] {
            assert forall|i: int, j: int|
                0 <= i < j < self.entries@.len() implies self.entries@[i].0@
                != self.entries@[j].0@ by {
                assert(self.names()[i] != self.names()[j]);
            }
        }
    }

    /// A name is a key of the binding map exactly when it is registered.
    pub proof fn lemma_handlers_domain(&self)
        ensures
            forall|n: Seq<char>| #[trigger] self.handlers().contains_key(n) <==> self.has_model(n),
    {
        self.lemma_names_bridge();
        assert forall|n: Seq<char>|
            #[trigger] self.handlers().contains_key(n) <==> self.has_model(n) by {
            lemma_registry_map_contains(self.entries@, n);
            if exists|i: int| 0 <= i < self.entries@.len() && self.entries@[i].0@ == n {
                let i = choose|i: int| 0 <= i < self.entries@.len() && self.entries@[i].0@ == n;
                assert(self.names()[i] == n);
            }
            if self.has_model(n) {
                let i = choose|i: int| 0 <= i < self.names().len() && self.names()[i] == n;
                assert(self.entries@[i].0@ == n);
            }
        }
    }

    /// The registered names as a set.
    pub open spec fn names_set(&self) -> Set<Seq<char>> {
        self.names().to_set()
    }

    /// Whether a name is registered.
    pub open spec fn has_model(&self, name: Seq<char>) -> bool {
        self.names().contains(name)
    }

    /// Each name stands in the registry at most once.
    pub open spec fn wf(&self) -> bool {
        forall|i: int, j: int|
            0 <= i < j < self.names().len() ==> self.names()[i] != self.names()[j]
    }

    /// An empty registry.
    pub fn new() -> (r: Self)
        ensures
            r.names() == Seq::<Seq<char>>::empty(),
            r.handlers() == Map::<Seq<char>, H>::empty(),
            r.wf(),
    {
        let r = ModelRegistry { entries: Vec::new() };
        proof {
            assert(r.names() =~= Seq::<Seq<char>>::empty());
            assert(r.handlers() =~= Map::<Seq<char>, H>::empty());
        }
        r
    }

    fn find(&self, name: &String) -> (r: Option<usize>)
        ensures
            r matches Some(i) ==> i < self.names().len() && self.names()[i as int] == name@,
            r is None ==> !self.has_model(name@),
    {
        let n = self.entries.len();
        let mut j: usize = 0;
        while j < n
            invariant
                n == self.entries@.len(),
                j <= n,
                forall|k: int| 0 <= k < j ==> self.names()[k] != name@,
            decreases n - j,
        {
            if self.entries[j].0 == *name {
                return Some(j);
            }
            j += 1;
        }
        None
    }

    /// Inserts the handler for a name, or overwrites the one already there.
    /// Only meant for startup, before any connection is served.
    pub fn register(&mut self, name: &str, handler: H)
        requires
            old(self).wf(),
        ensures
            final(self).wf(),
            final(self).has_model(name@),
            final(self).names() == if old(self).has_model(name@) {
                old(self).names()
            } else {
                old(self).names().push(name@)
            },
            final(self).names_set() == old(self).names_set().insert(name@),
            final(self).handlers() == old(self).handlers().insert(name@, handler),
    {
        let key = name.to_owned();
        match self.find(&key) {
            Some(i) => {
                proof {
                    assert(old(self).names()[i as int] == name@);
                    assert(old(self).names().contains(name@));
                    old(self).lemma_names_bridge();
                }
                self.entries.remove(i);
                self.entries.insert(i, (key, handler));
                proof {
                    let entry = self.entries@[i as int];
                    assert(self.entries@ =~= old(self).entries@.update(i as int, entry));
                    assert(entry.0@ == name@ && entry.1 == handler);
                    lemma_registry_map_update(old(self).entries@, i as int, entry);
                    assert(self.names() =~= old(self).names());
                    assert(self.names_set() =~= old(self).names_set().insert(name@));
                }
            },
            None => {
                proof {
                    assert forall|k: int|
                        0 <= k < old(self).names().len() implies old(self).names()[k]
                        != name@ by {
                        if old(self).names()[k] == name@ {
                            assert(old(self).names().contains(name@));
                        }
                    }
                }
                self.entries.push((key, handler));
                proof {
                    assert(self.entries@.drop_last() =~= old(self).entries@);
                    assert(self.handlers() =~= old(self).handlers().insert(name@, handler));
                    let s_old = old(self).names();
                    let s_new = self.names();
                    assert(s_new =~= s_old.push(name@));
                    assert(s_new[s_old.len() as int] == name@);
                    assert(s_new.contains(name@));
                    assert forall|a: Seq<char>| #[trigger] s_new.contains(a) implies s_old.contains(
                        a,
                    ) || a == name@ by {
                        let k = choose|k: int| 0 <= k < s_new.len() && s_new[k] == a;
                        if k < s_old.len() {
                            assert(s_old[k] == a);
                            assert(s_old.contains(a));
                        }
                    }
                    assert forall|a: Seq<char>| #[trigger] s_old.contains(a) implies s_new.contains(
                        a,
                    ) by {
                        let k = choose|k: int| 0 <= k < s_old.len() && s_old[k] == a;
                        assert(s_new[k] == a);
                    }
                    assert(self.names_set() =~= old(self).names_set().insert(name@));
                    assert forall|i: int, j: int|
                        0 <= i < j < self.names().len() implies self.names()[i]
                        != self.names()[j] by {
                        if j < old(self).names().len() {
                            assert(old(self).names()[i] != old(self).names()[j]);
                        } else {
                            assert(self.names()[i] == old(self).names()[i]);
                            assert(self.names()[j] == name@);
                        }
                    }
                }
            },
        }
    }

    /// The handler registered for a name — exactly the one the binding map
    /// holds; `None` exactly when the name is unknown.
    pub fn lookup(&self, name: &String) -> (r: Option<&H>)
        requires
            self.wf(),
        ensures
            r is Some <==> self.has_model(name@),
            r matches Some(h) ==> self.handlers().contains_key(name@) && *h == self.handlers()[name@],
    {
        match self.find(name) {
            Some(i) => {
                proof {
                    self.lemma_names_bridge();
                    lemma_registry_map_index(self.entries@, i as int);
                }
                Some(&self.entries[i].1)
            },
            None => None,
        }
    }

    /// The registered names, one copy each, in registration order.
    pub fn list(&self) -> (r: Vec<String>)
        ensures
            r.deep_view() == self.names(),
    {
        let n = self.entries.len();
        let mut out: Vec<String> = Vec::new();
        let mut j: usize = 0;
        while j < n
            invariant
                n == self.entries@.len(),
                j <= n,
                out@.len() == j,
                forall|k: int| 0 <= k < j ==> out@[k]@ == self.names()[k],
            decreases n - j,
        {
            out.push(self.entries[j].0.clone());
            j += 1;
        }
        proof {
            assert(out.deep_view() =~= self.names());
        }
        out
    }
}

} // verus!
