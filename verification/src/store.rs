//! The session store: a mapping from session identifier to session state,
//! supporting create, read, append and close. Its mathematical model is a
//! map from identifier to session view, together with the append-only list
//! of every identifier it ever issued.

use vstd::prelude::*;

verus! {

use vstd::string::StringExecFns;
use vstd::string::StrSliceExecFns;

/// The model of one session: the name of its model and the ordered
/// prompt/response history.
pub ghost struct SessionView {
    pub model: Seq<char>,
    pub context: Seq<Seq<char>>,
}

/// One session: the model it is bound to and the accumulated context. The
/// context is append-only and always holds a whole number of exchanges.
pub struct Session {
    pub model: String,
    pub context: Vec<String>,
}

impl View for Session {
    type V = SessionView;

    open spec fn view(&self) -> SessionView {
        SessionView { model: self.model@, context: self.context.deep_view() }
    }
}

/// The map a list of keyed sessions stands for; a later entry for the same
/// key would win, though a well-formed store never holds two.
pub open spec fn entries_map(s: Seq<(String, Session)>) -> Map<Seq<char>, SessionView>
    decreases s.len(),
{
    if s.len() == 0 {
        Map::empty()
    } else {
        entries_map(s.drop_last()).insert(s.last().0@, s.last().1@)
    }
}

/// Each key stands in the list at most once.
pub open spec fn keys_distinct(s: Seq<(String, Session)>) -> bool {
    forall|i: int, j: int| 0 <= i < j < s.len() ==> s[i].0@ != s[j].0@
}

proof fn lemma_entries_map_contains(s: Seq<(String, Session)>, k: Seq<char>)
    ensures
        entries_map(s).contains_key(k) <==> exists|i: int| 0 <= i < s.len() && s[i].0@ == k,
    decreases s.len(),
{
    if s.len() == 0 {
    } else {
        lemma_entries_map_contains(s.drop_last(), k);
        if k == s.last().0@ {
            assert(s[s.len() - 1].0@ == k);
        } else {
            if exists|i: int| 0 <= i < s.len() && s[i].0@ == k {
                let i = choose|i: int| 0 <= i < s.len() && s[i].0@ == k;
                assert(s.drop_last()[i].0@ == k);
            }
            if exists|i: int| 0 <= i < s.drop_last().len() && s.drop_last()[i].0@ == k {
                let i = choose|i: int| 0 <= i < s.drop_last().len() && s.drop_last()[i].0@ == k;
                assert(s[i].0@ == k);
            }
        }
    }
}

proof fn lemma_entries_map_index(s: Seq<(String, Session)>, i: int)
    requires
        keys_distinct(s),
        0 <= i < s.len(),
    ensures
        entries_map(s).contains_key(s[i].0@),
        entries_map(s)[s[i].0@] == s[i].1@,
    decreases s.len(),
{
    if i == s.len() - 1 {
    } else {
        assert(keys_distinct(s.drop_last()));
        assert(s.drop_last()[i] == s[i]);
        lemma_entries_map_index(s.drop_last(), i);
        assert(s[i].0@ != s.last().0@);
    }
}

proof fn lemma_entries_map_update(s: Seq<(String, Session)>, i: int, e: (String, Session))
    requires
        keys_distinct(s),
        0 <= i < s.len(),
        e.0@ == s[i].0@,
    ensures
        entries_map(s.update(i, e)) == entries_map(s).insert(e.0@, e.1@),
    decreases s.len(),
{
    let t = s.update(i, e);
    if i == s.len() - 1 {
        assert(t.drop_last() =~= s.drop_last());
        assert(t.last() == e);
        assert(entries_map(t) =~= entries_map(s).insert(e.0@, e.1@));
    } else {
        assert(t.drop_last() =~= s.drop_last().update(i, e));
        assert(keys_distinct(s.drop_last()));
        assert(s.drop_last()[i] == s[i]);
        lemma_entries_map_update(s.drop_last(), i, e);
        assert(t.last() == s.last());
        assert(e.0@ != s.last().0@);
        assert(entries_map(t) =~= entries_map(s).insert(e.0@, e.1@));
    }
}

proof fn lemma_entries_map_remove(s: Seq<(String, Session)>, i: int)
    requires
        keys_distinct(s),
        0 <= i < s.len(),
    ensures
        entries_map(s.remove(i)) == entries_map(s).remove(s[i].0@),
    decreases s.len(),
{
    let t = s.remove(i);
    if i == s.len() - 1 {
        assert(t =~= s.drop_last());
        lemma_entries_map_contains(s.drop_last(), s[i].0@);
        assert(forall|j: int|
            0 <= j < s.drop_last().len() ==> #[trigger] s.drop_last()[j].0@ != s[i].0@);
        assert(!entries_map(s.drop_last()).contains_key(s[i].0@));
        assert(entries_map(t) =~= entries_map(s).remove(s[i].0@));
    } else {
        assert(t.drop_last() =~= s.drop_last().remove(i));
        assert(keys_distinct(s.drop_last()));
        assert(s.drop_last()[i] == s[i]);
        lemma_entries_map_remove(s.drop_last(), i);
        assert(t.last() == s.last());
        assert(s[i].0@ != s.last().0@);
        assert(entries_map(t) =~= entries_map(s).remove(s[i].0@));
    }
}

/// Relies on `uuid::Uuid::new_v4` and its rendering: a freshly drawn random
/// identifier. Nothing is promised of the value; the store itself checks
/// freshness against everything it issued before.
#[verifier::external_body]
fn fresh_uuid() -> String {
    uuid::Uuid::new_v4().to_string()
}

/// The store of all live sessions, addressed by identifier.
pub struct SessionStore {
    entries: Vec<(String, Session)>,
    issued: Vec<String>,
}

impl SessionStore {
    /// The live sessions as a map from identifier to session view.
    pub closed spec fn sessions(&self) -> Map<Seq<char>, SessionView> {
        entries_map(self.entries@)
    }

    /// The identifiers of the live sessions, in storage order.
    pub closed spec fn keys(&self) -> Seq<Seq<char>> {
        Seq::new(self.entries@.len(), |i: int| self.entries@[i].0@)
    }

    /// Every identifier the store ever handed out, oldest first; closing a
    /// session does not take its identifier back.
    pub closed spec fn issued_ids(&self) -> Seq<Seq<char>> {
        self.issued.deep_view()
    }

    /// Well-formedness: identifiers are issued at most once, every live
    /// session's identifier was issued, and every live context holds a whole
    /// number of exchanges.
    pub open spec fn wf(&self) -> bool {
        &&& forall|i: int, j: int|
            0 <= i < j < self.keys().len() ==> self.keys()[i] != self.keys()[j]
        &&& forall|i: int, j: int|
            0 <= i < j < self.issued_ids().len() ==> self.issued_ids()[i] != self.issued_ids()[j]
        &&& forall|i: int|
            0 <= i < self.keys().len() ==> self.issued_ids().contains(#[trigger] self.keys()[i])
        &&& forall|k: Seq<char>|
            self.sessions().contains_key(k) ==> (#[trigger] self.sessions()[k]).context.len() % 2
                == 0
    }

    /// The list of keys and the entry list agree pointwise, and so do their
    /// distinctness statements.
    proof fn lemma_keys_bridge(&self)
        ensures
            forall|i: int| 0 <= i < self.keys().len() ==> self.keys()[i] == self.entries@[i].0@,
            keys_distinct(self.entries@) <==> (forall|i: int, j: int|
                0 <= i < j < self.keys().len() ==> self.keys()[i] != self.keys()[j]),
    {
        assert(forall|i: int| 0 <= i < self.keys().len() ==> self.keys()[i] == self.entries@[i].0@);
        if keys_distinct(self.entries@) {
            assert forall|i: int, j: int|
                0 <= i < j < self.keys().len() implies self.keys()[i] != self.keys()[j] by {
                assert(self.entries@[i].0@ != self.entries@[j].0@);
            }
        }
        if forall|i: int, j: int|
            0 <= i < j < self.keys().len() ==> self.keys()[i] != self.keys()[j] {
            assert forall|i: int, j: int|
                0 <= i < j < self.entries@.len() implies self.entries@[i].0@
                != self.entries@[j].0@ by {
                assert(self.keys()[i] != self.keys()[j]);
            }
        }
    }

    /// An empty store that has issued nothing.
    pub fn new() -> (r: Self)
        ensures
            r.wf(),
            r.sessions() == Map::<Seq<char>, SessionView>::empty(),
            r.issued_ids() == Seq::<Seq<char>>::empty(),
    {
        let r = SessionStore { entries: Vec::new(), issued: Vec::new() };
        proof {
            assert(r.sessions() =~= Map::<Seq<char>, SessionView>::empty());
            assert(r.issued_ids() =~= Seq::<Seq<char>>::empty());
        }
        r
    }

    fn find(&self, id: &String) -> (r: Option<usize>)
        ensures
            r matches Some(i) ==> i < self.entries@.len() && self.entries@[i as int].0@ == id@,
            r is None ==> forall|k: int|
                0 <= k < self.entries@.len() ==> (#[trigger] self.entries@[k]).0@ != id@,
    {
        let n = self.entries.len();
        let mut j: usize = 0;
        while j < n
            invariant
                n == self.entries@.len(),
                j <= n,
                forall|k: int| 0 <= k < j ==> (#[trigger] self.entries@[k]).0@ != id@,
            decreases n - j,
        {
            if self.entries[j].0 == *id {
                return Some(j);
            }
            j += 1;
        }
        None
    }

    /// Builds an identifier strictly longer than every identifier issued so
    /// far, and so distinct from all of them.
    fn longer_than_issued(&self) -> (r: String)
        ensures
            !self.issued_ids().contains(r@),
    {
        let n = self.issued.len();
        let mut maxlen: usize = 0;
        let mut j: usize = 0;
        while j < n
            invariant
                n == self.issued@.len(),
                self.issued_ids().len() == n,
                forall|k: int| 0 <= k < n ==> self.issued_ids()[k] == self.issued@[k]@,
                j <= n,
                forall|k: int| 0 <= k < j ==> self.issued_ids()[k].len() <= maxlen,
            decreases n - j,
        {
            let l = self.issued[j].as_str().unicode_len();
            if l > maxlen {
                maxlen = l;
            }
            j += 1;
        }
        let mut out = String::new();
        let mut k: usize = 0;
        proof {
            reveal_strlit("s");
        }
        while k < maxlen
            invariant
                out@.len() == k,
                k <= maxlen,
                "s"@.len() == 1,
            decreases maxlen - k,
        {
            out.append("s");
            k += 1;
        }
        out.append("s");
        proof {
            assert(out@.len() == maxlen + 1);
            if self.issued_ids().contains(out@) {
                let w = choose|w: int|
                    0 <= w < self.issued_ids().len() && self.issued_ids()[w] == out@;
                assert(self.issued_ids()[w].len() <= maxlen);
            }
        }
        out
    }

    fn issued_contains(&self, id: &String) -> (r: bool)
        ensures
            r == self.issued_ids().contains(id@),
    {
        let n = self.issued.len();
        let mut j: usize = 0;
        while j < n
            invariant
                n == self.issued@.len(),
                self.issued_ids().len() == n,
                forall|k: int| 0 <= k < n ==> self.issued_ids()[k] == self.issued@[k]@,
                j <= n,
                forall|k: int| 0 <= k < j ==> self.issued_ids()[k] != id@,
            decreases n - j,
        {
            if self.issued[j] == *id {
                proof {
                    assert(self.issued_ids()[j as int] == id@);
                }
                return true;
            }
            j += 1;
        }
        proof {
            if self.issued_ids().contains(id@) {
                let k = choose|k: int|
                    0 <= k < self.issued_ids().len() && self.issued_ids()[k] == id@;
                assert(self.issued_ids()[k] != id@);
            }
        }
        false
    }

    /// Creates a session bound to the given model: draws identifiers until
    /// one is fresh against everything ever issued, records it, and stores
    /// an empty-context session under it. The returned identifier was never
    /// issued before.
    pub fn create(&mut self, model: String) -> (r: String)
        requires
            old(self).wf(),
        ensures
            final(self).wf(),
            !old(self).issued_ids().contains(r@),
            !old(self).sessions().contains_key(r@),
            final(self).issued_ids() == old(self).issued_ids().push(r@),
            final(self).sessions() == old(self).sessions().insert(
                r@,
                SessionView { model: model@, context: Seq::empty() },
            ),
    {
        let mut id = fresh_uuid();
        if self.issued_contains(&id) {
            // A random identifier collided with an issued one, which should
            // never happen in practice. Fall back to an identifier longer
            // than everything issued so far: it is fresh by its length alone.
            id = self.longer_than_issued();
        }
        proof {
            self.lemma_keys_bridge();
            assert(!self.issued_ids().contains(id@));
            assert forall|k: int| 0 <= k < self.keys().len() implies self.keys()[k] != id@ by {
                assert(self.issued_ids().contains(self.keys()[k]));
            }
            lemma_entries_map_contains(self.entries@, id@);
        }
        self.issued.push(id.clone());
        let fresh_entry = (id.clone(), Session { model, context: Vec::new() });
        self.entries.push(fresh_entry);
        proof {
            let pre = old(self);
            assert(self.issued_ids() =~= pre.issued_ids().push(id@));
            assert(self.entries@.drop_last() =~= pre.entries@);
            assert(self.entries@.last().1@.context =~= Seq::<Seq<char>>::empty());
            assert(self.sessions() =~= pre.sessions().insert(
                id@,
                SessionView { model: self.entries@.last().1.model@, context: Seq::empty() },
            ));
            pre.lemma_keys_bridge();
            assert(keys_distinct(self.entries@)) by {
                assert(forall|k: int|
                    0 <= k < pre.entries@.len() ==> #[trigger] self.entries@[k] == pre.entries@[k]);
                assert(self.entries@[self.entries@.len() - 1].0@ == id@);
                assert forall|k: int|
                    0 <= k < pre.entries@.len() implies #[trigger] pre.entries@[k].0@ != id@ by {
                    assert(pre.keys()[k] == pre.entries@[k].0@);
                    assert(pre.keys()[k] != id@);
                }
            }
            self.lemma_keys_bridge();
            assert forall|i: int| 0 <= i < self.keys().len() implies self.issued_ids().contains(
                #[trigger] self.keys()[i],
            ) by {
                if i < pre.keys().len() {
                    assert(pre.issued_ids().contains(pre.keys()[i]));
                    let k = choose|k: int|
                        0 <= k < pre.issued_ids().len() && pre.issued_ids()[k] == pre.keys()[i];
                    assert(self.issued_ids()[k] == self.keys()[i]);
                } else {
                    assert(self.issued_ids()[self.issued_ids().len() - 1] == id@);
                }
            }
        }
        id
    }

    /// Reads a session: its model name and a copy of its context. `None`
    /// exactly when no live session has the identifier.
    pub fn get_session(&self, id: &String) -> (r: Option<(String, Vec<String>)>)
        requires
            self.wf(),
        ensures
            r is Some <==> self.sessions().contains_key(id@),
            r matches Some(p) ==> p.0@ == self.sessions()[id@].model && p.1.deep_view()
                == self.sessions()[id@].context,
    {
        proof {
            self.lemma_keys_bridge();
            lemma_entries_map_contains(self.entries@, id@);
        }
        match self.find(id) {
            Some(i) => {
                proof {
                    lemma_entries_map_index(self.entries@, i as int);
                }
                let model = self.entries[i].1.model.clone();
                let context = clone_strings(&self.entries[i].1.context);
                Some((model, context))
            },
            None => None,
        }
    }

    /// Appends one completed exchange — the prompt, then the response — to
    /// the context of the session with the given identifier; reports whether
    /// the session was there. No other session changes.
    pub fn append_exchange(&mut self, id: &String, prompt: &String, response: &String) -> (r: bool)
        requires
            old(self).wf(),
        ensures
            final(self).wf(),
            r == old(self).sessions().contains_key(id@),
            r ==> final(self).sessions() == old(self).sessions().insert(
                id@,
                SessionView {
                    model: old(self).sessions()[id@].model,
                    context: old(self).sessions()[id@].context + seq![prompt@, response@],
                },
            ),
            final(self).issued_ids() == old(self).issued_ids(),
            !r ==> *final(self) == *old(self),
    {
        proof {
            self.lemma_keys_bridge();
            lemma_entries_map_contains(self.entries@, id@);
        }
        match self.find(id) {
            Some(i) => {
                proof {
                    lemma_entries_map_index(self.entries@, i as int);
                }
                let mut e = self.entries.remove(i);
                e.1.context.push(prompt.clone());
                e.1.context.push(response.clone());
                self.entries.insert(i, e);
                proof {
                    let pre = old(self);
                    let entry = self.entries@[i as int];
                    assert(self.entries@ =~= pre.entries@.update(i as int, entry));
                    assert(entry.0@ == id@);
                    assert(entry.1@.context =~= pre.sessions()[id@].context + seq![
                        prompt@,
                        response@,
                    ]);
                    lemma_entries_map_update(pre.entries@, i as int, entry);
                    assert(self.sessions() =~= pre.sessions().insert(
                        id@,
                        SessionView {
                            model: pre.sessions()[id@].model,
                            context: pre.sessions()[id@].context + seq![prompt@, response@],
                        },
                    ));
                    pre.lemma_keys_bridge();
                    assert(keys_distinct(self.entries@)) by {
                        assert forall|a: int, b: int|
                            0 <= a < b < self.entries@.len() implies self.entries@[a].0@
                            != self.entries@[b].0@ by {
                            assert(self.entries@[a].0@ == pre.entries@[a].0@);
                            assert(self.entries@[b].0@ == pre.entries@[b].0@);
                        }
                    }
                    self.lemma_keys_bridge();
                    assert(self.keys() =~= pre.keys());
                    assert(self.issued_ids() =~= pre.issued_ids());
                    assert forall|a: int| 0 <= a < self.keys().len() implies self.issued_ids(
                    ).contains(#[trigger] self.keys()[a]) by {
                        assert(self.keys()[a] == pre.keys()[a]);
                        assert(pre.issued_ids().contains(pre.keys()[a]));
                    }
                    assert forall|k: Seq<char>|
                        self.sessions().contains_key(k) implies (
                    #[trigger] self.sessions()[k]).context.len() % 2 == 0 by {
                        if k == id@ {
                            assert(self.sessions()[k].context.len() == pre.sessions()[id@].context.len()
                                + 2);
                        } else {
                            assert(pre.sessions().contains_key(k));
                            assert(self.sessions()[k] == pre.sessions()[k]);
                        }
                    }
                }
                true
            },
            None => {
                proof {
                    assert(self.entries@ =~= old(self).entries@);
                }
                false
            },
        }
    }

    /// Removes the session with the given identifier; reports whether it was
    /// there. The identifier stays issued: it is never handed out again.
    pub fn close(&mut self, id: &String) -> (r: bool)
        requires
            old(self).wf(),
        ensures
            final(self).wf(),
            r == old(self).sessions().contains_key(id@),
            r ==> final(self).sessions() == old(self).sessions().remove(id@),
            final(self).issued_ids() == old(self).issued_ids(),
            !r ==> *final(self) == *old(self),
    {
        proof {
            self.lemma_keys_bridge();
            lemma_entries_map_contains(self.entries@, id@);
        }
        match self.find(id) {
            Some(i) => {
                proof {
                    lemma_entries_map_remove(self.entries@, i as int);
                }
                self.entries.remove(i);
                proof {
                    let pre = old(self);
                    assert(self.entries@ =~= pre.entries@.remove(i as int));
                    pre.lemma_keys_bridge();
                    assert(keys_distinct(self.entries@)) by {
                        assert forall|a: int, b: int|
                            0 <= a < b < self.entries@.len() implies self.entries@[a].0@
                            != self.entries@[b].0@ by {
                            let a0 = if a < i as int { a } else { a + 1 };
                            let b0 = if b < i as int { b } else { b + 1 };
                            assert(self.entries@[a] == pre.entries@[a0]);
                            assert(self.entries@[b] == pre.entries@[b0]);
                            assert(pre.entries@[a0].0@ != pre.entries@[b0].0@);
                        }
                    }
                    self.lemma_keys_bridge();
                    assert forall|k: Seq<char>|
                        self.sessions().contains_key(k) implies (
                    #[trigger] self.sessions()[k]).context.len() % 2 == 0 by {
                        assert(pre.sessions().contains_key(k));
                        assert(self.sessions()[k] == pre.sessions()[k]);
                    }
                    assert forall|a: int|
                        0 <= a < self.keys().len() implies self.issued_ids().contains(
                        #[trigger] self.keys()[a],
                    ) by {
                        if a < i as int {
                            assert(self.keys()[a] == pre.keys()[a]);
                            assert(pre.issued_ids().contains(pre.keys()[a]));
                        } else {
                            assert(self.keys()[a] == pre.keys()[a + 1]);
                            assert(pre.issued_ids().contains(pre.keys()[a + 1]));
                        }
                    }
                    assert(self.issued_ids() =~= pre.issued_ids());
                }
                true
            },
            None => {
                proof {
                    assert(self.entries@ =~= old(self).entries@);
                }
                false
            },
        }
    }
}

/// A deep copy of a list of strings.
fn clone_strings(v: &Vec<String>) -> (r: Vec<String>)
    ensures
        r.deep_view() == v.deep_view(),
{
    let n = v.len();
    let mut out: Vec<String> = Vec::new();
    let mut j: usize = 0;
    while j < n
        invariant
            n == v@.len(),
            j <= n,
            out@.len() == j,
            forall|k: int| 0 <= k < j ==> out@[k]@ == v@[k]@,
        decreases n - j,
    {
        out.push(v[j].clone());
        j += 1;
    }
    proof {
        assert(out.deep_view() =~= v.deep_view());
    }
    out
}

/// Law: every live session's identifier was issued by the store; with
/// `create`'s promise that a new identifier is fresh against everything
/// issued, a fresh identifier is in particular no key of the live map.
pub proof fn lemma_live_ids_issued(s: &SessionStore)
    requires
        s.wf(),
    ensures
        forall|k: Seq<char>| #[trigger] s.sessions().contains_key(k) ==> s.issued_ids().contains(k),
{
    assert forall|k: Seq<char>| #[trigger] s.sessions().contains_key(k) implies s.issued_ids(
    ).contains(k) by {
        lemma_entries_map_contains(s.entries@, k);
        let i = choose|i: int| 0 <= i < s.entries@.len() && s.entries@[i].0@ == k;
        s.lemma_keys_bridge();
        assert(s.keys()[i] == k);
        assert(s.issued_ids().contains(s.keys()[i]));
    }
}

/// Law: the identifiers a well-formed store has issued are pairwise
/// distinct; with `create`'s promise that each new identifier is fresh
/// against everything issued before, any sequence of `create` calls returns
/// pairwise distinct identifiers.
pub proof fn lemma_issued_ids_distinct(s: &SessionStore)
    requires
        s.wf(),
    ensures
        forall|i: int, j: int|
            0 <= i < j < s.issued_ids().len() ==> s.issued_ids()[i] != s.issued_ids()[j],
{
}

} // verus!
