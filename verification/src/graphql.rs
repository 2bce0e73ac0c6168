//! The GraphQL layer: the per-request context with its named extensions,
//! the registry of resolver extensions, and the resolvers of the default
//! schema.
use vstd::prelude::*;
use crate::text::{concat, owned, str_eq};

verus! {

/// Key/value pairs as a map; a later pair for a key wins.
pub open spec fn pairs_map<V>(s: Seq<(String, V)>) -> Map<Seq<char>, V>
    decreases s.len(),
{
    if s.len() == 0 {
        Map::empty()
    } else {
        pairs_map(s.drop_last()).insert(s.last().0@, s.last().1)
    }
}

/// No key occurs twice.
pub open spec fn distinct_keys<V>(s: Seq<(String, V)>) -> bool {
    forall|i: int, j: int| 0 <= i < j < s.len() ==> s[i].0@ != s[j].0@
}

pub proof fn lemma_pairs_map<V>(s: Seq<(String, V)>)
    ensures
        forall|k: Seq<char>|
            #[trigger] pairs_map(s).dom().contains(k) <==> exists|i: int| 0 <= i < s.len() && s[i].0@ == k,
        distinct_keys(s) ==> forall|i: int| 0 <= i < s.len() ==> #[trigger] pairs_map(s)[s[i].0@] == s[i].1,
    decreases s.len(),
{
    if s.len() > 0 {
        let p = s.drop_last();
        lemma_pairs_map(p);
        assert forall|k: Seq<char>| #[trigger] pairs_map(s).dom().contains(k) <==> exists|i: int|
            0 <= i < s.len() && s[i].0@ == k by {
            if exists|i: int| 0 <= i < s.len() && s[i].0@ == k {
                let i = choose|i: int| 0 <= i < s.len() && s[i].0@ == k;
                if i < s.len() - 1 {
                    assert(p[i].0@ == k);
                }
            }
            if pairs_map(p).dom().contains(k) {
                let i = choose|i: int| 0 <= i < p.len() && p[i].0@ == k;
                assert(s[i].0@ == k);
            }
        }
        if distinct_keys(s) {
            assert forall|a: int, b: int| 0 <= a < b < p.len() implies p[a].0@ != p[b].0@ by {
                assert(p[a] == s[a]);
                assert(p[b] == s[b]);
            }
            assert(distinct_keys(p));
            assert forall|i: int| 0 <= i < s.len() implies #[trigger] pairs_map(s)[s[i].0@] == s[i].1 by {
                if i < s.len() - 1 {
                    assert(p[i] == s[i]);
                    assert(s[i].0@ != s[s.len() - 1].0@);
                    assert(pairs_map(p)[p[i].0@] == p[i].1);
                }
            }
        }
    }
}

/// Two maps of pairs agree when both lists have distinct keys and hold the
/// same key/value pairs.
proof fn lemma_pairs_map_ext<V>(s: Seq<(String, V)>, m: Map<Seq<char>, V>)
    requires
        distinct_keys(s),
        forall|k: Seq<char>| #[trigger] m.dom().contains(k) <==> exists|i: int| 0 <= i < s.len() && s[i].0@ == k,
        forall|i: int| 0 <= i < s.len() ==> #[trigger] m[s[i].0@] == s[i].1,
    ensures
        pairs_map(s) == m,
{
    lemma_pairs_map(s);
    assert forall|k: Seq<char>| #[trigger] pairs_map(s).dom().contains(k) implies pairs_map(s)[k] == m[k] by {
        let i = choose|i: int| 0 <= i < s.len() && s[i].0@ == k;
        assert(pairs_map(s)[s[i].0@] == s[i].1);
    }
    assert(pairs_map(s) =~= m);
}

/// The context of one GraphQL request: extensions of type `V` by name.
#[derive(Debug)]
pub struct Context<V> {
    extensions: Vec<(String, V)>,
}

impl<V> View for Context<V> {
    type V = Map<Seq<char>, V>;

    closed spec fn view(&self) -> Map<Seq<char>, V> {
        pairs_map(self.extensions@)
    }
}

impl<V> Context<V> {
    /// The context keeps one value per name.
    pub closed spec fn wf(&self) -> bool {
        distinct_keys(self.extensions@)
    }

    fn find(&self, key: &str) -> (r: Option<usize>)
        ensures
            match r {
                Some(i) => i < self.extensions@.len() && self.extensions@[i as int].0@ == key@,
                None => forall|i: int| 0 <= i < self.extensions@.len() ==> self.extensions@[i].0@ != key@,
            },
    {
        let mut i: usize = 0;
        while i < self.extensions.len()
            invariant
                i <= self.extensions@.len(),
                forall|j: int| 0 <= j < i ==> self.extensions@[j].0@ != key@,
            decreases self.extensions.len() - i,
        {
            if str_eq(self.extensions[i].0.as_str(), key) {
                return Some(i);
            }
            i = i + 1;
        }
        None
    }

    /// An empty context.
    pub fn new() -> (r: Self)
        ensures
            r.wf(),
            r@ == Map::<Seq<char>, V>::empty(),
    {
        let r = Context { extensions: Vec::new() };
        assert(r@ =~= Map::<Seq<char>, V>::empty());
        r
    }

    /// Stores `value` under `key`, replacing an earlier value.
    pub fn insert_extension(&mut self, key: String, value: V)
        requires
            old(self).wf(),
        ensures
            final(self).wf(),
            final(self)@ == old(self)@.insert(key@, value),
    {
        let ghost s = self.extensions@;
        let ghost k = key@;
        proof {
            lemma_pairs_map(s);
        }
        match self.find(key.as_str()) {
            Some(i) => {
                self.extensions.set(i, (key, value));
                proof {
                    let t = self.extensions@;
                    assert(t == s.update(i as int, t[i as int]));
                    assert(distinct_keys(t));
                    let m = pairs_map(s).insert(k, value);
                    assert forall|x: Seq<char>| #[trigger] m.dom().contains(x) <==> exists|j: int|
                        0 <= j < t.len() && t[j].0@ == x by {
                        if m.dom().contains(x) && x != k {
                            let j = choose|j: int| 0 <= j < s.len() && s[j].0@ == x;
                            assert(t[j] == s[j]);
                        }
                        if exists|j: int| 0 <= j < t.len() && t[j].0@ == x {
                            let j = choose|j: int| 0 <= j < t.len() && t[j].0@ == x;
                            if j != i {
                                assert(s[j] == t[j]);
                            }
                        }
                    }
                    assert forall|j: int| 0 <= j < t.len() implies #[trigger] m[t[j].0@] == t[j].1 by {
                        if j != i {
                            assert(s[j] == t[j]);
                            assert(s[j].0@ != s[i as int].0@);
                        }
                    }
                    lemma_pairs_map_ext(t, m);
                }
            },
            None => {
                self.extensions.push((key, value));
                proof {
                    let t = self.extensions@;
                    assert(t.drop_last() =~= s);
                }
            },
        }
    }

    /// The value stored under `key`.
    pub fn get_extension(&self, key: &str) -> (r: Option<&V>)
        requires
            self.wf(),
        ensures
            match r {
                Some(v) => self@.contains_key(key@) && *v == self@[key@],
                None => !self@.contains_key(key@),
            },
    {
        proof {
            lemma_pairs_map(self.extensions@);
        }
        match self.find(key) {
            Some(i) => Some(&self.extensions[i].1),
            None => None,
        }
    }

    /// Whether a value is stored under `key`.
    pub fn contains_extension(&self, key: &str) -> (r: bool)
        ensures
            r == self@.contains_key(key@),
    {
        proof {
            lemma_pairs_map(self.extensions@);
        }
        self.find(key).is_some()
    }

    /// Forgets the value stored under `key`.
    pub fn remove_extension(&mut self, key: &str)
        requires
            old(self).wf(),
        ensures
            final(self).wf(),
            final(self)@ == old(self)@.remove(key@),
    {
        let ghost s = self.extensions@;
        let ghost k = key@;
        proof {
            lemma_pairs_map(s);
        }
        match self.find(key) {
            Some(i) => {
                let _ = self.extensions.remove(i);
                proof {
                    let t = self.extensions@;
                    assert(t == s.remove(i as int));
                    assert forall|a: int, b: int| 0 <= a < b < t.len() implies t[a].0@ != t[b].0@ by {
                        let a2 = if a < i { a } else { a + 1 };
                        let b2 = if b < i { b } else { b + 1 };
                        assert(t[a] == s[a2]);
                        assert(t[b] == s[b2]);
                    }
                    let m = pairs_map(s).remove(k);
                    assert forall|x: Seq<char>| #[trigger] m.dom().contains(x) <==> exists|j: int|
                        0 <= j < t.len() && t[j].0@ == x by {
                        if m.dom().contains(x) {
                            let j = choose|j: int| 0 <= j < s.len() && s[j].0@ == x;
                            assert(j != i);
                            let j2 = if j < i { j } else { j - 1 };
                            assert(t[j2] == s[j]);
                        }
                        if exists|j: int| 0 <= j < t.len() && t[j].0@ == x {
                            let j = choose|j: int| 0 <= j < t.len() && t[j].0@ == x;
                            let j2 = if j < i { j } else { j + 1 };
                            assert(t[j] == s[j2]);
                            assert(j2 != i);
                            assert(s[j2].0@ != s[i as int].0@);
                        }
                    }
                    assert forall|j: int| 0 <= j < t.len() implies #[trigger] m[t[j].0@] == t[j].1 by {
                        let j2 = if j < i { j } else { j + 1 };
                        assert(t[j] == s[j2]);
                        assert(s[j2].0@ != s[i as int].0@);
                    }
                    lemma_pairs_map_ext(t, m);
                }
            },
            None => {
                assert(!pairs_map(s).dom().contains(k));
                assert(pairs_map(s).remove(k) =~= pairs_map(s));
            },
        }
    }
}

/// A value stored under a name is what a read of that name returns.
pub proof fn lemma_extension_read_after_insert<V>(m: Map<Seq<char>, V>, k: Seq<char>, v: V)
    ensures
        m.insert(k, v).contains_key(k),
        m.insert(k, v)[k] == v,
{
}

/// A removed name is no longer present; other names keep their values.
pub proof fn lemma_extension_absent_after_remove<V>(m: Map<Seq<char>, V>, k: Seq<char>, other: Seq<char>)
    requires
        other != k,
    ensures
        !m.remove(k).contains_key(k),
        m.remove(k).contains_key(other) == m.contains_key(other),
        m.contains_key(other) ==> m.remove(k)[other] == m[other],
{
}

/// A hook around the execution of GraphQL requests; both hooks do nothing
/// unless an extension overrides them.
pub trait ResolverExtension {
    /// Called before a request executes.
    fn before_execute<V>(&self, query: &str, context: &Context<V>) {
    }

    /// Called after a request executed.
    fn after_execute<V>(&self, query: &str, context: &Context<V>) {
    }
}

/// The registered resolver extensions, in registration order.
#[derive(Debug)]
pub struct ResolverRegistry<E> {
    extensions: Vec<E>,
}

impl<E: ResolverExtension> ResolverRegistry<E> {
    pub closed spec fn spec_len(&self) -> nat {
        self.extensions@.len()
    }

    /// The registered extensions, in the order the hooks run them.
    pub closed spec fn spec_extensions(&self) -> Seq<E> {
        self.extensions@
    }

    /// A registry without extensions.
    pub fn new() -> (r: Self)
        ensures
            r.spec_len() == 0,
            r.spec_extensions() == Seq::<E>::empty(),
    {
        ResolverRegistry { extensions: Vec::new() }
    }

    /// Adds `extension` after the registered ones.
    pub fn register(&mut self, extension: E)
        ensures
            final(self).spec_len() == old(self).spec_len() + 1,
            final(self).spec_extensions() == old(self).spec_extensions().push(extension),
    {
        self.extensions.push(extension);
    }

    /// Runs every extension's `before_execute`, in order.
    pub fn notify_before<V>(&self, query: &str, context: &Context<V>) {
        let mut i: usize = 0;
        while i < self.extensions.len()
            invariant
                i <= self.extensions@.len(),
            decreases self.extensions.len() - i,
        {
            self.extensions[i].before_execute(query, context);
            i = i + 1;
        }
    }

    /// Runs every extension's `after_execute`, in order.
    pub fn notify_after<V>(&self, query: &str, context: &Context<V>) {
        let mut i: usize = 0;
        while i < self.extensions.len()
            invariant
                i <= self.extensions@.len(),
            decreases self.extensions.len() - i,
        {
            self.extensions[i].after_execute(query, context);
            i = i + 1;
        }
    }

    /// How many extensions are registered.
    pub fn len(&self) -> (r: usize)
        ensures
            r == self.spec_len(),
    {
        self.extensions.len()
    }

    /// Whether no extension is registered.
    pub fn is_empty(&self) -> (r: bool)
        ensures
            r == (self.spec_len() == 0),
    {
        self.extensions.len() == 0
    }
}

/// The root of GraphQL queries.
#[derive(Debug)]
pub struct QueryRoot;

impl QueryRoot {
    /// The version of the API.
    pub fn api_version() -> (r: &'static str)
        ensures
            r@ == "1.0"@,
    {
        "1.0"
    }

    /// Whether the service is up; always true.
    pub fn health_check() -> (r: bool)
        ensures
            r,
    {
        true
    }
}

/// The root of GraphQL mutations.
#[derive(Debug)]
pub struct MutationRoot;

impl MutationRoot {
    /// Adds a to-do item and reports it.
    pub fn add_todo(text: &str) -> (r: String)
        ensures
            r@ == "Added todo: "@ + text@,
    {
        concat("Added todo: ", text)
    }
}

/// A to-do item.
#[derive(Debug)]
pub struct Todo {
    pub id: i32,
    pub text: String,
    pub completed: bool,
}

/// The input that creates a to-do item.
#[derive(Debug)]
pub struct NewTodo {
    pub text: String,
    pub completed: Option<bool>,
}

} // verus!
