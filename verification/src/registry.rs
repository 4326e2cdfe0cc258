//! The table of workers, one per service key.
//!
//! A key is registered at most once and never removed. The handle of a
//! worker is the position at which its key was registered, so whoever keeps
//! the workers' channel endpoints can keep them in a vector beside the
//! registry. Looking a key up and registering it where it is missing is one
//! call: held behind one lock, it cannot register a key twice.

use vstd::prelude::*;
use vstd::string::StringExecFns;

verus! {

/// What asking for `key` does to the registered keys: the keys afterwards,
/// the handle of `key`, and whether it was registered by this call.
pub open spec fn get_or_create_spec(keys: Seq<Seq<char>>, key: Seq<char>) -> (
    Seq<Seq<char>>,
    int,
    bool,
) {
    if keys.contains(key) {
        (keys, keys.index_of(key), false)
    } else {
        (keys.push(key), keys.len() as int, true)
    }
}

/// The registered keys after `calls` requests for the same `key`.
pub open spec fn after_calls(keys: Seq<Seq<char>>, key: Seq<char>, calls: nat) -> Seq<Seq<char>>
    decreases calls,
{
    if calls == 0 {
        keys
    } else {
        get_or_create_spec(after_calls(keys, key, (calls - 1) as nat), key).0
    }
}

/// Among keys that are all different, a key stands where it is found.
pub proof fn lemma_index_of_unique(keys: Seq<Seq<char>>, key: Seq<char>, at: int)
    requires
        keys.no_duplicates(),
        0 <= at < keys.len(),
        keys[at] == key,
    ensures
        keys.contains(key),
        keys.index_of(key) == at,
{
    assert(keys.contains(key));
    let found = keys.index_of(key);
    assert(0 <= found < keys.len() && keys[found] == key);
}

/// Asking for a key keeps the keys different from one another, changes no
/// registered handle, and leaves the key registered under the handle that
/// it returns.
pub proof fn lemma_get_or_create_registers(keys: Seq<Seq<char>>, key: Seq<char>)
    requires
        keys.no_duplicates(),
    ensures
        ({
            let (after, handle, created) = get_or_create_spec(keys, key);
            &&& after.no_duplicates()
            &&& 0 <= handle < after.len()
            &&& after[handle] == key
            &&& created == !keys.contains(key)
            &&& keys.len() <= after.len() <= keys.len() + 1
            &&& forall|i: int| 0 <= i < keys.len() ==> after[i] == keys[i]
        }),
{
    let (after, handle, created) = get_or_create_spec(keys, key);
    if keys.contains(key) {
        let found = keys.index_of(key);
        assert(0 <= found < keys.len() && keys[found] == key);
    } else {
        assert forall|i: int, j: int| 0 <= i < after.len() && 0 <= j < after.len() && i != j implies after[i]
            != after[j] by {
            if i < keys.len() {
                assert(keys.contains(keys[i]));
            }
            if j < keys.len() {
                assert(keys.contains(keys[j]));
            }
        }
    }
}

/// Asking twice is asking once. However often the same key is asked for,
/// it is registered exactly once: the registry after any number of calls,
/// one or more, is the registry after the first; every call returns the
/// same handle; and no call after the first registers anything.
pub proof fn lemma_get_or_create_idempotent(keys: Seq<Seq<char>>, key: Seq<char>, calls: nat)
    requires
        keys.no_duplicates(),
        calls >= 1,
    ensures
        after_calls(keys, key, calls) == get_or_create_spec(keys, key).0,
        after_calls(keys, key, calls).no_duplicates(),
        after_calls(keys, key, calls).contains(key),
        get_or_create_spec(after_calls(keys, key, calls), key) == (
            get_or_create_spec(keys, key).0,
            get_or_create_spec(keys, key).1,
            false,
        ),
    decreases calls,
{
    let once = get_or_create_spec(keys, key);
    lemma_get_or_create_registers(keys, key);
    lemma_index_of_unique(once.0, key, once.1);
    if calls == 1 {
        assert(after_calls(keys, key, 0) == keys);
        assert(after_calls(keys, key, 1) == once.0);
    } else {
        lemma_get_or_create_idempotent(keys, key, (calls - 1) as nat);
        assert(after_calls(keys, key, calls) == get_or_create_spec(once.0, key).0);
    }
}

/// From an empty registry, any number of calls for one key, one or more,
/// leave exactly one entry.
pub proof fn lemma_one_entry_per_key(key: Seq<char>, calls: nat)
    requires
        calls >= 1,
    ensures
        after_calls(Seq::<Seq<char>>::empty(), key, calls) == seq![key],
{
    let none = Seq::<Seq<char>>::empty();
    lemma_get_or_create_idempotent(none, key, calls);
    assert(!none.contains(key));
    assert(none.push(key) =~= seq![key]);
}

/// The registered service keys, all different. The handle of a key is its
/// position.
pub struct Registry {
    keys: Vec<String>,
}

impl View for Registry {
    type V = Seq<Seq<char>>;

    closed spec fn view(&self) -> Seq<Seq<char>> {
        self.keys@.map_values(|key: String| key@)
    }
}

impl Registry {
    /// No key is registered twice. Every registry that this module hands
    /// out is well formed, and its functions keep it so.
    pub open spec fn wf(&self) -> bool {
        self@.no_duplicates()
    }

    /// A registry without entries.
    pub fn new() -> (registry: Registry)
        ensures
            registry.wf(),
            registry@ == Seq::<Seq<char>>::empty(),
    {
        let registry = Registry { keys: Vec::new() };
        assert(registry@ =~= Seq::<Seq<char>>::empty());
        registry
    }

    /// How many keys are registered.
    pub fn len(&self) -> (n: usize)
        ensures
            n == self@.len(),
    {
        self.keys.len()
    }

    /// The handle of the worker registered under `key`, if there is one.
    pub fn lookup(&self, key: &str) -> (handle: Option<usize>)
        requires
            self.wf(),
        ensures
            match handle {
                Some(at) => at < self@.len() && self@[at as int] == key@,
                None => !self@.contains(key@),
            },
            handle is Some <==> self@.contains(key@),
            handle matches Some(at) ==> at == get_or_create_spec(self@, key@).1,
    {
        let wanted = String::from_str(key);
        let mut at: usize = 0;
        while at < self.keys.len()
            invariant
                self.wf(),
                at <= self.keys.len(),
                wanted@ == key@,
                self@.len() == self.keys.len(),
                self@ == self.keys@.map_values(|key: String| key@),
                forall|i: int| 0 <= i < at ==> self@[i] != key@,
            decreases self.keys.len() - at,
        {
            if self.keys[at] == wanted {
                proof {
                    lemma_index_of_unique(self@, key@, at as int);
                }
                return Some(at);
            }
            at = at + 1;
        }
        None
    }

    /// The handle of the worker registered under `key`, registering the
    /// key first if it is missing. The flag says whether this call
    /// registered it, that is, whether a worker has to be started for it.
    pub fn get_or_create(&mut self, key: &str) -> (found: (usize, bool))
        requires
            old(self).wf(),
        ensures
            final(self).wf(),
            (final(self)@, found.0 as int, found.1) == get_or_create_spec(old(self)@, key@),
            found.0 < final(self)@.len(),
            final(self)@[found.0 as int] == key@,
            found.1 == !old(self)@.contains(key@),
    {
        proof {
            lemma_get_or_create_registers(self@, key@);
        }
        match self.lookup(key) {
            Some(at) => (at, false),
            None => {
                let at = self.keys.len();
                let ghost before = self@;
                self.keys.push(String::from_str(key));
                assert(self@ =~= before.push(key@));
                (at, true)
            },
        }
    }
}

} // verus!
