//! The session registry: which connection handle each logged-in name is bound to.
use dashmap::DashMap;
use vstd::prelude::*;

verus! {

#[verifier::external_type_specification]
#[verifier::external_body]
#[verifier::reject_recursive_types(K)]
#[verifier::reject_recursive_types(V)]
#[verifier::reject_recursive_types(S)]
pub struct ExDashMap<K, V, S>(DashMap<K, V, S>);

/// A concurrent map from user names to connection handles.
pub type SessionMap = DashMap<String, u64>;

/// The bindings a concurrent map from names to handles holds.
pub uninterp spec fn session_entries(m: DashMap<String, u64>) -> Map<Seq<char>, u64>;

/// Relies on `DashMap::new`: a new map holds no entry.
#[verifier::external_body]
fn entries_new() -> (r: SessionMap)
    ensures
        session_entries(r).dom().is_empty(),
{
    DashMap::new()
}

/// Relies on `DashMap::insert`: `key` is then bound to `value`, replacing any
/// earlier binding, and no other key changes.
#[verifier::external_body]
fn entries_insert(m: &mut SessionMap, key: String, value: u64)
    ensures
        session_entries(*final(m)) == session_entries(*old(m)).insert(key@, value),
{
    m.insert(key, value);
}

/// Relies on `DashMap::get`: the value bound to `key`, if any.
#[verifier::external_body]
fn entries_get(m: &SessionMap, key: &str) -> (r: Option<u64>)
    ensures
        r == lookup_model(session_entries(*m), key@),
{
    m.get(key).map(|e| *e.value())
}

/// Relies on `DashMap::remove`: `key` is then unbound, and no other key changes.
#[verifier::external_body]
fn entries_remove(m: &mut SessionMap, key: &str)
    ensures
        session_entries(*final(m)) == session_entries(*old(m)).remove(key@),
{
    m.remove(key);
}

/// What a lookup of `name` in the bindings `m` returns.
pub open spec fn lookup_model(m: Map<Seq<char>, u64>, name: Seq<char>) -> Option<u64> {
    if m.contains_key(name) {
        Some(m[name])
    } else {
        None
    }
}

/// `m` without `name`'s binding when that binding is to `handle`.
pub open spec fn release_model(m: Map<Seq<char>, u64>, name: Seq<char>, handle: u64) -> Map<
    Seq<char>,
    u64,
> {
    if m.contains_key(name) && m[name] == handle {
        m.remove(name)
    } else {
        m
    }
}

/// A name bound to a connection handle.
#[derive(Debug)]
pub struct User {
    pub user_name: String,
    pub handle: u64,
}

/// The session registry: logged-in names and the handles of their connections.
pub struct Users {
    entries: SessionMap,
}

impl View for Users {
    type V = Map<Seq<char>, u64>;

    closed spec fn view(&self) -> Map<Seq<char>, u64> {
        session_entries(self.entries)
    }
}

impl Users {
    pub fn new() -> (r: Users)
        ensures
            r@ == Map::<Seq<char>, u64>::empty(),
    {
        Users { entries: entries_new() }
    }

    /// Binds `user_name` to `handle`, replacing any earlier binding.
    pub fn insert(&mut self, user_name: String, handle: u64)
        ensures
            final(self)@ == old(self)@.insert(user_name@, handle),
    {
        entries_insert(&mut self.entries, user_name, handle);
    }

    /// Binds the user's name to its handle, replacing any earlier binding.
    pub fn push(&mut self, user: User)
        ensures
            final(self)@ == old(self)@.insert(user.user_name@, user.handle),
    {
        self.insert(user.user_name, user.handle);
    }

    pub fn lookup(&self, user_name: &str) -> (r: Option<u64>)
        ensures
            r == lookup_model(self@, user_name@),
    {
        entries_get(&self.entries, user_name)
    }

    /// Unbinds `user_name`; removing an absent name changes nothing.
    pub fn remove(&mut self, user_name: &str)
        ensures
            final(self)@ == old(self)@.remove(user_name@),
    {
        entries_remove(&mut self.entries, user_name);
    }

    /// Unbinds `user_name` only while it is bound to `handle`, so that a
    /// connection that was superseded cannot unbind its successor.
    pub fn release(&mut self, user_name: &str, handle: u64)
        ensures
            final(self)@ == release_model(old(self)@, user_name@, handle),
    {
        match self.lookup(user_name) {
            Some(h) => {
                if h == handle {
                    self.remove(user_name);
                }
            },
            None => {},
        }
    }
}

/// After an insert, a lookup of that name finds the new handle; after a
/// remove, it finds nothing; and neither changes what a lookup of any other
/// name returns.
pub proof fn lemma_registry_laws(
    m: Map<Seq<char>, u64>,
    name: Seq<char>,
    other: Seq<char>,
    handle: u64,
)
    ensures
        lookup_model(m.insert(name, handle), name) == Some(handle),
        lookup_model(m.remove(name), name) == None::<u64>,
        other != name ==> lookup_model(m.insert(name, handle), other) == lookup_model(m, other),
        other != name ==> lookup_model(m.remove(name), other) == lookup_model(m, other),
{
}

/// The server's shared state.
pub struct TcpServer {
    pub users: Users,
}

impl TcpServer {
    pub fn new() -> (r: TcpServer)
        ensures
            r.users@ == Map::<Seq<char>, u64>::empty(),
    {
        TcpServer { users: Users::new() }
    }
}

} // verus!
