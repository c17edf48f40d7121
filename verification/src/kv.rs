//! Names in the key-value store.
use vstd::prelude::*;
use vstd::string::*;

verus! {

pub const SESSION_KEY_VERSION: u8 = 1;

/// The names of one deployment.
#[derive(Debug)]
pub struct KvStore {
    pub prefix: String,
}

/// What every name of a deployment starts with.
pub open spec fn namespace(deployment_id: Seq<char>) -> Seq<char> {
    "rbph:"@ + deployment_id + ":"@
}

/// The name under which a deployment stores a key.
pub open spec fn stored_key(deployment_id: Seq<char>, logical_key: Seq<char>) -> Seq<char> {
    namespace(deployment_id) + logical_key
}

impl KvStore {
    /// Whether the names are those of a deployment.
    pub open spec fn serves(self, deployment_id: Seq<char>) -> bool {
        self.prefix@ == namespace(deployment_id)
    }

    pub fn new(deployment_id: &str) -> (r: Self)
        ensures
            r.serves(deployment_id@),
    {
        let mut prefix = "rbph:".to_owned();
        prefix.append(deployment_id);
        prefix.append(":");
        KvStore { prefix }
    }

    pub fn key(&self, logical_key: &str) -> (r: String)
        ensures
            r@ == self.prefix@ + logical_key@,
    {
        let mut r = self.prefix.clone();
        r.append(logical_key);
        r
    }

    pub fn pattern(&self, logical_pattern: &str) -> (r: String)
        ensures
            r@ == self.prefix@ + logical_pattern@,
    {
        self.key(logical_pattern)
    }

    pub fn channel(&self, logical_channel: &str) -> (r: String)
        ensures
            r@ == self.prefix@ + ("channel:"@ + logical_channel@),
    {
        let mut name = "channel:".to_owned();
        name.append(logical_channel);
        self.key(&name)
    }

    pub fn session_key(&self, session_key: &str) -> (r: String)
        ensures
            r@ == self.prefix@ + ("session:v1:data:"@ + session_key@),
    {
        let mut name = "session:v1:data:".to_owned();
        name.append(session_key);
        self.key(&name)
    }
}

/// Different keys of a deployment have different names.
pub proof fn keys_are_distinct_within_a_deployment(id: Seq<char>, a: Seq<char>, b: Seq<char>)
    requires
        a != b,
    ensures
        stored_key(id, a) != stored_key(id, b),
{
    let n = namespace(id).len() as int;
    assert(stored_key(id, a).skip(n) == a);
    assert(stored_key(id, b).skip(n) == b);
}

/// No name of one deployment is a name of another, where the deployments' ids hold no colon.
pub proof fn deployments_share_no_keys(
    first: Seq<char>,
    second: Seq<char>,
    a: Seq<char>,
    b: Seq<char>,
)
    requires
        first != second,
        !first.contains(':'),
        !second.contains(':'),
    ensures
        stored_key(first, a) != stored_key(second, b),
{
    reveal_strlit("rbph:");
    reveal_strlit(":");
    let x = stored_key(first, a);
    let y = stored_key(second, b);
    if x == y {
        assert(x[5 + first.len() as int] == ':');
        assert(y[5 + second.len() as int] == ':');
        if first.len() < second.len() {
            assert(y[5 + first.len() as int] == second[first.len() as int]);
            assert(second.contains(second[first.len() as int]));
        } else if second.len() < first.len() {
            assert(x[5 + second.len() as int] == first[second.len() as int]);
            assert(first.contains(first[second.len() as int]));
        } else {
            assert forall|i: int| 0 <= i < first.len() implies first[i] == second[i] by {
                assert(x[5 + i] == first[i]);
                assert(y[5 + i] == second[i]);
            }
            assert(first =~= second);
        }
    }
}

/// A store keeps each key behind the name of its deployment.
pub proof fn keys_are_kept_behind_their_deployment(
    store: KvStore,
    id: Seq<char>,
    key: Seq<char>,
)
    requires
        store.serves(id),
    ensures
        stored_key(id, key) == store.prefix@ + key,
        stored_key(id, key).len() == id.len() + key.len() + 6,
        stored_key(id, key).subrange(5, 5 + id.len() as int) == id,
        stored_key(id, key).skip(6 + id.len() as int) == key,
{
    reveal_strlit("rbph:");
    reveal_strlit(":");
    assert("rbph:"@.len() == 5 && ":"@.len() == 1);
    assert(stored_key(id, key).subrange(5, 5 + id.len() as int) =~= id);
    assert(stored_key(id, key).skip(6 + id.len() as int) =~= key);
}

} // verus!
