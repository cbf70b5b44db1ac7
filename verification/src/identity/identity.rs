use vstd::prelude::*;
use crate::kv::StringMap;
use crate::text::str_eq;

verus! {

/// An entity of the cooperative system: its id, optional public key and the
/// scheme of that key, its type ("cooperative", "member", ...) and metadata.
#[derive(Debug, Clone)]
pub struct Identity {
    pub id: String,
    pub public_key: Option<Vec<u8>>,
    pub identity_type: String,
    pub crypto_scheme: Option<String>,
    pub metadata: StringMap,
}

/// The storage namespace of an identity: `coops/<id>` for a cooperative;
/// for a member, `coops/<coop>/members/<id>` when its metadata names its
/// cooperative under "coop_id", else `members/<id>`; otherwise
/// `identities/<type>/<id>`.
pub open spec fn identity_namespace(ty: Seq<char>, id: Seq<char>, metadata: Map<Seq<char>, Seq<char>>) -> Seq<char> {
    if ty == "cooperative"@ {
        "coops/"@ + id
    } else if ty == "member"@ {
        if metadata.dom().contains("coop_id"@) {
            "coops/"@ + metadata["coop_id"@] + "/members/"@ + id
        } else {
            "members/"@ + id
        }
    } else {
        "identities/"@ + ty + "/"@ + id
    }
}

impl Identity {
    /// A new identity without key or metadata.
    pub fn new(id: &str, identity_type: &str) -> (r: Self)
        ensures
            r.id@ == id@,
            r.public_key is None,
            r.identity_type@ == identity_type@,
            r.crypto_scheme is None,
            r.metadata.wf(),
            r.metadata@ == Map::<Seq<char>, Seq<char>>::empty(),
    {
        Identity {
            id: String::from_str(id),
            public_key: None,
            identity_type: String::from_str(identity_type),
            crypto_scheme: None,
            metadata: StringMap::new(),
        }
    }

    /// A new identity with a public key of the given scheme.
    pub fn with_public_key(id: &str, identity_type: &str, public_key: Vec<u8>, crypto_scheme: &str) -> (r: Self)
        ensures
            r.id@ == id@,
            r.public_key == Some(public_key),
            r.identity_type@ == identity_type@,
            r.crypto_scheme matches Some(c) && c@ == crypto_scheme@,
            r.metadata.wf(),
            r.metadata@ == Map::<Seq<char>, Seq<char>>::empty(),
    {
        let mut identity = Self::new(id, identity_type);
        identity.public_key = Some(public_key);
        identity.crypto_scheme = Some(String::from_str(crypto_scheme));
        identity
    }

    /// Sets the metadata `key` to `value`, replacing any value it had.
    pub fn add_metadata(&mut self, key: &str, value: &str) -> (r: &mut Self)
        requires
            old(self).metadata.wf(),
        ensures
            r.metadata.wf(),
            r.metadata@ == old(self).metadata@.insert(key@, value@),
            *r == (Identity { metadata: r.metadata, ..*old(self) }),
            *final(self) == *final(r),
    {
        self.metadata.insert(key, value);
        self
    }

    /// The metadata under `key`.
    pub fn get_metadata(&self, key: &str) -> (r: Option<&String>)
        requires
            self.metadata.wf(),
        ensures
            match r {
                Some(v) => self.metadata@.dom().contains(key@) && v@ == self.metadata@[key@],
                None => !self.metadata@.dom().contains(key@),
            },
    {
        self.metadata.get(key)
    }

    /// The storage namespace of the identity.
    pub fn get_namespace(&self) -> (s: String)
        requires
            self.metadata.wf(),
        ensures
            s@ == identity_namespace(self.identity_type@, self.id@, self.metadata@),
    {
        if str_eq(self.identity_type.as_str(), "cooperative") {
            let mut s = String::from_str("coops/");
            s.append(self.id.as_str());
            s
        } else if str_eq(self.identity_type.as_str(), "member") {
            match self.get_metadata("coop_id") {
                Some(coop_id) => {
                    let mut s = String::from_str("coops/");
                    s.append(coop_id.as_str());
                    s.append("/members/");
                    s.append(self.id.as_str());
                    s
                },
                None => {
                    let mut s = String::from_str("members/");
                    s.append(self.id.as_str());
                    s
                },
            }
        } else {
            let mut s = String::from_str("identities/");
            s.append(self.identity_type.as_str());
            s.append("/");
            s.append(self.id.as_str());
            s
        }
    }
}

/// The identities known, in the order they were registered; no id occurs
/// twice.
pub struct IdentityRegistry {
    identities: Vec<Identity>,
}

impl IdentityRegistry {
    /// No id occurs twice, and every identity's metadata is well formed.
    pub closed spec fn wf(&self) -> bool {
        &&& forall|i: int, j: int|
            0 <= i < j < self.identities@.len() ==> #[trigger] self.identities@[i].id@
                != #[trigger] self.identities@[j].id@
        &&& forall|i: int| 0 <= i < self.identities@.len() ==> #[trigger] self.identities@[i].metadata.wf()
    }

    /// The registered identities, in order.
    pub closed spec fn entries(&self) -> Seq<Identity> {
        self.identities@
    }

    /// Whether an identity with id `id` is registered.
    pub open spec fn has(&self, id: Seq<char>) -> bool {
        exists|i: int| 0 <= i < self.entries().len() && #[trigger] self.entries()[i].id@ == id
    }

    /// An empty registry.
    pub fn new() -> (r: Self)
        ensures
            r.wf(),
            r.entries() == Seq::<Identity>::empty(),
    {
        IdentityRegistry { identities: Vec::new() }
    }

    fn find(&self, id: &str) -> (r: Option<usize>)
        ensures
            match r {
                Some(i) => i < self.entries().len() && self.entries()[i as int].id@ == id@,
                None => !self.has(id@),
            },
    {
        let mut i: usize = 0;
        while i < self.identities.len()
            invariant
                i <= self.identities@.len(),
                forall|k: int| 0 <= k < i ==> self.identities@[k].id@ != id@,
            decreases self.identities@.len() - i,
        {
            if str_eq(self.identities[i].id.as_str(), id) {
                return Some(i);
            }
            i += 1;
        }
        None
    }

    /// Registers a new identity; an id already registered is refused with
    /// "Identity with ID <id> already exists".
    pub fn register(&mut self, identity: Identity) -> (r: Result<(), String>)
        requires
            old(self).wf(),
            identity.metadata.wf(),
        ensures
            final(self).wf(),
            old(self).has(identity.id@) ==> (r matches Err(m)
                && m@ == "Identity with ID "@ + identity.id@ + " already exists"@)
                && final(self).entries() == old(self).entries(),
            !old(self).has(identity.id@) ==> r is Ok && final(self).entries() == old(self).entries().push(identity),
    {
        if let Some(_) = self.find(identity.id.as_str()) {
            let mut m = String::from_str("Identity with ID ");
            m.append(identity.id.as_str());
            m.append(" already exists");
            return Err(m);
        }
        let ghost before = self.identities@;
        self.identities.push(identity);
        proof {
            assert forall|i: int, j: int|
                0 <= i < j < self.identities@.len() implies #[trigger] self.identities@[i].id@
                != #[trigger] self.identities@[j].id@ by {
                if j == before.len() {
                    assert(before[i].id@ == self.identities@[i].id@);
                } else {
                    assert(before[i].id@ != before[j].id@);
                }
            }
            assert forall|i: int| 0 <= i < self.identities@.len() implies #[trigger] self.identities@[i].metadata.wf() by {
                if i < before.len() {
                    assert(before[i].metadata.wf());
                }
            }
        }
        Ok(())
    }

    /// The identity with id `id`.
    pub fn get(&self, id: &str) -> (r: Option<&Identity>)
        ensures
            match r {
                Some(x) => self.entries().contains(*x) && x.id@ == id@,
                None => !self.has(id@),
            },
    {
        match self.find(id) {
            Some(i) => Some(&self.identities[i]),
            None => None,
        }
    }

    /// Replaces the identity with the same id; an unknown id is refused with
    /// "Identity with ID <id> does not exist".
    pub fn update(&mut self, identity: Identity) -> (r: Result<(), String>)
        requires
            old(self).wf(),
            identity.metadata.wf(),
        ensures
            final(self).wf(),
            !old(self).has(identity.id@) ==> (r matches Err(m)
                && m@ == "Identity with ID "@ + identity.id@ + " does not exist"@)
                && final(self).entries() == old(self).entries(),
            old(self).has(identity.id@) ==> r is Ok && exists|i: int|
                0 <= i < old(self).entries().len() && old(self).entries()[i].id@ == identity.id@
                    && final(self).entries() == old(self).entries().update(i, identity),
    {
        match self.find(identity.id.as_str()) {
            None => {
                let mut m = String::from_str("Identity with ID ");
                m.append(identity.id.as_str());
                m.append(" does not exist");
                Err(m)
            },
            Some(i) => {
                let ghost before = self.identities@;
                self.identities.set(i, identity);
                proof {
                    assert forall|a: int, b: int|
                        0 <= a < b < self.identities@.len() implies #[trigger] self.identities@[a].id@
                        != #[trigger] self.identities@[b].id@ by {
                        assert(before[a].id@ != before[b].id@);
                    }
                    assert forall|a: int| 0 <= a < self.identities@.len() implies #[trigger] self.identities@[a].metadata.wf() by {
                        if a != i {
                            assert(before[a].metadata.wf());
                        }
                    }
                    assert(self.identities@ == before.update(i as int, identity));
                }
                Ok(())
            },
        }
    }

    /// The identities of type `identity_type`, in registration order.
    pub fn list_by_type(&self, identity_type: &str) -> (r: Vec<&Identity>)
        ensures
            r@.map_values(|x: &Identity| *x) == self.entries().filter(|x: Identity| x.identity_type@ == identity_type@),
    {
        let mut r: Vec<&Identity> = Vec::new();
        let mut i: usize = 0;
        while i < self.identities.len()
            invariant
                i <= self.identities@.len(),
                r@.map_values(|x: &Identity| *x) == self.identities@.take(i as int).filter(|x: Identity| x.identity_type@ == identity_type@),
            decreases self.identities@.len() - i,
        {
            proof {
                assert(self.identities@.take(i + 1).drop_last() =~= self.identities@.take(i as int));
                reveal(Seq::filter);
            }
            let ghost before = r@;
            if str_eq(self.identities[i].identity_type.as_str(), identity_type) {
                r.push(&self.identities[i]);
                assert(r@.map_values(|x: &Identity| *x) =~= before.map_values(|x: &Identity| *x).push(self.identities@[i as int]));
            }
            i += 1;
        }
        assert(self.identities@.take(i as int) =~= self.identities@);
        r
    }
}

} // verus!
