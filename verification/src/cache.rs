use vstd::prelude::*;

use crate::model::{Credential, EncryptedValue};

verus! {

/// The map a list of credentials denotes: each entry keyed by its
/// identifier, later entries shadowing earlier ones.
pub open spec fn map_of(s: Seq<Credential>) -> Map<Seq<char>, Credential>
    decreases s.len(),
{
    if s.len() == 0 {
        Map::empty()
    } else {
        map_of(s.drop_last()).insert(s.last().id@, s.last())
    }
}

/// No two entries share an identifier.
pub open spec fn ids_unique(s: Seq<Credential>) -> bool {
    forall|i: int, j: int| 0 <= i < j < s.len() ==> s[i].id@ != s[j].id@
}

/// A credential with its password field replaced.
pub open spec fn with_password(c: Credential, p: EncryptedValue) -> Credential {
    Credential { password: p, ..c }
}

pub proof fn lemma_map_of_contains(s: Seq<Credential>, k: Seq<char>)
    ensures
        map_of(s).contains_key(k) <==> exists|i: int| 0 <= i < s.len() && s[i].id@ == k,
    decreases s.len(),
{
    if s.len() > 0 {
        lemma_map_of_contains(s.drop_last(), k);
        if map_of(s).contains_key(k) {
            if s.last().id@ == k {
                assert(s[s.len() - 1].id@ == k);
            } else {
                let i = choose|i: int| 0 <= i < s.drop_last().len() && s.drop_last()[i].id@ == k;
                assert(s[i].id@ == k);
            }
        }
        if exists|i: int| 0 <= i < s.len() && s[i].id@ == k {
            let i = choose|i: int| 0 <= i < s.len() && s[i].id@ == k;
            if i < s.len() - 1 {
                assert(s.drop_last()[i].id@ == k);
            }
        }
    }
}

pub proof fn lemma_map_of_index(s: Seq<Credential>, i: int)
    requires
        ids_unique(s),
        0 <= i < s.len(),
    ensures
        map_of(s).contains_key(s[i].id@),
        map_of(s)[s[i].id@] == s[i],
    decreases s.len(),
{
    if i == s.len() - 1 {
        assert(s.last() == s[i]);
    } else {
        assert(ids_unique(s.drop_last())) by {
            assert(forall|a: int, b: int|
                0 <= a < b < s.drop_last().len() ==> s.drop_last()[a] == s[a] && s.drop_last()[b]
                    == s[b]);
        }
        assert(s.drop_last()[i] == s[i]);
        lemma_map_of_index(s.drop_last(), i);
        assert(s[i].id@ != s.last().id@);
    }
}

pub proof fn lemma_ids_unique_prefix(s: Seq<Credential>)
    requires
        ids_unique(s),
        s.len() > 0,
    ensures
        ids_unique(s.drop_last()),
{
    assert(forall|a: int, b: int|
        0 <= a < b < s.drop_last().len() ==> s.drop_last()[a] == s[a] && s.drop_last()[b] == s[b]);
}

pub proof fn lemma_map_of_remove(s: Seq<Credential>, i: int)
    requires
        ids_unique(s),
        0 <= i < s.len(),
    ensures
        map_of(s.remove(i)) =~= map_of(s).remove(s[i].id@),
    decreases s.len(),
{
    lemma_ids_unique_prefix(s);
    if i == s.len() - 1 {
        assert(s.remove(i) =~= s.drop_last());
        lemma_map_of_contains(s.drop_last(), s[i].id@);
        assert(!map_of(s.drop_last()).contains_key(s[i].id@)) by {
            if exists|j: int| 0 <= j < s.drop_last().len() && s.drop_last()[j].id@ == s[i].id@ {
                let j = choose|j: int|
                    0 <= j < s.drop_last().len() && s.drop_last()[j].id@ == s[i].id@;
                assert(s[j].id@ == s[i].id@);
            }
        }
    } else {
        lemma_map_of_remove(s.drop_last(), i);
        assert(s.remove(i).drop_last() =~= s.drop_last().remove(i));
        assert(s.remove(i).last() == s.last());
        assert(s[i].id@ != s.last().id@);
        assert(map_of(s.remove(i)) == map_of(s.drop_last().remove(i)).insert(
            s.last().id@,
            s.last(),
        ));
    }
}

/// The local cache: an offline-readable mirror of the remote store, keyed
/// by deterministic credential identifier.
#[derive(Debug)]
pub struct CredentialsMap {
    entries: Vec<Credential>,
}

impl CredentialsMap {
    /// The entries never repeat an identifier.
    pub closed spec fn wf(&self) -> bool {
        ids_unique(self.entries@)
    }

    /// An empty cache.
    pub fn new() -> (r: CredentialsMap)
        ensures
            r@ =~= Map::<Seq<char>, Credential>::empty(),
            r.wf(),
    {
        CredentialsMap { entries: Vec::new() }
    }

    /// How many credentials are cached.
    pub fn len(&self) -> (r: usize)
        requires
            self.wf(),
        ensures
            r == self@.dom().len(),
    {
        proof {
            Self::lemma_len(self.entries@);
        }
        self.entries.len()
    }

    proof fn lemma_len(s: Seq<Credential>)
        requires
            ids_unique(s),
        ensures
            map_of(s).dom().finite(),
            map_of(s).dom().len() == s.len(),
        decreases s.len(),
    {
        if s.len() > 0 {
            lemma_ids_unique_prefix(s);
            Self::lemma_len(s.drop_last());
            lemma_map_of_contains(s.drop_last(), s.last().id@);
            assert(!map_of(s.drop_last()).contains_key(s.last().id@)) by {
                if exists|j: int| 0 <= j < s.drop_last().len() && s.drop_last()[j].id@
                    == s.last().id@ {
                    let j = choose|j: int|
                        0 <= j < s.drop_last().len() && s.drop_last()[j].id@ == s.last().id@;
                    assert(s[j].id@ == s[s.len() - 1].id@);
                }
            }
            assert(map_of(s).dom() =~= map_of(s.drop_last()).dom().insert(s.last().id@));
            vstd::set::axiom_set_insert_len(map_of(s.drop_last()).dom(), s.last().id@);
        } else {
            assert(map_of(s).dom() =~= Set::<Seq<char>>::empty());
        }
    }

    /// Look a credential up by identifier.
    pub fn find(&self, id: &str) -> (r: Option<&Credential>)
        requires
            self.wf(),
        ensures
            r is Some <==> self@.contains_key(id@),
            r matches Some(c) ==> *c == self@[id@] && c.id@ == id@,
    {
        let key = id.to_owned();
        let n = self.entries.len();
        for i in 0..n
            invariant
                n == self.entries@.len(),
                key@ == id@,
                self.wf(),
                forall|j: int| 0 <= j < i ==> self.entries@[j].id@ != id@,
        {
            if self.entries[i].id == key {
                proof {
                    lemma_map_of_index(self.entries@, i as int);
                }
                return Some(&self.entries[i]);
            }
        }
        proof {
            lemma_map_of_contains(self.entries@, id@);
        }
        None
    }

    /// Insert a credential under its identifier, which must be fresh.
    pub fn insert(&mut self, c: Credential)
        requires
            old(self).wf(),
            !old(self)@.contains_key(c.id@),
        ensures
            final(self).wf(),
            final(self)@ =~= old(self)@.insert(c.id@, c),
    {
        proof {
            lemma_map_of_contains(self.entries@, c.id@);
        }
        let ghost before = self.entries@;
        self.entries.push(c);
        proof {
            assert(self.entries@.drop_last() =~= before);
            assert(forall|i: int, j: int|
                0 <= i < j < self.entries@.len() && j < self.entries@.len() - 1
                    ==> self.entries@[i].id@ != self.entries@[j].id@);
            assert(forall|i: int| 0 <= i < before.len() ==> self.entries@[i] == before[i]);
        }
    }

    /// Remove the credential with an identifier, if present.
    pub fn remove(&mut self, id: &str) -> (r: Option<Credential>)
        requires
            old(self).wf(),
        ensures
            final(self).wf(),
            final(self)@ =~= old(self)@.remove(id@),
            r is Some <==> old(self)@.contains_key(id@),
            r matches Some(c) ==> c == old(self)@[id@] && c.id@ == id@,
    {
        let key = id.to_owned();
        let n = self.entries.len();
        for i in 0..n
            invariant
                n == self.entries@.len(),
                key@ == id@,
                self.wf(),
                self.entries@ == old(self).entries@,
                forall|j: int| 0 <= j < i ==> self.entries@[j].id@ != id@,
        {
            if self.entries[i].id == key {
                proof {
                    lemma_map_of_index(self.entries@, i as int);
                    lemma_map_of_remove(self.entries@, i as int);
                }
                let c = self.entries.remove(i);
                proof {
                    assert(forall|a: int, b: int|
                        0 <= a < b < self.entries@.len() ==> #[trigger] self.entries@[a].id@
                            != #[trigger] self.entries@[b].id@) by {
                        assert(forall|a: int| 0 <= a < i ==> self.entries@[a] == old(
                            self,
                        ).entries@[a]);
                        assert(forall|a: int| i <= a < self.entries@.len() ==> self.entries@[a]
                            == old(self).entries@[a + 1]);
                    }
                }
                return Some(c);
            }
        }
        proof {
            lemma_map_of_contains(self.entries@, id@);
            assert(self@ =~= self@.remove(id@));
        }
        None
    }

    /// Replace the password field of the credential with an identifier.
    /// Returns whether it was present.
    pub fn set_password(&mut self, id: &str, p: EncryptedValue) -> (r: bool)
        requires
            old(self).wf(),
        ensures
            final(self).wf(),
            r <==> old(self)@.contains_key(id@),
            r ==> final(self)@ =~= old(self)@.insert(id@, with_password(old(self)@[id@], p)),
            !r ==> final(self)@ =~= old(self)@,
    {
        match self.remove(id) {
            Some(c) => {
                let updated = Credential {
                    id: c.id,
                    user_id: c.user_id,
                    site: c.site,
                    username: c.username,
                    password: p,
                };
                proof {
                    assert(!self@.contains_key(updated.id@));
                }
                self.insert(updated);
                proof {
                    assert(self@ =~= old(self)@.insert(id@, with_password(old(self)@[id@], p)));
                }
                true
            },
            None => false,
        }
    }

    /// Owned copies of every cached credential whose site matches.
    pub fn get_site(&self, site: &str) -> (r: Vec<Credential>)
        requires
            self.wf(),
        ensures
            forall|j: int|
                0 <= j < r@.len() ==> self@.contains_key(#[trigger] r@[j].id@) && self@[r@[j].id@]
                    == r@[j] && r@[j].site@ == site@,
            forall|k: Seq<char>|
                self@.contains_key(k) && (#[trigger] self@[k]).site@ == site@ ==> exists|j: int|
                    0 <= j < r@.len() && r@[j].id@ == k,
    {
        let site_key = site.to_owned();
        let mut out: Vec<Credential> = Vec::new();
        let n = self.entries.len();
        for i in 0..n
            invariant
                n == self.entries@.len(),
                site_key@ == site@,
                self.wf(),
                forall|j: int|
                    0 <= j < out@.len() ==> self@.contains_key(#[trigger] out@[j].id@)
                        && self@[out@[j].id@] == out@[j] && out@[j].site@ == site@,
                forall|m: int|
                    0 <= m < i && (#[trigger] self.entries@[m]).site@ == site@ ==> exists|j: int|
                        0 <= j < out@.len() && out@[j].id@ == self.entries@[m].id@,
        {
            let ghost pre = out@;
            if self.entries[i].site == site_key {
                proof {
                    lemma_map_of_index(self.entries@, i as int);
                }
                out.push(self.entries[i].duplicate());
                proof {
                    assert forall|m: int|
                        0 <= m < i + 1 && (#[trigger] self.entries@[m]).site@
                            == site@ implies exists|j: int|
                        0 <= j < out@.len() && out@[j].id@ == self.entries@[m].id@ by {
                        if m < i {
                            let j = choose|j: int|
                                0 <= j < pre.len() && pre[j].id@ == self.entries@[m].id@;
                            assert(out@[j].id@ == self.entries@[m].id@);
                        } else {
                            assert(out@[out@.len() - 1].id@ == self.entries@[m].id@);
                        }
                    }
                }
            } else {
                proof {
                    assert(self.entries@[i as int].site@ != site@);
                }
            }
        }
        proof {
            assert forall|k: Seq<char>|
                self@.contains_key(k) && (#[trigger] self@[k]).site@ == site@ implies exists|j: int|
                0 <= j < out@.len() && out@[j].id@ == k by {
                lemma_map_of_contains(self.entries@, k);
                let m = choose|m: int| 0 <= m < self.entries@.len() && self.entries@[m].id@ == k;
                lemma_map_of_index(self.entries@, m);
                assert(self.entries@[m].site@ == site@);
            }
        }
        out
    }

    /// An equal copy of the whole cache.
    pub fn duplicate(&self) -> (r: CredentialsMap)
        requires
            self.wf(),
        ensures
            r.wf(),
            r@ =~= self@,
    {
        let mut out: Vec<Credential> = Vec::new();
        let n = self.entries.len();
        for i in 0..n
            invariant
                n == self.entries@.len(),
                out@.len() == i,
                forall|j: int| 0 <= j < i ==> out@[j] == self.entries@[j],
        {
            out.push(self.entries[i].duplicate());
        }
        proof {
            assert(out@ =~= self.entries@);
        }
        CredentialsMap { entries: out }
    }

    /// Rebuild a cache wholesale from a fetched list; among entries sharing
    /// an identifier the first is kept.
    pub fn from_list(list: &Vec<Credential>) -> (r: CredentialsMap)
        ensures
            r.wf(),
            forall|k: Seq<char>|
                r@.contains_key(k) <==> exists|i: int| 0 <= i < list@.len() && (#[trigger] list@[i]).id@
                    == k,
            forall|k: Seq<char>|
                r@.contains_key(k) ==> exists|i: int|
                    0 <= i < list@.len() && #[trigger] list@[i] == r@[k] && list@[i].id@ == k,
    {
        let mut out = CredentialsMap::new();
        let n = list.len();
        for i in 0..n
            invariant
                n == list@.len(),
                out.wf(),
                forall|k: Seq<char>|
                    out@.contains_key(k) <==> exists|m: int| 0 <= m < i && (#[trigger] list@[m]).id@
                        == k,
                forall|k: Seq<char>|
                    out@.contains_key(k) ==> exists|m: int|
                        0 <= m < i && #[trigger] list@[m] == out@[k] && list@[m].id@ == k,
        {
            let c = list[i].duplicate();
            match out.find(c.id.as_str()) {
                Some(_) => {},
                None => {
                    out.insert(c);
                },
            }
            proof {
                assert(forall|k: Seq<char>|
                    out@.contains_key(k) <==> exists|m: int| 0 <= m < i + 1 && (#[trigger] list@[m]).id@
                        == k) by {
                    assert(list@[i as int].id@ == c.id@);
                }
            }
        }
        out
    }
}

impl View for CredentialsMap {
    type V = Map<Seq<char>, Credential>;

    closed spec fn view(&self) -> Map<Seq<char>, Credential> {
        map_of(self.entries@)
    }
}

} // verus!
