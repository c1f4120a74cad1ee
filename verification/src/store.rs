//! The session store: a mapping from session tokens to authenticated
//! identities. At most one identity per token; insertion of a token that is
//! already present signals a conflict and leaves the store unchanged;
//! removal of an absent token is a no-op. The store is meant to be the one
//! shared mutable resource of a running server: the process wraps the whole
//! store in a single exclusive lock and each operation runs under it.

use vstd::prelude::*;

use crate::session::UserSession;
use crate::session::UserSessionView;

verus! {

/// Signalled when a token to be inserted is already a key of the store.
pub struct ConflictError;

/// The finite map described by an association list, later entries winning.
spec fn map_of(s: Seq<(String, UserSession)>) -> Map<Seq<char>, UserSessionView>
    decreases s.len(),
{
    if s.len() == 0 {
        Map::empty()
    } else {
        map_of(s.drop_last()).insert(s.last().0@, s.last().1@)
    }
}

/// Mapping from session token to authenticated identity.
pub struct UserSessions {
    entries: Vec<(String, UserSession)>,
}

impl View for UserSessions {
    type V = Map<Seq<char>, UserSessionView>;

    closed spec fn view(&self) -> Map<Seq<char>, UserSessionView> {
        map_of(self.entries@)
    }
}

proof fn lemma_map_of_dom(s: Seq<(String, UserSession)>, k: Seq<char>)
    ensures
        map_of(s).dom().contains(k) <==> exists|i: int| 0 <= i < s.len() && s[i].0@ == k,
    decreases s.len(),
{
    if s.len() > 0 {
        lemma_map_of_dom(s.drop_last(), k);
        if s.last().0@ == k {
            assert(s[s.len() - 1].0@ == k);
        } else if map_of(s).dom().contains(k) {
            let i = choose|i: int| 0 <= i < s.drop_last().len() && s.drop_last()[i].0@ == k;
            assert(s[i].0@ == k);
        } else if exists|i: int| 0 <= i < s.len() && s[i].0@ == k {
            let i = choose|i: int| 0 <= i < s.len() && s[i].0@ == k;
            assert(s.drop_last()[i].0@ == k);
        }
    }
}

proof fn lemma_map_of_get(s: Seq<(String, UserSession)>, i: int)
    requires
        0 <= i < s.len(),
        forall|p: int, q: int| 0 <= p < q < s.len() ==> s[p].0@ != s[q].0@,
    ensures
        map_of(s).dom().contains(s[i].0@),
        map_of(s)[s[i].0@] == s[i].1@,
    decreases s.len(),
{
    if i == s.len() - 1 {
    } else {
        lemma_map_of_get(s.drop_last(), i);
        assert(s.drop_last()[i] == s[i]);
        assert(s[i].0@ != s.last().0@);
    }
}

proof fn lemma_map_of_remove_at(s: Seq<(String, UserSession)>, i: int)
    requires
        0 <= i < s.len(),
        forall|p: int, q: int| 0 <= p < q < s.len() ==> s[p].0@ != s[q].0@,
    ensures
        map_of(s.remove(i)) == map_of(s).remove(s[i].0@),
    decreases s.len(),
{
    let k = s[i].0@;
    if i == s.len() - 1 {
        assert(s.remove(i) =~= s.drop_last());
        lemma_map_of_dom(s.drop_last(), k);
        assert(!map_of(s.drop_last()).dom().contains(k)) by {
            if map_of(s.drop_last()).dom().contains(k) {
                let j = choose|j: int| 0 <= j < s.drop_last().len() && s.drop_last()[j].0@ == k;
                assert(s[j].0@ == s[i].0@);
            }
        }
        assert(map_of(s.drop_last()).insert(k, s.last().1@).remove(k) =~= map_of(s.drop_last()));
    } else {
        lemma_map_of_remove_at(s.drop_last(), i);
        assert(s.remove(i).drop_last() =~= s.drop_last().remove(i));
        assert(s.remove(i).last() == s.last());
        assert(s.remove(i).len() == s.len() - 1);
        assert(map_of(s.remove(i)) == map_of(s.drop_last().remove(i)).insert(
            s.last().0@,
            s.last().1@,
        ));
        assert(k != s.last().0@);
        assert(map_of(s.drop_last()).remove(k).insert(s.last().0@, s.last().1@) =~= map_of(
            s.drop_last(),
        ).insert(s.last().0@, s.last().1@).remove(k));
    }
}

proof fn lemma_map_of_len(s: Seq<(String, UserSession)>)
    requires
        forall|p: int, q: int| 0 <= p < q < s.len() ==> s[p].0@ != s[q].0@,
    ensures
        map_of(s).dom().finite(),
        map_of(s).dom().len() == s.len(),
    decreases s.len(),
{
    if s.len() > 0 {
        lemma_map_of_len(s.drop_last());
        lemma_map_of_dom(s.drop_last(), s.last().0@);
        assert(!map_of(s.drop_last()).dom().contains(s.last().0@)) by {
            if map_of(s.drop_last()).dom().contains(s.last().0@) {
                let j = choose|j: int|
                    0 <= j < s.drop_last().len() && s.drop_last()[j].0@ == s.last().0@;
                assert(s[j].0@ == s[s.len() - 1].0@);
            }
        }
        assert(map_of(s).dom() =~= map_of(s.drop_last()).dom().insert(s.last().0@));
        vstd::set::axiom_set_insert_finite(map_of(s.drop_last()).dom(), s.last().0@);
        vstd::set::axiom_set_insert_len(map_of(s.drop_last()).dom(), s.last().0@);
    } else {
        assert(map_of(s).dom() =~= Set::<Seq<char>>::empty());
    }
}

impl UserSessions {
    /// Every token occurs as a key at most once.
    pub closed spec fn wf(&self) -> bool {
        forall|p: int, q: int|
            0 <= p < q < self.entries@.len() ==> self.entries@[p].0@ != self.entries@[q].0@
    }

    /// An empty store.
    pub fn new() -> (r: UserSessions)
        ensures
            r.wf(),
            r@ == Map::<Seq<char>, UserSessionView>::empty(),
    {
        UserSessions { entries: Vec::new() }
    }

    /// The index of `token` among the entries, if it is a key.
    fn find(&self, token: &str) -> (r: Option<usize>)
        ensures
            match r {
                Some(i) => i < self.entries@.len() && self.entries@[i as int].0@ == token@,
                None => forall|i: int| 0 <= i < self.entries@.len() ==> self.entries@[i].0@ != token@,
            },
    {
        let n = self.entries.len();
        let mut i: usize = 0;
        while i < n
            invariant
                n == self.entries@.len(),
                i <= n,
                forall|j: int| 0 <= j < i ==> self.entries@[j].0@ != token@,
            decreases n - i,
        {
            if crate::text::str_eq(self.entries[i].0.as_str(), token) {
                return Some(i);
            }
            i = i + 1;
        }
        None
    }

    /// Whether `token` is a key of the store.
    pub fn contains(&self, token: &str) -> (r: bool)
        ensures
            r == self@.dom().contains(token@),
    {
        proof {
            lemma_map_of_dom(self.entries@, token@);
        }
        self.find(token).is_some()
    }

    /// Adds `token -> user`; a token that is already present is a conflict
    /// and the store is left unchanged.
    pub fn insert(&mut self, token: String, user: UserSession) -> (r: Result<(), ConflictError>)
        requires
            old(self).wf(),
        ensures
            final(self).wf(),
            r is Ok <==> !old(self)@.dom().contains(token@),
            r is Ok ==> final(self)@ == old(self)@.insert(token@, user@),
            r is Err ==> final(self)@ == old(self)@,
    {
        proof {
            lemma_map_of_dom(self.entries@, token@);
        }
        if self.find(token.as_str()).is_some() {
            return Err(ConflictError);
        }
        let ghost prev = self.entries@;
        self.entries.push((token, user));
        proof {
            assert(self.entries@.drop_last() =~= prev);
        }
        Ok(())
    }

    /// A copy of the identity that `token` resolves to, if any.
    pub fn lookup(&self, token: &str) -> (r: Option<UserSession>)
        requires
            self.wf(),
        ensures
            match r {
                Some(u) => self@.dom().contains(token@) && u@ == self@[token@],
                None => !self@.dom().contains(token@),
            },
    {
        proof {
            lemma_map_of_dom(self.entries@, token@);
        }
        match self.find(token) {
            Some(i) => {
                proof {
                    lemma_map_of_get(self.entries@, i as int);
                }
                Some(self.entries[i].1.clone())
            },
            None => None,
        }
    }

    /// Drops `token` from the store; removing an absent token is a no-op.
    pub fn remove(&mut self, token: &str)
        requires
            old(self).wf(),
        ensures
            final(self).wf(),
            final(self)@ == old(self)@.remove(token@),
    {
        proof {
            lemma_map_of_dom(self.entries@, token@);
        }
        match self.find(token) {
            Some(i) => {
                proof {
                    lemma_map_of_remove_at(self.entries@, i as int);
                }
                self.entries.remove(i);
            },
            None => {
                proof {
                    assert(map_of(self.entries@).remove(token@) =~= map_of(self.entries@));
                }
            },
        }
    }

    /// How many sessions are live.
    pub fn len(&self) -> (r: usize)
        requires
            self.wf(),
        ensures
            r == self@.dom().len(),
    {
        proof {
            lemma_map_of_len(self.entries@);
        }
        self.entries.len()
    }
}

/// Law: the store is a consistent map. Inserting a token makes exactly
/// that token resolve to the inserted identity; removing a token makes it
/// resolve to nothing; removing an absent token changes nothing. The
/// operations' own contracts tie `insert`, `lookup` and `remove` to the
/// map operations this law speaks of.
pub proof fn lemma_store_consistency(
    m: Map<Seq<char>, UserSessionView>,
    t: Seq<char>,
    u: UserSessionView,
)
    ensures
        m.insert(t, u).dom().contains(t),
        m.insert(t, u)[t] == u,
        !m.remove(t).dom().contains(t),
        !m.dom().contains(t) ==> m.remove(t) == m,
{
    if !m.dom().contains(t) {
        assert(m.remove(t) =~= m);
    }
}

} // verus!
