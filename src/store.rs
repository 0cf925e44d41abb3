//! The connection store: the table of connection profiles, keyed by id, and
//! its sealed on-disk projection. Writing and reading the file is left to the
//! caller; a failed write leaves the table as it is.

use vstd::prelude::*;
use vstd::string::*;
use crate::crypto::{decrypt_outcome, sealable, seals, CryptoError, CryptoManager, EncryptedData, SecureConnectionData};
use crate::error::opt_text;
use crate::types::{copy_opt_text, ConnectionView, EsConnection};

verus! {

/// Relies on `uuid::Uuid::new_v4` shown in its hyphenated form, which is 36
/// characters long.
#[verifier::external_body]
fn new_connection_id() -> (r: String)
    ensures
        r@.len() == 36,
{
    uuid::Uuid::new_v4().to_string()
}

/// The position of the profile with id `id`.
pub open spec fn position_of(ps: Seq<ConnectionView>, id: Seq<char>) -> Option<int>
    decreases ps.len(),
{
    if ps.len() == 0 {
        None
    } else if ps.last().id == id {
        Some(ps.len() - 1)
    } else {
        position_of(ps.drop_last(), id)
    }
}

/// The profile with id `id`.
pub open spec fn lookup_profile(ps: Seq<ConnectionView>, id: Seq<char>) -> Option<ConnectionView> {
    match position_of(ps, id) {
        Some(i) => Some(ps[i]),
        None => None,
    }
}

/// The table with `p` stored under its id, replacing a profile with that id.
pub open spec fn upsert(ps: Seq<ConnectionView>, p: ConnectionView) -> Seq<ConnectionView> {
    match position_of(ps, p.id) {
        Some(i) => ps.update(i, p),
        None => ps.push(p),
    }
}

/// The table without the profile with id `id`.
pub open spec fn without(ps: Seq<ConnectionView>, id: Seq<char>) -> Seq<ConnectionView> {
    match position_of(ps, id) {
        Some(i) => ps.remove(i),
        None => ps,
    }
}

/// Whether no two profiles share an id.
pub open spec fn ids_unique(ps: Seq<ConnectionView>) -> bool {
    forall|i: int, j: int| 0 <= i < j < ps.len() ==> ps[i].id != ps[j].id
}

/// The profile that a stored record restores to under `key`, or nothing when
/// its sealed password does not open.
pub open spec fn restored(rec: SecureConnectionData, key: Seq<u8>) -> Option<ConnectionView> {
    let base = ConnectionView {
        id: rec.id@,
        name: rec.name@,
        url: rec.url@,
        username: opt_text(rec.username),
        password: None,
        headers: rec.headers@,
    };
    match rec.encrypted_password {
        Some(d) => match decrypt_outcome(key, d.ciphertext@, d.nonce@) {
            Ok(p) => Some(ConnectionView { password: Some(p), ..base }),
            Err(_) => None,
        },
        None => Some(base),
    }
}

/// The table after loading `recs` in order: every record that restores is
/// stored under its id; the others are skipped.
pub open spec fn loaded(ps: Seq<ConnectionView>, recs: Seq<SecureConnectionData>, key: Seq<u8>) -> Seq<
    ConnectionView,
>
    decreases recs.len(),
{
    if recs.len() == 0 {
        ps
    } else {
        let before = loaded(ps, recs.drop_last(), key);
        match restored(recs.last(), key) {
            Some(p) => upsert(before, p),
            None => before,
        }
    }
}

/// Whether `rec` is the stored form of profile `p` under `key`: the same
/// fields, and a non-empty password sealed, an absent or empty one left out.
pub open spec fn persists(p: ConnectionView, rec: SecureConnectionData, key: Seq<u8>) -> bool {
    &&& rec.id@ == p.id
    &&& rec.name@ == p.name
    &&& rec.url@ == p.url
    &&& opt_text(rec.username) == p.username
    &&& rec.headers@ == p.headers
    &&& match p.password {
        Some(pw) => if pw.len() > 0 {
            rec.encrypted_password matches Some(d) && seals(key, pw, d)
        } else {
            rec.encrypted_password is None
        },
        None => rec.encrypted_password is None,
    }
}

pub proof fn lemma_position_in_range(ps: Seq<ConnectionView>, id: Seq<char>)
    ensures
        position_of(ps, id) matches Some(i) ==> 0 <= i < ps.len() && ps[i].id == id,
        position_of(ps, id) is None ==> forall|i: int| 0 <= i < ps.len() ==> ps[i].id != id,
    decreases ps.len(),
{
    if ps.len() > 0 {
        lemma_position_in_range(ps.drop_last(), id);
        if ps.last().id != id {
            assert forall|i: int| 0 <= i < ps.len() - 1 implies ps[i] == ps.drop_last()[i] by {}
        }
    }
}

pub proof fn lemma_upsert_unique(ps: Seq<ConnectionView>, p: ConnectionView)
    requires
        ids_unique(ps),
    ensures
        ids_unique(upsert(ps, p)),
{
    lemma_position_in_range(ps, p.id);
}

/// The profiles that the records restore to, in order, skipping those that
/// do not restore.
pub open spec fn restorable(recs: Seq<SecureConnectionData>, key: Seq<u8>) -> Seq<ConnectionView>
    decreases recs.len(),
{
    if recs.len() == 0 {
        Seq::empty()
    } else {
        let before = restorable(recs.drop_last(), key);
        match restored(recs.last(), key) {
            Some(p) => before.push(p),
            None => before,
        }
    }
}

proof fn lemma_restorable_ids(recs: Seq<SecureConnectionData>, key: Seq<u8>)
    ensures
        forall|k: int|
            0 <= k < restorable(recs, key).len() ==> exists|i: int|
                0 <= i < recs.len() && #[trigger] restorable(recs, key)[k].id == recs[i].id@,
    decreases recs.len(),
{
    if recs.len() > 0 {
        lemma_restorable_ids(recs.drop_last(), key);
        let before = restorable(recs.drop_last(), key);
        assert forall|k: int| 0 <= k < restorable(recs, key).len() implies exists|i: int|
            0 <= i < recs.len() && #[trigger] restorable(recs, key)[k].id == recs[i].id@ by {
            if k < before.len() {
                let i = choose|i: int| 0 <= i < recs.drop_last().len() && #[trigger] before[k].id == recs.drop_last()[i].id@;
                assert(restorable(recs, key)[k] == before[k]);
                assert(recs[i] == recs.drop_last()[i]);
            } else {
                assert(restorable(recs, key)[k].id == recs[recs.len() - 1].id@);
            }
        }
    }
}

/// Loading never fails as a whole: on an empty table, records with distinct
/// ids leave exactly the profiles whose passwords open (or that have none),
/// in order; a record whose password does not open is skipped and no other.
pub proof fn lemma_load_skips_only_unreadable(recs: Seq<SecureConnectionData>, key: Seq<u8>)
    requires
        forall|i: int, j: int| 0 <= i < j < recs.len() ==> recs[i].id@ != recs[j].id@,
    ensures
        loaded(Seq::empty(), recs, key) == restorable(recs, key),
    decreases recs.len(),
{
    if recs.len() > 0 {
        let init = recs.drop_last();
        lemma_load_skips_only_unreadable(init, key);
        lemma_restorable_ids(init, key);
        match restored(recs.last(), key) {
            Some(p) => {
                let before = restorable(init, key);
                lemma_position_in_range(before, p.id);
                if position_of(before, p.id) is Some {
                    let k = position_of(before, p.id).unwrap();
                    let i = choose|i: int| 0 <= i < init.len() && #[trigger] before[k].id == init[i].id@;
                    assert(recs[i].id@ == recs[recs.len() - 1].id@);
                }
            },
            None => {},
        }
    }
}

/// The length of the longest id in the table.
pub open spec fn max_id_len(ps: Seq<ConnectionView>) -> nat
    decreases ps.len(),
{
    if ps.len() == 0 {
        0
    } else {
        let m = max_id_len(ps.drop_last());
        if ps.last().id.len() > m {
            ps.last().id.len()
        } else {
            m
        }
    }
}

/// An id in the table is no longer than the longest one.
pub proof fn lemma_position_len(ps: Seq<ConnectionView>, id: Seq<char>)
    ensures
        position_of(ps, id) is Some ==> id.len() <= max_id_len(ps),
    decreases ps.len(),
{
    if ps.len() > 0 {
        lemma_position_len(ps.drop_last(), id);
    }
}

/// The names of the records that do not restore under `key`, in order.
pub open spec fn unreadable_names(recs: Seq<SecureConnectionData>, key: Seq<u8>) -> Seq<Seq<char>>
    decreases recs.len(),
{
    if recs.len() == 0 {
        Seq::empty()
    } else {
        unreadable_names(recs.drop_last(), key) + if restored(recs.last(), key) is None {
            seq![recs.last().name@]
        } else {
            Seq::empty()
        }
    }
}

/// Whether a stored password can be sealed: absent, empty, or within the
/// cipher's limit.
pub open spec fn password_sealable(p: Option<Seq<char>>) -> bool {
    match p {
        Some(pw) => pw.len() == 0 || sealable(pw),
        None => true,
    }
}

/// The table of connection profiles, and the key that seals their passwords.
pub struct ConnectionManager {
    connections: Vec<EsConnection>,
    crypto: CryptoManager,
}

impl ConnectionManager {
    /// The profiles, in the order they were first stored.
    pub closed spec fn profiles(&self) -> Seq<ConnectionView> {
        self.connections@.map_values(|c: EsConnection| c@)
    }

    /// The key that seals the stored passwords.
    pub closed spec fn key(&self) -> Seq<u8> {
        self.crypto.key()
    }

    pub open spec fn wf(&self) -> bool {
        ids_unique(self.profiles())
    }

    /// An empty table whose passwords are sealed by `crypto`.
    pub fn new(crypto: CryptoManager) -> (r: ConnectionManager)
        ensures
            r.wf(),
            r.profiles().len() == 0,
            r.key() == crypto.key(),
    {
        let r = ConnectionManager { connections: Vec::new(), crypto };
        assert(r.profiles() =~= Seq::<ConnectionView>::empty());
        r
    }

    /// The position of the profile with id `id`.
    fn position(&self, id: &str) -> (r: Option<usize>)
        ensures
            match r {
                Some(i) => position_of(self.profiles(), id@) == Some(i as int),
                None => position_of(self.profiles(), id@) is None,
            },
    {
        let mut k: usize = self.connections.len();
        assert(self.profiles().take(k as int) =~= self.profiles());
        while k > 0
            invariant
                k <= self.connections@.len(),
                position_of(self.profiles(), id@) == position_of(self.profiles().take(k as int), id@),
            decreases k,
        {
            proof {
                assert(self.profiles().take(k as int).drop_last() =~= self.profiles().take(k - 1));
            }
            if crate::json::same_text(self.connections[k - 1].id.as_str(), id) {
                assert(self.profiles().take(k as int).last().id == self.connections@[k - 1].id@);
                return Some(k - 1);
            }
            k = k - 1;
        }
        None
    }

    /// Stores `p` under its id, replacing a profile with that id.
    fn store(&mut self, p: EsConnection)
        requires
            old(self).wf(),
        ensures
            final(self).wf(),
            final(self).key() == old(self).key(),
            final(self).profiles() == upsert(old(self).profiles(), p@),
    {
        proof {
            assert(self.profiles().take(self.connections@.len() as int) =~= self.profiles());
            lemma_upsert_unique(self.profiles(), p@);
            lemma_position_in_range(self.profiles(), p@.id);
        }
        match self.position(p.id.as_str()) {
            Some(i) => {
                let ghost pv = p@;
                self.connections.set(i, p);
                assert(self.profiles() =~= old(self).profiles().update(i as int, pv));
            },
            None => {
                let ghost pv = p@;
                self.connections.push(p);
                assert(self.profiles() =~= old(self).profiles().push(pv));
            },
        }
    }

    /// A random id that no stored profile has; in the unlikely event that the
    /// random id is taken, it is lengthened until it is not.
    fn fresh_id(&self) -> (r: String)
        ensures
            r@.len() >= 36,
            position_of(self.profiles(), r@) is None,
    {
        let mut id = new_connection_id();
        while self.position(id.as_str()).is_some()
            invariant
                id@.len() >= 36,
            decreases max_id_len(self.profiles()) + 1 - id@.len(),
        {
            proof {
                lemma_position_len(self.profiles(), id@);
                reveal_strlit("-");
            }
            id.append("-");
        }
        id
    }

    /// Stores a profile, giving it a fresh id if it has none, and returns its
    /// id. A profile with the same id is replaced.
    pub fn add_connection(&mut self, connection: EsConnection) -> (r: String)
        requires
            old(self).wf(),
        ensures
            final(self).wf(),
            final(self).key() == old(self).key(),
            connection.id@.len() > 0 ==> r@ == connection.id@,
            connection.id@.len() == 0 ==> r@.len() >= 36 && position_of(old(self).profiles(), r@) is None,
            final(self).profiles() == upsert(
                old(self).profiles(),
                ConnectionView { id: r@, ..connection@ },
            ),
    {
        let mut connection = connection;
        if connection.id.as_str().is_empty() {
            connection.id = self.fresh_id();
        }
        let id = connection.id.clone();
        self.store(connection);
        id
    }

    /// A copy of the profile with id `id`.
    pub fn get_connection(&self, id: &str) -> (r: Option<EsConnection>)
        requires
            self.wf(),
        ensures
            match r {
                Some(c) => lookup_profile(self.profiles(), id@) == Some(c@),
                None => lookup_profile(self.profiles(), id@) is None,
            },
    {
        proof {
            lemma_position_in_range(self.profiles(), id@);
        }
        match self.position(id) {
            Some(i) => Some(self.connections[i].duplicate()),
            None => None,
        }
    }

    /// Copies of all profiles.
    pub fn list_connections(&self) -> (r: Vec<EsConnection>)
        ensures
            r@.map_values(|c: EsConnection| c@) == self.profiles(),
    {
        let mut out: Vec<EsConnection> = Vec::new();
        let mut i: usize = 0;
        while i < self.connections.len()
            invariant
                i <= self.connections@.len(),
                out@.map_values(|c: EsConnection| c@) == self.profiles().take(i as int),
            decreases self.connections@.len() - i,
        {
            let c = self.connections[i].duplicate();
            proof {
                assert(out@.push(c).map_values(|c: EsConnection| c@) =~= out@.map_values(|c: EsConnection| c@).push(c@));
                assert(self.profiles().take(i + 1) =~= self.profiles().take(i as int).push(self.profiles()[i as int]));
            }
            out.push(c);
            i = i + 1;
        }
        assert(self.profiles().take(i as int) =~= self.profiles());
        out
    }

    /// Removes the profile with id `id`; whether there was one.
    pub fn remove_connection(&mut self, id: &str) -> (r: bool)
        requires
            old(self).wf(),
        ensures
            final(self).wf(),
            final(self).key() == old(self).key(),
            r == (position_of(old(self).profiles(), id@) is Some),
            final(self).profiles() == without(old(self).profiles(), id@),
    {
        proof {
            lemma_position_in_range(self.profiles(), id@);
        }
        match self.position(id) {
            Some(i) => {
                self.connections.remove(i);
                assert(self.profiles() =~= old(self).profiles().remove(i as int));
                true
            },
            None => false,
        }
    }

    /// The stored form of every profile, in order, with non-empty passwords
    /// sealed. Sealing fails only if the cipher refuses.
    pub fn persisted_records(&self) -> (r: Result<Vec<SecureConnectionData>, CryptoError>)
        ensures
            match r {
                Ok(recs) => {
                    &&& recs@.len() == self.profiles().len()
                    &&& forall|i: int|
                        0 <= i < recs@.len() ==> persists(self.profiles()[i], #[trigger] recs@[i], self.key())
                },
                Err(e) => e == CryptoError::EncryptionFailed,
            },
            (forall|i: int| 0 <= i < self.profiles().len() ==> #[trigger] password_sealable(self.profiles()[i].password))
                ==> r is Ok,
    {
        let mut out: Vec<SecureConnectionData> = Vec::new();
        let mut i: usize = 0;
        while i < self.connections.len()
            invariant
                i <= self.connections@.len(),
                out@.len() == i,
                forall|k: int| 0 <= k < i ==> persists(self.profiles()[k], #[trigger] out@[k], self.key()),
            decreases self.connections@.len() - i,
        {
            let c = &self.connections[i];
            assert(self.profiles()[i as int] == c@);
            let encrypted_password: Option<EncryptedData> = match &c.password {
                Some(pw) => if pw.as_str().is_empty() {
                    None
                } else {
                    match self.crypto.encrypt_password(pw.as_str()) {
                        Ok(d) => Some(d),
                        Err(e) => {
                            assert(!password_sealable(self.profiles()[i as int].password));
                            return Err(e);
                        },
                    }
                },
                None => None,
            };
            let rec = SecureConnectionData {
                id: c.id.clone(),
                name: c.name.clone(),
                url: c.url.clone(),
                username: copy_opt_text(&c.username),
                encrypted_password,
                headers: c.headers.clone(),
            };
            assert(self.profiles()[i as int] == c@);
            out.push(rec);
            i = i + 1;
        }
        Ok(out)
    }

    /// Loads stored records in order. A record whose password does not open
    /// is skipped, and its name returned; every other one is stored under its
    /// id.
    pub fn load_connections(&mut self, records: Vec<SecureConnectionData>) -> (r: Vec<String>)
        requires
            old(self).wf(),
        ensures
            final(self).wf(),
            final(self).key() == old(self).key(),
            final(self).profiles() == loaded(old(self).profiles(), records@, old(self).key()),
            r@.map_values(|s: String| s@) == unreadable_names(records@, old(self).key()),
    {
        let mut skipped: Vec<String> = Vec::new();
        let mut i: usize = 0;
        while i < records.len()
            invariant
                i <= records@.len(),
                self.wf(),
                self.key() == old(self).key(),
                self.profiles() == loaded(old(self).profiles(), records@.take(i as int), old(self).key()),
                skipped@.map_values(|s: String| s@) == unreadable_names(records@.take(i as int), old(self).key()),
            decreases records@.len() - i,
        {
            let rec = &records[i];
            proof {
                assert(records@.take(i + 1).drop_last() =~= records@.take(i as int));
                assert(records@.take(i + 1).last() == records@[i as int]);
            }
            let password: Option<Option<String>> = match &rec.encrypted_password {
                Some(d) => match self.crypto.decrypt_password(d) {
                    Ok(p) => Some(Some(p)),
                    Err(_) => None,
                },
                None => Some(None),
            };
            match password {
                Some(password) => {
                    let c = EsConnection {
                        id: rec.id.clone(),
                        name: rec.name.clone(),
                        url: rec.url.clone(),
                        username: copy_opt_text(&rec.username),
                        password,
                        headers: rec.headers.clone(),
                    };
                    assert(restored(*rec, self.key()) == Some(c@));
                    assert(skipped@.map_values(|s: String| s@) =~= unreadable_names(records@.take(i + 1), old(self).key()));
                    self.store(c);
                },
                None => {
                    let name = rec.name.clone();
                    proof {
                        assert(skipped@.push(name).map_values(|s: String| s@) =~= skipped@.map_values(|s: String| s@).push(name@));
                    }
                    skipped.push(name);
                },
            }
            i = i + 1;
        }
        assert(records@.take(i as int) =~= records@);
        skipped
    }
}

} // verus!
