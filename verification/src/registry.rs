//! The instance registry: ids, owners, and each instance's mailbox.

use vstd::prelude::*;
use vstd::utf8::*;
use vstd::string::*;
use crate::envelope::Envelope;
use crate::keyed::{keyed_map, keys_unique, lemma_keyed_dom, lemma_keyed_index, lemma_keyed_push,
    lemma_keyed_push_unique, lemma_keyed_remove, lemma_keyed_update};
use crate::mailbox::{empty_mailbox, pop_model, pop_outcome, push_evicts, push_model, Mailbox,
    MailboxModel, Pushed, RecvError};
use crate::order::{insert_sorted, strictly_sorted, views};
use crate::text::{owned, str_eq};

verus! {

broadcast use vstd::string::group_string_axioms;

/// Identifies the party (a connection, a request) that registered an id.
pub type OwnerToken = u64;

/// A code point allowed in an instance id: ASCII letters and digits and
/// `_ . : -`.
pub open spec fn id_code_ok(u: u32) -> bool {
    (48 <= u <= 57) || (65 <= u <= 90) || (97 <= u <= 122) || u == 95 || u == 46 || u == 58
        || u == 45
}

/// An instance id: 1 to 128 characters, each allowed by `id_code_ok`.
pub open spec fn instance_id_ok(s: Seq<char>) -> bool {
    &&& 1 <= s.len() <= 128
    &&& forall|i: int| 0 <= i < s.len() ==> id_code_ok(#[trigger] s[i] as u32)
}

/// A character outside ASCII is never allowed in an id.
proof fn lemma_non_ascii_not_id_char(c: char)
    requires
        !('\0' <= c <= '\u{7f}'),
    ensures
        !id_code_ok(c as u32),
{
}

/// Every character of a valid id is ASCII.
proof fn lemma_id_is_ascii(s: Seq<char>)
    requires
        instance_id_ok(s),
    ensures
        is_ascii_chars(s),
{
    assert forall|j: int| 0 <= j < s.len() implies '\0' <= #[trigger] s[j] <= '\u{7f}' by {
        lemma_id_char_is_ascii(s, j);
    }
}

proof fn lemma_id_char_is_ascii(s: Seq<char>, j: int)
    requires
        instance_id_ok(s),
        0 <= j < s.len(),
    ensures
        '\0' <= s[j] <= '\u{7f}',
{
    assert(id_code_ok(s[j] as u32));
    lemma_id_code_is_ascii(s[j]);
}

proof fn lemma_id_code_is_ascii(c: char)
    requires
        id_code_ok(c as u32),
    ensures
        '\0' <= c <= '\u{7f}',
{
}

/// Whether `id` matches `[A-Za-z0-9_.:-]{1,128}`.
pub fn is_valid_id(id: &str) -> (r: bool)
    ensures
        r == instance_id_ok(id@),
{
    if !id.is_ascii() {
        proof {
            assert(!is_ascii_chars(id@));
            let i = choose|i: int| 0 <= i < id@.len() && !('\0' <= #[trigger] id@[i] <= '\u{7f}');
            lemma_non_ascii_not_id_char(id@[i]);
        }
        return false;
    }
    let b = id.as_bytes();
    proof {
        is_ascii_chars_encode_utf8(id@);
        is_ascii_chars_nat_bound(id@);
    }
    if b.len() == 0 || b.len() > 128 {
        return false;
    }
    let mut i: usize = 0;
    while i < b.len()
        invariant
            b@ == encode_utf8(id@),
            b@.len() == id@.len(),
            is_ascii_chars(id@),
            0 <= i <= b@.len(),
            forall|j: int| 0 <= j < i ==> id_code_ok(#[trigger] id@[j] as u32),
        decreases b@.len() - i,
    {
        let c = b[i];
        proof {
            is_ascii_chars_encode_utf8(id@);
            is_ascii_chars_nat_bound(id@);
            assert(id@[i as int] as u8 == encode_utf8(id@)[i as int]);
            assert((id@.index(i as int) as nat) < 128);
            assert((id@[i as int] as u8) as u32 == id@[i as int] as u32);
        }
        let ok = (48 <= c && c <= 57) || (65 <= c && c <= 90) || (97 <= c && c <= 122) || c == 95
            || c == 46 || c == 58 || c == 45;
        if !ok {
            return false;
        }
        i = i + 1;
    }
    true
}

/// One registered instance.
#[derive(Debug)]
pub struct InstanceRecord {
    pub id: String,
    pub owner: OwnerToken,
    pub mailbox: Mailbox,
}

/// Why a registration was refused.
#[derive(Debug)]
pub enum RegisterError {
    /// The id is registered to another owner.
    Collision(String),
    /// The id does not match `[A-Za-z0-9_.:-]{1,128}`.
    Invalid,
}

/// What registering `id` for `owner` with a mailbox of `size` does: an
/// invalid id is refused, an id held by another owner collides, the same
/// owner registering again changes nothing, and a new id gets a fresh,
/// empty, open mailbox.
pub open spec fn register_effect(
    before: Map<Seq<char>, InstanceRecord>,
    after: Map<Seq<char>, InstanceRecord>,
    id: Seq<char>,
    owner: OwnerToken,
    size: nat,
    r: Result<(), RegisterError>,
) -> bool {
    if !instance_id_ok(id) {
        (r matches Err(RegisterError::Invalid)) && after == before
    } else if before.contains_key(id) {
        if before[id].owner == owner {
            r is Ok && after == before
        } else {
            (r matches Err(RegisterError::Collision(c)) && c@ == id) && after == before
        }
    } else {
        &&& r is Ok
        &&& after.dom() == before.dom().insert(id)
        &&& forall|k: Seq<char>| k != id && #[trigger] before.contains_key(k) ==> after[k] == before[k]
        &&& after[id].id@ == id
        &&& after[id].owner == owner
        &&& after[id].mailbox@ == empty_mailbox(size)
    }
}

/// `after` is `before` with `env` pushed into the mailbox of `id`, every
/// other record and the owner of `id` unchanged.
pub open spec fn pushed_into(
    before: Map<Seq<char>, InstanceRecord>,
    after: Map<Seq<char>, InstanceRecord>,
    id: Seq<char>,
    env: Envelope,
) -> bool {
    &&& before.contains_key(id)
    &&& after.dom() == before.dom()
    &&& forall|k: Seq<char>| k != id && #[trigger] before.contains_key(k) ==> after[k] == before[k]
    &&& after[id].id == before[id].id
    &&& after[id].owner == before[id].owner
    &&& after[id].mailbox@ == push_model(before[id].mailbox@, env)
}

/// The key under which a record is filed: its id.
pub open spec fn record_key() -> spec_fn(InstanceRecord) -> Seq<char> {
    |r: InstanceRecord| r.id@
}

/// The registry: registered instances keyed by id, and the counter from
/// which owner tokens are issued.
pub struct Registry {
    records: Vec<InstanceRecord>,
    next_owner: u64,
}

impl View for Registry {
    type V = Map<Seq<char>, InstanceRecord>;

    closed spec fn view(&self) -> Map<Seq<char>, InstanceRecord> {
        keyed_map(self.records@, record_key())
    }
}

impl Registry {
    /// Well-formedness: ids are distinct and valid, mailboxes well formed.
    pub closed spec fn wf(&self) -> bool {
        &&& keys_unique(self.records@, record_key())
        &&& forall|i: int|
            0 <= i < self.records@.len() ==> {
                &&& instance_id_ok(#[trigger] self.records@[i].id@)
                &&& self.records@[i].mailbox.wf()
            }
    }

    /// The next owner token to be issued.
    pub closed spec fn next_token(&self) -> u64 {
        self.next_owner
    }

    /// Every record in a well-formed registry has a valid id, a well-formed
    /// mailbox, and is filed under its own id.
    pub proof fn lemma_wf_entries(&self, k: Seq<char>)
        requires
            self.wf(),
            self@.contains_key(k),
        ensures
            instance_id_ok(k),
            self@[k].id@ == k,
            self@[k].mailbox.wf(),
    {
        lemma_keyed_dom(self.records@, record_key(), k);
        let i = choose|i: int| 0 <= i < self.records@.len() && (record_key())(self.records@[i]) == k;
        lemma_keyed_index(self.records@, record_key(), i);
    }

    /// An empty registry.
    pub fn new() -> (r: Registry)
        ensures
            r.wf(),
            r@ == Map::<Seq<char>, InstanceRecord>::empty(),
            r.next_token() == 0,
    {
        let r = Registry { records: Vec::new(), next_owner: 0 };
        proof {
            assert(r@ =~= Map::<Seq<char>, InstanceRecord>::empty());
        }
        r
    }

    /// Issues the next owner token; the counter wraps like an atomic add.
    pub fn issue_owner_token(&mut self) -> (t: OwnerToken)
        requires
            old(self).wf(),
        ensures
            final(self).wf(),
            final(self)@ == old(self)@,
            t == old(self).next_token(),
            final(self).next_token() == old(self).next_token().wrapping_add(1),
    {
        let t = self.next_owner;
        self.next_owner = self.next_owner.wrapping_add(1);
        proof {
            assert(self.records@ == old(self).records@);
            assert(self.wf());
        }
        t
    }

    /// The position of `id` in the table.
    fn find(&self, id: &str) -> (r: Option<usize>)
        requires
            self.wf(),
        ensures
            match r {
                Some(i) => i < self.records@.len() && self.records@[i as int].id@ == id@,
                None => !self@.contains_key(id@),
            },
    {
        let mut i: usize = 0;
        while i < self.records.len()
            invariant
                0 <= i <= self.records@.len(),
                forall|j: int| 0 <= j < i ==> self.records@[j].id@ != id@,
            decreases self.records@.len() - i,
        {
            if str_eq(self.records[i].id.as_str(), id) {
                return Some(i);
            }
            i = i + 1;
        }
        proof {
            lemma_keyed_dom(self.records@, record_key(), id@);
        }
        None
    }

    /// Registers `id` for `owner` with a fresh mailbox of `mailbox_size`.
    /// Registering again under the same owner changes nothing.
    pub fn register(&mut self, id: &str, owner: OwnerToken, mailbox_size: usize) -> (r: Result<
        (),
        RegisterError,
    >)
        requires
            old(self).wf(),
            instance_id_ok(id@) && !old(self)@.contains_key(id@) ==> 0 < mailbox_size,
        ensures
            final(self).wf(),
            final(self).next_token() == old(self).next_token(),
            register_effect(old(self)@, final(self)@, id@, owner, mailbox_size as nat, r),
    {
        if !is_valid_id(id) {
            return Err(RegisterError::Invalid);
        }
        match self.find(id) {
            Some(i) => {
                proof {
                    lemma_keyed_index(self.records@, record_key(), i as int);
                }
                if self.records[i].owner == owner {
                    Ok(())
                } else {
                    Err(RegisterError::Collision(owned(id)))
                }
            },
            None => {
                let rec = InstanceRecord { id: owned(id), owner, mailbox: Mailbox::new(mailbox_size) };
                let ghost old_records = self.records@;
                proof {
                    lemma_keyed_push_unique(old_records, record_key(), rec);
                    lemma_keyed_push(old_records, record_key(), rec);
                }
                self.records.push(rec);
                proof {
                    assert(self.records@ == old_records.push(rec));
                    assert forall|j: int| 0 <= j < self.records@.len() implies {
                        &&& instance_id_ok(#[trigger] self.records@[j].id@)
                        &&& self.records@[j].mailbox.wf()
                    } by {
                        if j < old_records.len() {
                            assert(self.records@[j] == old_records[j]);
                        }
                    }
                    assert(self@.dom() =~= old(self)@.dom().insert(id@));
                }
                Ok(())
            },
        }
    }

    /// Removes `id` when `owner` holds it; its mailbox is closed and dropped.
    pub fn unregister(&mut self, id: &str, owner: OwnerToken) -> (removed: bool)
        requires
            old(self).wf(),
        ensures
            final(self).wf(),
            final(self).next_token() == old(self).next_token(),
            removed == (old(self)@.contains_key(id@) && old(self)@[id@].owner == owner),
            removed ==> final(self)@ == old(self)@.remove(id@),
            !removed ==> final(self)@ == old(self)@,
    {
        match self.find(id) {
            Some(i) => {
                proof {
                    lemma_keyed_index(self.records@, record_key(), i as int);
                }
                if self.records[i].owner == owner {
                    let ghost old_records = self.records@;
                    proof {
                        lemma_keyed_remove(old_records, record_key(), i as int);
                    }
                    let mut rec = self.records.remove(i);
                    rec.mailbox.close();
                    proof {
                        assert(self.records@ == old_records.remove(i as int));
                        assert forall|j: int| 0 <= j < self.records@.len() implies {
                            &&& instance_id_ok(#[trigger] self.records@[j].id@)
                            &&& self.records@[j].mailbox.wf()
                        } by {
                            if j < i {
                                assert(self.records@[j] == old_records[j]);
                            } else {
                                assert(self.records@[j] == old_records[j + 1]);
                            }
                        }
                    }
                    true
                } else {
                    false
                }
            },
            None => false,
        }
    }

    /// Removes every instance that `owner` holds and returns their ids.
    pub fn unregister_owner(&mut self, owner: OwnerToken) -> (ids: Vec<String>)
        requires
            old(self).wf(),
        ensures
            final(self).wf(),
            final(self).next_token() == old(self).next_token(),
            forall|k: Seq<char>|
                #[trigger] final(self)@.contains_key(k) <==> old(self)@.contains_key(k)
                    && old(self)@[k].owner != owner,
            forall|k: Seq<char>| #[trigger] final(self)@.contains_key(k) ==> final(self)@[k] == old(self)@[k],
            forall|k: Seq<char>|
                views(ids@).contains(k) <==> #[trigger] old(self)@.contains_key(k) && old(self)@[k].owner
                    == owner,
            views(ids@).no_duplicates(),
    {
        let mut ids: Vec<String> = Vec::new();
        let mut i: usize = 0;
        while i < self.records.len()
            invariant
                self.wf(),
                self.next_owner == old(self).next_owner,
                0 <= i <= self.records@.len(),
                forall|j: int| 0 <= j < i ==> (#[trigger] self.records@[j]).owner != owner,
                forall|k: Seq<char>| #[trigger] self@.contains_key(k) ==> old(self)@.contains_key(k)
                    && self@[k] == old(self)@[k],
                forall|k: Seq<char>|
                    #[trigger] old(self)@.contains_key(k) && old(self)@[k].owner != owner
                        ==> self@.contains_key(k),
                forall|k: Seq<char>|
                    #[trigger] old(self)@.contains_key(k) && !self@.contains_key(k) ==> old(self)@[k].owner
                        == owner && views(ids@).contains(k),
                forall|j: int|
                    0 <= j < ids@.len() ==> old(self)@.contains_key(#[trigger] ids@[j]@)
                        && old(self)@[ids@[j]@].owner == owner && !self@.contains_key(ids@[j]@),
                views(ids@).no_duplicates(),
            decreases self.records@.len() - i,
        {
            if self.records[i].owner == owner {
                let ghost old_records = self.records@;
                let ghost before = self@;
                let ghost k = old_records[i as int].id@;
                proof {
                    lemma_keyed_index(old_records, record_key(), i as int);
                    lemma_keyed_remove(old_records, record_key(), i as int);
                }
                let mut rec = self.records.remove(i);
                rec.mailbox.close();
                proof {
                    assert(self.records@ == old_records.remove(i as int));
                    assert(self@ == before.remove(k));
                    assert forall|j: int| 0 <= j < self.records@.len() implies {
                        &&& instance_id_ok(#[trigger] self.records@[j].id@)
                        &&& self.records@[j].mailbox.wf()
                    } by {
                        if j < i {
                            assert(self.records@[j] == old_records[j]);
                        } else {
                            assert(self.records@[j] == old_records[j + 1]);
                        }
                    }
                    assert forall|j: int| 0 <= j < i implies (#[trigger] self.records@[j]).owner != owner by {
                        assert(self.records@[j] == old_records[j]);
                    }
                }
                let ghost old_ids = ids@;
                ids.push(rec.id);
                proof {
                    assert(views(ids@) =~= views(old_ids).push(k));
                    assert(!views(old_ids).contains(k)) by {
                        if views(old_ids).contains(k) {
                            let j = choose|j: int| 0 <= j < views(old_ids).len() && views(old_ids)[j] == k;
                            assert(old_ids[j]@ == k);
                        }
                    }
                    assert forall|j: int|
                        0 <= j < ids@.len() implies old(self)@.contains_key(#[trigger] ids@[j]@)
                            && old(self)@[ids@[j]@].owner == owner && !self@.contains_key(ids@[j]@) by {
                        if j < old_ids.len() {
                            assert(ids@[j] == old_ids[j]);
                        }
                    }
                    assert forall|kk: Seq<char>|
                        #[trigger] old(self)@.contains_key(kk) && !self@.contains_key(kk)
                            implies old(self)@[kk].owner == owner && views(ids@).contains(kk) by {
                        if kk == k {
                            assert(views(ids@)[old_ids.len() as int] == k);
                        } else {
                            assert(!before.contains_key(kk));
                            let j = choose|j: int| 0 <= j < views(old_ids).len() && views(old_ids)[j] == kk;
                            assert(views(ids@)[j] == kk);
                        }
                    }
                }
            } else {
                i = i + 1;
            }
        }
        proof {
            assert forall|k: Seq<char>| #[trigger] self@.contains_key(k) implies old(self)@[k].owner != owner by {
                lemma_keyed_dom(self.records@, record_key(), k);
                let j = choose|j: int| 0 <= j < self.records@.len() && (record_key())(self.records@[j]) == k;
                lemma_keyed_index(self.records@, record_key(), j);
            }
            assert forall|k: Seq<char>|
                views(ids@).contains(k) implies #[trigger] old(self)@.contains_key(k) && old(self)@[k].owner == owner by {
                let j = choose|j: int| 0 <= j < views(ids@).len() && views(ids@)[j] == k;
                assert(ids@[j]@ == k);
            }
        }
        ids
    }

    /// The record registered under `id`.
    pub fn lookup(&self, id: &str) -> (r: Option<&InstanceRecord>)
        requires
            self.wf(),
        ensures
            r is Some <==> self@.contains_key(id@),
            r matches Some(rec) ==> *rec == self@[id@],
    {
        match self.find(id) {
            Some(i) => {
                proof {
                    lemma_keyed_index(self.records@, record_key(), i as int);
                }
                Some(&self.records[i])
            },
            None => None,
        }
    }

    /// All registered ids in ascending byte order.
    pub fn list_ids(&self) -> (ids: Vec<String>)
        requires
            self.wf(),
        ensures
            strictly_sorted(views(ids@)),
            views(ids@).to_set() == self@.dom(),
    {
        let mut out: Vec<String> = Vec::new();
        let mut i: usize = 0;
        while i < self.records.len()
            invariant
                self.wf(),
                0 <= i <= self.records@.len(),
                strictly_sorted(views(out@)),
                views(out@).to_set() == Set::new(
                    |k: Seq<char>| exists|j: int| 0 <= j < i && self.records@[j].id@ == k,
                ),
                forall|j: int| 0 <= j < out@.len() ==> is_ascii_chars(#[trigger] out@[j]@),
            decreases self.records@.len() - i,
        {
            let ghost k = self.records@[i as int].id@;
            proof {
                assert(instance_id_ok(self.records@[i as int].id@));
                lemma_id_is_ascii(k);
                if views(out@).contains(k) {
                    assert(views(out@).to_set().contains(k));
                    let j = choose|j: int| 0 <= j < i && self.records@[j].id@ == k;
                    assert((record_key())(self.records@[j]) == (record_key())(self.records@[i as int]));
                }
            }
            let s = self.records[i].id.clone();
            let ghost prev = views(out@).to_set();
            insert_sorted(&mut out, s);
            proof {
                assert(views(out@).to_set() =~= Set::new(
                    |kk: Seq<char>| exists|j: int| 0 <= j < i + 1 && self.records@[j].id@ == kk,
                )) by {
                    assert forall|kk: Seq<char>| prev.insert(k).contains(kk) <==> (exists|j: int| 0 <= j < i + 1 && self.records@[j].id@ == kk) by {
                        if kk == k {
                            assert(self.records@[i as int].id@ == kk);
                        }
                        if exists|j: int| 0 <= j < i + 1 && self.records@[j].id@ == kk {
                            let j = choose|j: int| 0 <= j < i + 1 && self.records@[j].id@ == kk;
                            if j < i {
                                assert(prev.contains(kk));
                            }
                        }
                    }
                }
            }
            i = i + 1;
        }
        proof {
            assert(views(out@).to_set() =~= self@.dom()) by {
                assert forall|k: Seq<char>| views(out@).to_set().contains(k) <==> self@.dom().contains(k) by {
                    lemma_keyed_dom(self.records@, record_key(), k);
                }
            }
        }
        out
    }

    /// Pushes `env` into the mailbox of `id`; `None` when `id` is unknown.
    pub fn push_to(&mut self, id: &str, env: Envelope) -> (p: Option<Pushed>)
        requires
            old(self).wf(),
        ensures
            final(self).wf(),
            final(self).next_token() == old(self).next_token(),
            p is None <==> !old(self)@.contains_key(id@),
            p is None ==> final(self)@ == old(self)@,
            p matches Some(pushed) ==> {
                &&& pushed_into(old(self)@, final(self)@, id@, env)
                &&& (pushed.dropped matches Some(d) ==> push_evicts(old(self)@[id@].mailbox@) matches Some(e) && d@ == e.id@)
                &&& (pushed.dropped is None <==> push_evicts(old(self)@[id@].mailbox@) is None)
            },
    {
        match self.find(id) {
            Some(i) => {
                let ghost old_records = self.records@;
                proof {
                    lemma_keyed_index(old_records, record_key(), i as int);
                }
                let mut rec = self.records.remove(i);
                let pushed = rec.mailbox.push(env);
                self.records.insert(i, rec);
                proof {
                    assert(self.records@ =~= old_records.update(i as int, rec));
                    lemma_keyed_update(old_records, record_key(), i as int, rec);
                    self.lemma_restore_wf(old_records, i as int);
                    assert(self@.dom() =~= old(self)@.dom());
                }
                Some(pushed)
            },
            None => None,
        }
    }

    /// Receives from the mailbox of `id`: `None` when `id` is unknown,
    /// otherwise what the mailbox's `pop` gives.
    pub fn pop_from(&mut self, id: &str) -> (r: Option<Option<Result<Envelope, RecvError>>>)
        requires
            old(self).wf(),
        ensures
            final(self).wf(),
            final(self).next_token() == old(self).next_token(),
            r is None <==> !old(self)@.contains_key(id@),
            r is None ==> final(self)@ == old(self)@,
            r matches Some(got) ==> {
                &&& got == pop_outcome(old(self)@[id@].mailbox@)
                &&& final(self)@.dom() == old(self)@.dom()
                &&& forall|k: Seq<char>| k != id@ && #[trigger] old(self)@.contains_key(k) ==> final(self)@[k] == old(self)@[k]
                &&& final(self)@[id@].id == old(self)@[id@].id
                &&& final(self)@[id@].owner == old(self)@[id@].owner
                &&& final(self)@[id@].mailbox@ == pop_model(old(self)@[id@].mailbox@)
            },
    {
        match self.find(id) {
            Some(i) => {
                let ghost old_records = self.records@;
                proof {
                    lemma_keyed_index(old_records, record_key(), i as int);
                }
                let mut rec = self.records.remove(i);
                let got = rec.mailbox.pop();
                self.records.insert(i, rec);
                proof {
                    assert(self.records@ =~= old_records.update(i as int, rec));
                    lemma_keyed_update(old_records, record_key(), i as int, rec);
                    self.lemma_restore_wf(old_records, i as int);
                    assert(self@.dom() =~= old(self)@.dom());
                }
                Some(got)
            },
            None => None,
        }
    }

    /// Empties the mailbox of `id`, returning its envelopes oldest first;
    /// `None` when `id` is unknown.
    pub fn drain_from(&mut self, id: &str) -> (r: Option<Vec<Envelope>>)
        requires
            old(self).wf(),
        ensures
            final(self).wf(),
            final(self).next_token() == old(self).next_token(),
            r is None <==> !old(self)@.contains_key(id@),
            r is None ==> final(self)@ == old(self)@,
            r matches Some(v) ==> {
                &&& v@ == old(self)@[id@].mailbox@.queue
                &&& final(self)@.dom() == old(self)@.dom()
                &&& forall|k: Seq<char>| k != id@ && #[trigger] old(self)@.contains_key(k) ==> final(self)@[k] == old(self)@[k]
                &&& final(self)@[id@].id == old(self)@[id@].id
                &&& final(self)@[id@].owner == old(self)@[id@].owner
                &&& final(self)@[id@].mailbox@ == (MailboxModel { queue: Seq::empty(), ..old(self)@[id@].mailbox@ })
            },
    {
        match self.find(id) {
            Some(i) => {
                let ghost old_records = self.records@;
                proof {
                    lemma_keyed_index(old_records, record_key(), i as int);
                }
                let mut rec = self.records.remove(i);
                let got = rec.mailbox.drain();
                self.records.insert(i, rec);
                proof {
                    assert(self.records@ =~= old_records.update(i as int, rec));
                    lemma_keyed_update(old_records, record_key(), i as int, rec);
                    self.lemma_restore_wf(old_records, i as int);
                    assert(self@.dom() =~= old(self)@.dom());
                }
                Some(got)
            },
            None => None,
        }
    }

    /// Replacing entry `i` by a record with the same id and a well-formed
    /// mailbox keeps the registry well formed.
    proof fn lemma_restore_wf(&self, old_records: Seq<InstanceRecord>, i: int)
        requires
            keys_unique(old_records, record_key()),
            forall|j: int| 0 <= j < old_records.len() ==> {
                &&& instance_id_ok(#[trigger] old_records[j].id@)
                &&& old_records[j].mailbox.wf()
            },
            0 <= i < old_records.len(),
            self.records@.len() == old_records.len(),
            self.records@[i].id@ == old_records[i].id@,
            self.records@[i].mailbox.wf(),
            forall|j: int| 0 <= j < old_records.len() && j != i ==> self.records@[j] == old_records[j],
        ensures
            self.wf(),
    {
        assert(self.records@ =~= old_records.update(i, self.records@[i]));
        lemma_keyed_update(old_records, record_key(), i, self.records@[i]);
        assert forall|j: int| 0 <= j < self.records@.len() implies {
            &&& instance_id_ok(#[trigger] self.records@[j].id@)
            &&& self.records@[j].mailbox.wf()
        } by {
            if j != i {
                assert(self.records@[j] == old_records[j]);
            }
        }
    }
}

/// An instance id is valid exactly when it has 1 to 128 characters, each
/// an ASCII letter, a decimal digit, or one of `_ . : -`.
pub proof fn lemma_valid_id_characters(s: Seq<char>)
    ensures
        instance_id_ok(s) <==> {
            &&& 1 <= s.len() <= 128
            &&& forall|i: int|
                0 <= i < s.len() ==> {
                    ||| 'a' <= #[trigger] s[i] <= 'z'
                    ||| 'A' <= s[i] <= 'Z'
                    ||| '0' <= s[i] <= '9'
                    ||| s[i] == '_'
                    ||| s[i] == '.'
                    ||| s[i] == ':'
                    ||| s[i] == '-'
                }
        },
{
    assert forall|i: int| 0 <= i < s.len() implies (id_code_ok(#[trigger] s[i] as u32) <==> {
        ||| 'a' <= s[i] <= 'z'
        ||| 'A' <= s[i] <= 'Z'
        ||| '0' <= s[i] <= '9'
        ||| s[i] == '_'
        ||| s[i] == '.'
        ||| s[i] == ':'
        ||| s[i] == '-'
    }) by {
        lemma_id_char_meaning(s[i]);
    }
}

/// The allowed code points are the allowed characters.
proof fn lemma_id_char_meaning(c: char)
    ensures
        id_code_ok(c as u32) <==> {
            ||| 'a' <= c <= 'z'
            ||| 'A' <= c <= 'Z'
            ||| '0' <= c <= '9'
            ||| c == '_'
            ||| c == '.'
            ||| c == ':'
            ||| c == '-'
        },
{
    assert(('a' as u32) == 97 && ('z' as u32) == 122 && ('A' as u32) == 65 && ('Z' as u32) == 90);
    assert(('0' as u32) == 48 && ('9' as u32) == 57 && ('_' as u32) == 95 && ('.' as u32) == 46);
    assert((':' as u32) == 58 && ('-' as u32) == 45);
}

} // verus!
