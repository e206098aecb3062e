//! API-key pool with round-robin rotation, per-key cooldowns and permanent
//! disabling, plus GCP project profiles for fail-over. Persistence to the OS
//! credential store is the caller's business; this type holds the decisions.
use vstd::prelude::*;
use crate::security::pacific_clock::{next_pacific_midnight_capped, next_pacific_midnight_ms};
use crate::textseq::{
    byte_prefix, byte_prefix_chars, byte_suffix, byte_suffix_chars, chars_to_string, push_all,
    push_str, str_eq, str_to_chars, trim, trim_chars, utf8_len, utf8_len_at_most,
};

verus! {

/// A GCP project with its API keys, usable for fail-over.
#[derive(Debug, PartialEq, Eq)]
pub struct GcpProjectProfile {
    pub profile_id: String,
    pub project_id: String,
    pub api_keys: Vec<String>,
    pub enable_auto_failover: bool,
    pub disabled_permanently: bool,
}

/// One API key of the pool with its rate-limit state.
#[derive(Debug)]
pub struct KeySlot {
    pub key: String,
    /// Time (ms since the epoch) from which the key may be used again; 0 means now.
    pub cooldown_until: i64,
    pub disabled_permanently: bool,
}

/// In-memory credential state: the single session key, the key pool with its
/// rotation index, and the GCP profiles.
pub struct CredentialStore {
    session_key: Option<String>,
    key_pool: Vec<KeySlot>,
    next_index: usize,
    gcp_profiles: Vec<GcpProjectProfile>,
}

/// A slot may be used at `now`: not disabled and its cooldown is over.
pub open spec fn slot_available(s: KeySlot, now: i64) -> bool {
    !s.disabled_permanently && s.cooldown_until <= now
}

/// `j` is the first slot of `op` holding `key`.
pub open spec fn first_with_key(op: Seq<KeySlot>, key: Seq<char>, j: int) -> bool {
    &&& 0 <= j < op.len()
    &&& op[j].key@ == key
    &&& forall|k: int| 0 <= k < j ==> (#[trigger] op[k]).key@ != key
}

/// What a slot of the new pool holds after the pool is replaced: the state of the
/// first old slot with the same key, or a fresh available slot when no old slot has it.
pub open spec fn carried_over(op: Seq<KeySlot>, s: KeySlot) -> bool {
    if exists|j: int| 0 <= j < op.len() && (#[trigger] op[j]).key@ == s.key@ {
        exists|j: int| first_with_key(op, s.key@, j) && #[trigger] op[j] == s
    } else {
        s.cooldown_until == 0 && !s.disabled_permanently
    }
}

/// Round-robin choice: the first available slot at or after `next`, wrapping around,
/// trying `n - i` more slots.
pub open spec fn rr_from(pool: Seq<KeySlot>, next: int, now: i64, i: int) -> Option<int>
    decreases pool.len() - i,
{
    if i < 0 || i >= pool.len() {
        None
    } else if slot_available(pool[(next + i) % (pool.len() as int)], now) {
        Some((next + i) % (pool.len() as int))
    } else {
        rr_from(pool, next, now, i + 1)
    }
}

/// With every key of the pool usable from the epoch on, a call at a time
/// `now >= 0` hands out the key at the rotation index and moves the index to the
/// following key, wrapping around: successive calls go round the pool in order.
pub proof fn lemma_rotation_goes_round(o: CredentialStore, n: CredentialStore, now: i64, r: Option<String>)
    requires
        CredentialStore::key_choice(o, n, now, r),
        0 <= now,
        o.pool().len() > 0,
        forall|j: int|
            0 <= j < o.pool().len() ==> !(#[trigger] o.pool()[j]).disabled_permanently
                && o.pool()[j].cooldown_until <= 0,
    ensures
        r matches Some(k) && k@ == o.pool()[o.next() as int % (o.pool().len() as int)].key@,
        n.next() as int == (o.next() as int % (o.pool().len() as int) + 1) % (o.pool().len() as int),
{
    let len = o.pool().len() as int;
    assert((o.next() as int + 0) % len == o.next() as int % len);
    assert(slot_available(o.pool()[o.next() as int % len], now));
}

/// A round-robin choice is an index of the pool whose slot is available.
pub proof fn lemma_rr_from_sound(pool: Seq<KeySlot>, next: int, now: i64, i: int)
    requires
        0 <= next,
    ensures
        rr_from(pool, next, now, i) matches Some(j) ==> 0 <= j < pool.len() && slot_available(
            pool[j],
            now,
        ),
    decreases pool.len() - i,
{
    if 0 <= i < pool.len() {
        if !slot_available(pool[(next + i) % (pool.len() as int)], now) {
            lemma_rr_from_sound(pool, next, now, i + 1);
        }
    }
}

proof fn lemma_rr_from_reaches(pool: Seq<KeySlot>, next: int, now: i64, i: int, i0: int)
    requires
        0 <= i <= i0 < pool.len(),
        slot_available(pool[(next + i0) % (pool.len() as int)], now),
    ensures
        rr_from(pool, next, now, i) is Some,
    decreases i0 - i,
{
    if i < i0 && !slot_available(pool[(next + i) % (pool.len() as int)], now) {
        lemma_rr_from_reaches(pool, next, now, i + 1, i0);
    }
}

/// Rotation never skips every key while one is available: if some slot may be
/// used at `now`, the round-robin choice picks one.
pub proof fn lemma_rr_pick_complete(pool: Seq<KeySlot>, next: int, now: i64, j: int)
    requires
        0 <= next,
        0 <= j < pool.len(),
        slot_available(pool[j], now),
    ensures
        rr_pick(pool, next, now) is Some,
{
    let n = pool.len() as int;
    let i0 = (j - next) % n;
    vstd::arithmetic::div_mod::lemma_add_mod_noop_right(next, j - next, n);
    vstd::arithmetic::div_mod::lemma_small_mod(j as nat, n as nat);
    assert(next + (j - next) == j);
    lemma_rr_from_reaches(pool, next, now, 0, i0);
}

/// Index of the slot chosen round-robin, if any slot is available.
pub open spec fn rr_pick(pool: Seq<KeySlot>, next: int, now: i64) -> Option<int> {
    rr_from(pool, next, now, 0)
}

/// The deadline of a cooldown of `secs` seconds from `now` (ms), the seconds cut
/// down so that the deadline stays within `i64::MAX`.
pub open spec fn capped_deadline(now: int, secs: nat) -> int {
    let max_secs = (i64::MAX - now) / 1000;
    now + (if secs > max_secs { max_secs } else { secs as int }) * 1000
}

/// `np` is `op` with the first slot holding `key` cooling down until `deadline`;
/// every other slot, and every other field, is unchanged.
pub open spec fn cooldown_applied(op: Seq<KeySlot>, np: Seq<KeySlot>, key: Seq<char>, deadline: int) -> bool {
    &&& np.len() == op.len()
    &&& forall|i: int|
        0 <= i < op.len() ==> {
            let o = op[i];
            let n = #[trigger] np[i];
            &&& n.key == o.key
            &&& n.disabled_permanently == o.disabled_permanently
            &&& n.cooldown_until == if o.key@ == key && forall|k: int|
                0 <= k < i ==> op[k].key@ != key {
                deadline
            } else {
                o.cooldown_until as int
            }
        }
}

/// `j` is the first non-disabled slot with the smallest cooldown.
pub open spec fn is_first_min_cooldown(pool: Seq<KeySlot>, j: int) -> bool {
    &&& 0 <= j < pool.len()
    &&& !pool[j].disabled_permanently
    &&& forall|k: int|
        0 <= k < pool.len() && !pool[k].disabled_permanently ==> pool[j].cooldown_until
            <= #[trigger] pool[k].cooldown_until
    &&& forall|k: int|
        0 <= k < j && !pool[k].disabled_permanently ==> pool[j].cooldown_until
            < #[trigger] pool[k].cooldown_until
}

/// The display form of a key: first and last four bytes, or "****" for short keys;
/// `None` where the byte positions are not character boundaries.
pub open spec fn mask_key(k: Seq<char>) -> Option<Seq<char>> {
    if utf8_len(k) > 8 {
        match (byte_prefix(k, 4), byte_suffix(k, 4)) {
            (Some(p), Some(q)) => Some(p + "..."@ + q),
            _ => None,
        }
    } else {
        Some("****"@)
    }
}

/// The characters of a profile, for contracts.
pub open spec fn profile_view(p: GcpProjectProfile) -> (Seq<char>, Seq<char>, Seq<Seq<char>>, bool, bool) {
    (p.profile_id@, p.project_id@, p.api_keys@.map_values(|k: String| k@), p.enable_auto_failover, p.disabled_permanently)
}

/// The first profile other than `current` that allows fail-over and is not disabled.
pub open spec fn is_failover_choice(ps: Seq<GcpProjectProfile>, current: Seq<char>, j: int) -> bool {
    &&& 0 <= j < ps.len()
    &&& failover_candidate(ps[j], current)
    &&& forall|k: int| 0 <= k < j ==> !failover_candidate(#[trigger] ps[k], current)
}

pub open spec fn failover_candidate(p: GcpProjectProfile, current: Seq<char>) -> bool {
    p.profile_id@ != current && p.enable_auto_failover && !p.disabled_permanently
}

fn clone_strings(v: &Vec<String>) -> (r: Vec<String>)
    ensures
        r@ == v@,
{
    let mut out: Vec<String> = Vec::new();
    let mut i: usize = 0;
    while i < v.len()
        invariant
            0 <= i <= v.len(),
            out@ == v@.take(i as int),
        decreases v.len() - i,
    {
        out.push(v[i].clone());
        i = i + 1;
        assert(out@ =~= v@.take(i as int));
    }
    assert(v@.take(v.len() as int) =~= v@);
    out
}

impl GcpProjectProfile {
    pub fn duplicate(&self) -> (r: Self)
        ensures
            profile_view(r) == profile_view(*self),
    {
        GcpProjectProfile {
            profile_id: self.profile_id.clone(),
            project_id: self.project_id.clone(),
            api_keys: clone_strings(&self.api_keys),
            enable_auto_failover: self.enable_auto_failover,
            disabled_permanently: self.disabled_permanently,
        }
    }
}

impl KeySlot {
    fn duplicate(&self) -> (r: Self)
        ensures
            r == *self,
    {
        KeySlot {
            key: self.key.clone(),
            cooldown_until: self.cooldown_until,
            disabled_permanently: self.disabled_permanently,
        }
    }
}

/// Milliseconds since the Unix epoch from the system clock.
#[verifier::external_body]
pub(crate) fn now_millis() -> i64 {
    std::time::SystemTime::now().duration_since(std::time::UNIX_EPOCH).unwrap_or_default().as_millis() as i64
}

impl CredentialStore {
    pub closed spec fn pool(&self) -> Seq<KeySlot> {
        self.key_pool@
    }

    pub closed spec fn session(&self) -> Option<String> {
        self.session_key
    }

    pub closed spec fn next(&self) -> usize {
        self.next_index
    }

    pub closed spec fn profiles(&self) -> Seq<GcpProjectProfile> {
        self.gcp_profiles@
    }

    /// Some slot of the pool holds `key`.
    pub open spec fn has_key(&self, key: Seq<char>) -> bool {
        exists|k: int| 0 <= k < self.pool().len() && (#[trigger] self.pool()[k]).key@ == key
    }

    /// The keys of the pool, in order.
    pub open spec fn pool_keys(&self) -> Seq<Seq<char>> {
        self.pool().map_values(|s: KeySlot| s.key@)
    }

    /// An empty store.
    pub fn new() -> (r: Self)
        ensures
            r.pool().len() == 0,
            r.session() is None,
            r.next() == 0,
            r.profiles().len() == 0,
    {
        CredentialStore {
            session_key: None,
            key_pool: Vec::new(),
            next_index: 0,
            gcp_profiles: Vec::new(),
        }
    }

    /// Loads keys read from persistent storage: each key is trimmed, blank ones are
    /// skipped, and every key starts available.
    pub fn load_pool_keys(&mut self, keys: &Vec<String>)
        ensures
            final(self).session() == old(self).session(),
            final(self).next() == old(self).next(),
            final(self).profiles() == old(self).profiles(),
            final(self).pool_keys() == old(self).pool_keys() + keys@.map_values(|k: String| trim(k@)).filter(
                |k: Seq<char>| k.len() > 0,
            ),
            final(self).pool().len() >= old(self).pool().len(),
            forall|i: int|
                0 <= i < old(self).pool().len() ==> final(self).pool()[i] == old(self).pool()[i],
            forall|i: int|
                old(self).pool().len() <= i < final(self).pool().len() ==> {
                    &&& (#[trigger] final(self).pool()[i]).cooldown_until == 0
                    &&& !final(self).pool()[i].disabled_permanently
                    &&& final(self).pool()[i].key@.len() > 0
                },
    {
        let mut i: usize = 0;
        let ghost start = self.key_pool@;
        let ghost mapped = keys@.map_values(|k: String| trim(k@));
        proof {
            assert(mapped.take(0).filter(|k: Seq<char>| k.len() > 0) =~= Seq::<Seq<char>>::empty());
            assert(start.map_values(|s: KeySlot| s.key@) + Seq::<Seq<char>>::empty() =~= start.map_values(
                |s: KeySlot| s.key@,
            ));
        }
        while i < keys.len()
            invariant
                0 <= i <= keys.len(),
                mapped == keys@.map_values(|k: String| trim(k@)),
                self.key_pool@.map_values(|s: KeySlot| s.key@) == start.map_values(|s: KeySlot| s.key@)
                    + mapped.take(i as int).filter(|k: Seq<char>| k.len() > 0),
                self.key_pool@.len() >= start.len(),
                forall|k: int| 0 <= k < start.len() ==> self.key_pool@[k] == start[k],
                forall|k: int|
                    start.len() <= k < self.key_pool@.len() ==> {
                        &&& (#[trigger] self.key_pool@[k]).cooldown_until == 0
                        &&& !self.key_pool@[k].disabled_permanently
                        &&& self.key_pool@[k].key@.len() > 0
                    },
                self.session_key == old(self).session_key,
                self.next_index == old(self).next_index,
                self.gcp_profiles == old(self).gcp_profiles,
                start == old(self).key_pool@,
            decreases keys.len() - i,
        {
            let chars = str_to_chars(keys[i].as_str());
            let t = trim_chars(chars.as_slice());
            let ghost before = self.key_pool@;
            proof {
                assert(mapped.take(i + 1) =~= mapped.take(i as int) + seq![t@]);
                Seq::filter_distributes_over_add(
                    mapped.take(i as int),
                    seq![t@],
                    |k: Seq<char>| k.len() > 0,
                );
                reveal_with_fuel(Seq::filter, 2);
                assert(seq![t@].drop_last() =~= Seq::<Seq<char>>::empty());
            }
            if t.len() > 0 {
                let key = chars_to_string(t.as_slice());
                self.key_pool.push(KeySlot { key, cooldown_until: 0, disabled_permanently: false });
                proof {
                    assert(seq![t@].filter(|k: Seq<char>| k.len() > 0) =~= seq![t@]);
                    assert(self.key_pool@.map_values(|s: KeySlot| s.key@) =~= before.map_values(
                        |s: KeySlot| s.key@,
                    ).push(t@));
                }
            } else {
                proof {
                    assert(seq![t@].filter(|k: Seq<char>| k.len() > 0) =~= Seq::<Seq<char>>::empty());
                }
            }
            i = i + 1;
        }
        proof {
            assert(mapped.take(keys.len() as int) =~= mapped);
        }
    }

    fn pool_index_of(&self, key: &str) -> (r: Option<usize>)
        ensures
            r matches Some(i) ==> i < self.pool().len() && self.pool()[i as int].key@ == key@
                && forall|k: int| 0 <= k < i ==> (#[trigger] self.pool()[k]).key@ != key@,
            r is None ==> forall|k: int|
                0 <= k < self.pool().len() ==> (#[trigger] self.pool()[k]).key@ != key@,
    {
        let mut i: usize = 0;
        while i < self.key_pool.len()
            invariant
                0 <= i <= self.key_pool@.len(),
                forall|k: int| 0 <= k < i ==> (#[trigger] self.key_pool@[k]).key@ != key@,
            decreases self.key_pool@.len() - i,
        {
            if str_eq(self.key_pool[i].key.as_str(), key) {
                return Some(i);
            }
            i = i + 1;
        }
        None
    }

    /// Makes `key` (trimmed) the session key and adds it to the pool unless it is there
    /// already; a blank key clears the session key instead.
    pub fn set_key(&mut self, key: &str)
        ensures
            final(self).next() == old(self).next(),
            final(self).profiles() == old(self).profiles(),
            trim(key@).len() == 0 ==> final(self).session() is None && final(self).pool()
                == old(self).pool(),
            trim(key@).len() > 0 ==> (final(self).session() matches Some(s) && s@ == trim(key@)),
            trim(key@).len() > 0 && old(self).has_key(trim(key@)) ==> final(self).pool() == old(
                self,
            ).pool(),
            trim(key@).len() > 0 && !old(self).has_key(trim(key@)) ==> {
                &&& final(self).pool().len() == old(self).pool().len() + 1
                &&& final(self).pool().drop_last() == old(self).pool()
                &&& final(self).pool().last().key@ == trim(key@)
                &&& final(self).pool().last().cooldown_until == 0
                &&& !final(self).pool().last().disabled_permanently
            },
    {
        let chars = str_to_chars(key);
        let t = trim_chars(chars.as_slice());
        if t.len() == 0 {
            self.delete_key();
            return;
        }
        let trimmed = chars_to_string(t.as_slice());
        self.session_key = Some(trimmed.clone());
        match self.pool_index_of(trimmed.as_str()) {
            Some(i) => {
                assert(self.key_pool@[i as int].key@ == trim(key@));
            },
            None => {
                let ghost op = self.key_pool@;
                assert forall|k: int| 0 <= k < old(self).pool().len() implies (#[trigger] old(
                    self,
                ).pool()[k]).key@ != trim(key@) by {
                    assert(self.pool()[k] == old(self).pool()[k]);
                }
                self.key_pool.push(
                    KeySlot { key: trimmed, cooldown_until: 0, disabled_permanently: false },
                );
                assert(self.key_pool@.drop_last() =~= op);
            },
        }
    }

    /// Clears the session key (the pool is kept).
    pub fn delete_key(&mut self)
        ensures
            final(self).session() is None,
            final(self).pool() == old(self).pool(),
            final(self).next() == old(self).next(),
            final(self).profiles() == old(self).profiles(),
    {
        self.session_key = None;
    }

    /// Some key is configured: the pool is not empty or a non-empty session key is set.
    pub fn is_configured(&self) -> (r: bool)
        ensures
            r == (self.pool().len() > 0 || (self.session() matches Some(s) && s@.len() > 0)),
    {
        if self.key_pool.len() > 0 {
            return true;
        }
        match &self.session_key {
            Some(k) => !k.as_str().is_empty(),
            None => false,
        }
    }

    /// Round-robin choice at time `now`: the first available key from the rotation
    /// index on (the index then moves past it); if every active key is cooling down,
    /// the one whose cooldown ends first (index unchanged); `None` when every key is
    /// disabled.
    pub fn get_next_available_key_at(&mut self, now: i64) -> (r: Option<String>)
        ensures
            final(self).pool() == old(self).pool(),
            final(self).session() == old(self).session(),
            final(self).profiles() == old(self).profiles(),
            match rr_pick(old(self).pool(), old(self).next() as int, now) {
                Some(j) => {
                    &&& r matches Some(k) && k@ == old(self).pool()[j].key@
                    &&& final(self).next() as int == (j + 1) % (old(self).pool().len() as int)
                },
                None => {
                    &&& final(self).next() == old(self).next()
                    &&& match r {
                        Some(k) => exists|j: int|
                            is_first_min_cooldown(old(self).pool(), j) && k@ == #[trigger] old(
                                self,
                            ).pool()[j].key@,
                        None => forall|j: int|
                            0 <= j < old(self).pool().len() ==> (#[trigger] old(
                                self,
                            ).pool()[j]).disabled_permanently,
                    }
                },
            },
    {
        let n = self.key_pool.len();
        if n == 0 {
            return None;
        }
        let start: u128 = self.next_index as u128;
        let mut i: usize = 0;
        while i < n
            invariant
                n == self.key_pool@.len(),
                n > 0,
                0 <= i <= n,
                start == self.next_index as u128,
                *self == *old(self),
                rr_pick(self.key_pool@, self.next_index as int, now) == rr_from(
                    self.key_pool@,
                    self.next_index as int,
                    now,
                    i as int,
                ),
            decreases n - i,
        {
            let idx = ((start + i as u128) % (n as u128)) as usize;
            assert(idx as int == (self.next_index as int + i as int) % (n as int));
            let avail = !self.key_pool[idx].disabled_permanently && self.key_pool[idx].cooldown_until
                <= now;
            if avail {
                let selected = self.key_pool[idx].key.clone();
                self.next_index = ((idx as u128 + 1) % (n as u128)) as usize;
                return Some(selected);
            }
            i = i + 1;
        }
        let mut best: Option<usize> = None;
        let mut k: usize = 0;
        while k < n
            invariant
                n == self.key_pool@.len(),
                0 <= k <= n,
                *self == *old(self),
                rr_pick(self.key_pool@, self.next_index as int, now) is None,
                match best {
                    Some(b) => {
                        &&& b < k
                        &&& !self.key_pool@[b as int].disabled_permanently
                        &&& forall|m: int|
                            0 <= m < k && !self.key_pool@[m].disabled_permanently
                                ==> self.key_pool@[b as int].cooldown_until
                                <= #[trigger] self.key_pool@[m].cooldown_until
                        &&& forall|m: int|
                            0 <= m < b && !self.key_pool@[m].disabled_permanently
                                ==> self.key_pool@[b as int].cooldown_until
                                < #[trigger] self.key_pool@[m].cooldown_until
                    },
                    None => forall|m: int|
                        0 <= m < k ==> (#[trigger] self.key_pool@[m]).disabled_permanently,
                },
            decreases n - k,
        {
            if !self.key_pool[k].disabled_permanently {
                match best {
                    Some(b) => {
                        if self.key_pool[k].cooldown_until < self.key_pool[b].cooldown_until {
                            best = Some(k);
                        }
                    },
                    None => {
                        best = Some(k);
                    },
                }
            }
            k = k + 1;
        }
        match best {
            Some(b) => {
                assert(is_first_min_cooldown(self.key_pool@, b as int));
                let k = self.key_pool[b].key.clone();
                assert(k@ == old(self).pool()[b as int].key@);
                Some(k)
            },
            None => None,
        }
    }

    /// The key to use at `now`: the pool's round-robin choice, otherwise the
    /// non-empty session key.
    /// What `get_key_at(now)` does to a store `o`, giving `n` and answering `r`:
    /// the round-robin choice when a key is available (the rotation moves past
    /// it), otherwise the non-disabled key whose cooldown ends first, otherwise the
    /// non-empty session key; only the rotation index changes.
    pub open spec fn key_choice(o: CredentialStore, n: CredentialStore, now: i64, r: Option<String>) -> bool {
        &&& n.pool() == o.pool()
        &&& n.session() == o.session()
        &&& n.profiles() == o.profiles()
        &&& match rr_pick(o.pool(), o.next() as int, now) {
            Some(j) => {
                &&& r matches Some(k) && k@ == o.pool()[j].key@
                &&& n.next() as int == (j + 1) % (o.pool().len() as int)
            },
            None => {
                &&& n.next() == o.next()
                &&& if exists|j: int| is_first_min_cooldown(o.pool(), j) {
                    r matches Some(k) && exists|j: int|
                        is_first_min_cooldown(o.pool(), j) && k@ == #[trigger] o.pool()[j].key@
                } else {
                    match o.session() {
                        Some(s) => if s@.len() > 0 {
                            (r matches Some(k) && k@ == s@)
                        } else {
                            r is None
                        },
                        None => r is None,
                    }
                }
            },
        }
    }

    pub fn get_key_at(&mut self, now: i64) -> (r: Option<String>)
        ensures
            Self::key_choice(*old(self), *final(self), now, r),
            r is None ==> (forall|j: int|
                0 <= j < old(self).pool().len() ==> (#[trigger] old(
                    self,
                ).pool()[j]).disabled_permanently) && !(old(self).session() matches Some(s)
                && s@.len() > 0),
            r matches Some(k) ==> (exists|j: int|
                0 <= j < old(self).pool().len() && !(#[trigger] old(
                    self,
                ).pool()[j]).disabled_permanently && k@ == old(self).pool()[j].key@) || (old(
                self,
            ).session() matches Some(s) && s@ == k@),
    {
        proof {
            lemma_rr_from_sound(self.key_pool@, self.next_index as int, now, 0);
        }
        match self.get_next_available_key_at(now) {
            Some(k) => Some(k),
            None => match &self.session_key {
                Some(k) => {
                    if !k.as_str().is_empty() {
                        Some(k.clone())
                    } else {
                        None
                    }
                },
                None => None,
            },
        }
    }

    /// `get_key_at` at the current system time (a reading before the epoch
    /// counts as the epoch).
    pub fn get_key(&mut self) -> (r: Option<String>)
        ensures
            exists|now: i64| 0 <= now && #[trigger] Self::key_choice(*old(self), *final(self), now, r),
            final(self).pool() == old(self).pool(),
            final(self).session() == old(self).session(),
            final(self).profiles() == old(self).profiles(),
            r is None ==> (forall|j: int|
                0 <= j < old(self).pool().len() ==> (#[trigger] old(
                    self,
                ).pool()[j]).disabled_permanently) && !(old(self).session() matches Some(s)
                && s@.len() > 0),
            r matches Some(k) ==> (exists|j: int|
                0 <= j < old(self).pool().len() && !(#[trigger] old(
                    self,
                ).pool()[j]).disabled_permanently && k@ == old(self).pool()[j].key@) || (old(
                self,
            ).session() matches Some(s) && s@ == k@),
    {
        let now = now_millis();
        let now = if now < 0 {
            0
        } else {
            now
        };
        self.get_key_at(now)
    }

    /// Replaces the pool by the given keys, trimmed and without blanks, keeping the
    /// state of keys that were already in the pool; the first key becomes the session
    /// key. Returns the number of keys kept.
    pub fn set_keys(&mut self, keys: &Vec<String>) -> (r: usize)
        ensures
            r == final(self).pool().len(),
            final(self).pool_keys() == keys@.map_values(|k: String| trim(k@)).filter(
                |k: Seq<char>| k.len() > 0,
            ),
            forall|i: int|
                0 <= i < final(self).pool().len() ==> carried_over(
                    old(self).pool(),
                    #[trigger] final(self).pool()[i],
                ),
            final(self).pool().len() > 0 ==> (final(self).session() matches Some(s) && s@
                == final(self).pool()[0].key@),
            final(self).pool().len() == 0 ==> final(self).session() == old(self).session(),
            final(self).next() == old(self).next(),
            final(self).profiles() == old(self).profiles(),
    {
        let mut old_pool: Vec<KeySlot> = Vec::new();
        std::mem::swap(&mut old_pool, &mut self.key_pool);
        let ghost op = old_pool@;
        let ghost mapped = keys@.map_values(|k: String| trim(k@));
        let mut i: usize = 0;
        proof {
            assert(mapped.take(0).filter(|k: Seq<char>| k.len() > 0) =~= Seq::<Seq<char>>::empty());
            assert(self.key_pool@.map_values(|s: KeySlot| s.key@) =~= Seq::<Seq<char>>::empty());
        }
        while i < keys.len()
            invariant
                0 <= i <= keys.len(),
                op == old(self).key_pool@,
                old_pool@ == op,
                mapped == keys@.map_values(|k: String| trim(k@)),
                self.key_pool@.map_values(|s: KeySlot| s.key@) == mapped.take(i as int).filter(
                    |k: Seq<char>| k.len() > 0,
                ),
                forall|m: int|
                    0 <= m < self.key_pool@.len() ==> carried_over(op, #[trigger] self.key_pool@[m]),
                self.key_pool@.len() <= i,
                self.session_key == old(self).session_key,
                self.next_index == old(self).next_index,
                self.gcp_profiles == old(self).gcp_profiles,
            decreases keys.len() - i,
        {
            let chars = str_to_chars(keys[i].as_str());
            let t = trim_chars(chars.as_slice());
            let ghost before = self.key_pool@;
            proof {
                assert(mapped.take(i + 1) =~= mapped.take(i as int).push(t@));
                Seq::filter_distributes_over_add(
                    mapped.take(i as int),
                    seq![t@],
                    |k: Seq<char>| k.len() > 0,
                );
                assert(mapped.take(i + 1) =~= mapped.take(i as int) + seq![t@]);
                reveal_with_fuel(Seq::filter, 2);
                assert(seq![t@].drop_last() =~= Seq::<Seq<char>>::empty());
            }
            if t.len() > 0 {
                let trimmed = chars_to_string(t.as_slice());
                let mut found: Option<usize> = None;
                let mut j: usize = 0;
                while j < old_pool.len()
                    invariant
                        0 <= j <= old_pool@.len(),
                        old_pool@ == op,
                        found matches Some(f) ==> f < j && op[f as int].key@ == trimmed@ && forall|
                            m: int,
                        | 0 <= m < f ==> (#[trigger] op[m]).key@ != trimmed@,
                        found is None ==> forall|m: int|
                            0 <= m < j ==> (#[trigger] op[m]).key@ != trimmed@,
                    decreases old_pool@.len() - j,
                {
                    if found.is_none() && str_eq(old_pool[j].key.as_str(), trimmed.as_str()) {
                        found = Some(j);
                    }
                    j = j + 1;
                }
                let slot = match found {
                    Some(f) => old_pool[f].duplicate(),
                    None => KeySlot { key: trimmed, cooldown_until: 0, disabled_permanently: false },
                };
                proof {
                    match found {
                        Some(f) => {
                            assert(first_with_key(op, slot.key@, f as int));
                        },
                        None => {},
                    }
                    assert(carried_over(op, slot));
                }
                self.key_pool.push(slot);
                proof {
                    assert(self.key_pool@.map_values(|s: KeySlot| s.key@) =~= before.map_values(
                        |s: KeySlot| s.key@,
                    ).push(t@));
                    assert(seq![t@].filter(|k: Seq<char>| k.len() > 0) =~= seq![t@]);
                    assert forall|m: int| 0 <= m < self.key_pool@.len() implies carried_over(
                        op,
                        #[trigger] self.key_pool@[m],
                    ) by {
                        if m < self.key_pool@.len() - 1 {
                            assert(self.key_pool@[m] == before[m]);
                        }
                    }
                }
            } else {
                proof {
                    assert(seq![t@].filter(|k: Seq<char>| k.len() > 0) =~= Seq::<Seq<char>>::empty());
                    assert(mapped.take(i as int).filter(|k: Seq<char>| k.len() > 0) + Seq::<
                        Seq<char>,
                    >::empty() =~= mapped.take(i as int).filter(|k: Seq<char>| k.len() > 0));
                }
            }
            i = i + 1;
        }
        proof {
            assert(mapped.take(keys.len() as int) =~= mapped);
        }
        if self.key_pool.len() > 0 {
            self.session_key = Some(self.key_pool[0].key.clone());
        }
        self.key_pool.len()
    }

    /// Display forms of the pool's keys (see `mask_key`).
    pub fn get_keys_masked(&self) -> (r: Vec<String>)
        requires
            forall|i: int| 0 <= i < self.pool().len() ==> mask_key((#[trigger] self.pool()[i]).key@) is Some,
        ensures
            r@.len() == self.pool().len(),
            forall|i: int|
                0 <= i < r@.len() ==> Some((#[trigger] r@[i])@) == mask_key(self.pool()[i].key@),
    {
        let mut out: Vec<String> = Vec::new();
        let mut i: usize = 0;
        while i < self.key_pool.len()
            invariant
                0 <= i <= self.key_pool@.len(),
                out@.len() == i,
                forall|m: int| 0 <= m < self.key_pool@.len() ==> mask_key((#[trigger] self.key_pool@[m]).key@) is Some,
                forall|m: int| 0 <= m < i ==> Some((#[trigger] out@[m])@) == mask_key(self.key_pool@[m].key@),
            decreases self.key_pool@.len() - i,
        {
            let k = str_to_chars(self.key_pool[i].key.as_str());
            let ks = k.as_slice();
            let masked: Vec<char> = if !utf8_len_at_most(ks, 8) {
                let p = byte_prefix_chars(ks, 4);
                let q = byte_suffix_chars(ks, 4);
                match (p, q) {
                    (Some(p), Some(q)) => {
                        let mut m: Vec<char> = Vec::new();
                        push_all(&mut m, p.as_slice());
                        push_str(&mut m, "...");
                        push_all(&mut m, q.as_slice());
                        m
                    },
                    _ => {
                        proof {
                            assert(mask_key(self.key_pool@[i as int].key@) is Some);
                        }
                        Vec::new()
                    },
                }
            } else {
                let mut m: Vec<char> = Vec::new();
                push_str(&mut m, "****");
                m
            };
            out.push(chars_to_string(masked.as_slice()));
            proof {
                assert(Seq::<char>::empty() + "****"@ =~= "****"@);
            }
            i = i + 1;
        }
        out
    }

    /// Whether every key of the pool has a display form: a short key, or one whose
    /// first and last four bytes end and start on character boundaries.
    pub fn keys_maskable(&self) -> (r: bool)
        ensures
            r == forall|i: int| 0 <= i < self.pool().len() ==> mask_key((#[trigger] self.pool()[i]).key@) is Some,
    {
        let mut i: usize = 0;
        while i < self.key_pool.len()
            invariant
                0 <= i <= self.key_pool@.len(),
                forall|m: int| 0 <= m < i ==> mask_key((#[trigger] self.key_pool@[m]).key@) is Some,
            decreases self.key_pool@.len() - i,
        {
            let k = str_to_chars(self.key_pool[i].key.as_str());
            let ks = k.as_slice();
            if !utf8_len_at_most(ks, 8) {
                let p = byte_prefix_chars(ks, 4);
                let q = byte_suffix_chars(ks, 4);
                if p.is_none() || q.is_none() {
                    return false;
                }
            }
            i = i + 1;
        }
        true
    }

    /// The keys of the pool, in order (what is persisted).
    pub fn pool_key_list(&self) -> (r: Vec<String>)
        ensures
            r@.map_values(|k: String| k@) == self.pool_keys(),
    {
        let mut out: Vec<String> = Vec::new();
        let mut i: usize = 0;
        while i < self.key_pool.len()
            invariant
                0 <= i <= self.key_pool@.len(),
                out@.map_values(|k: String| k@) == self.pool_keys().take(i as int),
            decreases self.key_pool@.len() - i,
        {
            let k = self.key_pool[i].key.clone();
            assert(k@ == self.pool()[i as int].key@);
            let ghost before = out@;
            out.push(k);
            proof {
                assert(self.pool_keys()[i as int] == self.pool()[i as int].key@);
                assert(out@.map_values(|k: String| k@) =~= before.map_values(|k: String| k@).push(k@));
                assert(self.pool_keys().take(i + 1) =~= self.pool_keys().take(i as int).push(k@));
            }
            i = i + 1;
        }
        assert(self.pool_keys().take(self.key_pool@.len() as int) =~= self.pool_keys());
        out
    }

    /// Number of keys in the pool.
    pub fn key_count(&self) -> (r: usize)
        ensures
            r == self.pool().len(),
    {
        self.key_pool.len()
    }

    /// Removes the key at `index`; an index past the end is refused.
    pub fn remove_key_at(&mut self, index: usize) -> (r: Result<(), String>)
        ensures
            index >= old(self).pool().len() ==> (r matches Err(m) && m@ == "Invalid key index"@)
                && final(self).pool() == old(self).pool(),
            index < old(self).pool().len() ==> r is Ok && final(self).pool() == old(self).pool().remove(
                index as int,
            ),
            final(self).session() == old(self).session(),
            final(self).next() == old(self).next(),
            final(self).profiles() == old(self).profiles(),
    {
        if index >= self.key_pool.len() {
            return Err("Invalid key index".to_owned());
        }
        self.key_pool.remove(index);
        Ok(())
    }

    /// Permanently disables the first pool slot holding `key` (after a 401/403).
    pub fn mark_key_disabled_permanently(&mut self, key: &str)
        ensures
            final(self).session() == old(self).session(),
            final(self).next() == old(self).next(),
            final(self).profiles() == old(self).profiles(),
            final(self).pool().len() == old(self).pool().len(),
            forall|i: int|
                0 <= i < old(self).pool().len() ==> {
                    let o = old(self).pool()[i];
                    let n = #[trigger] final(self).pool()[i];
                    &&& n.key == o.key
                    &&& n.cooldown_until == o.cooldown_until
                    &&& n.disabled_permanently == (o.disabled_permanently || (o.key@ == key@
                        && forall|k: int| 0 <= k < i ==> old(self).pool()[k].key@ != key@))
                },
    {
        match self.pool_index_of(key) {
            Some(i) => {
                let ghost op = self.key_pool@;
                let mut slot = self.key_pool[i].duplicate();
                slot.disabled_permanently = true;
                self.key_pool.set(i, slot);
                assert forall|m: int| 0 <= m < op.len() implies {
                    let o = op[m];
                    let n = #[trigger] self.key_pool@[m];
                    &&& n.key == o.key
                    &&& n.cooldown_until == o.cooldown_until
                    &&& n.disabled_permanently == (o.disabled_permanently || (o.key@ == key@
                        && forall|k: int| 0 <= k < m ==> op[k].key@ != key@))
                } by {
                    if m > i {
                        assert(op[i as int].key@ == key@);
                    }
                }
            },
            None => {},
        }
    }

    /// Adds a GCP project profile.
    pub fn add_gcp_profile(&mut self, profile: GcpProjectProfile)
        ensures
            final(self).profiles() == old(self).profiles().push(profile),
            final(self).pool() == old(self).pool(),
            final(self).session() == old(self).session(),
            final(self).next() == old(self).next(),
    {
        self.gcp_profiles.push(profile);
    }

    /// Copies of all GCP project profiles, in order.
    pub fn list_gcp_profiles(&self) -> (r: Vec<GcpProjectProfile>)
        ensures
            r@.len() == self.profiles().len(),
            forall|i: int|
                0 <= i < r@.len() ==> profile_view(#[trigger] r@[i]) == profile_view(
                    self.profiles()[i],
                ),
    {
        let mut out: Vec<GcpProjectProfile> = Vec::new();
        let mut i: usize = 0;
        while i < self.gcp_profiles.len()
            invariant
                0 <= i <= self.gcp_profiles@.len(),
                out@.len() == i,
                forall|m: int|
                    0 <= m < i ==> profile_view(#[trigger] out@[m]) == profile_view(
                        self.gcp_profiles@[m],
                    ),
            decreases self.gcp_profiles@.len() - i,
        {
            out.push(self.gcp_profiles[i].duplicate());
            i = i + 1;
        }
        out
    }

    /// The first profile other than `current_profile_id` that allows fail-over and is
    /// not disabled.
    pub fn select_profile_for_failover(&self, current_profile_id: &str) -> (r: Option<GcpProjectProfile>)
        ensures
            r matches Some(p) ==> exists|j: int|
                is_failover_choice(self.profiles(), current_profile_id@, j) && profile_view(
                    #[trigger] self.profiles()[j],
                ) == profile_view(p),
            r is None ==> forall|j: int|
                0 <= j < self.profiles().len() ==> !failover_candidate(#[trigger] self.profiles()[j], current_profile_id@),
    {
        let mut i: usize = 0;
        while i < self.gcp_profiles.len()
            invariant
                0 <= i <= self.gcp_profiles@.len(),
                forall|k: int| 0 <= k < i ==> !failover_candidate(#[trigger] self.gcp_profiles@[k], current_profile_id@),
            decreases self.gcp_profiles@.len() - i,
        {
            let p = &self.gcp_profiles[i];
            if !str_eq(p.profile_id.as_str(), current_profile_id) && p.enable_auto_failover
                && !p.disabled_permanently {
                let c = p.duplicate();
                assert(is_failover_choice(self.gcp_profiles@, current_profile_id@, i as int));
                assert(profile_view(self.profiles()[i as int]) == profile_view(c));
                return Some(c);
            }
            i = i + 1;
        }
        None
    }

    /// Puts the first pool slot holding `key` on cooldown until `now + cooldown_secs` seconds.
    pub fn mark_key_cooldown_at(&mut self, key: &str, cooldown_secs: u64, now: i64)
        requires
            0 <= now,
            now + cooldown_secs * 1000 <= i64::MAX,
        ensures
            final(self).session() == old(self).session(),
            final(self).next() == old(self).next(),
            final(self).profiles() == old(self).profiles(),
            final(self).pool().len() == old(self).pool().len(),
            forall|i: int|
                0 <= i < old(self).pool().len() ==> {
                    let o = old(self).pool()[i];
                    let n = #[trigger] final(self).pool()[i];
                    &&& n.key == o.key
                    &&& n.disabled_permanently == o.disabled_permanently
                    &&& n.cooldown_until == if o.key@ == key@ && forall|k: int|
                        0 <= k < i ==> old(self).pool()[k].key@ != key@ {
                        now + cooldown_secs * 1000
                    } else {
                        o.cooldown_until as int
                    }
                },
    {
        self.cool_down_until(key, now + (cooldown_secs * 1000) as i64);
    }

    /// Puts the first pool slot holding `key` on cooldown until `deadline` (ms).
    fn cool_down_until(&mut self, key: &str, deadline: i64)
        ensures
            cooldown_applied(old(self).pool(), final(self).pool(), key@, deadline as int),
            final(self).session() == old(self).session(),
            final(self).next() == old(self).next(),
            final(self).profiles() == old(self).profiles(),
    {
        match self.pool_index_of(key) {
            Some(i) => {
                let ghost op = self.key_pool@;
                let mut slot = self.key_pool[i].duplicate();
                slot.cooldown_until = deadline;
                self.key_pool.set(i, slot);
                assert forall|m: int| 0 <= m < op.len() implies {
                    let o = op[m];
                    let n = #[trigger] self.key_pool@[m];
                    &&& n.key == o.key
                    &&& n.disabled_permanently == o.disabled_permanently
                    &&& n.cooldown_until == if o.key@ == key@ && forall|k: int|
                        0 <= k < m ==> op[k].key@ != key@ {
                        deadline as int
                    } else {
                        o.cooldown_until as int
                    }
                } by {
                    if m > i {
                        assert(op[i as int].key@ == key@);
                    }
                }
            },
            None => {},
        }
    }

    /// `mark_key_cooldown_at` at the current system time; where the deadline would
    /// pass `i64::MAX` the key waits until `i64::MAX`.
    pub fn mark_key_cooldown(&mut self, key: &str, cooldown_secs: u64)
        ensures
            exists|now: int|
                0 <= now <= i64::MAX && #[trigger] cooldown_applied(
                    old(self).pool(),
                    final(self).pool(),
                    key@,
                    capped_deadline(now, cooldown_secs as nat),
                ),
            final(self).session() == old(self).session(),
            final(self).next() == old(self).next(),
            final(self).profiles() == old(self).profiles(),
            final(self).pool().len() == old(self).pool().len(),
            forall|i: int|
                0 <= i < old(self).pool().len() ==> {
                    let o = old(self).pool()[i];
                    let n = #[trigger] final(self).pool()[i];
                    &&& n.key == o.key
                    &&& n.disabled_permanently == o.disabled_permanently
                    &&& !(o.key@ == key@ && forall|k: int|
                        0 <= k < i ==> old(self).pool()[k].key@ != key@) ==> n.cooldown_until
                        == o.cooldown_until
                },
    {
        let now = now_millis();
        let now = if now < 0 { 0 } else { now };
        let max_secs: u64 = ((i64::MAX - now) / 1000) as u64;
        let secs = if cooldown_secs > max_secs { max_secs } else { cooldown_secs };
        assert(secs * 1000 <= i64::MAX - now) by (nonlinear_arith)
            requires
                secs <= max_secs,
                max_secs == (i64::MAX - now) / 1000,
                0 <= now,
        ;
        self.mark_key_cooldown_at(key, secs, now);
        assert(capped_deadline(now as int, cooldown_secs as nat) == now + secs * 1000);
        assert(cooldown_applied(
            old(self).pool(),
            self.pool(),
            key@,
            capped_deadline(now as int, cooldown_secs as nat),
        ));
    }

    /// A key whose daily quota is spent cools down until the next midnight in
    /// America/Los_Angeles, when the quota is renewed (held to `i64::MAX` where
    /// that midnight lies beyond it). A clock reading before the Unix epoch
    /// counts as the epoch.
    pub fn mark_key_daily_exhausted(&mut self, key: &str)
        ensures
            exists|now: int|
                0 <= now <= i64::MAX && #[trigger] cooldown_applied(
                    old(self).pool(),
                    final(self).pool(),
                    key@,
                    next_pacific_midnight_capped(now),
                ),
            final(self).session() == old(self).session(),
            final(self).next() == old(self).next(),
            final(self).profiles() == old(self).profiles(),
            final(self).pool().len() == old(self).pool().len(),
            forall|i: int|
                0 <= i < old(self).pool().len() ==> {
                    let o = old(self).pool()[i];
                    let n = #[trigger] final(self).pool()[i];
                    &&& n.key == o.key
                    &&& n.disabled_permanently == o.disabled_permanently
                    &&& !(o.key@ == key@ && forall|k: int|
                        0 <= k < i ==> old(self).pool()[k].key@ != key@) ==> n.cooldown_until
                        == o.cooldown_until
                },
    {
        let now = now_millis();
        let now = if now < 0 {
            0
        } else {
            now
        };
        let deadline = next_pacific_midnight_ms(now);
        self.cool_down_until(key, deadline);
        assert(cooldown_applied(old(self).pool(), self.pool(), key@, next_pacific_midnight_capped(now as int)));
    }
}

impl Default for CredentialStore {
    fn default() -> (r: Self)
        ensures
            r.pool().len() == 0,
            r.session() is None,
            r.next() == 0,
            r.profiles().len() == 0,
    {
        Self::new()
    }
}

} // verus!
