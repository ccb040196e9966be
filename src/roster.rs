use vstd::prelude::*;

use crate::text::{owned, str_eq};

verus! {

/// How a known device is treated when it asks to connect.
#[derive(Debug, Clone, Copy, PartialEq, Eq, Structural)]
pub enum UserType {
    Blacklist,
    Normal,
    Trusted,
}

/// One admitted peer.
#[derive(Debug)]
pub struct CurInfo {
    pub device_name: String,
    pub device_id: String,
    pub user_type: UserType,
    pub uuid: String,
}

/// The mathematical content of a [`CurInfo`].
pub struct CurInfoView {
    pub device_name: Seq<char>,
    pub device_id: Seq<char>,
    pub user_type: UserType,
    pub uuid: Seq<char>,
}

impl View for CurInfo {
    type V = CurInfoView;

    open spec fn view(&self) -> CurInfoView {
        CurInfoView {
            device_name: self.device_name@,
            device_id: self.device_id@,
            user_type: self.user_type,
            uuid: self.uuid@,
        }
    }
}

impl CurInfo {
    /// A field-by-field copy.
    pub fn copy(&self) -> (r: CurInfo)
        ensures
            r@ == self@,
    {
        CurInfo {
            device_name: self.device_name.clone(),
            device_id: self.device_id.clone(),
            user_type: self.user_type,
            uuid: self.uuid.clone(),
        }
    }
}

/// Answer to a control-plane request (`control`, `revokectrl`, local revocation).
#[derive(Debug)]
pub struct CrtlAns {
    pub status: String,
    pub body: String,
}

/// A peer's request to take or give up control.
#[derive(Debug)]
pub struct CrtlReq {
    pub jwt: String,
    pub uuid: String,
    pub device_serial: String,
}

/// The roster seen as a bounded ordered list with an optional controller position.
pub struct RosterView {
    pub capacity: nat,
    pub entries: Seq<CurInfoView>,
    pub controller: Option<int>,
}

/// No two entries share a peer uuid.
pub open spec fn uuids_unique(s: Seq<CurInfoView>) -> bool {
    forall|i: int, j: int| 0 <= i < s.len() && 0 <= j < s.len() && i != j ==> s[i].uuid != s[j].uuid
}

/// Some entry carries the device serial `serial`.
pub open spec fn has_serial(s: Seq<CurInfoView>, serial: Seq<char>) -> bool {
    exists|i: int| 0 <= i < s.len() && s[i].device_id == serial
}

/// Some entry carries the peer uuid `uuid`.
pub open spec fn has_uuid(s: Seq<CurInfoView>, uuid: Seq<char>) -> bool {
    exists|i: int| 0 <= i < s.len() && s[i].uuid == uuid
}

/// Position of the first entry whose serial is `serial`, or the length when there is none.
pub open spec fn first_serial_index(s: Seq<CurInfoView>, serial: Seq<char>) -> int
    decreases s.len(),
{
    if s.len() == 0 {
        0
    } else if s[0].device_id == serial {
        0
    } else {
        1 + first_serial_index(s.drop_first(), serial)
    }
}

/// Position of the first entry whose uuid is `uuid`, or the length when there is none.
pub open spec fn first_uuid_index(s: Seq<CurInfoView>, uuid: Seq<char>) -> int
    decreases s.len(),
{
    if s.len() == 0 {
        0
    } else if s[0].uuid == uuid {
        0
    } else {
        1 + first_uuid_index(s.drop_first(), uuid)
    }
}

proof fn lemma_first_serial_index(s: Seq<CurInfoView>, serial: Seq<char>)
    ensures
        0 <= first_serial_index(s, serial) <= s.len(),
        forall|j: int| 0 <= j < first_serial_index(s, serial) ==> s[j].device_id != serial,
        first_serial_index(s, serial) < s.len() ==> s[first_serial_index(s, serial)].device_id
            == serial,
        (first_serial_index(s, serial) < s.len()) == has_serial(s, serial),
    decreases s.len(),
{
    if s.len() > 0 && s[0].device_id != serial {
        lemma_first_serial_index(s.drop_first(), serial);
        assert forall|j: int| 0 <= j < first_serial_index(s, serial) implies s[j].device_id
            != serial by {
            if j > 0 {
                assert(s[j] == s.drop_first()[j - 1]);
            }
        }
        if has_serial(s, serial) {
            let i = choose|i: int| 0 <= i < s.len() && s[i].device_id == serial;
            assert(s.drop_first()[i - 1] == s[i]);
        }
    }
}

proof fn lemma_first_uuid_index(s: Seq<CurInfoView>, uuid: Seq<char>)
    ensures
        0 <= first_uuid_index(s, uuid) <= s.len(),
        forall|j: int| 0 <= j < first_uuid_index(s, uuid) ==> s[j].uuid != uuid,
        first_uuid_index(s, uuid) < s.len() ==> s[first_uuid_index(s, uuid)].uuid == uuid,
        (first_uuid_index(s, uuid) < s.len()) == has_uuid(s, uuid),
    decreases s.len(),
{
    if s.len() > 0 && s[0].uuid != uuid {
        lemma_first_uuid_index(s.drop_first(), uuid);
        assert forall|j: int| 0 <= j < first_uuid_index(s, uuid) implies s[j].uuid != uuid by {
            if j > 0 {
                assert(s[j] == s.drop_first()[j - 1]);
            }
        }
        if has_uuid(s, uuid) {
            let i = choose|i: int| 0 <= i < s.len() && s[i].uuid == uuid;
            assert(s.drop_first()[i - 1] == s[i]);
        }
    }
}

/// The set of admitted peers, bounded by a capacity, with at most one controller.
#[derive(Debug)]
pub struct CurUsersInfo {
    max: usize,
    pointer: usize,
    usersinfo: Vec<CurInfo>,
}

impl View for CurUsersInfo {
    type V = RosterView;

    closed spec fn view(&self) -> RosterView {
        RosterView {
            capacity: self.max as nat,
            entries: self.usersinfo@.map_values(|c: CurInfo| c@),
            controller: if self.pointer < self.usersinfo.len() {
                Some(self.pointer as int)
            } else {
                None
            },
        }
    }
}

impl CurUsersInfo {
    /// The roster invariant: within capacity, and one entry per peer uuid.
    pub open spec fn wf(&self) -> bool {
        &&& self@.entries.len() <= self@.capacity
        &&& uuids_unique(self@.entries)
        &&& self.pointer_ok()
    }

    /// The stored position either names an entry or lies at or past the capacity, so that
    /// admitting a peer never makes it name one.
    pub closed spec fn pointer_ok(&self) -> bool {
        self.pointer < self.usersinfo.len() || self.pointer >= self.max
    }

    /// The controller position, when there is one, names an existing entry.
    pub proof fn lemma_controller_in_range(&self)
        ensures
            self@.controller matches Some(i) ==> 0 <= i < self@.entries.len(),
    {
    }

    /// An empty roster of the given capacity, with no controller.
    pub fn new(max: usize) -> (r: Self)
        requires
            max < usize::MAX,
        ensures
            r.wf(),
            r@.capacity == max,
            r@.entries.len() == 0,
            r@.controller is None,
    {
        CurUsersInfo { max, pointer: max + 1, usersinfo: Vec::new() }
    }

    /// Number of admitted peers.
    pub fn len(&self) -> (r: usize)
        ensures
            r == self@.entries.len(),
    {
        self.usersinfo.len()
    }

    /// The capacity the roster was made with.
    pub fn capacity(&self) -> (r: usize)
        ensures
            r == self@.capacity,
    {
        self.max
    }

    /// The entry at position `i`.
    pub fn get(&self, i: usize) -> (r: &CurInfo)
        requires
            i < self@.entries.len(),
        ensures
            r@ == self@.entries[i as int],
    {
        &self.usersinfo[i]
    }

    /// The controller position, if any.
    pub fn controller_index(&self) -> (r: Option<usize>)
        ensures
            r matches Some(i) ==> self@.controller == Some(i as int),
            r is None ==> self@.controller is None,
    {
        if self.pointer < self.usersinfo.len() {
            Some(self.pointer)
        } else {
            None
        }
    }

    /// Makes the first entry with device serial `serial` the controller and tells whether one
    /// exists; when none does, no entry is controller afterwards.
    pub fn set_ptr_by_serial(&mut self, serial: &str) -> (r: bool)
        requires
            old(self).wf(),
        ensures
            final(self).wf(),
            r == has_serial(old(self)@.entries, serial@),
            final(self)@.capacity == old(self)@.capacity,
            final(self)@.entries == old(self)@.entries,
            r ==> final(self)@.controller == Some(first_serial_index(old(self)@.entries, serial@)),
            !r ==> final(self)@.controller is None,
    {
        proof {
            lemma_first_serial_index(self@.entries, serial@);
        }
        let mut pointer: usize = 0;
        while pointer < self.usersinfo.len()
            invariant
                pointer <= self.usersinfo.len(),
                self@.entries.len() == self.usersinfo.len(),
                self@.entries == self.usersinfo@.map_values(|c: CurInfo| c@),
                forall|j: int| 0 <= j < pointer ==> self@.entries[j].device_id != serial@,
            ensures
                pointer <= self.usersinfo.len(),
                forall|j: int| 0 <= j < pointer ==> self@.entries[j].device_id != serial@,
                pointer < self.usersinfo.len() ==> self@.entries[pointer as int].device_id
                    == serial@,
            decreases self.usersinfo.len() - pointer,
        {
            if str_eq(serial, self.usersinfo[pointer].device_id.as_str()) {
                break;
            }
            pointer = pointer + 1;
        }
        proof {
            if pointer > first_serial_index(self@.entries, serial@) {
                let k = first_serial_index(self@.entries, serial@);
                assert(self@.entries[k].device_id == serial@);
            }
        }
        if pointer < self.usersinfo.len() {
            self.pointer = pointer;
            true
        } else {
            self.pointer = self.max;
            false
        }
    }

    /// Appends `new_user` when there is room and its uuid is not yet present; otherwise
    /// leaves the roster as it was.
    pub fn add_new_cur_user(&mut self, new_user: &CurInfo)
        requires
            old(self).wf(),
        ensures
            final(self).wf(),
            final(self)@.capacity == old(self)@.capacity,
            final(self)@.controller == old(self)@.controller,
            if old(self)@.entries.len() < old(self)@.capacity && !has_uuid(
                old(self)@.entries,
                new_user.uuid@,
            ) {
                final(self)@.entries == old(self)@.entries.push(new_user@)
            } else {
                final(self)@.entries == old(self)@.entries
            },
    {
        if self.usersinfo.len() < self.max && !self.lookup_by_uuid(new_user.uuid.as_str()) {
            let c = new_user.copy();
            self.usersinfo.push(c);
            proof {
                assert(self@.entries =~= old(self)@.entries.push(new_user@));
            }
        }
    }

    /// Empties the roster and clears the controller.
    pub fn reset(&mut self)
        ensures
            final(self).wf(),
            final(self)@.capacity == old(self)@.capacity,
            final(self)@.entries.len() == 0,
            final(self)@.controller is None,
    {
        self.pointer = self.max;
        self.usersinfo = Vec::new();
    }

    /// Whether some entry carries device serial `serial`.
    pub fn lookup_by_serial(&self, serial: &str) -> (r: bool)
        ensures
            r == has_serial(self@.entries, serial@),
    {
        let mut res = false;
        let mut i: usize = 0;
        while i < self.usersinfo.len()
            invariant
                i <= self.usersinfo.len(),
                self@.entries == self.usersinfo@.map_values(|c: CurInfo| c@),
                res == exists|j: int| 0 <= j < i && self@.entries[j].device_id == serial@,
            decreases self.usersinfo.len() - i,
        {
            let m = str_eq(serial, self.usersinfo[i].device_id.as_str());
            proof {
                if m {
                    assert(self@.entries[i as int].device_id == serial@);
                }
            }
            res = res || m;
            i = i + 1;
        }
        res
    }

    /// Whether some entry carries peer uuid `uuid`.
    pub fn lookup_by_uuid(&self, uuid: &str) -> (r: bool)
        ensures
            r == has_uuid(self@.entries, uuid@),
    {
        proof {
            lemma_first_uuid_index(self@.entries, uuid@);
        }
        self.uuid_index(uuid) < self.usersinfo.len()
    }

    fn uuid_index(&self, uuid: &str) -> (r: usize)
        ensures
            r == first_uuid_index(self@.entries, uuid@),
    {
        proof {
            lemma_first_uuid_index(self@.entries, uuid@);
        }
        let mut target: usize = 0;
        while target < self.usersinfo.len()
            invariant
                target <= self.usersinfo.len(),
                self@.entries == self.usersinfo@.map_values(|c: CurInfo| c@),
                forall|j: int| 0 <= j < target ==> self@.entries[j].uuid != uuid@,
            ensures
                target <= self.usersinfo.len(),
                forall|j: int| 0 <= j < target ==> self@.entries[j].uuid != uuid@,
                target < self.usersinfo.len() ==> self@.entries[target as int].uuid == uuid@,
            decreases self.usersinfo.len() - target,
        {
            if str_eq(self.usersinfo[target].uuid.as_str(), uuid) {
                break;
            }
            target = target + 1;
        }
        proof {
            let k = first_uuid_index(self@.entries, uuid@);
            if target > k {
                assert(self@.entries[k].uuid == uuid@);
            }
        }
        target
    }

    /// Whether another peer can be admitted.
    pub fn is_avail(&self) -> (r: bool)
        ensures
            r == (self@.entries.len() < self@.capacity),
    {
        self.usersinfo.len() < self.max
    }

    /// Removes the entry of peer `uuid`, keeping the order of the others, and tells whether
    /// there was one. The controller stays on the same peer; it is cleared when that peer
    /// is the one removed.
    pub fn delete_by_uuid(&mut self, uuid: &str) -> (r: bool)
        requires
            old(self).wf(),
        ensures
            final(self).wf(),
            r == has_uuid(old(self)@.entries, uuid@),
            final(self)@.capacity == old(self)@.capacity,
            !r ==> final(self)@ == old(self)@,
            r ==> final(self)@.entries == old(self)@.entries.remove(
                first_uuid_index(old(self)@.entries, uuid@),
            ),
            r ==> !has_uuid(final(self)@.entries, uuid@),
            r ==> match old(self)@.controller {
                Some(c) => if c == first_uuid_index(old(self)@.entries, uuid@) {
                    final(self)@.controller is None
                } else if c < first_uuid_index(old(self)@.entries, uuid@) {
                    final(self)@.controller == Some(c)
                } else {
                    final(self)@.controller == Some(c - 1)
                },
                None => final(self)@.controller is None,
            },
    {
        proof {
            lemma_first_uuid_index(self@.entries, uuid@);
        }
        let target = self.uuid_index(uuid);
        if target < self.usersinfo.len() {
            let ghost old_entries = self@.entries;
            let _removed = self.usersinfo.remove(target);
            if self.pointer == target {
                self.pointer = self.max;
            } else if self.pointer > target && self.pointer < self.max {
                self.pointer = self.pointer - 1;
            }
            proof {
                assert(self@.entries =~= old_entries.remove(target as int));
                assert forall|i: int| 0 <= i < self@.entries.len() implies self@.entries[i].uuid
                    != uuid@ by {
                    if i < target {
                        assert(self@.entries[i] == old_entries[i]);
                    } else {
                        assert(self@.entries[i] == old_entries[i + 1]);
                        assert(old_entries[target as int].uuid == uuid@);
                    }
                }
            }
            true
        } else {
            false
        }
    }

    /// Whether some entry holds control.
    pub fn has_controller(&self) -> (r: bool)
        ensures
            r == (self@.controller is Some),
    {
        self.pointer < self.usersinfo.len()
    }

    /// Whether peer `uuid` holds control.
    pub fn is_controller_by_uuid(&self, uuid: String) -> (r: bool)
        ensures
            r == (self@.controller matches Some(i) && self@.entries[i].uuid == uuid@),
    {
        let pointer = self.pointer;
        if pointer < self.usersinfo.len() {
            str_eq(self.usersinfo[pointer].uuid.as_str(), uuid.as_str())
        } else {
            false
        }
    }

    /// Takes control back from the current controller: clears the controller and, when there
    /// was one, returns its uuid with the notice it is to receive.
    pub fn revoke_control(&mut self) -> (r: Option<(String, CrtlAns)>)
        requires
            old(self).wf(),
        ensures
            final(self).wf(),
            final(self)@.capacity == old(self)@.capacity,
            final(self)@.entries == old(self)@.entries,
            final(self)@.controller is None,
            old(self)@.controller is None ==> r is None,
            old(self)@.controller matches Some(i) ==> r matches Some(m) && m.0@
                == old(self)@.entries[i].uuid && m.1.status@ == "100"@ && m.1.body@
                == "控制权取回"@,
    {
        let res = if self.pointer < self.usersinfo.len() {
            let target = self.usersinfo[self.pointer].uuid.clone();
            let ans = CrtlAns { status: owned("100"), body: owned("控制权取回") };
            Some((target, ans))
        } else {
            None
        };
        self.pointer = self.max;
        res
    }
}

} // verus!
