use vstd::prelude::*;

use crate::roster::UserType;
use crate::text::{owned, str_eq};

verus! {

/// A known device and how it is treated.
#[derive(Debug)]
pub struct UserInfo {
    pub device_name: String,
    pub device_id: String,
    pub user_type: UserType,
}

/// The mathematical content of a [`UserInfo`].
pub struct UserInfoView {
    pub device_name: Seq<char>,
    pub device_id: Seq<char>,
    pub user_type: UserType,
}

impl View for UserInfo {
    type V = UserInfoView;

    open spec fn view(&self) -> UserInfoView {
        UserInfoView {
            device_name: self.device_name@,
            device_id: self.device_id@,
            user_type: self.user_type,
        }
    }
}

impl UserInfo {
    /// A field-by-field copy.
    pub fn copy(&self) -> (r: UserInfo)
        ensures
            r@ == self@,
    {
        UserInfo {
            device_name: self.device_name.clone(),
            device_id: self.device_id.clone(),
            user_type: self.user_type,
        }
    }
}

/// A device as the user interface lists it, with its category as a word.
#[derive(Debug)]
pub struct UserInfoString {
    pub device_name: String,
    pub device_id: String,
    pub user_type: String,
}

/// The word the user interface uses for a category.
pub open spec fn category_word(t: UserType) -> Seq<char> {
    match t {
        UserType::Trusted => "trusted"@,
        UserType::Normal => "regular"@,
        UserType::Blacklist => "blacklist"@,
    }
}

/// The category a user-interface word names, if any.
pub open spec fn category_of_word(w: Seq<char>) -> Option<UserType> {
    if w == "trusted"@ {
        Some(UserType::Trusted)
    } else if w == "regular"@ {
        Some(UserType::Normal)
    } else if w == "blacklist"@ {
        Some(UserType::Blacklist)
    } else {
        None
    }
}

/// The word for `t`.
pub fn category_string(t: UserType) -> (r: String)
    ensures
        r@ == category_word(t),
{
    match t {
        UserType::Trusted => owned("trusted"),
        UserType::Normal => owned("regular"),
        UserType::Blacklist => owned("blacklist"),
    }
}

/// The category named by the user-interface word `w`.
pub fn parse_user_type(w: &str) -> (r: Option<UserType>)
    ensures
        r == category_of_word(w@),
{
    if str_eq(w, "trusted") {
        Some(UserType::Trusted)
    } else if str_eq(w, "regular") {
        Some(UserType::Normal)
    } else if str_eq(w, "blacklist") {
        Some(UserType::Blacklist)
    } else {
        None
    }
}

/// The label shown when asking to move a device to the category named by `w`.
pub fn category_label(w: &str) -> (r: &'static str)
    ensures
        category_of_word(w@) == Some(UserType::Trusted) ==> r@ == "可信"@,
        category_of_word(w@) == Some(UserType::Normal) ==> r@ == "普通"@,
        category_of_word(w@) == Some(UserType::Blacklist) ==> r@ == "黑名单"@,
        category_of_word(w@) is None ==> r@ == "未知"@,
{
    match parse_user_type(w) {
        Some(UserType::Trusted) => "可信",
        Some(UserType::Normal) => "普通",
        Some(UserType::Blacklist) => "黑名单",
        None => "未知",
    }
}

/// Position of the first record of device `serial`, or the length when there is none.
pub open spec fn serial_index(s: Seq<UserInfoView>, serial: Seq<char>) -> int
    decreases s.len(),
{
    if s.len() == 0 {
        0
    } else if s[0].device_id == serial {
        0
    } else {
        1 + serial_index(s.drop_first(), serial)
    }
}

/// No two records share a device serial.
pub open spec fn serials_unique(s: Seq<UserInfoView>) -> bool {
    forall|i: int, j: int| 0 <= i < s.len() && 0 <= j < s.len() && i != j ==> s[i].device_id != s[j].device_id
}

/// The record of device `serial`, if any.
pub open spec fn lookup(s: Seq<UserInfoView>, serial: Seq<char>) -> Option<UserInfoView> {
    if serial_index(s, serial) < s.len() {
        Some(s[serial_index(s, serial)])
    } else {
        None
    }
}

pub proof fn lemma_serial_index(s: Seq<UserInfoView>, serial: Seq<char>)
    ensures
        0 <= serial_index(s, serial) <= s.len(),
        serial_index(s, serial) < s.len() ==> s[serial_index(s, serial)].device_id == serial,
        forall|j: int| 0 <= j < serial_index(s, serial) ==> s[j].device_id != serial,
    decreases s.len(),
{
    if s.len() > 0 && s[0].device_id != serial {
        lemma_serial_index(s.drop_first(), serial);
        assert forall|j: int| 0 <= j < serial_index(s, serial) implies s[j].device_id != serial by {
            if j > 0 {
                assert(s[j] == s.drop_first()[j - 1]);
            }
        }
    }
}

/// The device table: one record per serial, in insertion order.
#[derive(Debug)]
pub struct UserTable {
    entries: Vec<UserInfo>,
}

impl View for UserTable {
    type V = Seq<UserInfoView>;

    closed spec fn view(&self) -> Seq<UserInfoView> {
        self.entries@.map_values(|u: UserInfo| u@)
    }
}

impl UserTable {
    /// Serials are unique.
    pub open spec fn wf(&self) -> bool {
        serials_unique(self@)
    }

    /// An empty table.
    pub fn new() -> (r: Self)
        ensures
            r.wf(),
            r@.len() == 0,
    {
        UserTable { entries: Vec::new() }
    }

    /// Number of records.
    pub fn len(&self) -> (r: usize)
        ensures
            r == self@.len(),
    {
        self.entries.len()
    }

    /// The record at position `i`.
    pub fn get(&self, i: usize) -> (r: &UserInfo)
        requires
            i < self@.len(),
        ensures
            r@ == self@[i as int],
    {
        &self.entries[i]
    }

    fn index_of(&self, serial: &str) -> (r: usize)
        ensures
            r == serial_index(self@, serial@),
    {
        proof {
            lemma_serial_index(self@, serial@);
        }
        let mut i: usize = 0;
        while i < self.entries.len()
            invariant
                i <= self.entries.len(),
                self@.len() == self.entries.len(),
                forall|j: int| 0 <= j < i ==> self@[j].device_id != serial@,
            decreases self.entries.len() - i,
        {
            if str_eq(self.entries[i].device_id.as_str(), serial) {
                proof {
                    lemma_serial_index(self@, serial@);
                    assert(self@[i as int].device_id == serial@);
                    if (i as int) > serial_index(self@, serial@) {
                        assert(self@[serial_index(self@, serial@)].device_id == serial@);
                    }
                }
                return i;
            }
            proof {
                assert(self@[i as int] == self.entries@[i as int]@);
            }
            i = i + 1;
        }
        proof {
            if serial_index(self@, serial@) < self@.len() {
                assert(self@[serial_index(self@, serial@)].device_id == serial@);
            }
        }
        i
    }

    /// The record of device `serial`, if any.
    pub fn get_user_by_serial(&self, serial: &str) -> (r: Option<UserInfo>)
        ensures
            r is Some == (lookup(self@, serial@) is Some),
            r matches Some(u) ==> lookup(self@, serial@) == Some(u@),
    {
        let i = self.index_of(serial);
        if i < self.entries.len() {
            Some(self.entries[i].copy())
        } else {
            None
        }
    }

    /// Records device `device_id` as a normal user, unless it is already known. True when the
    /// table changed.
    pub fn add_device(&mut self, device_name: &str, device_id: &str) -> (r: bool)
        requires
            old(self).wf(),
        ensures
            final(self).wf(),
            r == (lookup(old(self)@, device_id@) is None),
            r ==> final(self)@ == old(self)@.push(
                UserInfoView { device_name: device_name@, device_id: device_id@, user_type: UserType::Normal },
            ),
            !r ==> final(self)@ == old(self)@,
    {
        let info = UserInfo {
            device_name: owned(device_name),
            device_id: owned(device_id),
            user_type: UserType::Normal,
        };
        self.insert_record(info)
    }

    /// Appends `rec` unless its serial is already known. True when the table changed.
    pub fn insert_record(&mut self, rec: UserInfo) -> (r: bool)
        requires
            old(self).wf(),
        ensures
            final(self).wf(),
            r == (lookup(old(self)@, rec@.device_id) is None),
            r ==> final(self)@ == old(self)@.push(rec@),
            !r ==> final(self)@ == old(self)@,
    {
        proof {
            lemma_serial_index(self@, rec@.device_id);
        }
        let i = self.index_of(rec.device_id.as_str());
        if i < self.entries.len() {
            return false;
        }
        let ghost old_v = self@;
        let ghost rv = rec@;
        self.entries.push(rec);
        proof {
            assert(self@ =~= old_v.push(rv));
            assert forall|a: int, b: int|
                0 <= a < self@.len() && 0 <= b < self@.len() && a != b implies self@[a].device_id
                != self@[b].device_id by {
                if a < old_v.len() && b < old_v.len() {
                } else if a == old_v.len() {
                    assert(old_v[b].device_id != rv.device_id);
                } else {
                    assert(old_v[a].device_id != rv.device_id);
                }
            }
        }
        true
    }

    /// Every record with its category as a word, in table order.
    pub fn transfer_userinfo_to_vue(&self) -> (r: Vec<UserInfoString>)
        ensures
            r@.len() == self@.len(),
            forall|i: int|
                0 <= i < r@.len() ==> (#[trigger] r@[i]).device_id@ == self@[i].device_id
                    && r@[i].device_name@ == self@[i].device_name && r@[i].user_type@
                    == category_word(self@[i].user_type),
    {
        let mut out: Vec<UserInfoString> = Vec::new();
        let mut i: usize = 0;
        while i < self.entries.len()
            invariant
                i <= self.entries.len(),
                self@.len() == self.entries.len(),
                out@.len() == i,
                forall|k: int|
                    0 <= k < i ==> (#[trigger] out@[k]).device_id@ == self@[k].device_id
                        && out@[k].device_name@ == self@[k].device_name && out@[k].user_type@
                        == category_word(self@[k].user_type),
            decreases self.entries.len() - i,
        {
            let e = &self.entries[i];
            proof {
                assert(self@[i as int] == e@);
            }
            out.push(
                UserInfoString {
                    device_id: e.device_id.clone(),
                    device_name: e.device_name.clone(),
                    user_type: category_string(e.user_type),
                },
            );
            i = i + 1;
        }
        out
    }

    /// Moves device `serial` to the category named by `usertype`. True when the table changed;
    /// false when the device is unknown or the word names no category.
    pub fn update_user_category(&mut self, serial: &str, usertype: &str) -> (r: bool)
        requires
            old(self).wf(),
        ensures
            final(self).wf(),
            r == (lookup(old(self)@, serial@) is Some && category_of_word(usertype@) is Some),
            r ==> final(self)@ == old(self)@.update(
                serial_index(old(self)@, serial@),
                UserInfoView {
                    user_type: category_of_word(usertype@).unwrap(),
                    ..old(self)@[serial_index(old(self)@, serial@)]
                },
            ),
            !r ==> final(self)@ == old(self)@,
    {
        let i = self.index_of(serial);
        if i >= self.entries.len() {
            return false;
        }
        let t = match parse_user_type(usertype) {
            Some(t) => t,
            None => return false,
        };
        let ghost old_v = self@;
        let rec = UserInfo {
            device_name: self.entries[i].device_name.clone(),
            device_id: self.entries[i].device_id.clone(),
            user_type: t,
        };
        self.entries.set(i, rec);
        proof {
            assert(self@ =~= old_v.update(
                i as int,
                UserInfoView { user_type: t, ..old_v[i as int] },
            ));
            assert forall|a: int, b: int|
                0 <= a < self@.len() && 0 <= b < self@.len() && a != b implies self@[a].device_id
                != self@[b].device_id by {
                assert(self@[a].device_id == old_v[a].device_id);
                assert(self@[b].device_id == old_v[b].device_id);
            }
        }
        true
    }

    /// Forgets device `serial`. True when it was known.
    pub fn delete_user(&mut self, serial: &str) -> (r: bool)
        requires
            old(self).wf(),
        ensures
            final(self).wf(),
            r == (lookup(old(self)@, serial@) is Some),
            r ==> final(self)@ == old(self)@.remove(serial_index(old(self)@, serial@)),
            !r ==> final(self)@ == old(self)@,
            lookup(final(self)@, serial@) is None,
    {
        proof {
            lemma_serial_index(self@, serial@);
        }
        let i = self.index_of(serial);
        if i >= self.entries.len() {
            return false;
        }
        let ghost old_v = self@;
        let _removed = self.entries.remove(i);
        proof {
            assert(self@ =~= old_v.remove(i as int));
            assert forall|a: int, b: int|
                0 <= a < self@.len() && 0 <= b < self@.len() && a != b implies self@[a].device_id
                != self@[b].device_id by {
                let a2 = if a < i { a } else { a + 1 };
                let b2 = if b < i { b } else { b + 1 };
                assert(self@[a] == old_v[a2]);
                assert(self@[b] == old_v[b2]);
            }
            lemma_serial_index(self@, serial@);
            if serial_index(self@, serial@) < self@.len() {
                let k = serial_index(self@, serial@);
                let k2 = if k < i { k } else { k + 1 };
                assert(self@[k] == old_v[k2]);
                assert(old_v[i as int].device_id == serial@);
            }
        }
        true
    }
}

} // verus!
