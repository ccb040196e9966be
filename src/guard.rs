use vstd::prelude::*;

use crate::text::{owned, str_eq, string_views};

verus! {

/// A set of keys with an operation in flight (here, device serials awaiting confirmation).
#[derive(Debug)]
pub struct SingleFlight {
    keys: Vec<String>,
}

impl View for SingleFlight {
    type V = Set<Seq<char>>;

    closed spec fn view(&self) -> Set<Seq<char>> {
        string_views(self.keys@).to_set()
    }
}

impl SingleFlight {
    /// No key in flight.
    pub fn new() -> (r: Self)
        ensures
            r@ == Set::<Seq<char>>::empty(),
    {
        let r = SingleFlight { keys: Vec::new() };
        proof {
            assert(string_views(r.keys@).to_set() =~= Set::<Seq<char>>::empty());
        }
        r
    }

    /// Whether `key` is in flight.
    pub fn contains(&self, key: &str) -> (r: bool)
        ensures
            r == self@.contains(key@),
    {
        let mut i: usize = 0;
        while i < self.keys.len()
            invariant
                i <= self.keys.len(),
                string_views(self.keys@).len() == self.keys.len(),
                forall|j: int| 0 <= j < i ==> string_views(self.keys@)[j] != key@,
            decreases self.keys.len() - i,
        {
            if str_eq(self.keys[i].as_str(), key) {
                proof {
                    assert(string_views(self.keys@)[i as int] == key@);
                }
                return true;
            }
            i = i + 1;
        }
        false
    }

    /// Takes `key` unless it is already in flight; true when it was taken.
    pub fn try_acquire(&mut self, key: &str) -> (r: bool)
        ensures
            r == !old(self)@.contains(key@),
            final(self)@ == old(self)@.insert(key@),
    {
        if self.contains(key) {
            proof {
                assert(old(self)@.insert(key@) =~= old(self)@);
            }
            return false;
        }
        let ghost before = string_views(self.keys@);
        self.keys.push(owned(key));
        proof {
            assert(string_views(self.keys@) =~= before.push(key@));
            assert(before.push(key@).to_set() =~= before.to_set().insert(key@)) by {
                assert forall|k: Seq<char>| before.push(key@).contains(k) <==> (before.contains(k) || k == key@) by {
                    if before.push(key@).contains(k) {
                        let t = choose|t: int| 0 <= t < before.len() + 1 && before.push(key@)[t] == k;
                        if t < before.len() {
                            assert(before[t] == k);
                        }
                    }
                    if before.contains(k) {
                        let t = choose|t: int| 0 <= t < before.len() && before[t] == k;
                        assert(before.push(key@)[t] == k);
                    }
                    if k == key@ {
                        assert(before.push(key@)[before.len() as int] == k);
                    }
                }
            }
        }
        true
    }

    /// Releases `key`.
    pub fn release(&mut self, key: &str)
        ensures
            final(self)@ == old(self)@.remove(key@),
    {
        let mut kept: Vec<String> = Vec::new();
        let ghost all = string_views(self.keys@);
        let mut i: usize = 0;
        while i < self.keys.len()
            invariant
                i <= self.keys.len(),
                all == string_views(self.keys@),
                all.len() == self.keys.len(),
                forall|k: Seq<char>| #[trigger] string_views(kept@).contains(k) <==> (k != key@ && exists|j: int| 0 <= j < i && all[j] == k),
            decreases self.keys.len() - i,
        {
            if !str_eq(self.keys[i].as_str(), key) {
                let ghost before = string_views(kept@);
                let c = self.keys[i].clone();
                kept.push(c);
                proof {
                    assert(string_views(kept@) =~= before.push(all[i as int]));
                    assert forall|k: Seq<char>| #[trigger] string_views(kept@).contains(k) <==> (k != key@ && exists|j: int| 0 <= j < i + 1 && all[j] == k) by {
                        if string_views(kept@).contains(k) {
                            let t = choose|t: int| 0 <= t < before.len() + 1 && before.push(all[i as int])[t] == k;
                            if t < before.len() {
                                assert(before[t] == k);
                                assert(before.contains(k));
                            }
                        }
                        if k != key@ && exists|j: int| 0 <= j < i + 1 && all[j] == k {
                            let j = choose|j: int| 0 <= j < i + 1 && all[j] == k;
                            if j < i {
                                assert(before.contains(k));
                                let t = choose|t: int| 0 <= t < before.len() && before[t] == k;
                                assert(string_views(kept@)[t] == k);
                            } else {
                                assert(string_views(kept@)[before.len() as int] == k);
                            }
                        }
                    }
                }
            } else {
                proof {
                    assert forall|k: Seq<char>| #[trigger] string_views(kept@).contains(k) <==> (k != key@ && exists|j: int| 0 <= j < i + 1 && all[j] == k) by {
                        if k != key@ && exists|j: int| 0 <= j < i + 1 && all[j] == k {
                            let j = choose|j: int| 0 <= j < i + 1 && all[j] == k;
                            assert(j < i);
                        }
                    }
                }
            }
            i = i + 1;
        }
        self.keys = kept;
        proof {
            assert forall|k: Seq<char>| self@.contains(k) <==> old(self)@.remove(key@).contains(k) by {
                assert(string_views(self.keys@).to_set().contains(k) == string_views(self.keys@).contains(k));
                assert(all.to_set().contains(k) == all.contains(k));
            }
            assert(self@ =~= old(self)@.remove(key@));
        }
    }
}

} // verus!
