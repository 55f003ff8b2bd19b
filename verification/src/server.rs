//! Process-wide indication flow control. Indicate requires a per-connection
//! acknowledgment before another indication may be sent to that connection,
//! whichever characteristic sends it; the server owns that state because
//! acknowledgments arrive asynchronously, independent of the sender.

use vstd::prelude::*;

verus! {

/// The server's per-connection "indication in flight" state.
pub struct BLEServer {
    indicate_wait: Vec<u16>,
}

impl BLEServer {
    /// The set of connection handles with an unacknowledged indication.
    pub closed spec fn waiting_set(&self) -> Set<u16> {
        Set::new(|c: u16| self.indicate_wait@.contains(c))
    }

    pub fn new() -> (r: Self)
        ensures
            r.waiting_set() == Set::<u16>::empty(),
    {
        let r = BLEServer { indicate_wait: Vec::new() };
        proof {
            assert(r.waiting_set() =~= Set::<u16>::empty());
        }
        r
    }

    pub fn is_indicate_waiting(&self, conn: u16) -> (r: bool)
        ensures
            r == self.waiting_set().contains(conn),
    {
        let mut i: usize = 0;
        while i < self.indicate_wait.len()
            invariant
                i <= self.indicate_wait@.len(),
                forall|j: int| 0 <= j < i ==> self.indicate_wait@[j] != conn,
            decreases self.indicate_wait@.len() - i,
        {
            if self.indicate_wait[i] == conn {
                return true;
            }
            i = i + 1;
        }
        false
    }

    /// Mark an indication in flight for `conn`. Fails, changing nothing,
    /// when one is already in flight.
    pub fn set_indicate_wait(&mut self, conn: u16) -> (r: bool)
        ensures
            r == !old(self).waiting_set().contains(conn),
            r ==> final(self).waiting_set() == old(self).waiting_set().insert(conn),
            !r ==> *final(self) == *old(self),
    {
        if self.is_indicate_waiting(conn) {
            return false;
        }
        let ghost before = self.waiting_set();
        self.indicate_wait.push(conn);
        proof {
            assert forall|c: u16| self.waiting_set().contains(c) <==> before.insert(
                conn,
            ).contains(c) by {
                if self.indicate_wait@.contains(c) {
                    let i = choose|i: int|
                        0 <= i < self.indicate_wait@.len() && self.indicate_wait@[i] == c;
                    if i < self.indicate_wait@.len() - 1 {
                        assert(old(self).indicate_wait@[i] == c);
                    }
                }
                if before.contains(c) {
                    let i = choose|i: int|
                        0 <= i < old(self).indicate_wait@.len() && old(self).indicate_wait@[i]
                            == c;
                    assert(self.indicate_wait@[i] == c);
                }
                if c == conn {
                    assert(self.indicate_wait@[self.indicate_wait@.len() - 1] == conn);
                }
            }
            assert(self.waiting_set() =~= before.insert(conn));
        }
        true
    }

    /// Clear the in-flight mark for `conn`: on acknowledgment, and after a
    /// submission that failed synchronously.
    pub fn clear_indicate_wait(&mut self, conn: u16)
        ensures
            final(self).waiting_set() == old(self).waiting_set().remove(conn),
    {
        let mut kept: Vec<u16> = Vec::new();
        let mut i: usize = 0;
        while i < self.indicate_wait.len()
            invariant
                i <= self.indicate_wait@.len(),
                forall|c: u16|
                    kept@.contains(c) <==> (self.indicate_wait@.subrange(0, i as int).contains(c)
                        && c != conn),
            decreases self.indicate_wait@.len() - i,
        {
            let e = self.indicate_wait[i];
            let ghost kept_before = kept@;
            if e != conn {
                kept.push(e);
            }
            proof {
                let elem = self.indicate_wait@[i as int];
                let subi = self.indicate_wait@.subrange(0, i as int);
                let prefix = self.indicate_wait@.subrange(0, (i + 1) as int);
                assert(prefix =~= subi.push(elem));
                assert forall|c: u16| kept@.contains(c) implies (prefix.contains(c) && c
                    != conn) by {
                    let k = choose|k: int| 0 <= k < kept@.len() && kept@[k] == c;
                    if k < kept_before.len() {
                        assert(kept_before[k] == c);
                        assert(kept_before.contains(c));
                        let m = choose|m: int| 0 <= m < subi.len() && subi[m] == c;
                        assert(prefix[m] == c);
                    } else {
                        assert(c == elem);
                        assert(prefix[prefix.len() - 1] == c);
                    }
                }
                assert forall|c: u16| prefix.contains(c) && c != conn implies kept@.contains(
                    c,
                ) by {
                    let k = choose|k: int| 0 <= k < prefix.len() && prefix[k] == c;
                    if k < i {
                        assert(subi[k] == c);
                        assert(subi.contains(c));
                        assert(kept_before.contains(c));
                        let m = choose|m: int| 0 <= m < kept_before.len() && kept_before[m] == c;
                        assert(kept@[m] == c);
                    } else {
                        assert(c == elem);
                        if elem != conn {
                            assert(kept@[kept@.len() - 1] == c);
                        }
                    }
                }
            }
            i = i + 1;
        }
        proof {
            assert(self.indicate_wait@.subrange(0, self.indicate_wait@.len() as int)
                =~= self.indicate_wait@);
        }
        self.indicate_wait = kept;
        proof {
            assert(self.waiting_set() =~= old(self).waiting_set().remove(conn));
        }
    }
}

} // verus!
