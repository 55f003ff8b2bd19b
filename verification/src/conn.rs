//! Connection-side data the logic reads: the metadata record a connection
//! lookup returns, and the per-connection answers of the native stack
//! (negotiated MTU, synchronous indication submission status) gathered into
//! a table so the fan-out can be stated and proved over plain values.

use vstd::prelude::*;

verus! {

/// Metadata of one live connection, as a lookup by handle returns it.
#[derive(Clone, Copy, Debug, PartialEq, Eq, Structural)]
pub struct ConnDesc {
    pub conn_handle: u16,
}

/// What the native stack answers for one connection: its negotiated MTU
/// and the status an indication submission to it returns synchronously.
#[derive(Clone, Copy, Debug, PartialEq, Eq, Structural)]
pub struct ConnEntry {
    pub conn_handle: u16,
    pub mtu: u16,
    pub indicate_status: i32,
}

/// The stack's per-connection answers, keyed by connection handle.
/// A handle with no entry stands for an unknown connection: its MTU reads
/// as zero, so the fan-out skips it.
pub struct ConnTable {
    pub entries: Vec<ConnEntry>,
}

/// First entry of `entries` whose handle is `conn`, if any.
pub open spec fn spec_find_conn(entries: Seq<ConnEntry>, conn: u16) -> Option<ConnEntry>
    decreases entries.len(),
{
    if entries.len() == 0 {
        None
    } else if entries[0].conn_handle == conn {
        Some(entries[0])
    } else {
        spec_find_conn(entries.drop_first(), conn)
    }
}

/// Negotiated MTU of `conn`; zero when the connection is unknown.
pub open spec fn spec_mtu_of(entries: Seq<ConnEntry>, conn: u16) -> u16 {
    match spec_find_conn(entries, conn) {
        Some(e) => e.mtu,
        None => 0,
    }
}

/// Synchronous status an indication submission to `conn` returns; zero
/// (success) when the connection is unknown, though such a connection is
/// never submitted to.
pub open spec fn spec_indicate_status_of(entries: Seq<ConnEntry>, conn: u16) -> i32 {
    match spec_find_conn(entries, conn) {
        Some(e) => e.indicate_status,
        None => 0,
    }
}

/// A scan that saw no match in the first `i` entries finds what a scan of
/// the rest finds.
proof fn lemma_find_conn_skip(entries: Seq<ConnEntry>, conn: u16, i: int)
    requires
        0 <= i <= entries.len(),
        forall|j: int| 0 <= j < i ==> entries[j].conn_handle != conn,
    ensures
        spec_find_conn(entries, conn) == spec_find_conn(entries.skip(i), conn),
    decreases i,
{
    if i > 0 {
        assert(entries.drop_first() =~= entries.skip(1));
        lemma_find_conn_skip(entries.drop_first(), conn, i - 1);
        assert(entries.drop_first().skip(i - 1) =~= entries.skip(i));
    } else {
        assert(entries.skip(0) =~= entries);
    }
}

impl ConnTable {
    pub fn new() -> (r: Self)
        ensures
            r.entries@ == Seq::<ConnEntry>::empty(),
    {
        ConnTable { entries: Vec::new() }
    }

    fn find(&self, conn: u16) -> (r: Option<ConnEntry>)
        ensures
            r == spec_find_conn(self.entries@, conn),
    {
        let mut i: usize = 0;
        while i < self.entries.len()
            invariant
                i <= self.entries@.len(),
                forall|j: int| 0 <= j < i ==> self.entries@[j].conn_handle != conn,
            decreases self.entries@.len() - i,
        {
            let e = self.entries[i];
            if e.conn_handle == conn {
                proof {
                    lemma_find_conn_skip(self.entries@, conn, i as int);
                    assert(self.entries@.skip(i as int)[0] == self.entries@[i as int]);
                }
                return Some(e);
            }
            i = i + 1;
        }
        proof {
            lemma_find_conn_skip(self.entries@, conn, i as int);
        }
        None
    }

    /// Negotiated MTU of `conn`; zero when the connection is unknown.
    pub fn mtu_of(&self, conn: u16) -> (r: u16)
        ensures
            r == spec_mtu_of(self.entries@, conn),
    {
        match self.find(conn) {
            Some(e) => e.mtu,
            None => 0,
        }
    }

    /// Synchronous indication submission status for `conn`.
    pub fn indicate_status_of(&self, conn: u16) -> (r: i32)
        ensures
            r == spec_indicate_status_of(self.entries@, conn),
    {
        match self.find(conn) {
            Some(e) => e.indicate_status,
            None => 0,
        }
    }
}

} // verus!
