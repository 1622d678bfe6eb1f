//! The proxied connections and statements of a process, and the calls that open,
//! run and close them.
//!
//! A handle that is not in the tables belongs to the real SQLite library, and
//! the call is forwarded there.
use std::collections::{HashMap, HashSet};

use vstd::prelude::*;

use crate::ctext::{is_sql_text, sql_from};
use crate::proxy::{without, DbState, ProxyDb, SQLITE_BUSY, SQLITE_CANTOPEN, SQLITE_MISUSE};
use crate::runner::SQLITE_OK;
use crate::statement::{ProxyStmt, StmtState};

verus! {

/// What a call comes to: the result of a proxied one, or that it is to be
/// forwarded to the real library.
#[derive(Debug)]
pub enum Routed<T> {
    Forward,
    Proxied { v: T },
}

/// The connections and statements of a process.
#[verifier::ext_equal]
pub struct ShimState {
    pub dbs: Map<u64, DbState>,
    pub stmts: Map<u64, StmtState>,
    /// Memory that was handed to the program and that it will give back.
    pub allocated: Set<u64>,
}

impl ShimState {
    /// Nothing is open.
    pub open spec fn empty() -> ShimState {
        ShimState { dbs: Map::empty(), stmts: Map::empty(), allocated: Set::empty() }
    }

    /// The state with a connection replaced.
    pub open spec fn with_db(self, db: u64, d: DbState) -> ShimState {
        ShimState { dbs: self.dbs.insert(db, d), ..self }
    }

    /// The state with a statement replaced.
    pub open spec fn with_stmt(self, stmt: u64, s: StmtState) -> ShimState {
        ShimState { stmts: self.stmts.insert(stmt, s), ..self }
    }

    /// What holds of every state: statements and connections know of each
    /// other, and a connection that was closed lives on only for its
    /// statements.
    pub open spec fn wf(self) -> bool {
        &&& !self.dbs.contains_key(0)
        &&& !self.stmts.contains_key(0)
        &&& forall|s: u64| #[trigger] self.stmts.contains_key(s) ==> {
            &&& self.stmts[s].wf()
            &&& self.dbs.contains_key(self.stmts[s].db)
            &&& self.dbs[self.stmts[s].db].stmts.contains(s)
        }
        &&& forall|d: u64, i: int|
            #![trigger self.dbs[d].stmts[i]]
            self.dbs.contains_key(d) && 0 <= i < self.dbs[d].stmts.len() ==> {
                &&& self.stmts.contains_key(self.dbs[d].stmts[i])
                &&& self.stmts[self.dbs[d].stmts[i]].db == d
            }
        &&& forall|d: u64| #[trigger]
            self.dbs.contains_key(d) ==> {
                &&& self.dbs[d].stmts.no_duplicates()
                &&& self.dbs[d].closed ==> self.dbs[d].stmts.len() > 0
            }
    }

    /// A connection was opened.
    pub open spec fn opened(self, db: u64, path: Seq<char>) -> ShimState {
        self.with_db(db, DbState::opened(path))
    }

    /// The program closes a connection. With `v2` a connection that still has
    /// statements goes when the last of them does; without, the call is refused.
    pub open spec fn closed(self, db: u64, v2: bool) -> (ShimState, Routed<Closed>) {
        if db == 0 {
            (self, Routed::Proxied { v: Closed { rc: SQLITE_OK, shutdown: false } })
        } else if !self.dbs.contains_key(db) {
            (self, Routed::Forward)
        } else if !v2 && self.dbs[db].stmts.len() > 0 {
            (self, Routed::Proxied { v: Closed { rc: SQLITE_BUSY, shutdown: false } })
        } else if self.dbs[db].stmts.len() == 0 {
            (
                ShimState { dbs: self.dbs.remove(db), ..self },
                Routed::Proxied { v: Closed { rc: SQLITE_OK, shutdown: true } },
            )
        } else {
            (
                self.with_db(db, DbState { closed: true, ..self.dbs[db] }),
                Routed::Proxied { v: Closed { rc: SQLITE_OK, shutdown: false } },
            )
        }
    }

    /// The program drops a statement.
    pub open spec fn finalized(self, stmt: u64) -> (ShimState, Routed<Option<u64>>) {
        if stmt == 0 {
            (self, Routed::Proxied { v: None })
        } else if !self.stmts.contains_key(stmt) {
            (self, Routed::Forward)
        } else {
            let db = self.stmts[stmt].db;
            let d = DbState {
                stmts: without(self.dbs[db].stmts, stmt),
                ..self.dbs[db]
            };
            let left = ShimState { stmts: self.stmts.remove(stmt), ..self };
            if d.closed && d.stmts.len() == 0 {
                (ShimState { dbs: left.dbs.remove(db), ..left }, Routed::Proxied { v: Some(db) })
            } else {
                (left.with_db(db, d), Routed::Proxied { v: None })
            }
        }
    }
}

/// What closing a connection comes to.
#[derive(Debug, Clone, Copy)]
pub struct Closed {
    pub rc: i32,
    /// Whether the session with the broker is to be ended.
    pub shutdown: bool,
}

/// The proxied connections and statements of a process.
#[derive(Debug)]
pub struct Shim {
    dbs: HashMap<u64, ProxyDb>,
    stmts: HashMap<u64, ProxyStmt>,
    allocated: HashSet<u64>,
}

impl View for Shim {
    type V = ShimState;

    closed spec fn view(&self) -> ShimState {
        ShimState {
            dbs: self.dbs@.map_values(|d: ProxyDb| d@),
            stmts: self.stmts@.map_values(|s: ProxyStmt| s@),
            allocated: self.allocated@,
        }
    }
}

impl Shim {
    /// Nothing is open.
    pub fn new() -> (shim: Shim)
        ensures
            shim@ == ShimState::empty(),
            shim@.wf(),
    {
        broadcast use vstd::std_specs::hash::group_hash_axioms;

        let shim = Shim { dbs: HashMap::new(), stmts: HashMap::new(), allocated: HashSet::new() };
        assert(shim@.dbs =~= Map::empty());
        assert(shim@.stmts =~= Map::empty());
        assert(shim@.allocated =~= Set::empty());
        shim
    }

    /// Whether the handle is that of a proxied connection.
    pub fn is_db(&self, db: u64) -> (r: bool)
        ensures
            r == self@.dbs.contains_key(db),
    {
        broadcast use vstd::std_specs::hash::group_hash_axioms;

        self.dbs.contains_key(&db)
    }

    /// Whether the handle is that of a proxied statement.
    pub fn is_stmt(&self, stmt: u64) -> (r: bool)
        ensures
            r == self@.stmts.contains_key(stmt),
    {
        broadcast use vstd::std_specs::hash::group_hash_axioms;

        self.stmts.contains_key(&stmt)
    }

    /// The proxied connection with this handle.
    pub fn as_db(&self, db: u64) -> (r: Option<&ProxyDb>)
        ensures
            match r {
                Some(d) => self@.dbs.contains_key(db) && d@ == self@.dbs[db],
                None => !self@.dbs.contains_key(db),
            },
    {
        broadcast use vstd::std_specs::hash::group_hash_axioms;

        self.dbs.get(&db)
    }

    /// The proxied statement with this handle.
    pub fn as_stmt(&self, stmt: u64) -> (r: Option<&ProxyStmt>)
        ensures
            match r {
                Some(s) => self@.stmts.contains_key(stmt) && s@ == self@.stmts[stmt],
                None => !self@.stmts.contains_key(stmt),
            },
    {
        broadcast use vstd::std_specs::hash::group_hash_axioms;

        self.stmts.get(&stmt)
    }

    pub(crate) fn take_db(&mut self, db: u64) -> (d: ProxyDb)
        requires
            old(self)@.dbs.contains_key(db),
        ensures
            d@ == old(self)@.dbs[db],
            final(self)@ == (ShimState { dbs: old(self)@.dbs.remove(db), ..old(self)@ }),
    {
        broadcast use vstd::std_specs::hash::group_hash_axioms;

        let d = self.dbs.remove(&db).unwrap();
        assert(self@.dbs =~= old(self)@.dbs.remove(db));
        d
    }

    pub(crate) fn put_db(&mut self, db: u64, d: ProxyDb)
        ensures
            final(self)@ == old(self)@.with_db(db, d@),
    {
        broadcast use vstd::std_specs::hash::group_hash_axioms;

        self.dbs.insert(db, d);
        assert(self@.dbs =~= old(self)@.dbs.insert(db, d@));
    }

    pub(crate) fn take_stmt(&mut self, stmt: u64) -> (s: ProxyStmt)
        requires
            old(self)@.stmts.contains_key(stmt),
        ensures
            s@ == old(self)@.stmts[stmt],
            final(self)@ == (ShimState { stmts: old(self)@.stmts.remove(stmt), ..old(self)@ }),
    {
        broadcast use vstd::std_specs::hash::group_hash_axioms;

        let s = self.stmts.remove(&stmt).unwrap();
        assert(self@.stmts =~= old(self)@.stmts.remove(stmt));
        s
    }

    pub(crate) fn put_stmt(&mut self, stmt: u64, s: ProxyStmt)
        ensures
            final(self)@ == old(self)@.with_stmt(stmt, s@),
    {
        broadcast use vstd::std_specs::hash::group_hash_axioms;

        self.stmts.insert(stmt, s);
        assert(self@.stmts =~= old(self)@.stmts.insert(stmt, s@));
    }

    /// Notes memory that is handed to the program.
    pub fn note_allocated(&mut self, ptr: u64)
        ensures
            final(self)@ == (ShimState { allocated: old(self)@.allocated.insert(ptr), ..old(self)@ }),
    {
        broadcast use vstd::std_specs::hash::group_hash_axioms;

        self.allocated.insert(ptr);
    }

    /// Whether memory that comes back is this library's; it is then forgotten.
    pub fn forget_allocated(&mut self, ptr: u64) -> (r: bool)
        ensures
            r == old(self)@.allocated.contains(ptr),
            final(self)@ == (ShimState { allocated: old(self)@.allocated.remove(ptr), ..old(self)@ }),
    {
        broadcast use vstd::std_specs::hash::group_hash_axioms;

        self.allocated.remove(&ptr)
    }
}

/// A state stays valid when a connection changes but for its statements.
pub proof fn replaced_db_keeps_wf(s: ShimState, db: u64, d: DbState)
    requires
        s.wf(),
        s.dbs.contains_key(db),
        d.stmts == s.dbs[db].stmts,
        d.closed == s.dbs[db].closed,
    ensures
        s.with_db(db, d).wf(),
{
    let t = s.with_db(db, d);
    assert forall|x: u64, i: int|
        #![trigger t.dbs[x].stmts[i]]
        t.dbs.contains_key(x) && 0 <= i < t.dbs[x].stmts.len() implies {
        &&& t.stmts.contains_key(t.dbs[x].stmts[i])
        &&& t.stmts[t.dbs[x].stmts[i]].db == x
    } by {
        assert(t.dbs[x].stmts[i] == s.dbs[x].stmts[i]);
    }
}

/// A state stays valid when a statement changes but for its connection.
pub proof fn replaced_stmt_keeps_wf(s: ShimState, stmt: u64, x: StmtState)
    requires
        s.wf(),
        s.stmts.contains_key(stmt),
        x.db == s.stmts[stmt].db,
        x.wf(),
    ensures
        s.with_stmt(stmt, x).wf(),
{
}

// ------------------------------------------------------------ open, close

/// The path that a program wants to open. A place for the handle and a path
/// must be given.
pub fn open_path(has_place: bool, filename: Option<&[u8]>) -> (r: Result<String, i32>)
    ensures
        match r {
            Ok(path) => has_place && (filename matches Some(bytes) && is_sql_text(
                Some(bytes@),
                path@,
            )),
            Err(rc) => (!has_place || filename is None) && rc == SQLITE_MISUSE,
        },
{
    if !has_place {
        return Err(SQLITE_MISUSE);
    }
    match filename {
        None => Err(SQLITE_MISUSE),
        Some(bytes) => Ok(sql_from(Some(bytes))),
    }
}

/// Adds a connection that the broker has accepted, under a handle that is not
/// in use.
pub fn sqlite3_open_v2(shim: &mut Shim, db: u64, path: &str) -> (rc: i32)
    requires
        old(shim)@.wf(),
        db != 0,
        !old(shim)@.dbs.contains_key(db),
    ensures
        rc == SQLITE_OK,
        final(shim)@ == old(shim)@.opened(db, path@),
        final(shim)@.wf(),
{
    shim.put_db(db, ProxyDb::opened(path));
    proof {
        let s = old(shim)@;
        let t = shim@;
        assert forall|x: u64, i: int|
            #![trigger t.dbs[x].stmts[i]]
            t.dbs.contains_key(x) && 0 <= i < t.dbs[x].stmts.len() implies {
            &&& t.stmts.contains_key(t.dbs[x].stmts[i])
            &&& t.stmts[t.dbs[x].stmts[i]].db == x
        } by {
            assert(t.dbs[x].stmts[i] == s.dbs[x].stmts[i]);
        }
    }
    SQLITE_OK
}

/// What opening a stub comes to: the connection is added where the broker has
/// accepted it. Where the broker cannot be reached or refuses, nothing is added
/// and no handle is given.
pub fn open_outcome(shim: &mut Shim, db: u64, path: &str, refused: bool) -> (rc: i32)
    requires
        old(shim)@.wf(),
        !refused ==> db != 0 && !old(shim)@.dbs.contains_key(db),
    ensures
        rc == if refused {
            SQLITE_CANTOPEN
        } else {
            SQLITE_OK
        },
        final(shim)@ == if refused {
            old(shim)@
        } else {
            old(shim)@.opened(db, path@)
        },
        final(shim)@.wf(),
{
    if refused {
        SQLITE_CANTOPEN
    } else {
        sqlite3_open_v2(shim, db, path)
    }
}

fn close_db(shim: &mut Shim, db: u64, v2: bool) -> (r: Routed<Closed>)
    requires
        old(shim)@.wf(),
    ensures
        final(shim)@ == old(shim)@.closed(db, v2).0,
        r == old(shim)@.closed(db, v2).1,
        final(shim)@.wf(),
{
    if db == 0 {
        return Routed::Proxied { v: Closed { rc: SQLITE_OK, shutdown: false } };
    }
    if !shim.is_db(db) {
        return Routed::Forward;
    }
    let mut d = shim.take_db(db);
    let ghost s = old(shim)@;
    if d.stmts().len() == 0 {
        proof {
            let t = shim@;
            assert forall|x: u64| #[trigger] t.stmts.contains_key(x) implies {
                &&& t.stmts[x].wf()
                &&& t.dbs.contains_key(t.stmts[x].db)
                &&& t.dbs[t.stmts[x].db].stmts.contains(x)
            } by {
                assert(s.stmts.contains_key(x));
            }
            assert forall|x: u64, i: int|
                #![trigger t.dbs[x].stmts[i]]
                t.dbs.contains_key(x) && 0 <= i < t.dbs[x].stmts.len() implies {
                &&& t.stmts.contains_key(t.dbs[x].stmts[i])
                &&& t.stmts[t.dbs[x].stmts[i]].db == x
            } by {
                assert(t.dbs[x].stmts[i] == s.dbs[x].stmts[i]);
            }
        }
        return Routed::Proxied { v: Closed { rc: SQLITE_OK, shutdown: true } };
    }
    if !v2 {
        shim.put_db(db, d);
        assert(shim@ =~= s);
        return Routed::Proxied { v: Closed { rc: SQLITE_BUSY, shutdown: false } };
    }
    d.close();
    shim.put_db(db, d);
    proof {
        let t = shim@;
        assert(t =~= s.with_db(db, DbState { closed: true, ..s.dbs[db] }));
        assert forall|x: u64, i: int|
            #![trigger t.dbs[x].stmts[i]]
            t.dbs.contains_key(x) && 0 <= i < t.dbs[x].stmts.len() implies {
            &&& t.stmts.contains_key(t.dbs[x].stmts[i])
            &&& t.stmts[t.dbs[x].stmts[i]].db == x
        } by {
            assert(t.dbs[x].stmts[i] == s.dbs[x].stmts[i]);
        }
    }
    Routed::Proxied { v: Closed { rc: SQLITE_OK, shutdown: false } }
}

/// Closes a connection, unless it still has statements.
pub fn sqlite3_close(shim: &mut Shim, db: u64) -> (r: Routed<Closed>)
    requires
        old(shim)@.wf(),
    ensures
        final(shim)@ == old(shim)@.closed(db, false).0,
        r == old(shim)@.closed(db, false).1,
        final(shim)@.wf(),
{
    close_db(shim, db, false)
}

/// Closes a connection; one that still has statements goes with the last.
pub fn sqlite3_close_v2(shim: &mut Shim, db: u64) -> (r: Routed<Closed>)
    requires
        old(shim)@.wf(),
    ensures
        final(shim)@ == old(shim)@.closed(db, true).0,
        r == old(shim)@.closed(db, true).1,
        final(shim)@.wf(),
{
    close_db(shim, db, true)
}

proof fn finalized_keeps_wf(s: ShimState, stmt: u64)
    requires
        s.wf(),
    ensures
        s.finalized(stmt).0.wf(),
{
    if stmt != 0 && s.stmts.contains_key(stmt) {
        let db = s.stmts[stmt].db;
        let kept = without(s.dbs[db].stmts, stmt);
        let t = s.finalized(stmt).0;
        assert(s.dbs.contains_key(db));
        filter_keeps_others(s.dbs[db].stmts, stmt);
        assert forall|x: u64| #[trigger] t.stmts.contains_key(x) implies {
            &&& t.stmts[x].wf()
            &&& t.dbs.contains_key(t.stmts[x].db)
            &&& t.dbs[t.stmts[x].db].stmts.contains(x)
        } by {
            assert(s.stmts.contains_key(x));
            if t.stmts[x].db == db {
                assert(kept.contains(x));
            }
        }
        assert forall|x: u64, i: int|
            #![trigger t.dbs[x].stmts[i]]
            t.dbs.contains_key(x) && 0 <= i < t.dbs[x].stmts.len() implies {
            &&& t.stmts.contains_key(t.dbs[x].stmts[i])
            &&& t.stmts[t.dbs[x].stmts[i]].db == x
        } by {
            if x == db {
                let y = kept[i];
                assert(kept.contains(y));
                let j = choose|j: int| 0 <= j < s.dbs[db].stmts.len() && s.dbs[db].stmts[j] == y;
                assert(s.dbs[db].stmts[j] == y);
            } else {
                let y = t.dbs[x].stmts[i];
                assert(y == s.dbs[x].stmts[i]);
            }
        }
    }
}

/// Dropping one entry of a list keeps the others and only those, and makes no
/// entry occur twice.
pub proof fn filter_keeps_others(all: Seq<u64>, gone: u64)
    requires
        all.no_duplicates(),
    ensures
        ({
            let kept = without(all, gone);
            &&& forall|x: u64| kept.contains(x) <==> all.contains(x) && x != gone
            &&& kept.no_duplicates()
        }),
    decreases all.len(),
{
    reveal(Seq::filter);
    if all.len() > 0 {
        let before = all.drop_last();
        filter_keeps_others(before, gone);
        let kept = without(all, gone);
        let kept_before = without(before, gone);
        assert forall|x: u64| kept.contains(x) <==> all.contains(x) && x != gone by {
            assert(all == before.push(all.last()));
            if all.contains(x) && x != gone {
                let j = choose|j: int| 0 <= j < all.len() && all[j] == x;
                if j < before.len() {
                    assert(before[j] == x);
                    assert(kept_before.contains(x));
                    let k = choose|k: int| 0 <= k < kept_before.len() && kept_before[k] == x;
                    assert(kept[k] == x);
                } else {
                    assert(kept[kept.len() - 1] == x);
                }
            }
            if kept.contains(x) {
                let k = choose|k: int| 0 <= k < kept.len() && kept[k] == x;
                if k < kept_before.len() {
                    assert(kept_before[k] == x);
                    assert(kept_before.contains(x));
                    let j = choose|j: int| 0 <= j < before.len() && before[j] == x;
                    assert(all[j] == x);
                } else {
                    assert(all[all.len() - 1] == x);
                }
            }
        }
        assert(!before.contains(all.last())) by {
            if before.contains(all.last()) {
                let j = choose|j: int| 0 <= j < before.len() && before[j] == all.last();
                assert(all[j] == all[all.len() - 1]);
            }
        }
        assert(!kept_before.contains(all.last()));
    }
}

/// Drops a statement. The result names the connection whose session with the
/// broker is to be ended with it, if there is one.
pub fn sqlite3_finalize(shim: &mut Shim, stmt: u64) -> (r: Routed<Option<u64>>)
    requires
        old(shim)@.wf(),
    ensures
        final(shim)@ == old(shim)@.finalized(stmt).0,
        r == old(shim)@.finalized(stmt).1,
        final(shim)@.wf(),
{
    proof {
        finalized_keeps_wf(shim@, stmt);
    }
    if stmt == 0 {
        return Routed::Proxied { v: None };
    }
    if !shim.is_stmt(stmt) {
        return Routed::Forward;
    }
    let s = shim.take_stmt(stmt);
    let db = s.db();
    let mut d = shim.take_db(db);
    d.unlink_stmt(stmt);
    if d.is_closed() && d.stmts().len() == 0 {
        assert(shim@ =~= old(shim)@.finalized(stmt).0);
        Routed::Proxied { v: Some(db) }
    } else {
        shim.put_db(db, d);
        assert(shim@ =~= old(shim)@.finalized(stmt).0);
        Routed::Proxied { v: None }
    }
}

} // verus!
