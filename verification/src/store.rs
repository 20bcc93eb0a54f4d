//! The record store: an append-only collection of completed API calls, held
//! in ascending `created_at` order (ties broken by the unique id), with
//! time- and service-filtered queries.
//!
//! The store here is the in-memory table; the binary mirrors it row for row
//! in its database file and rebuilds it through [`Store::load`].

use vstd::prelude::*;
use crate::clock::now_timestamp;

verus! {

broadcast use vstd::seq_lib::group_to_multiset_ensures;

/// One logged call: a unique id the store assigns, the request's method,
/// service, route and fully resolved url, the optional payload and response
/// bodies as JSON text, and the UTC second the store stamped at insertion.
#[derive(Debug, PartialEq, Eq)]
pub struct Request {
    pub id: i64,
    pub method: String,
    pub service: String,
    pub route_url: String,
    pub url: String,
    pub payload_json: Option<String>,
    pub response_json: Option<String>,
    pub created_at: i64,
}

impl Clone for Request {
    fn clone(&self) -> (r: Self)
        ensures
            r == *self,
    {
        Request {
            id: self.id,
            method: self.method.clone(),
            service: self.service.clone(),
            route_url: self.route_url.clone(),
            url: self.url.clone(),
            payload_json: match &self.payload_json {
                Some(text) => Some(text.clone()),
                None => None,
            },
            response_json: match &self.response_json {
                Some(text) => Some(text.clone()),
                None => None,
            },
            created_at: self.created_at,
        }
    }
}

/// What a caller hands the store for one new record; the store itself adds
/// the id and the timestamp.
pub struct DbStoreArgs {
    pub method: String,
    pub service: String,
    pub url: String,
    pub route_url: String,
    pub payload: Option<String>,
}

/// The record `insert` builds from its arguments.
pub open spec fn new_request(
    id: i64,
    args: DbStoreArgs,
    response_json: Option<String>,
    created_at: i64,
) -> Request {
    Request {
        id,
        method: args.method,
        service: args.service,
        route_url: args.route_url,
        url: args.url,
        payload_json: args.payload,
        response_json,
        created_at,
    }
}

/// The store's ordering: ascending `created_at`, ties broken by id.
pub open spec fn before(a: Request, b: Request) -> bool {
    ||| a.created_at < b.created_at
    ||| (a.created_at == b.created_at && a.id < b.id)
}

pub open spec fn time_sorted(s: Seq<Request>) -> bool {
    forall|i: int, j: int| 0 <= i < j < s.len() ==> #[trigger] before(s[i], s[j])
}

pub open spec fn unique_ids(s: Seq<Request>) -> bool {
    forall|i: int, j: int|
        0 <= i < s.len() && 0 <= j < s.len() && i != j ==> #[trigger] s[i].id != #[trigger] s[j].id
}

/// Where a record belongs in an ordered sequence: past every record that
/// comes before it.
pub open spec fn insert_pos(s: Seq<Request>, r: Request) -> int
    decreases s.len(),
{
    if s.len() == 0 {
        0
    } else if before(s[0], r) {
        1 + insert_pos(s.drop_first(), r)
    } else {
        0
    }
}

proof fn lemma_insert_pos_bounds(s: Seq<Request>, r: Request)
    ensures
        0 <= insert_pos(s, r) <= s.len(),
        forall|j: int| 0 <= j < insert_pos(s, r) ==> before(#[trigger] s[j], r),
        insert_pos(s, r) < s.len() ==> !before(s[insert_pos(s, r)], r),
    decreases s.len(),
{
    if s.len() > 0 {
        lemma_insert_pos_bounds(s.drop_first(), r);
        if before(s[0], r) {
            assert forall|j: int| 0 <= j < insert_pos(s, r) implies before(#[trigger] s[j], r) by {
                if j > 0 {
                    assert(s.drop_first()[j - 1] == s[j]);
                }
            }
            if insert_pos(s, r) < s.len() {
                assert(s.drop_first()[insert_pos(s, r) - 1] == s[insert_pos(s, r)]);
            }
        }
    }
}

proof fn lemma_insert_pos_unique(s: Seq<Request>, r: Request, n: int)
    requires
        0 <= n <= s.len(),
        forall|j: int| 0 <= j < n ==> before(#[trigger] s[j], r),
        n < s.len() ==> !before(s[n], r),
    ensures
        insert_pos(s, r) == n,
    decreases s.len(),
{
    if s.len() > 0 {
        if n == 0 {
            assert(!before(s[0], r));
        } else {
            assert(before(s[0], r));
            assert forall|j: int| 0 <= j < n - 1 implies before(#[trigger] s.drop_first()[j], r) by {
                assert(s.drop_first()[j] == s[j + 1]);
            }
            if n - 1 < s.drop_first().len() {
                assert(s.drop_first()[n - 1] == s[n]);
            }
            lemma_insert_pos_unique(s.drop_first(), r, n - 1);
        }
    }
}

/// The persistent store: records in ascending `(created_at, id)` order, and
/// the next id to assign, strictly above every id already present.
pub struct Store {
    records: Vec<Request>,
    next_id: i64,
}

impl Store {
    pub closed spec fn spec_records(&self) -> Seq<Request> {
        self.records@
    }

    pub closed spec fn spec_next_id(&self) -> i64 {
        self.next_id
    }

    pub closed spec fn wf(&self) -> bool {
        &&& time_sorted(self.records@)
        &&& unique_ids(self.records@)
        &&& forall|k: int|
            0 <= k < self.records@.len() ==> 1 <= (#[trigger] self.records@[k]).id < self.next_id
        &&& self.next_id >= 1
    }

    /// An empty store; ids start at 1, as the database file's do.
    pub fn new() -> (s: Store)
        ensures
            s.wf(),
            s.spec_records() == Seq::<Request>::empty(),
            s.spec_next_id() == 1,
    {
        Store { records: Vec::new(), next_id: 1 }
    }

    /// Place one record at its ordered position. The caller guarantees the
    /// id is fresh; the ordering and id-uniqueness of the table survive.
    fn insert_record(&mut self, req: Request)
        requires
            time_sorted(old(self).records@),
            unique_ids(old(self).records@),
            forall|k: int|
                0 <= k < old(self).records@.len() ==> (#[trigger] old(self).records@[k]).id
                    != req.id,
        ensures
            final(self).records@ == old(self).records@.insert(
                insert_pos(old(self).records@, req),
                req,
            ),
            final(self).next_id == old(self).next_id,
            time_sorted(final(self).records@),
            unique_ids(final(self).records@),
    {
        let ghost s = self.records@;
        proof {
            lemma_insert_pos_bounds(s, req);
        }
        let mut idx: usize = 0;
        while idx < self.records.len()
            && (self.records[idx].created_at < req.created_at || (self.records[idx].created_at
                == req.created_at && self.records[idx].id < req.id))
            invariant
                self.records@ == s,
                idx <= s.len(),
                forall|j: int| 0 <= j < idx ==> before(#[trigger] s[j], req),
            decreases s.len() - idx,
        {
            idx = idx + 1;
        }
        proof {
            lemma_insert_pos_unique(s, req, idx as int);
        }
        self.records.insert(idx, req);
        proof {
            let t = self.records@;
            let pos = idx as int;
            assert forall|i: int, j: int| 0 <= i < j < t.len() implies #[trigger] before(
                t[i],
                t[j],
            ) by {
                if i < pos && j < pos {
                    assert(t[i] == s[i] && t[j] == s[j]);
                } else if i < pos && j == pos {
                    assert(t[i] == s[i] && before(s[i], req));
                } else if i < pos && j > pos {
                    assert(t[i] == s[i] && t[j] == s[j - 1]);
                } else if i == pos {
                    assert(t[i] == req && t[j] == s[j - 1]);
                    if pos < s.len() {
                        assert(!before(s[pos], req));
                        assert(s[pos].id != req.id);
                        assert(before(req, s[pos]));
                        if j - 1 > pos {
                            assert(before(s[pos], s[j - 1]));
                        }
                    }
                } else {
                    assert(t[i] == s[i - 1] && t[j] == s[j - 1]);
                }
            }
            assert forall|i: int, j: int|
                0 <= i < t.len() && 0 <= j < t.len() && i != j implies #[trigger] t[i].id
                != #[trigger] t[j].id by {
                if i != pos && j != pos {
                    let i0 = if i < pos { i } else { i - 1 };
                    let j0 = if j < pos { j } else { j - 1 };
                    assert(t[i] == s[i0] && t[j] == s[j0]);
                } else if i == pos {
                    let j0 = if j < pos { j } else { j - 1 };
                    assert(t[j] == s[j0]);
                } else {
                    let i0 = if i < pos { i } else { i - 1 };
                    assert(t[i] == s[i0]);
                }
            }
        }
    }

    /// The id the next insertion will take; an insertion needs headroom
    /// above it.
    pub fn next_id(&self) -> (n: i64)
        ensures
            n == self.spec_next_id(),
    {
        self.next_id
    }

    /// Append one record stamped with the given UTC second, assigning the
    /// next id. Returns a copy of the record as stored, so that a caller can
    /// mirror it elsewhere.
    pub fn insert_at(
        &mut self,
        args: DbStoreArgs,
        response_json: Option<String>,
        created_at: i64,
    ) -> (rec: Request)
        requires
            old(self).wf(),
            old(self).spec_next_id() < i64::MAX,
        ensures
            final(self).wf(),
            rec == new_request(old(self).spec_next_id(), args, response_json, created_at),
            final(self).spec_next_id() == old(self).spec_next_id() + 1,
            final(self).spec_records() == old(self).spec_records().insert(
                insert_pos(old(self).spec_records(), rec),
                rec,
            ),
    {
        let req = Request {
            id: self.next_id,
            method: args.method,
            service: args.service,
            route_url: args.route_url,
            url: args.url,
            payload_json: args.payload,
            response_json,
            created_at,
        };
        let copy = req.clone();
        proof {
            lemma_insert_pos_bounds(self.records@, req);
        }
        self.insert_record(req);
        self.next_id = self.next_id + 1;
        copy
    }

    /// Append one record stamped with the current UTC time.
    pub fn insert(&mut self, args: DbStoreArgs, response_json: Option<String>) -> (rec: Request)
        requires
            old(self).wf(),
            old(self).spec_next_id() < i64::MAX,
        ensures
            final(self).wf(),
            rec == new_request(old(self).spec_next_id(), args, response_json, rec.created_at),
            final(self).spec_next_id() == old(self).spec_next_id() + 1,
            final(self).spec_records() == old(self).spec_records().insert(
                insert_pos(old(self).spec_records(), rec),
                rec,
            ),
    {
        let stamp = now_timestamp();
        self.insert_at(args, response_json, stamp)
    }
}

/// The records a time-range query keeps: those created strictly after
/// `since`.
pub open spec fn time_pred(since: i64) -> spec_fn(Request) -> bool {
    |r: Request| r.created_at > since
}

/// The records a service query keeps: an exact service match, created
/// strictly after `since`.
pub open spec fn service_time_pred(service: Seq<char>, since: i64) -> spec_fn(Request) -> bool {
    |r: Request| r.service@ == service && r.created_at > since
}

pub open spec fn service_pred(service: Seq<char>) -> spec_fn(Request) -> bool {
    |r: Request| r.service@ == service
}

/// A filtered sequence holds only records of the unfiltered one, each
/// satisfying the predicate.
proof fn lemma_filter_subset(s: Seq<Request>, pred: spec_fn(Request) -> bool)
    ensures
        forall|x: Request| #[trigger] s.filter(pred).contains(x) ==> s.contains(x) && pred(x),
    decreases s.len(),
{
    reveal(Seq::filter);
    if s.len() > 0 {
        let s0 = s.drop_last();
        lemma_filter_subset(s0, pred);
        assert forall|x: Request| #[trigger] s.filter(pred).contains(x) implies s.contains(x)
            && pred(x) by {
            if pred(s.last()) && x == s.last() {
                assert(s[s.len() - 1] == x);
            } else {
                assert(s0.filter(pred).contains(x));
                let k0 = choose|k0: int| 0 <= k0 < s0.len() && s0[k0] == x;
                assert(s[k0] == x);
            }
        }
    }
}

/// Filtering keeps the store's order, and hands out only records of the
/// original sequence that satisfy the predicate.
proof fn lemma_filter_sorted(s: Seq<Request>, pred: spec_fn(Request) -> bool)
    requires
        time_sorted(s),
    ensures
        time_sorted(s.filter(pred)),
        forall|x: Request| #[trigger] s.filter(pred).contains(x) ==> s.contains(x) && pred(x),
    decreases s.len(),
{
    reveal(Seq::filter);
    if s.len() > 0 {
        let s0 = s.drop_last();
        assert(time_sorted(s0)) by {
            assert forall|i: int, j: int| 0 <= i < j < s0.len() implies #[trigger] before(
                s0[i],
                s0[j],
            ) by {
                assert(s0[i] == s[i] && s0[j] == s[j]);
            }
        }
        lemma_filter_sorted(s0, pred);
        let f0 = s0.filter(pred);
        let f = s.filter(pred);
        if pred(s.last()) {
            assert(f == f0.push(s.last()));
            assert forall|i: int, j: int| 0 <= i < j < f.len() implies #[trigger] before(
                f[i],
                f[j],
            ) by {
                if j < f.len() - 1 {
                    assert(f[i] == f0[i] && f[j] == f0[j]);
                } else {
                    assert(f[j] == s.last());
                    assert(f0.contains(f0[i]));
                    let k = choose|k: int| 0 <= k < s0.len() && s0[k] == f0[i];
                    assert(s[k] == f0[i]);
                    assert(before(s[k], s[s.len() - 1]));
                }
            }
            assert forall|x: Request| #[trigger] f.contains(x) implies s.contains(x) && pred(x) by {
                let k = choose|k: int| 0 <= k < f.len() && f[k] == x;
                if k < f.len() - 1 {
                    assert(f0.contains(x));
                    let k0 = choose|k0: int| 0 <= k0 < s0.len() && s0[k0] == x;
                    assert(s[k0] == x);
                } else {
                    assert(x == s.last());
                    assert(s[s.len() - 1] == x);
                }
            }
        } else {
            assert(f == f0);
            assert forall|x: Request| #[trigger] f.contains(x) implies s.contains(x) && pred(x) by {
                assert(f0.contains(x));
                let k0 = choose|k0: int| 0 <= k0 < s0.len() && s0[k0] == x;
                assert(s[k0] == x);
            }
        }
    }
}

/// Filtering by two predicates in turn is filtering by their conjunction.
proof fn lemma_filter_filter(
    s: Seq<Request>,
    p: spec_fn(Request) -> bool,
    q: spec_fn(Request) -> bool,
    pq: spec_fn(Request) -> bool,
)
    requires
        forall|x: Request| #[trigger] pq(x) <==> p(x) && q(x),
    ensures
        s.filter(p).filter(q) == s.filter(pq),
    decreases s.len(),
{
    reveal(Seq::filter);
    if s.len() == 0 {
        assert(s.filter(p).filter(q) =~= s.filter(pq));
    } else {
        let s0 = s.drop_last();
        lemma_filter_filter(s0, p, q, pq);
        let last = s.last();
        if p(last) {
            assert(s.filter(p) == s0.filter(p).push(last));
            assert(s.filter(p).drop_last() == s0.filter(p)) by {
                assert(s0.filter(p).push(last).drop_last() =~= s0.filter(p));
            }
            assert(s.filter(p).last() == last);
        } else {
            assert(s.filter(p) == s0.filter(p));
        }
        assert(s.filter(p).filter(q) =~= s.filter(pq));
    }
}

impl Store {
    /// Every record, in ascending `created_at` order.
    pub fn query_all(&self) -> (r: Vec<Request>)
        requires
            self.wf(),
        ensures
            r@ == self.spec_records(),
            time_sorted(r@),
    {
        let mut out: Vec<Request> = Vec::new();
        let mut i: usize = 0;
        while i < self.records.len()
            invariant
                i <= self.records@.len(),
                out@ == self.records@.take(i as int),
            decreases self.records@.len() - i,
        {
            out.push(self.records[i].clone());
            proof {
                assert(out@ =~= self.records@.take(i + 1));
            }
            i = i + 1;
        }
        proof {
            assert(self.records@.take(self.records@.len() as int) =~= self.records@);
        }
        out
    }

    /// The records created strictly after `since`, in ascending order.
    pub fn query_by_time_range(&self, since: i64) -> (r: Vec<Request>)
        requires
            self.wf(),
        ensures
            r@ == self.spec_records().filter(time_pred(since)),
            time_sorted(r@),
    {
        let ghost pred = time_pred(since);
        let mut out: Vec<Request> = Vec::new();
        let mut i: usize = 0;
        while i < self.records.len()
            invariant
                i <= self.records@.len(),
                out@ == self.records@.take(i as int).filter(pred),
                pred == time_pred(since),
            decreases self.records@.len() - i,
        {
            proof {
                reveal(Seq::filter);
                assert(self.records@.take(i + 1).drop_last() =~= self.records@.take(i as int));
                assert(self.records@.take(i + 1).last() == self.records@[i as int]);
            }
            if self.records[i].created_at > since {
                out.push(self.records[i].clone());
            }
            i = i + 1;
        }
        proof {
            assert(self.records@.take(self.records@.len() as int) =~= self.records@);
            lemma_filter_sorted(self.records@, pred);
        }
        out
    }

    /// The records of one service created strictly after `since`, in
    /// ascending order.
    pub fn query_by_service_and_time_range(&self, service: &str, since: i64) -> (r: Vec<Request>)
        requires
            self.wf(),
        ensures
            r@ == self.spec_records().filter(service_time_pred(service@, since)),
            time_sorted(r@),
    {
        let ghost pred = service_time_pred(service@, since);
        let wanted: String = service.to_owned();
        let mut out: Vec<Request> = Vec::new();
        let mut i: usize = 0;
        while i < self.records.len()
            invariant
                i <= self.records@.len(),
                out@ == self.records@.take(i as int).filter(pred),
                pred == service_time_pred(service@, since),
                wanted@ == service@,
            decreases self.records@.len() - i,
        {
            proof {
                reveal(Seq::filter);
                assert(self.records@.take(i + 1).drop_last() =~= self.records@.take(i as int));
                assert(self.records@.take(i + 1).last() == self.records@[i as int]);
            }
            if self.records[i].service == wanted && self.records[i].created_at > since {
                out.push(self.records[i].clone());
            }
            i = i + 1;
        }
        proof {
            assert(self.records@.take(self.records@.len() as int) =~= self.records@);
            lemma_filter_sorted(self.records@, pred);
        }
        out
    }
}

/// Law: a time-range query returns exactly the stored records created after
/// `since`, ascending by `created_at`; with unique ids, each qualifying
/// record appears exactly once.
pub proof fn lemma_query_by_time_range_exact(records: Seq<Request>, since: i64)
    requires
        time_sorted(records),
    ensures
        forall|x: Request| #[trigger] records.filter(time_pred(since)).contains(x) <==> (
        records.contains(x) && x.created_at > since),
        time_sorted(records.filter(time_pred(since))),
        forall|i: int, j: int|
            0 <= i < j < records.filter(time_pred(since)).len() ==> (#[trigger] records.filter(
                time_pred(since),
            )[i]).created_at <= (#[trigger] records.filter(time_pred(since))[j]).created_at,
        unique_ids(records) ==> unique_ids(records.filter(time_pred(since))),
{
    let pred = time_pred(since);
    lemma_filter_sorted(records, pred);
    assert forall|x: Request| records.contains(x) && x.created_at > since implies #[trigger]
        records.filter(pred).contains(x) by {
        let k = choose|k: int| 0 <= k < records.len() && records[k] == x;
        records.lemma_filter_contains(pred, k);
    }
    let f = records.filter(pred);
    assert forall|i: int, j: int| 0 <= i < j < f.len() implies (#[trigger] f[i]).created_at <= (
    #[trigger] f[j]).created_at by {
        assert(before(f[i], f[j]));
    }
    if unique_ids(records) {
        lemma_filter_unique_ids(records, pred);
    }
}

/// Filtering a strictly ordered table with unique ids keeps its ids unique.
proof fn lemma_filter_unique_ids(s: Seq<Request>, pred: spec_fn(Request) -> bool)
    requires
        time_sorted(s),
        unique_ids(s),
    ensures
        unique_ids(s.filter(pred)),
{
    lemma_filter_sorted(s, pred);
    let f = s.filter(pred);
    assert forall|i: int, j: int|
        0 <= i < f.len() && 0 <= j < f.len() && i != j implies #[trigger] f[i].id != #[trigger]
    f[j].id by {
        let a = if i < j { i } else { j };
        let b = if i < j { j } else { i };
        assert(before(f[a], f[b]));
        assert(f[a] != f[b]);
        assert(f.contains(f[a]) && f.contains(f[b]));
        let ka = choose|ka: int| 0 <= ka < s.len() && s[ka] == f[a];
        let kb = choose|kb: int| 0 <= kb < s.len() && s[kb] == f[b];
        assert(ka != kb);
    }
}

/// Law: the service query is the time-range query further filtered by an
/// exact service match; in particular every record it returns is one the
/// time-range query returns.
pub proof fn lemma_service_query_refines_time_query(
    records: Seq<Request>,
    service: Seq<char>,
    since: i64,
)
    ensures
        records.filter(service_time_pred(service, since)) == records.filter(time_pred(since)).filter(
            service_pred(service),
        ),
        forall|x: Request| #[trigger] records.filter(service_time_pred(service, since)).contains(x)
            ==> records.filter(time_pred(since)).contains(x) && x.service@ == service,
{
    lemma_filter_filter(
        records,
        time_pred(since),
        service_pred(service),
        service_time_pred(service, since),
    );
    lemma_filter_subset(records.filter(time_pred(since)), service_pred(service));
}

/// The id a rebuilt store assigns next: one past the largest loaded id, and
/// 1 over no rows at all.
pub open spec fn loaded_next_id(rows: Seq<Request>) -> int
    decreases rows.len(),
{
    if rows.len() == 0 {
        1
    } else {
        let rest = loaded_next_id(rows.drop_last());
        if rows.last().id + 1 > rest {
            rows.last().id + 1
        } else {
            rest
        }
    }
}

/// True when a table can be rebuilt from these rows: no id repeats, and every
/// id lies in the range the store itself assigns from.
pub open spec fn loadable(rows: Seq<Request>) -> bool {
    &&& unique_ids(rows)
    &&& forall|k: int| 0 <= k < rows.len() ==> 1 <= (#[trigger] rows[k]).id < i64::MAX
}

impl Store {
    /// Whether some stored record carries this id.
    pub fn contains_id(&self, id: i64) -> (r: bool)
        ensures
            r == exists|k: int|
                0 <= k < self.spec_records().len() && (#[trigger] self.spec_records()[k]).id == id,
    {
        let mut i: usize = 0;
        while i < self.records.len()
            invariant
                i <= self.records@.len(),
                forall|k: int| 0 <= k < i ==> (#[trigger] self.records@[k]).id != id,
            decreases self.records@.len() - i,
        {
            if self.records[i].id == id {
                return true;
            }
            i = i + 1;
        }
        false
    }

    /// Rebuild a store from rows read back from the database file, in any
    /// order. `None` exactly when an id repeats or falls outside the range
    /// the store assigns from; otherwise the records are the given rows,
    /// reordered into the store's ascending order.
    pub fn load(rows: Vec<Request>) -> (r: Option<Store>)
        ensures
            r is Some <==> loadable(rows@),
            r is Some ==> r->0.wf(),
            r is Some ==> r->0.spec_records().to_multiset() == rows@.to_multiset(),
            r is Some ==> r->0.spec_next_id() as int == loaded_next_id(rows@),
    {
        let mut store = Store::new();
        let mut i: usize = 0;
        while i < rows.len()
            invariant
                i <= rows@.len(),
                store.wf(),
                store.spec_next_id() <= i64::MAX,
                loadable(rows@.take(i as int)),
                store.spec_records().to_multiset() == rows@.take(i as int).to_multiset(),
                store.spec_next_id() as int == loaded_next_id(rows@.take(i as int)),
            decreases rows@.len() - i,
        {
            let ghost prefix = rows@.take(i as int);
            let row = &rows[i];
            if row.id < 1 || row.id == i64::MAX {
                proof {
                    assert(rows@[i as int].id == row.id);
                }
                return None;
            }
            if store.contains_id(row.id) {
                proof {
                    let k = choose|k: int|
                        0 <= k < store.spec_records().len() && (
                        #[trigger] store.spec_records()[k]).id == row.id;
                    let x = store.spec_records()[k];
                    assert(store.spec_records().contains(x));
                    assert(store.spec_records().to_multiset().count(x) > 0);
                    assert(prefix.contains(x));
                    let k0 = choose|k0: int| 0 <= k0 < prefix.len() && prefix[k0] == x;
                    assert(rows@[k0] == x);
                    assert(rows@[k0].id == rows@[i as int].id);
                }
                return None;
            }
            let copy = row.clone();
            proof {
                lemma_insert_pos_bounds(store.spec_records(), copy);
            }
            let ghost old_records = store.spec_records();
            store.insert_record(copy);
            if row.id >= store.next_id {
                store.next_id = row.id + 1;
            }
            proof {
                assert(store.spec_records().to_multiset() == old_records.to_multiset().insert(
                    copy,
                ));
                assert(rows@.take(i + 1) =~= prefix.push(rows@[i as int]));
                assert(rows@.take(i + 1).to_multiset() == prefix.to_multiset().insert(
                    rows@[i as int],
                ));
                assert(rows@.take(i + 1).drop_last() =~= prefix);
                assert(store.spec_next_id() as int == loaded_next_id(rows@.take(i + 1)));
                assert(loadable(rows@.take(i + 1))) by {
                    let ext = rows@.take(i + 1);
                    assert forall|a: int, b: int|
                        0 <= a < ext.len() && 0 <= b < ext.len() && a != b implies #[trigger]
                        ext[a].id != #[trigger] ext[b].id by {
                        if a < i && b < i {
                            assert(ext[a] == prefix[a] && ext[b] == prefix[b]);
                        } else if b == i {
                            assert(ext[a] == prefix[a]);
                            assert(!prefix.contains(ext[b]) || true);
                            if ext[a].id == ext[b].id {
                                assert(prefix.to_multiset().count(prefix[a]) > 0);
                                assert(old_records.to_multiset().count(prefix[a]) > 0);
                                assert(old_records.contains(prefix[a]));
                                let kk = choose|kk: int|
                                    0 <= kk < old_records.len() && old_records[kk] == prefix[a];
                                assert(old_records[kk].id == row.id);
                            }
                        } else {
                            assert(ext[b] == prefix[b]);
                            if ext[a].id == ext[b].id {
                                assert(prefix.to_multiset().count(prefix[b]) > 0);
                                assert(old_records.to_multiset().count(prefix[b]) > 0);
                                assert(old_records.contains(prefix[b]));
                                let kk = choose|kk: int|
                                    0 <= kk < old_records.len() && old_records[kk] == prefix[b];
                                assert(old_records[kk].id == row.id);
                            }
                        }
                    }
                }
            }
            i = i + 1;
        }
        proof {
            assert(rows@.take(rows@.len() as int) =~= rows@);
        }
        Some(store)
    }
}

} // verus!
