//! The progress protocol of the batch orchestrator: one `processing`
//! record per dispatched item, one `error: …` record per failed item,
//! and a single final `complete` record once every item has finished.

use vstd::prelude::*;
use vstd::string::StringExecFns;

verus! {

/// One emitted progress record. `done` is the dispatch count the
/// record reports, out of `total` items; consumers derive the
/// percentage as `done / total × 100`, and the final record of a batch
/// reports `done == total` and is rendered as exactly 100.
pub struct Progress {
    pub done: usize,
    pub total: usize,
    pub current_file: String,
    pub status: String,
}

/// The mathematical shadow of a progress record.
pub ghost struct Rec {
    pub done: int,
    pub total: int,
    pub file: Seq<char>,
    pub status: Seq<char>,
}

impl Progress {
    pub open spec fn rec(&self) -> Rec {
        Rec {
            done: self.done as int,
            total: self.total as int,
            file: self.current_file@,
            status: self.status@,
        }
    }
}

/// The record announcing that work on an item begins.
pub open spec fn processing_rec(done: int, total: int, file: Seq<char>) -> Rec {
    Rec { done, total, file, status: "processing"@ }
}

/// The record reporting that an item failed, carrying its message.
pub open spec fn error_rec(done: int, total: int, file: Seq<char>, msg: Seq<char>) -> Rec {
    Rec { done, total, file, status: "error: "@ + msg }
}

/// The single final record of a batch.
pub open spec fn complete_rec(total: int) -> Rec {
    Rec { done: total, total, file: "Done"@, status: "complete"@ }
}

pub open spec fn is_processing(rec: Rec) -> bool {
    rec.status == "processing"@
}

pub open spec fn is_error(rec: Rec) -> bool {
    rec.status.len() >= 7 && rec.status.subrange(0, 7) == "error: "@
}

pub open spec fn is_complete(rec: Rec) -> bool {
    rec.status == "complete"@
}

pub fn processing_record(done: usize, total: usize, name: &str) -> (r: Progress)
    ensures
        r.rec() == processing_rec(done as int, total as int, name@),
{
    Progress {
        done,
        total,
        current_file: name.to_owned(),
        status: "processing".to_owned(),
    }
}

pub fn error_record(done: usize, total: usize, name: &str, msg: &str) -> (r: Progress)
    ensures
        r.rec() == error_rec(done as int, total as int, name@, msg@),
{
    let mut status = "error: ".to_owned();
    status.append(msg);
    Progress { done, total, current_file: name.to_owned(), status }
}

pub fn complete_record(total: usize) -> (r: Progress)
    ensures
        r.rec() == complete_rec(total as int),
{
    Progress {
        done: total,
        total,
        current_file: "Done".to_owned(),
        status: "complete".to_owned(),
    }
}

/// The trace one item contributes: its `processing` record, then its
/// `error` record if it failed.
pub open spec fn item_trace(i: int, total: int, name: Seq<char>, err: Option<Seq<char>>) -> Seq<
    Rec,
> {
    match err {
        Option::None => seq![processing_rec(i, total, name)],
        Option::Some(m) => seq![
            processing_rec(i, total, name),
            error_rec(i, total, name, m),
        ],
    }
}

/// The full trace of a batch run serially from item `from` on: the
/// per-item traces in dispatch order, then the final record.
pub open spec fn batch_trace(
    names: Seq<Seq<char>>,
    errs: Seq<Option<Seq<char>>>,
    total: int,
    from: int,
) -> Seq<Rec>
    decreases names.len() - from,
{
    if from >= names.len() || from < 0 {
        seq![complete_rec(total)]
    } else {
        item_trace(from, total, names[from], errs[from]) + batch_trace(names, errs, total, from + 1)
    }
}

pub open spec fn err_view(e: Option<String>) -> Option<Seq<char>> {
    match e {
        Option::None => Option::None,
        Option::Some(m) => Option::Some(m@),
    }
}

pub open spec fn view_names(names: Seq<String>) -> Seq<Seq<char>> {
    names.map_values(|s: String| s@)
}

pub open spec fn view_errs(errs: Seq<Option<String>>) -> Seq<Option<Seq<char>>> {
    errs.map_values(|e: Option<String>| err_view(e))
}

pub open spec fn recs_of(rs: Seq<Progress>) -> Seq<Rec> {
    rs.map_values(|p: Progress| p.rec())
}

/// Emit the records of a whole batch run serially: for each item, in
/// order, its `processing` record and — where the item carries an
/// error message — its `error` record, then the one `complete` record.
pub fn batch_records(names: &Vec<String>, errors: &Vec<Option<String>>) -> (r: Vec<Progress>)
    requires
        names.len() == errors.len(),
    ensures
        recs_of(r@) == batch_trace(view_names(names@), view_errs(errors@), names.len() as int, 0),
{
    let total = names.len();
    let ghost vn = view_names(names@);
    let ghost ve = view_errs(errors@);
    let mut out: Vec<Progress> = Vec::new();
    let mut i: usize = 0;
    while i < total
        invariant
            names.len() == total,
            errors.len() == total,
            vn == view_names(names@),
            ve == view_errs(errors@),
            i <= total,
            recs_of(out@) + batch_trace(vn, ve, total as int, i as int) == batch_trace(
                vn,
                ve,
                total as int,
                0,
            ),
        decreases total - i,
    {
        let ghost before = out@;
        let p = processing_record(i, total, names[i].as_str());
        out.push(p);
        match (&errors[i]) {
            Option::Some(m) => {
                let e = error_record(i, total, names[i].as_str(), m.as_str());
                out.push(e);
                proof {
                    assert(recs_of(out@) =~= recs_of(before) + item_trace(
                        i as int,
                        total as int,
                        vn[i as int],
                        ve[i as int],
                    ));
                }
            },
            Option::None => {
                proof {
                    assert(recs_of(out@) =~= recs_of(before) + item_trace(
                        i as int,
                        total as int,
                        vn[i as int],
                        ve[i as int],
                    ));
                }
            },
        }
        proof {
            assert(batch_trace(vn, ve, total as int, i as int) == item_trace(
                i as int,
                total as int,
                vn[i as int],
                ve[i as int],
            ) + batch_trace(vn, ve, total as int, i as int + 1));
            assert(recs_of(out@) + batch_trace(vn, ve, total as int, i as int + 1) =~= (recs_of(
                before,
            ) + item_trace(i as int, total as int, vn[i as int], ve[i as int])) + batch_trace(
                vn,
                ve,
                total as int,
                i as int + 1,
            ));
            assert((recs_of(before) + item_trace(i as int, total as int, vn[i as int], ve[i as int]))
                + batch_trace(vn, ve, total as int, i as int + 1) =~= recs_of(before) + (item_trace(
                i as int,
                total as int,
                vn[i as int],
                ve[i as int],
            ) + batch_trace(vn, ve, total as int, i as int + 1)));
        }
        i = i + 1;
    }
    let fin = complete_record(total);
    out.push(fin);
    proof {
        let items = out@.drop_last();
        assert(batch_trace(vn, ve, total as int, total as int) == seq![
            complete_rec(total as int),
        ]);
        assert(recs_of(out@) =~= recs_of(items) + seq![complete_rec(total as int)]);
        assert(recs_of(out@) =~= batch_trace(vn, ve, total as int, 0));
    }
    out
}

/// Number of records of a trace that satisfy `pred`.
pub open spec fn count_recs(s: Seq<Rec>, pred: spec_fn(Rec) -> bool) -> int
    decreases s.len(),
{
    if s.len() == 0 {
        0
    } else {
        count_recs(s.drop_last(), pred) + (if pred(s.last()) {
            1int
        } else {
            0
        })
    }
}

pub open spec fn processing_pred() -> spec_fn(Rec) -> bool {
    |rec: Rec| is_processing(rec)
}

pub open spec fn error_pred() -> spec_fn(Rec) -> bool {
    |rec: Rec| is_error(rec)
}

pub open spec fn complete_pred() -> spec_fn(Rec) -> bool {
    |rec: Rec| is_complete(rec)
}

/// Number of items from `from` on that carry an error message.
pub open spec fn count_some_from(errs: Seq<Option<Seq<char>>>, from: int) -> int
    decreases errs.len() - from,
{
    if from >= errs.len() || from < 0 {
        0
    } else {
        (if errs[from] is Some {
            1int
        } else {
            0
        }) + count_some_from(errs, from + 1)
    }
}

/// The three record shapes are mutually exclusive and each satisfies
/// its own predicate.
proof fn lemma_rec_kinds(done: int, total: int, file: Seq<char>, msg: Seq<char>)
    ensures
        is_processing(processing_rec(done, total, file)),
        !is_error(processing_rec(done, total, file)),
        !is_complete(processing_rec(done, total, file)),
        is_error(error_rec(done, total, file, msg)),
        !is_processing(error_rec(done, total, file, msg)),
        !is_complete(error_rec(done, total, file, msg)),
        is_complete(complete_rec(total)),
        !is_processing(complete_rec(total)),
        !is_error(complete_rec(total)),
{
    reveal_strlit("processing");
    reveal_strlit("complete");
    reveal_strlit("error: ");
    let e = "error: "@ + msg;
    assert(e.subrange(0, 7) =~= "error: "@);
    assert(e[0] == 'e');
    if e == "processing"@ {
        assert(e[0] == 'p');
    }
    if e == "complete"@ {
        assert(e[0] == 'c');
    }
    if is_error(processing_rec(done, total, file)) {
        assert("processing"@.subrange(0, 7)[0] == 'p');
    }
    if is_error(complete_rec(total)) {
        assert("complete"@.subrange(0, 7)[0] == 'c');
    }
}

/// Counting distributes over concatenation of traces.
proof fn lemma_count_concat(a: Seq<Rec>, b: Seq<Rec>, pred: spec_fn(Rec) -> bool)
    ensures
        count_recs(a + b, pred) == count_recs(a, pred) + count_recs(b, pred),
    decreases b.len(),
{
    if b.len() == 0 {
        assert(a + b =~= a);
    } else {
        assert((a + b).drop_last() =~= a + b.drop_last());
        assert((a + b).last() == b.last());
        lemma_count_concat(a, b.drop_last(), pred);
    }
}

proof fn lemma_count_single(x: Rec, pred: spec_fn(Rec) -> bool)
    ensures
        count_recs(seq![x], pred) == (if pred(x) {
            1int
        } else {
            0
        }),
{
    assert(seq![x].len() == 1);
    assert(seq![x].last() == x);
    assert(seq![x].drop_last() =~= Seq::<Rec>::empty());
    assert(count_recs(Seq::<Rec>::empty(), pred) == 0);
    assert(count_recs(seq![x], pred) == count_recs(seq![x].drop_last(), pred) + (if pred(
        seq![x].last(),
    ) {
        1int
    } else {
        0
    }));
}

/// Record counts of the trace of the items from `from` on.
proof fn lemma_trace_counts_from(
    names: Seq<Seq<char>>,
    errs: Seq<Option<Seq<char>>>,
    total: int,
    from: int,
)
    requires
        0 <= from <= names.len(),
        names.len() == errs.len(),
    ensures
        count_recs(batch_trace(names, errs, total, from), processing_pred()) == names.len() - from,
        count_recs(batch_trace(names, errs, total, from), error_pred()) == count_some_from(
            errs,
            from,
        ),
        count_recs(batch_trace(names, errs, total, from), complete_pred()) == 1,
        batch_trace(names, errs, total, from).len() == (names.len() - from) + count_some_from(
            errs,
            from,
        ) + 1,
        batch_trace(names, errs, total, from).last() == complete_rec(total),
    decreases names.len() - from,
{
    if from >= names.len() {
        lemma_count_single(complete_rec(total), processing_pred());
        lemma_count_single(complete_rec(total), error_pred());
        lemma_count_single(complete_rec(total), complete_pred());
        lemma_rec_kinds(0, total, Seq::empty(), Seq::empty());
    } else {
        let item = item_trace(from, total, names[from], errs[from]);
        let rest = batch_trace(names, errs, total, from + 1);
        lemma_trace_counts_from(names, errs, total, from + 1);
        lemma_count_concat(item, rest, processing_pred());
        lemma_count_concat(item, rest, error_pred());
        lemma_count_concat(item, rest, complete_pred());
        lemma_rec_kinds(from, total, names[from], match errs[from] {
            Option::Some(m) => m,
            Option::None => Seq::empty(),
        });
        match errs[from] {
            Option::None => {
                lemma_count_single(processing_rec(from, total, names[from]), processing_pred());
                lemma_count_single(processing_rec(from, total, names[from]), error_pred());
                lemma_count_single(processing_rec(from, total, names[from]), complete_pred());
            },
            Option::Some(m) => {
                let pr = processing_rec(from, total, names[from]);
                let er = error_rec(from, total, names[from], m);
                assert(item.drop_last() =~= seq![pr]);
                assert(item.last() == er);
                lemma_count_single(pr, processing_pred());
                lemma_count_single(pr, error_pred());
                lemma_count_single(pr, complete_pred());
            },
        }
        assert((item + rest).last() == rest.last());
    }
}

/// The progress protocol of one batch, stated over the serial trace:
/// a batch of `n` items among which exactly the failed ones carry an
/// error message emits exactly `n` records of kind `processing` and
/// one record of kind `error` per failed item — `n + failures` item
/// records in all — plus exactly one `complete` record, which comes
/// last; an output file is produced exactly for each of the
/// `n - failures` items that did not fail.
pub proof fn lemma_batch_trace_counts(
    names: Seq<Seq<char>>,
    errs: Seq<Option<Seq<char>>>,
    total: int,
)
    requires
        names.len() == errs.len(),
    ensures
        count_recs(batch_trace(names, errs, total, 0), processing_pred()) == names.len(),
        count_recs(batch_trace(names, errs, total, 0), error_pred()) == count_some_from(errs, 0),
        count_recs(batch_trace(names, errs, total, 0), complete_pred()) == 1,
        batch_trace(names, errs, total, 0).len() == names.len() + count_some_from(errs, 0) + 1,
        batch_trace(names, errs, total, 0).last() == complete_rec(total),
{
    lemma_trace_counts_from(names, errs, total, 0);
}

} // verus!
