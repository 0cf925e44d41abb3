//! The import side of the bulk pipeline: documents go to the cluster in
//! consecutive batches, strictly in order, and every document that fails is
//! recorded with its 1-based position in the input.
//!
//! The pipeline is a state machine. [`ImportRun::next_batch`] hands out the
//! body of the next bulk request; whoever holds the connection sends it and
//! hands the answer, or the transport failure, to
//! [`ImportRun::record_response`].

use vstd::prelude::*;
use vstd::string::*;
use std::collections::VecDeque;
use crate::bulk::{append_op_lines, op_lines};
use crate::error::{member_text, opt_text};
use crate::json::{json_get, Json};
use crate::text::{decimal, decimal_text};
use crate::types::ImportFormat;

verus! {

broadcast use vstd::std_specs::vecdeque::group_vec_dequeue_axioms;

/// Number of documents per bulk request when the request names none.
pub const DEFAULT_BATCH_SIZE: u32 = 1000;

/// What to import, and how.
#[derive(Debug, Clone)]
pub struct ImportRequest {
    pub connection_id: String,
    pub index: String,
    pub file_path: String,
    pub format: ImportFormat,
    /// The document member that holds each document's id; without it the
    /// cluster assigns ids.
    pub id_field: Option<String>,
    pub batch_size: Option<u32>,
    pub mapping: Option<Json>,
    /// Create the index before importing; a failure there is not fatal.
    pub create_index: bool,
    /// `index` (overwrite) rather than `create` (fail on an existing id).
    pub overwrite_existing: bool,
}

/// The answer of the cluster to a bulk request: one result per operation, in
/// the order of the operations.
#[derive(Debug, Clone)]
pub struct BulkResponse {
    pub took: u64,
    pub errors: bool,
    pub items: Vec<Json>,
}

/// A member that is a boolean, or `false`.
pub open spec fn flag_member(j: Json, key: Seq<char>) -> bool {
    match json_get(j, key) {
        Some(Json::Bool(b)) => b,
        _ => false,
    }
}

/// The per-operation results of a bulk answer, or none.
pub open spec fn response_items(response: Json) -> Seq<Json> {
    match json_get(response, "items"@) {
        Some(Json::Array(items)) => items@,
        _ => Seq::empty(),
    }
}

/// Reads a bulk answer: `took`, `errors` and the `items`, which are handed
/// on unread; missing parts read as zero, false or empty.
pub fn bulk_response_from(response: Json) -> (r: BulkResponse)
    ensures
        r.took as nat == match crate::requests::u64_member(response, "took"@) {
            Some(v) => v,
            None => 0,
        },
        r.errors == flag_member(response, "errors"@),
        r.items@ == response_items(response),
{
    let took = match crate::requests::u64_of(&response, "took") {
        Some(v) => v,
        None => 0,
    };
    let errors = match response.get("errors") {
        Some(Json::Bool(b)) => *b,
        _ => false,
    };
    let items = match crate::json::take_member(response, "items") {
        Some(Json::Array(items)) => items,
        _ => Vec::new(),
    };
    BulkResponse { took, errors, items }
}

/// One document that could not be imported.
#[derive(Debug, Clone)]
pub struct ImportError {
    /// 1-based position of the document in the whole input.
    pub line_number: u64,
    pub error_message: String,
    pub document: Option<Json>,
}

/// The content of an [`ImportError`].
pub struct FailureView {
    pub line: nat,
    pub message: Seq<char>,
    pub document: Option<Json>,
}

impl View for ImportError {
    type V = FailureView;

    open spec fn view(&self) -> FailureView {
        FailureView { line: self.line_number as nat, message: self.error_message@, document: self.document }
    }
}

/// The summary of a whole import.
#[derive(Debug, Clone)]
pub struct ImportResult {
    pub success: bool,
    pub total_processed: u64,
    pub successful_imports: u64,
    pub failed_imports: u64,
    pub errors: Vec<ImportError>,
    pub message: String,
}

/// The failures recorded in a list of import errors.
pub open spec fn failures_of(errors: Seq<ImportError>) -> Seq<FailureView> {
    errors.map_values(|e: ImportError| e@)
}

/// The reason that one action result reports, if it holds an `error` member.
pub open spec fn error_reason(result: Json) -> Option<Seq<char>> {
    match json_get(result, "error"@) {
        Some(e) => Some(
            match member_text(e, "reason"@) {
                Some(t) => t,
                None => "Unknown error"@,
            },
        ),
        None => None,
    }
}

/// The first reason among the action results of an item.
pub open spec fn first_error(members: Seq<(String, Json)>) -> Option<Seq<char>>
    decreases members.len(),
{
    if members.len() == 0 {
        None
    } else {
        match error_reason(members[0].1) {
            Some(r) => Some(r),
            None => first_error(members.drop_first()),
        }
    }
}

/// The reason that a response item reports, if it reports an error.
pub open spec fn item_failure(item: Json) -> Option<Seq<char>> {
    match item {
        Json::Object(members) => first_error(members@),
        _ => None,
    }
}

/// The document at a position of a batch, if there is one.
pub open spec fn doc_at(docs: Seq<Json>, i: int) -> Option<Json> {
    if 0 <= i < docs.len() {
        Some(docs[i])
    } else {
        None
    }
}

/// The failures that the items of a bulk response report, for a batch whose
/// first document has 0-based position `start`.
pub open spec fn item_failures(start: nat, docs: Seq<Json>, items: Seq<Json>) -> Seq<FailureView>
    decreases items.len(),
{
    if items.len() == 0 {
        Seq::empty()
    } else {
        let k = items.len() - 1;
        item_failures(start, docs, items.drop_last()) + match item_failure(items[k]) {
            Some(r) => seq![FailureView { line: (start + k + 1) as nat, message: r, document: doc_at(docs, k) }],
            None => Seq::empty(),
        }
    }
}

/// The number of items of a bulk response that report no error.
pub open spec fn item_successes(items: Seq<Json>) -> nat
    decreases items.len(),
{
    if items.len() == 0 {
        0
    } else {
        item_successes(items.drop_last()) + if item_failure(items.last()) is None {
            1nat
        } else {
            0nat
        }
    }
}

/// The failures recorded when the bulk request of a whole batch fails: every
/// document of the batch, with the transport's message.
pub open spec fn transport_failures(start: nat, docs: Seq<Json>, msg: Seq<char>) -> Seq<FailureView>
    decreases docs.len(),
{
    if docs.len() == 0 {
        Seq::empty()
    } else {
        transport_failures(start, docs.drop_last(), msg).push(
            FailureView {
                line: start + docs.len(),
                message: "Bulk operation failed: "@ + msg,
                document: Some(docs.last()),
            },
        )
    }
}

/// The id of a document: its `id_field` member when that is a string.
pub open spec fn doc_id(id_field: Option<Seq<char>>, doc: Json) -> Option<Seq<char>> {
    match id_field {
        Some(f) => member_text(doc, f),
        None => None,
    }
}

/// The body of the bulk request for a batch of documents.
pub open spec fn batch_text(
    action: Seq<char>,
    index: Seq<char>,
    id_field: Option<Seq<char>>,
    docs: Seq<Json>,
) -> Seq<char>
    decreases docs.len(),
{
    if docs.len() == 0 {
        Seq::empty()
    } else {
        batch_text(action, index, id_field, docs.drop_last()) + op_lines(
            action,
            index,
            doc_id(id_field, docs.last()),
            Some(docs.last()@),
        )
    }
}

/// The smaller of two numbers.
pub open spec fn min_nat(a: nat, b: nat) -> nat {
    if a <= b {
        a
    } else {
        b
    }
}

/// The summary message of an import.
pub open spec fn import_message(succeeded: nat, failed: nat) -> Seq<char> {
    if failed == 0 {
        "Successfully imported "@ + decimal(succeeded) + " documents"@
    } else {
        "Imported "@ + decimal(succeeded) + " documents with "@ + decimal(failed) + " errors"@
    }
}

/// Every item of a response is counted exactly once: as a success, or as a
/// failure.
pub proof fn lemma_items_accounted(start: nat, docs: Seq<Json>, items: Seq<Json>)
    ensures
        item_successes(items) + item_failures(start, docs, items).len() == items.len(),
    decreases items.len(),
{
    if items.len() > 0 {
        lemma_items_accounted(start, docs, items.drop_last());
    }
}

/// A failed transport marks every document of its batch, and only those: the
/// i-th failure names position `start + i + 1` and the i-th document.
pub proof fn lemma_transport_failure_marks_batch(start: nat, docs: Seq<Json>, msg: Seq<char>)
    ensures
        transport_failures(start, docs, msg).len() == docs.len(),
        forall|i: int|
            0 <= i < docs.len() ==> #[trigger] transport_failures(start, docs, msg)[i] == (FailureView {
                line: (start + i + 1) as nat,
                message: "Bulk operation failed: "@ + msg,
                document: Some(docs[i]),
            }),
    decreases docs.len(),
{
    if docs.len() > 0 {
        lemma_transport_failure_marks_batch(start, docs.drop_last(), msg);
    }
}

/// Imports documents into an index through the bulk pipeline.
pub struct ImportService {}

impl ImportService {
    pub fn new() -> (r: ImportService) {
        ImportService {  }
    }

    /// The batch size that a request asks for, or the default.
    pub fn batch_size(&self, request: &ImportRequest) -> (r: u32)
        ensures
            r == match request.batch_size {
                Some(b) => b,
                None => DEFAULT_BATCH_SIZE,
            },
    {
        match request.batch_size {
            Some(b) => b,
            None => DEFAULT_BATCH_SIZE,
        }
    }
}

/// Whether an answer accounts for every document of a batch of `n`: the
/// transport failed (marking all of them), or there is one item per document.
pub open spec fn answers_every_document(response: Result<BulkResponse, String>, n: nat) -> bool {
    match response {
        Ok(resp) => resp.items@.len() == n,
        Err(_) => true,
    }
}

/// The bulk pipeline for one import: settings, documents not yet sent, the
/// batch in flight, and what has been recorded so far.
pub struct ImportRun {
    index: String,
    id_field: Option<String>,
    overwrite_existing: bool,
    batch_size: usize,
    remaining: VecDeque<Json>,
    batch: VecDeque<Json>,
    batch_start: usize,
    awaiting: bool,
    successful: u64,
    errors: Vec<ImportError>,
}

impl ImportRun {
    pub closed spec fn action(&self) -> Seq<char> {
        if self.overwrite_existing {
            "index"@
        } else {
            "create"@
        }
    }

    pub closed spec fn index(&self) -> Seq<char> {
        self.index@
    }

    pub closed spec fn id_field(&self) -> Option<Seq<char>> {
        opt_text(self.id_field)
    }

    pub closed spec fn batch_size(&self) -> nat {
        self.batch_size as nat
    }

    /// Documents not yet handed out, in input order.
    pub closed spec fn pending(&self) -> Seq<Json> {
        self.remaining@
    }

    /// Documents of the batch in flight, in input order.
    pub closed spec fn in_flight(&self) -> Seq<Json> {
        self.batch@
    }

    /// 0-based position of the first document of the batch in flight.
    pub closed spec fn start(&self) -> nat {
        self.batch_start as nat
    }

    /// Whether a batch has been handed out and not yet answered.
    pub closed spec fn awaiting(&self) -> bool {
        self.awaiting
    }

    /// Number of documents handed out so far.
    pub closed spec fn processed(&self) -> nat {
        (self.batch_start + self.batch@.len()) as nat
    }

    pub closed spec fn succeeded(&self) -> nat {
        self.successful as nat
    }

    pub closed spec fn failures(&self) -> Seq<FailureView> {
        failures_of(self.errors@)
    }

    pub closed spec fn wf(&self) -> bool {
        &&& self.batch_size >= 1
        &&& !self.awaiting ==> self.batch@.len() == 0
        &&& self.batch_start + self.batch@.len() + self.remaining@.len() <= usize::MAX
    }

    /// Whether recording `k` more items keeps every count and position in range.
    pub open spec fn has_room(&self, k: nat) -> bool {
        &&& self.succeeded() + self.failures().len() + k <= u64::MAX
        &&& self.start() + k < u64::MAX
    }

    /// A run over `documents`, in their order, with nothing sent yet.
    pub fn new(request: &ImportRequest, documents: Vec<Json>) -> (r: ImportRun)
        requires
            request.batch_size != Some(0u32),
        ensures
            r.wf(),
            !r.awaiting(),
            r.pending() == documents@,
            r.processed() == 0,
            r.start() == 0,
            r.succeeded() == 0,
            r.failures().len() == 0,
            r.index() == request.index@,
            r.id_field() == opt_text(request.id_field),
            r.action() == if request.overwrite_existing {
                "index"@
            } else {
                "create"@
            },
            r.batch_size() == match request.batch_size {
                Some(b) => b as nat,
                None => DEFAULT_BATCH_SIZE as nat,
            },
    {
        let mut docs = documents;
        let mut remaining: VecDeque<Json> = VecDeque::new();
        while docs.len() > 0
            invariant
                docs@ + remaining@ == documents@,
            decreases docs@.len(),
        {
            let d = docs.pop().unwrap();
            proof {
                assert(docs@.push(d) + remaining@ =~= docs@ + (seq![d] + remaining@));
            }
            remaining.push_front(d);
        }
        assert(remaining@ =~= documents@);
        assert(remaining.len() == remaining@.len());
        let batch_size: usize = match request.batch_size {
            Some(b) => b as usize,
            None => DEFAULT_BATCH_SIZE as usize,
        };
        ImportRun {
            index: request.index.clone(),
            id_field: crate::types::copy_opt_text(&request.id_field),
            overwrite_existing: request.overwrite_existing,
            batch_size,
            remaining,
            batch: VecDeque::new(),
            batch_start: 0,
            awaiting: false,
            successful: 0,
            errors: Vec::new(),
        }
    }

    /// Whether every document has been handed out and every batch answered.
    pub fn is_done(&self) -> (r: bool)
        ensures
            r == (!self.awaiting() && self.pending().len() == 0),
    {
        !self.awaiting && self.remaining.len() == 0
    }

    /// Hands out the body of the bulk request for the next batch: the next
    /// `batch_size` documents, or all that are left if fewer. Nothing when no
    /// document is left.
    pub fn next_batch(&mut self) -> (r: Option<String>)
        requires
            old(self).wf(),
            !old(self).awaiting(),
        ensures
            final(self).wf(),
            final(self).action() == old(self).action(),
            final(self).index() == old(self).index(),
            final(self).id_field() == old(self).id_field(),
            final(self).batch_size() == old(self).batch_size(),
            final(self).succeeded() == old(self).succeeded(),
            final(self).failures() == old(self).failures(),
            old(self).pending().len() == 0 ==> {
                &&& r is None
                &&& !final(self).awaiting()
                &&& final(self).pending() == old(self).pending()
                &&& final(self).start() == old(self).start()
                &&& final(self).processed() == old(self).processed()
            },
            old(self).pending().len() > 0 ==> {
                let k = min_nat(old(self).batch_size(), old(self).pending().len());
                &&& final(self).awaiting()
                &&& final(self).in_flight() == old(self).pending().take(k as int)
                &&& final(self).pending() == old(self).pending().skip(k as int)
                &&& final(self).start() == old(self).processed()
                &&& final(self).processed() == old(self).processed() + k
                &&& r matches Some(body) && body@ == batch_text(
                    old(self).action(),
                    old(self).index(),
                    old(self).id_field(),
                    old(self).pending().take(k as int),
                )
            },
    {
        if self.remaining.len() == 0 {
            return None;
        }
        let ghost pending = self.remaining@;
        let k: usize = if self.batch_size <= self.remaining.len() {
            self.batch_size
        } else {
            self.remaining.len()
        };
        let action: &str = if self.overwrite_existing {
            "index"
        } else {
            "create"
        };
        let mut body = String::new();
        let mut batch: VecDeque<Json> = VecDeque::new();
        let mut i: usize = 0;
        while i < k
            invariant
                k <= pending.len(),
                i <= k,
                batch@ == pending.take(i as int),
                self.remaining@ == pending.skip(i as int),
                body@ == batch_text(self.action(), self.index(), self.id_field(), batch@),
                action@ == self.action(),
                self.index == old(self).index,
                self.id_field == old(self).id_field,
                self.overwrite_existing == old(self).overwrite_existing,
                self.batch_size == old(self).batch_size,
                self.batch_start == old(self).batch_start,
                self.batch == old(self).batch,
                self.awaiting == old(self).awaiting,
                self.successful == old(self).successful,
                self.errors == old(self).errors,
                old(self).remaining@ == pending,
                old(self).wf(),
            decreases k - i,
        {
            let d = self.remaining.pop_front().unwrap();
            let id: Option<String> = match &self.id_field {
                Some(f) => match d.get(f.as_str()) {
                    Some(v) => match v.as_str() {
                        Some(s) => Some(s.clone()),
                        None => None,
                    },
                    None => None,
                },
                None => None,
            };
            append_op_lines(&mut body, action, self.index.as_str(), &id, Some(&d));
            batch.push_back(d);
            proof {
                assert(pending.skip(i as int).subrange(1, pending.skip(i as int).len() as int) =~= pending.skip(i + 1));
                assert(pending.take(i + 1) =~= pending.take(i as int).push(pending[i as int]));
                assert(batch@.drop_last() =~= pending.take(i as int));
            }
            i = i + 1;
        }
        self.batch = batch;
        self.awaiting = true;
        Some(body)
    }

    /// Records the answer to the batch in flight: a transport failure marks
    /// every document of the batch failed; otherwise each item of the
    /// response is a success or a failure with the reason it reports.
    pub fn record_response(&mut self, response: Result<BulkResponse, String>)
        requires
            old(self).wf(),
            old(self).awaiting(),
            old(self).has_room(
                match response {
                    Ok(resp) => resp.items@.len(),
                    Err(_) => old(self).in_flight().len(),
                },
            ),
        ensures
            final(self).wf(),
            !final(self).awaiting(),
            final(self).action() == old(self).action(),
            final(self).index() == old(self).index(),
            final(self).id_field() == old(self).id_field(),
            final(self).batch_size() == old(self).batch_size(),
            final(self).pending() == old(self).pending(),
            final(self).processed() == old(self).processed(),
            final(self).start() == old(self).processed(),
            match response {
                Err(msg) => {
                    &&& final(self).failures() == old(self).failures() + transport_failures(
                        old(self).start(),
                        old(self).in_flight(),
                        msg@,
                    )
                    &&& final(self).succeeded() == old(self).succeeded()
                },
                Ok(resp) => {
                    &&& final(self).failures() == old(self).failures() + item_failures(
                        old(self).start(),
                        old(self).in_flight(),
                        resp.items@,
                    )
                    &&& final(self).succeeded() == old(self).succeeded() + item_successes(resp.items@)
                },
            },
            answers_every_document(response, old(self).in_flight().len()) ==> final(self).succeeded()
                + final(self).failures().len() == old(self).succeeded() + old(self).failures().len()
                + old(self).in_flight().len(),
    {
        proof {
            if response is Ok {
                lemma_items_accounted(self.start(), self.in_flight(), response->Ok_0.items@);
            } else {
                lemma_transport_failure_marks_batch(self.start(), self.in_flight(), response->Err_0@);
            }
        }
        let ghost docs = self.batch@;
        let ghost old_errors = self.errors@;
        let start: usize = self.batch_start;
        let n: usize = self.batch.len();
        match response {
            Err(msg) => {
                let mut i: usize = 0;
                while i < n
                    invariant
                        n == docs.len(),
                        i <= n,
                        self.batch@ == docs.skip(i as int),
                        start == old(self).start(),
                        start + n < u64::MAX,
                        self.index == old(self).index,
                        self.id_field == old(self).id_field,
                        self.overwrite_existing == old(self).overwrite_existing,
                        self.batch_size == old(self).batch_size,
                        self.remaining == old(self).remaining,
                        self.successful == old(self).successful,
                        old(self).wf(),
                        failures_of(self.errors@) == failures_of(old_errors) + transport_failures(
                            start as nat,
                            docs.take(i as int),
                            msg@,
                        ),
                    decreases n - i,
                {
                    let d = self.batch.pop_front().unwrap();
                    let mut message = String::from_str("Bulk operation failed: ");
                    message.append(msg.as_str());
                    let e = ImportError {
                        line_number: start as u64 + i as u64 + 1,
                        error_message: message,
                        document: Some(d),
                    };
                    proof {
                        assert(docs.skip(i as int).subrange(1, docs.skip(i as int).len() as int) =~= docs.skip(i + 1));
                        assert(docs.take(i + 1).drop_last() =~= docs.take(i as int));
                        assert(failures_of(self.errors@.push(e)) =~= failures_of(self.errors@).push(e@));
                    }
                    self.errors.push(e);
                    i = i + 1;
                }
                assert(docs.take(n as int) =~= docs);
            },
            Ok(resp) => {
                let items = &resp.items;
                let mut i: usize = 0;
                while i < items.len()
                    invariant
                        i <= items@.len(),
                        items@ == resp.items@,
                        start == old(self).start(),
                        self.batch@ == if i <= docs.len() { docs.skip(i as int) } else { Seq::empty() },
                        self.successful + self.errors@.len() + items@.len() - i <= u64::MAX,
                        start + items@.len() < u64::MAX,
                        self.index == old(self).index,
                        self.id_field == old(self).id_field,
                        self.overwrite_existing == old(self).overwrite_existing,
                        self.batch_size == old(self).batch_size,
                        self.remaining == old(self).remaining,
                        old(self).wf(),
                        failures_of(self.errors@) == failures_of(old_errors) + item_failures(
                            start as nat,
                            docs,
                            items@.take(i as int),
                        ),
                        self.successful == old(self).succeeded() + item_successes(items@.take(i as int)),
                    decreases items@.len() - i,
                {
                    let d = self.batch.pop_front();
                    proof {
                        assert(items@.take(i + 1).drop_last() =~= items@.take(i as int));
                        assert(items@.take(i + 1).last() == items@[i as int]);
                        if i < docs.len() {
                            assert(docs.skip(i as int).subrange(1, docs.skip(i as int).len() as int) =~= docs.skip(i + 1));
                            assert(d == doc_at(docs, i as int));
                        } else {
                            assert(d == doc_at(docs, i as int));
                        }
                    }
                    match failure_reason(&items[i]) {
                        Some(reason) => {
                            let e = ImportError {
                                line_number: start as u64 + i as u64 + 1,
                                error_message: reason,
                                document: d,
                            };
                            proof {
                                assert(failures_of(self.errors@.push(e)) =~= failures_of(self.errors@).push(e@));
                            }
                            self.errors.push(e);
                        },
                        None => {
                            self.successful = self.successful + 1;
                        },
                    }
                    i = i + 1;
                }
                assert(items@.take(items@.len() as int) =~= items@);
                self.batch = VecDeque::new();
            },
        }
        self.batch_start = start + n;
        self.awaiting = false;
    }

    /// The summary of the run so far.
    pub fn finish(self) -> (r: ImportResult)
        requires
            self.wf(),
            !self.awaiting(),
        ensures
            r.total_processed == self.processed(),
            r.successful_imports == self.succeeded(),
            r.failed_imports == self.failures().len(),
            failures_of(r.errors@) == self.failures(),
            r.success == (self.failures().len() == 0),
            r.message@ == import_message(self.succeeded(), self.failures().len()),
    {
        let failed: u64 = self.errors.len() as u64;
        let succeeded = decimal_text(self.successful);
        let message = if failed == 0 {
            String::from_str("Successfully imported ").concat(succeeded.as_str()).concat(" documents")
        } else {
            let failed_text = decimal_text(failed);
            String::from_str("Imported ").concat(succeeded.as_str()).concat(" documents with ").concat(
                failed_text.as_str(),
            ).concat(" errors")
        };
        ImportResult {
            success: failed == 0,
            total_processed: self.batch_start as u64,
            successful_imports: self.successful,
            failed_imports: failed,
            errors: self.errors,
            message,
        }
    }
}

/// The reason of the first error that an action result of `item` holds.
fn failure_reason(item: &Json) -> (r: Option<String>)
    ensures
        opt_text(r) == item_failure(*item),
{
    match item {
        Json::Object(members) => {
            let mut j: usize = 0;
            assert(members@.skip(0) =~= members@);
            while j < members.len()
                invariant
                    *item == Json::Object(*members),
                    j <= members@.len(),
                    first_error(members@) == first_error(members@.skip(j as int)),
                decreases members@.len() - j,
            {
                proof {
                    assert(members@.skip(j as int).drop_first() =~= members@.skip(j + 1));
                    assert(members@.skip(j as int)[0] == members@[j as int]);
                }
                let result = &members[j].1;
                match result.get("error") {
                    Some(e) => {
                        let reason = match e.get("reason") {
                            Some(t) => match t.as_str() {
                                Some(s) => s.clone(),
                                None => String::from_str("Unknown error"),
                            },
                            None => String::from_str("Unknown error"),
                        };
                        return Some(reason);
                    },
                    None => {},
                }
                j = j + 1;
            }
            None
        },
        _ => None,
    }
}

} // verus!
