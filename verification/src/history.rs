//! The history log: an append-only sequence of resolved requests. Indices
//! are assigned sequentially from zero at append time and are never reused;
//! `get` is a pure lookup.

use vstd::prelude::*;
use crate::template::{RequestTemplate, TemplateModel, ResponseSummary, ResponseModel, Method};
use crate::errors::{SpagError, ErrorModel};

verus! {

/// One record: a resolved request, when it was made, and its outcome if
/// execution completed.
#[derive(Debug, Clone, PartialEq, Eq)]
pub struct HistoryEntry {
    pub index: usize,
    pub timestamp: String,
    pub request: RequestTemplate,
    pub response: Option<ResponseSummary>,
}

pub ghost struct EntryModel {
    pub index: usize,
    pub timestamp: Seq<char>,
    pub request: TemplateModel,
    pub response: Option<ResponseModel>,
}

impl View for HistoryEntry {
    type V = EntryModel;

    open spec fn view(&self) -> EntryModel {
        EntryModel {
            index: self.index,
            timestamp: self.timestamp@,
            request: self.request@,
            response: match self.response {
                Option::Some(r) => Option::Some(r@),
                Option::None => Option::None,
            },
        }
    }
}

/// The append-only log.
#[derive(Debug, Clone, PartialEq, Eq)]
pub struct HistoryLog {
    pub entries: Vec<HistoryEntry>,
}

pub open spec fn log_view(h: &HistoryLog) -> Seq<EntryModel> {
    h.entries@.map_values(|e: HistoryEntry| e@)
}

/// Well-formed log: the entry at position `i` carries index `i`.
pub open spec fn log_wf(h: &HistoryLog) -> bool {
    forall|i: int| 0 <= i < log_view(h).len() ==> (#[trigger] log_view(h)[i].index) == i
}

impl HistoryLog {
    /// An empty log.
    pub fn new() -> (r: HistoryLog)
        ensures
            log_view(&r).len() == 0,
            log_wf(&r),
    {
        let r = HistoryLog { entries: Vec::new() };
        assert(log_view(&r) =~= Seq::<EntryModel>::empty());
        r
    }

    /// Number of entries.
    pub fn len(&self) -> (r: usize)
        ensures
            r == log_view(self).len(),
    {
        self.entries.len()
    }

    /// Append one resolved request, assigning it the next sequential index,
    /// and return that index.
    pub fn append(
        &mut self,
        request: RequestTemplate,
        response: Option<ResponseSummary>,
        timestamp: String,
    ) -> (r: usize)
        requires
            log_wf(old(self)),
        ensures
            log_wf(final(self)),
            r == log_view(old(self)).len(),
            log_view(final(self)) =~= log_view(old(self)).push(
                EntryModel {
                    index: r,
                    timestamp: timestamp@,
                    request: request@,
                    response: match response {
                        Option::Some(s) => Option::Some(s@),
                        Option::None => Option::None,
                    },
                },
            ),
    {
        let ghost v0 = log_view(self);
        let index = self.entries.len();
        let entry = HistoryEntry { index, timestamp, request, response };
        let ghost em = entry@;
        self.entries.push(entry);
        assert(log_view(self) =~= v0.push(em));
        assert forall|i: int| 0 <= i < log_view(self).len() implies (#[trigger] log_view(self)[i].index)
            == i by {
            if i < v0.len() {
                assert(log_view(self)[i] == v0[i]);
            }
        }
        index
    }

    /// The entry at `index`: a pure lookup, in range or an error.
    pub fn get(&self, index: usize) -> (r: Result<&HistoryEntry, SpagError>)
        ensures
            match r {
                Result::Ok(e) => index < log_view(self).len() && e@ == log_view(self)[index as int],
                Result::Err(err) => index >= log_view(self).len() && err@
                    == ErrorModel::IndexOutOfRange(index),
            },
    {
        if index < self.entries.len() {
            Ok(&self.entries[index])
        } else {
            Err(SpagError::IndexOutOfRange(index))
        }
    }

    /// The summary view for the listing command: `(index, method, resource,
    /// timestamp)` per entry, in order, without bodies.
    pub fn list(&self) -> (r: Vec<(usize, Method, String, String)>)
        ensures
            r@.len() == log_view(self).len(),
            forall|i: int| 0 <= i < r@.len() ==> {
                &&& (#[trigger] r@[i]).0 == log_view(self)[i].index
                &&& r@[i].1 == log_view(self)[i].request.method
                &&& r@[i].2@ == log_view(self)[i].request.resource
                &&& r@[i].3@ == log_view(self)[i].timestamp
            },
    {
        let mut out: Vec<(usize, Method, String, String)> = Vec::new();
        let mut k: usize = 0;
        while k < self.entries.len()
            invariant
                0 <= k <= self.entries.len(),
                out@.len() == k,
                forall|i: int| 0 <= i < k ==> {
                    &&& (#[trigger] out@[i]).0 == log_view(self)[i].index
                    &&& out@[i].1 == log_view(self)[i].request.method
                    &&& out@[i].2@ == log_view(self)[i].request.resource
                    &&& out@[i].3@ == log_view(self)[i].timestamp
                },
            decreases self.entries.len() - k,
        {
            let e = &self.entries[k];
            out.push((e.index, e.request.method, e.request.resource.clone(), e.timestamp.clone()));
            k = k + 1;
        }
        out
    }
}

/// Law: indices are assigned sequentially from zero and a lookup returns
/// the entry appended at that index. In a well-formed log of `n` entries,
/// the `k`-th append (counting from the current length) gets index `n + k`,
/// and reading any position returns exactly the entry that was appended
/// there.
pub proof fn lemma_history_sequential(h: Seq<EntryModel>, a: EntryModel, b: EntryModel)
    requires
        forall|i: int| 0 <= i < h.len() ==> (#[trigger] h[i].index) == i,
        a.index == h.len(),
        b.index == h.len() + 1,
    ensures
        ({
            let h2 = h.push(a).push(b);
            &&& forall|i: int| 0 <= i < h2.len() ==> (#[trigger] h2[i].index) == i
            &&& h2[h.len() as int] == a
            &&& h2[h.len() as int + 1] == b
            &&& h2.len() == h.len() + 2
        }),
{
    let h2 = h.push(a).push(b);
    assert forall|i: int| 0 <= i < h2.len() implies (#[trigger] h2[i].index) == i by {
        if i < h.len() {
            assert(h2[i] == h[i]);
        }
    }
}

} // verus!
