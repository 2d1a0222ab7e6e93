//! Looking operations up: by date, text, kind, flow and amount.

use vstd::prelude::*;
use vstd::string::*;
use crate::balance::text_view;
use crate::codexi::{
    lemma_net_total_bounded,
    lemma_total_amount_prefix,
    net_total,
    running_balance,
    Codexi,
};
use crate::date::Date;
use crate::error::CodexiError;
use crate::helpers::{calculate_new_balance, flexible_date, parse_flexible_date_range};
use crate::operation::Operation;
use crate::operation_flow::OperationFlow;
use crate::operation_kind::OperationKind;
use crate::text::{contains_chars, lowercase_chars, occurs_in, unicode_lowercase};

verus! {

/// One operation that a search found: its index in the whole ledger, the
/// operation itself, and the running balance behind it.
#[derive(Debug, Clone, Copy)]
pub struct SearchItem<'a> {
    pub index: usize,
    pub op: &'a Operation,
    pub balance: i64,
}

/// What a search looks for. Every condition that is present must hold of an
/// operation for it to be found.
#[derive(Debug)]
pub struct SearchFilter {
    /// The first day that is searched.
    pub from: Option<Date>,
    /// The last day that is searched.
    pub to: Option<Date>,
    /// A text that the description holds, whatever the case of its letters.
    pub text: Option<String>,
    /// The kind of the operation.
    pub kind: Option<OperationKind>,
    /// The flow of the operation.
    pub flow: Option<OperationFlow>,
    /// The one day that is searched.
    pub day: Option<Date>,
    /// The least amount, itself included.
    pub amount_min: Option<u64>,
    /// The greatest amount, itself included.
    pub amount_max: Option<u64>,
}

/// The conditions of a [`SearchFilter`], its text taken as a sequence of
/// characters.
pub struct SearchCriteria {
    pub from: Option<Date>,
    pub to: Option<Date>,
    pub text: Option<Seq<char>>,
    pub kind: Option<OperationKind>,
    pub flow: Option<OperationFlow>,
    pub day: Option<Date>,
    pub amount_min: Option<u64>,
    pub amount_max: Option<u64>,
}

impl View for SearchFilter {
    type V = SearchCriteria;

    open spec fn view(&self) -> SearchCriteria {
        SearchCriteria {
            from: self.from,
            to: self.to,
            text: text_view(self.text),
            kind: self.kind,
            flow: self.flow,
            day: self.day,
            amount_min: self.amount_min,
            amount_max: self.amount_max,
        }
    }
}

impl SearchCriteria {
    /// Whether the conditions other than the text hold of the operation.
    /// The amounts are compared as they are stored, without their sign.
    pub open spec fn admits_apart_from_text(self, op: Operation) -> bool {
        &&& self.from matches Some(first) ==> op.date.key() >= first.key()
        &&& self.to matches Some(last) ==> op.date.key() <= last.key()
        &&& self.flow matches Some(flow) ==> op.flow == flow
        &&& self.kind matches Some(kind) ==> op.kind == kind
        &&& self.day matches Some(day) ==> op.date == day
        &&& self.amount_min matches Some(least) ==> op.amount >= least
        &&& self.amount_max matches Some(most) ==> op.amount <= most
    }

    /// Whether the lower-case form of the text occurs in the lower-case
    /// form of the description.
    pub open spec fn admits_text(self, op: Operation) -> bool {
        self.text matches Some(text) ==> occurs_in(
            unicode_lowercase(text),
            unicode_lowercase(op.description@),
        )
    }

    /// Whether the search finds the operation.
    pub open spec fn admits(self, op: Operation) -> bool {
        self.admits_apart_from_text(op) && self.admits_text(op)
    }
}

/// The indices of the operations that the search finds, in ascending order.
pub open spec fn matching_indices(s: Seq<Operation>, criteria: SearchCriteria) -> Seq<int>
    decreases s.len(),
{
    if s.len() == 0 {
        Seq::empty()
    } else if criteria.admits(s.last()) {
        matching_indices(s.drop_last(), criteria).push(s.len() - 1)
    } else {
        matching_indices(s.drop_last(), criteria)
    }
}

/// The last `latest` of the indices, or all of them where there are no more
/// than that or no limit is given.
pub open spec fn latest_of(indices: Seq<int>, latest: Option<usize>) -> Seq<int> {
    match latest {
        Some(n) => if indices.len() <= n {
            indices
        } else {
            indices.skip(indices.len() - n)
        },
        None => indices,
    }
}

/// Whether the items are the operations of `s` at the given indices, in that
/// order, each with its index and with the running balance behind it.
pub open spec fn lists(items: Seq<SearchItem>, s: Seq<Operation>, indices: Seq<int>) -> bool {
    &&& items.len() == indices.len()
    &&& forall|k: int|
        0 <= k < items.len() ==> {
            &&& (#[trigger] items[k]).index == indices[k]
            &&& 0 <= indices[k] < s.len()
            &&& *items[k].op == s[indices[k]]
            &&& items[k].balance == running_balance(s, indices[k])
        }
}

/// What the texts and bounds of a search request ask for.
///
/// `from` and `to` are bounds that name a day, a month or a year; one that
/// cannot be read is an error. Where `flow`, `kind` or `day` cannot be
/// read, nothing can match, which is `Ok(None)`. The texts are looked at in
/// this order: `from`, `to`, `flow`, `kind`, `day`.
pub open spec fn search_request(
    from: Option<Seq<char>>,
    to: Option<Seq<char>>,
    text: Option<Seq<char>>,
    kind: Option<Seq<char>>,
    flow: Option<Seq<char>>,
    day: Option<Seq<char>>,
    amount_min: Option<u64>,
    amount_max: Option<u64>,
) -> Result<Option<SearchCriteria>, CodexiError> {
    if from matches Some(t) && flexible_date(t, true) is None {
        Err(CodexiError::InvalidDate)
    } else if to matches Some(t) && flexible_date(t, false) is None {
        Err(CodexiError::InvalidDate)
    } else if flow matches Some(t) && OperationFlow::parse(t) is None {
        Ok(None)
    } else if kind matches Some(t) && OperationKind::parse(t) is None {
        Ok(None)
    } else if day matches Some(t) && Date::parsed(t) is None {
        Ok(None)
    } else {
        Ok(
            Some(
                SearchCriteria {
                    from: match from {
                        Some(t) => flexible_date(t, true),
                        None => None,
                    },
                    to: match to {
                        Some(t) => flexible_date(t, false),
                        None => None,
                    },
                    text,
                    kind: match kind {
                        Some(t) => OperationKind::parse(t),
                        None => None,
                    },
                    flow: match flow {
                        Some(t) => OperationFlow::parse(t),
                        None => None,
                    },
                    day: match day {
                        Some(t) => Date::parsed(t),
                        None => None,
                    },
                    amount_min,
                    amount_max,
                },
            ),
        )
    }
}

/// The indices that a search finds are those of the operations that the
/// criteria admit, each once and in ascending order.
pub proof fn lemma_matching_indices(s: Seq<Operation>, criteria: SearchCriteria)
    ensures
        forall|k: int|
            0 <= k < matching_indices(s, criteria).len() ==> {
                let i = #[trigger] matching_indices(s, criteria)[k];
                0 <= i < s.len() && criteria.admits(s[i])
            },
        forall|k: int, l: int|
            0 <= k < l < matching_indices(s, criteria).len() ==> #[trigger] matching_indices(
                s,
                criteria,
            )[k] < #[trigger] matching_indices(s, criteria)[l],
        forall|i: int|
            0 <= i < s.len() && criteria.admits(#[trigger] s[i]) ==> matching_indices(
                s,
                criteria,
            ).contains(i),
        matching_indices(s, criteria).len() <= s.len(),
    decreases s.len(),
{
    if s.len() > 0 {
        let head = s.drop_last();
        lemma_matching_indices(head, criteria);
        let found = matching_indices(s, criteria);
        let earlier = matching_indices(head, criteria);
        assert forall|k: int| 0 <= k < found.len() implies {
            let i = #[trigger] found[k];
            0 <= i < s.len() && criteria.admits(s[i])
        } by {
            if k < earlier.len() {
                assert(found[k] == earlier[k]);
                assert(head[earlier[k]] == s[earlier[k]]);
            }
        }
        assert forall|k: int, l: int| 0 <= k < l < found.len() implies #[trigger] found[k]
            < #[trigger] found[l] by {
            assert(found[k] == earlier[k]);
            if l < earlier.len() {
                assert(found[l] == earlier[l]);
            }
        }
        assert forall|i: int| 0 <= i < s.len() && criteria.admits(
            #[trigger] s[i],
        ) implies found.contains(i) by {
            if i < head.len() {
                assert(head[i] == s[i]);
                let k = choose|k: int| 0 <= k < earlier.len() && earlier[k] == i;
                assert(found[k] == i);
            } else {
                assert(found[found.len() - 1] == i);
            }
        }
    }
}

impl SearchFilter {
    /// The filter without any condition.
    pub fn none() -> (r: SearchFilter)
        ensures
            r@.from is None,
            r@.to is None,
            r@.text is None,
            r@.kind is None,
            r@.flow is None,
            r@.day is None,
            r@.amount_min is None,
            r@.amount_max is None,
    {
        SearchFilter {
            from: None,
            to: None,
            text: None,
            kind: None,
            flow: None,
            day: None,
            amount_min: None,
            amount_max: None,
        }
    }

    /// Whether the conditions other than the text hold of the operation.
    pub fn accepts_apart_from_text(&self, op: &Operation) -> (b: bool)
        ensures
            b == self@.admits_apart_from_text(*op),
    {
        if let Some(first) = self.from {
            if op.date.is_before(&first) {
                return false;
            }
        }
        if let Some(last) = self.to {
            if op.date.is_after(&last) {
                return false;
            }
        }
        if let Some(flow) = self.flow {
            if op.flow != flow {
                return false;
            }
        }
        if let Some(kind) = self.kind {
            if op.kind != kind {
                return false;
            }
        }
        if let Some(day) = self.day {
            if op.date != day {
                return false;
            }
        }
        if let Some(least) = self.amount_min {
            if op.amount < least {
                return false;
            }
        }
        if let Some(most) = self.amount_max {
            if op.amount > most {
                return false;
            }
        }
        true
    }

    /// Reads the texts and bounds of a search request; see
    /// [`search_request`].
    pub fn parse(
        from: Option<String>,
        to: Option<String>,
        text: Option<String>,
        kind: Option<String>,
        flow: Option<String>,
        day: Option<String>,
        amount_min: Option<u64>,
        amount_max: Option<u64>,
    ) -> (r: Result<Option<SearchFilter>, CodexiError>)
        ensures
            match r {
                Ok(Some(filter)) => search_request(
                    text_view(from),
                    text_view(to),
                    text_view(text),
                    text_view(kind),
                    text_view(flow),
                    text_view(day),
                    amount_min,
                    amount_max,
                ) == Ok::<Option<SearchCriteria>, CodexiError>(Some(filter@)),
                Ok(None) => search_request(
                    text_view(from),
                    text_view(to),
                    text_view(text),
                    text_view(kind),
                    text_view(flow),
                    text_view(day),
                    amount_min,
                    amount_max,
                ) == Ok::<Option<SearchCriteria>, CodexiError>(None),
                Err(e) => search_request(
                    text_view(from),
                    text_view(to),
                    text_view(text),
                    text_view(kind),
                    text_view(flow),
                    text_view(day),
                    amount_min,
                    amount_max,
                ) == Err::<Option<SearchCriteria>, CodexiError>(e),
            },
    {
        let start = match &from {
            Some(t) => match parse_flexible_date_range(t.as_str(), true) {
                Ok(date) => Some(date),
                Err(e) => {
                    return Err(e);
                },
            },
            None => None,
        };
        let end = match &to {
            Some(t) => match parse_flexible_date_range(t.as_str(), false) {
                Ok(date) => Some(date),
                Err(e) => {
                    return Err(e);
                },
            },
            None => None,
        };
        let one_flow = match &flow {
            Some(t) => match OperationFlow::try_from_str(t.as_str()) {
                Ok(f) => Some(f),
                Err(_) => {
                    return Ok(None);
                },
            },
            None => None,
        };
        let one_kind = match &kind {
            Some(t) => match OperationKind::try_from_str(t.as_str()) {
                Ok(k) => Some(k),
                Err(_) => {
                    return Ok(None);
                },
            },
            None => None,
        };
        let one_day = match &day {
            Some(t) => match Date::parse(t.as_str()) {
                Some(date) => Some(date),
                None => {
                    return Ok(None);
                },
            },
            None => None,
        };
        Ok(
            Some(
                SearchFilter {
                    from: start,
                    to: end,
                    text,
                    kind: one_kind,
                    flow: one_flow,
                    day: one_day,
                    amount_min,
                    amount_max,
                },
            ),
        )
    }
}

impl Codexi {
    /// The operations that the filter admits, in stored order, each with its
    /// index in the whole ledger and the running balance behind it; with
    /// `latest`, no more than that many, taken from the end.
    pub fn search_with(&self, filter: &SearchFilter, latest: Option<usize>) -> (r: Vec<
        SearchItem<'_>,
    >)
        requires
            self.wf(),
        ensures
            lists(r@, self@, latest_of(matching_indices(self@, filter@), latest)),
    {
        let needle: Option<Vec<char>> = match &filter.text {
            Some(text) => Some(lowercase_chars(text.as_str())),
            None => None,
        };
        let mut matched: Vec<SearchItem> = Vec::new();
        let mut balance: i64 = 0;
        let mut i: usize = 0;
        while i < self.operations.len()
            invariant
                i <= self.operations.len(),
                self.wf(),
                balance == net_total(self@.take(i as int)),
                match needle {
                    Some(chars) => filter@.text matches Some(text) && chars@ == unicode_lowercase(
                        text,
                    ),
                    None => filter@.text is None,
                },
                lists(matched@, self@, matching_indices(self@.take(i as int), filter@)),
            decreases self.operations.len() - i,
        {
            let op = &self.operations[i];
            proof {
                assert(self@.take(i + 1).drop_last() =~= self@.take(i as int));
                lemma_total_amount_prefix(self@, i + 1);
                lemma_net_total_bounded(self@.take(i + 1));
            }
            balance =
            match calculate_new_balance(balance, op) {
                Ok(next) => next,
                Err(_) => balance,
            };
            let mut found = filter.accepts_apart_from_text(op);
            if found {
                if let Some(chars) = &needle {
                    let hay = lowercase_chars(op.description.as_str());
                    found = contains_chars(&hay, chars);
                }
            }
            if found {
                matched.push(SearchItem { index: i, op, balance });
            }
            i = i + 1;
        }
        assert(self@.take(i as int) =~= self@);
        if let Some(n) = latest {
            if matched.len() > n {
                let start = matched.len() - n;
                let ghost all = matched@;
                let tail = matched.split_off(start);
                assert(tail@ =~= all.skip(start as int));
                return tail;
            }
        }
        matched
    }

    /// The operations that a search request finds. `from` and `to` bound the
    /// dates, by day, month or year, and one that cannot be read is an
    /// error. `text` must occur in the description, whatever the case of the
    /// letters; `kind`, `flow` and `day` must be those of the operation, and
    /// where one of them cannot be read, nothing is found. `amount_min` and
    /// `amount_max` bound the amount, themselves included. `latest` keeps
    /// no more than that many of the operations found, taken from the end.
    pub fn search(
        &self,
        from: Option<String>,
        to: Option<String>,
        text: Option<String>,
        kind: Option<String>,
        flow: Option<String>,
        day: Option<String>,
        amount_min: Option<u64>,
        amount_max: Option<u64>,
        latest: Option<usize>,
    ) -> (r: Result<Vec<SearchItem<'_>>, CodexiError>)
        requires
            self.wf(),
        ensures
            match search_request(
                text_view(from),
                text_view(to),
                text_view(text),
                text_view(kind),
                text_view(flow),
                text_view(day),
                amount_min,
                amount_max,
            ) {
                Ok(Some(criteria)) => r matches Ok(items) && lists(
                    items@,
                    self@,
                    latest_of(matching_indices(self@, criteria), latest),
                ),
                Ok(None) => r matches Ok(items) && items@.len() == 0,
                Err(e) => r matches Err(f) && f == e,
            },
    {
        match SearchFilter::parse(from, to, text, kind, flow, day, amount_min, amount_max) {
            Ok(Some(filter)) => Ok(self.search_with(&filter, latest)),
            Ok(None) => Ok(Vec::new()),
            Err(e) => Err(e),
        }
    }
}

} // verus!
