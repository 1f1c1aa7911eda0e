//! The selector engine: decides, part by part, whether a field is accepted,
//! ignored or rejected, and counts accepted files per field.

use vstd::prelude::*;
use crate::config::{
    clone_fields, fields_view, SelectedField, SelectedFieldKind, SelectedFieldView, Selector,
    SelectorView, UnknownFieldPolicy,
};
use crate::error::MulterError;

verus! {

/// Decision for an incoming part.
#[derive(Debug, Clone, Copy, PartialEq, Eq, Structural)]
pub enum SelectorAction {
    /// Accept and yield the part.
    Accept,
    /// Skip the part.
    Ignore,
}

/// The outcome of evaluating a part, as a mathematical value.
pub enum Verdict {
    Accept,
    Ignore,
    Unexpected,
    TooMany(usize),
}

/// Index of the last entry of `fields` named `name`: the entry that governs it.
pub open spec fn last_index(fields: Seq<SelectedFieldView>, name: Seq<char>) -> Option<int>
    decreases fields.len(),
{
    if fields.len() == 0 {
        None
    } else if fields.last().name == name {
        Some(fields.len() - 1)
    } else {
        last_index(fields.drop_last(), name)
    }
}

/// The rules that govern `name` in a `Fields` list.
pub open spec fn rules_for(fields: Seq<SelectedFieldView>, name: Seq<char>) -> Option<
    SelectedFieldView,
> {
    match last_index(fields, name) {
        Some(k) => Some(fields[k]),
        None => None,
    }
}

proof fn lemma_last_index(fields: Seq<SelectedFieldView>, name: Seq<char>)
    ensures
        last_index(fields, name) matches Some(k) ==> 0 <= k < fields.len() && fields[k].name
            == name,
        last_index(fields, name) is None ==> forall|j: int|
            0 <= j < fields.len() ==> #[trigger] fields[j].name != name,
    decreases fields.len(),
{
    if fields.len() > 0 && fields.last().name != name {
        lemma_last_index(fields.drop_last(), name);
        assert forall|j: int| 0 <= j < fields.len() - 1 implies #[trigger] fields[j].name
            == fields.drop_last()[j].name by {}
    }
}

/// What the unknown-field policy makes of a part.
pub open spec fn unknown_verdict(policy: UnknownFieldPolicy) -> Verdict {
    match policy {
        UnknownFieldPolicy::Reject => Verdict::Unexpected,
        UnknownFieldPolicy::Ignore => Verdict::Ignore,
    }
}

/// One more, saturating at the largest `usize`.
pub open spec fn bump(c: usize) -> usize {
    if c < usize::MAX {
        (c + 1) as usize
    } else {
        c
    }
}

/// Counting one more part against an optional maximum.
pub open spec fn counted_verdict(count: usize, max_count: Option<usize>) -> Verdict {
    match max_count {
        Some(m) => if bump(count) > m {
            Verdict::TooMany(m)
        } else {
            Verdict::Accept
        },
        None => Verdict::Accept,
    }
}

/// Does the selector count file parts named `name`?
pub open spec fn counts_files_named(sel: SelectorView, name: Seq<char>) -> bool {
    match sel {
        SelectorView::Single { name: f } => f == name,
        SelectorView::Array { name: f, .. } => f == name,
        SelectorView::Fields(fields) => rules_for(fields, name) matches Some(r) && r.kind
            == SelectedFieldKind::File,
        _ => false,
    }
}

/// The verdict on a file part named `name`, given how many were accepted so far.
pub open spec fn file_verdict(
    sel: SelectorView,
    policy: UnknownFieldPolicy,
    count: usize,
    name: Seq<char>,
) -> Verdict {
    match sel {
        SelectorView::Single { name: f } => if f == name {
            counted_verdict(count, Some(1usize))
        } else {
            unknown_verdict(policy)
        },
        SelectorView::Array { name: f, max_count } => if f == name {
            counted_verdict(count, max_count)
        } else {
            unknown_verdict(policy)
        },
        SelectorView::Fields(fields) => match rules_for(fields, name) {
            Some(r) => if r.kind == SelectedFieldKind::File {
                counted_verdict(count, r.max_count)
            } else {
                unknown_verdict(policy)
            },
            None => unknown_verdict(policy),
        },
        SelectorView::NoFiles => unknown_verdict(policy),
        SelectorView::Any => Verdict::Accept,
    }
}

/// The verdict on a text part named `name`.
pub open spec fn text_verdict(sel: SelectorView, policy: UnknownFieldPolicy, name: Seq<char>) -> Verdict {
    match sel {
        SelectorView::Fields(fields) => match rules_for(fields, name) {
            Some(r) => if r.kind == SelectedFieldKind::Text {
                Verdict::Accept
            } else {
                unknown_verdict(policy)
            },
            None => unknown_verdict(policy),
        },
        _ => Verdict::Accept,
    }
}

/// A result of evaluation carries `v` for a part named `name`.
pub open spec fn result_is(r: Result<SelectorAction, MulterError>, v: Verdict, name: Seq<char>) -> bool {
    match v {
        Verdict::Accept => r == Ok::<SelectorAction, MulterError>(SelectorAction::Accept),
        Verdict::Ignore => r == Ok::<SelectorAction, MulterError>(SelectorAction::Ignore),
        Verdict::Unexpected => r matches Err(MulterError::UnexpectedField { field }) && field@
            == name,
        Verdict::TooMany(m) => r matches Err(MulterError::FieldCountLimitExceeded { field, max_count })
            && field@ == name && max_count == m,
    }
}

fn same_text(a: &String, b: &str) -> (r: bool)
    ensures
        r == (a@ == b@),
{
    let t = b.to_owned();
    *a == t
}

/// The rules of a `Fields` selector, in order; empty for other selectors.
pub fn build_fields_map(selector: &Selector) -> (r: Vec<SelectedField>)
    ensures
        selector@ matches SelectorView::Fields(fields) ==> fields_view(r@) == fields,
        !(selector@ is Fields) ==> r@.len() == 0,
{
    match selector {
        Selector::Fields(fields) => clone_fields(fields),
        _ => Vec::new(),
    }
}

/// Stateful selector: the configured rules and the number of files accepted
/// per field so far.
pub struct SelectorEngine {
    selector: Selector,
    unknown_field_policy: UnknownFieldPolicy,
    fields: Vec<SelectedField>,
    counts: Vec<usize>,
    named_count: usize,
    tally: Ghost<Map<Seq<char>, usize>>,
}

/// The count that `m` records for `n` (zero when absent).
pub open spec fn count_in(m: Map<Seq<char>, usize>, n: Seq<char>) -> usize {
    if m.dom().contains(n) {
        m[n]
    } else {
        0
    }
}

impl SelectorEngine {
    /// The selector.
    pub closed spec fn selector_view(&self) -> SelectorView {
        self.selector@
    }

    /// The unknown-field policy.
    pub closed spec fn policy(&self) -> UnknownFieldPolicy {
        self.unknown_field_policy
    }

    /// Number of files accepted so far under `name`.
    pub closed spec fn count_of(&self, name: Seq<char>) -> usize {
        match self.selector@ {
            SelectorView::Single { name: f } => if f == name {
                self.named_count
            } else {
                0
            },
            SelectorView::Array { name: f, .. } => if f == name {
                self.named_count
            } else {
                0
            },
            SelectorView::Fields(fields) => match last_index(fields, name) {
                Some(k) => if rules_for(fields, name).unwrap().kind == SelectedFieldKind::File {
                    self.counts@[k]
                } else {
                    0
                },
                None => 0,
            },
            _ => 0,
        }
    }

    /// Files accepted so far, per field name.
    pub closed spec fn counts(&self) -> Map<Seq<char>, usize> {
        self.tally@
    }

    /// The count of a name is what the count map records for it.
    pub proof fn lemma_count_in(&self, n: Seq<char>)
        requires
            self.wf(),
        ensures
            self.count_of(n) == count_in(self.counts(), n),
    {
    }

    /// Internal consistency of the rules and counters.
    pub closed spec fn wf(&self) -> bool {
        &&& self.counts@.len() == self.fields@.len()
        &&& forall|n: Seq<char>| #[trigger] self.count_of(n) == count_in(self.tally@, n)
        &&& self.selector@ matches SelectorView::Fields(fs) ==> fs == fields_view(self.fields@)
    }

    /// A fresh engine: nothing counted yet.
    pub fn new(selector: Selector, unknown_field_policy: UnknownFieldPolicy) -> (r: Self)
        ensures
            r.wf(),
            r.selector_view() == selector@,
            r.policy() == unknown_field_policy,
            forall|n: Seq<char>| #[trigger] r.count_of(n) == 0,
            r.counts() == Map::<Seq<char>, usize>::empty(),
    {
        let fields = build_fields_map(&selector);
        let mut counts: Vec<usize> = Vec::new();
        let mut i: usize = 0;
        while i < fields.len()
            invariant
                i <= fields@.len(),
                counts@.len() == i,
                forall|j: int| 0 <= j < i ==> counts@[j] == 0,
            decreases fields@.len() - i,
        {
            counts.push(0);
            i = i + 1;
        }
        let r = SelectorEngine {
            selector,
            unknown_field_policy,
            fields,
            counts,
            named_count: 0,
            tally: Ghost(Map::empty()),
        };
        assert forall|n: Seq<char>| #[trigger] r.count_of(n) == 0 by {
            if let SelectorView::Fields(fs) = r.selector@ {
                lemma_last_index(fs, n);
            }
        }
        r
    }

    fn handle_unknown_field(&self, field_name: &str) -> (r: Result<SelectorAction, MulterError>)
        ensures
            result_is(r, unknown_verdict(self.unknown_field_policy), field_name@),
    {
        match self.unknown_field_policy {
            UnknownFieldPolicy::Reject => Err(
                MulterError::UnexpectedField { field: field_name.to_owned() },
            ),
            UnknownFieldPolicy::Ignore => Ok(SelectorAction::Ignore),
        }
    }

    fn find_rules(&self, field_name: &str) -> (r: Option<usize>)
        requires
            self.wf(),
            self.selector@ is Fields,
        ensures
            r matches Some(k) ==> k < self.fields@.len() && last_index(
                fields_view(self.fields@),
                field_name@,
            ) == Some(k as int),
            r is None ==> last_index(fields_view(self.fields@), field_name@) is None,
    {
        let ghost fv = fields_view(self.fields@);
        let name = field_name.to_owned();
        let mut i: usize = self.fields.len();
        assert(fv.subrange(0, i as int) == fv);
        while i > 0
            invariant
                i <= self.fields@.len(),
                fv == fields_view(self.fields@),
                name@ == field_name@,
                last_index(fv, field_name@) == last_index(fv.subrange(0, i as int), field_name@),
            decreases i,
        {
            let ghost pre = fv.subrange(0, i as int);
            assert(pre.drop_last() == fv.subrange(0, i - 1));
            assert(pre.last() == self.fields@[i - 1]@);
            if self.fields[i - 1].name == name {
                return Some(i - 1);
            }
            i = i - 1;
        }
        None
    }

    fn record_with_limit(count: usize, max_count: Option<usize>) -> (r: Result<usize, usize>)
        ensures
            counted_verdict(count, max_count) == Verdict::Accept ==> r == Ok::<usize, usize>(bump(count)),
            counted_verdict(count, max_count) matches Verdict::TooMany(m) ==> r == Err::<usize, usize>(m),
    {
        let next = if count < usize::MAX { count + 1 } else { count };
        if let Some(m) = max_count {
            if next > m {
                return Err(m);
            }
        }
        Ok(next)
    }

    /// Applies the selector to a file part named `field_name`: accepts (and
    /// counts it), ignores it, or fails.
    pub fn evaluate_file_field(&mut self, field_name: &str) -> (r: Result<SelectorAction, MulterError>)
        requires
            old(self).wf(),
        ensures
            final(self).wf(),
            final(self).selector_view() == old(self).selector_view(),
            final(self).policy() == old(self).policy(),
            result_is(
                r,
                file_verdict(
                    old(self).selector_view(),
                    old(self).policy(),
                    old(self).count_of(field_name@),
                    field_name@,
                ),
                field_name@,
            ),
            forall|n: Seq<char>| #[trigger] final(self).count_of(n) == if n == field_name@ && r
                is Ok && counts_files_named(old(self).selector_view(), n) {
                bump(old(self).count_of(n))
            } else {
                old(self).count_of(n)
            },
            final(self).counts() == if r is Ok && counts_files_named(old(self).selector_view(), field_name@) {
                old(self).counts().insert(field_name@, bump(old(self).count_of(field_name@)))
            } else {
                old(self).counts()
            },
    {
        let ghost before = *self;
        let r = self.evaluate_file_field_counted(field_name);
        let ghost name = field_name@;
        let ghost mid = *self;
        self.tally = Ghost(
            if r is Ok && counts_files_named(self.selector@, name) {
                self.tally@.insert(name, self.count_of(name))
            } else {
                self.tally@
            },
        );
        assert forall|n: Seq<char>| #[trigger] self.count_of(n) == mid.count_of(n) by {}
        assert forall|n: Seq<char>| #[trigger] self.count_of(n) == count_in(self.tally@, n) by {
            assert(before.count_of(n) == count_in(before.tally@, n));
        }
        r
    }

    fn evaluate_file_field_counted(&mut self, field_name: &str) -> (r: Result<SelectorAction, MulterError>)
        requires
            old(self).wf(),
        ensures
            final(self).counts@.len() == final(self).fields@.len(),
            final(self).selector_view() == old(self).selector_view(),
            final(self).selector@ matches SelectorView::Fields(fs) ==> fs == fields_view(final(self).fields@),
            final(self).policy() == old(self).policy(),
            final(self).tally == old(self).tally,
            result_is(
                r,
                file_verdict(
                    old(self).selector_view(),
                    old(self).policy(),
                    old(self).count_of(field_name@),
                    field_name@,
                ),
                field_name@,
            ),
            forall|n: Seq<char>| #[trigger] final(self).count_of(n) == if n == field_name@ && r
                is Ok && counts_files_named(old(self).selector_view(), n) {
                bump(old(self).count_of(n))
            } else {
                old(self).count_of(n)
            },
    {
        let ghost name = field_name@;
        let ghost old_self = *self;
        match &self.selector {
            Selector::Single { name: f } => {
                if !same_text(f, field_name) {
                    return self.handle_unknown_field(field_name);
                }
                match Self::record_with_limit(self.named_count, Some(1)) {
                    Ok(next) => {
                        self.named_count = next;
                        Ok(SelectorAction::Accept)
                    },
                    Err(m) => Err(
                        MulterError::FieldCountLimitExceeded { field: field_name.to_owned(), max_count: m },
                    ),
                }
            },
            Selector::Array { name: f, max_count } => {
                if !same_text(f, field_name) {
                    return self.handle_unknown_field(field_name);
                }
                match Self::record_with_limit(self.named_count, *max_count) {
                    Ok(next) => {
                        self.named_count = next;
                        Ok(SelectorAction::Accept)
                    },
                    Err(m) => Err(
                        MulterError::FieldCountLimitExceeded { field: field_name.to_owned(), max_count: m },
                    ),
                }
            },
            Selector::Fields(_) => {
                let ghost fv = fields_view(self.fields@);
                proof {
                    lemma_last_index(fv, name);
                }
                let k = match self.find_rules(field_name) {
                    Some(k) => k,
                    None => return self.handle_unknown_field(field_name),
                };
                assert(fv[k as int] == self.fields@[k as int]@);
                match self.fields[k].kind {
                    SelectedFieldKind::File => {},
                    SelectedFieldKind::Text => return self.handle_unknown_field(field_name),
                }
                match Self::record_with_limit(self.counts[k], self.fields[k].max_count) {
                    Ok(next) => {
                        self.counts.set(k, next);
                        proof {
                            assert forall|n: Seq<char>| n != name implies #[trigger] self.count_of(n)
                                == old_self.count_of(n) by {
                                lemma_last_index(fv, n);
                                if let Some(k2) = last_index(fv, n) {
                                    assert(fv[k2].name == n);
                                    assert(k2 != k);
                                    assert(self.counts@[k2] == old_self.counts@[k2]);
                                }
                            }
                        }
                        Ok(SelectorAction::Accept)
                    },
                    Err(m) => Err(
                        MulterError::FieldCountLimitExceeded { field: field_name.to_owned(), max_count: m },
                    ),
                }
            },
            Selector::NoFiles => self.handle_unknown_field(field_name),
            Selector::Any => Ok(SelectorAction::Accept),
        }
    }

    /// Applies the selector to a text part named `field_name`.
    pub fn evaluate_text_field(&self, field_name: &str) -> (r: Result<SelectorAction, MulterError>)
        requires
            self.wf(),
        ensures
            result_is(r, text_verdict(self.selector_view(), self.policy(), field_name@), field_name@),
    {
        match &self.selector {
            Selector::Fields(_) => {
                let ghost fv = fields_view(self.fields@);
                proof {
                    lemma_last_index(fv, field_name@);
                }
                let k = match self.find_rules(field_name) {
                    Some(k) => k,
                    None => return self.handle_unknown_field(field_name),
                };
                assert(fv[k as int] == self.fields@[k as int]@);
                match self.fields[k].kind {
                    SelectedFieldKind::Text => {},
                    SelectedFieldKind::File => return self.handle_unknown_field(field_name),
                }
                Ok(SelectorAction::Accept)
            },
            _ => Ok(SelectorAction::Accept),
        }
    }

    /// The MIME patterns configured for a selected field, if it is listed.
    pub fn field_allowed_mime_types(&self, field_name: &str) -> (r: Option<&Vec<String>>)
        requires
            self.wf(),
        ensures
            self.selector_view() matches SelectorView::Fields(fs) ==> match rules_for(fs, field_name@) {
                Some(rule) => r matches Some(v) && crate::limits::strings_view(v@) == rule.allowed_mime_types,
                None => r is None,
            },
            !(self.selector_view() is Fields) ==> r is None,
    {
        match &self.selector {
            Selector::Fields(_) => {
                let ghost fv = fields_view(self.fields@);
                match self.find_rules(field_name) {
                    Some(k) => {
                        assert(fv[k as int] == self.fields@[k as int]@);
                        Some(&self.fields[k].allowed_mime_types)
                    },
                    None => None,
                }
            },
            _ => None,
        }
    }

    /// The text size limit configured for a selected text field, if any.
    pub fn field_text_max_size(&self, field_name: &str) -> (r: Option<u64>)
        requires
            self.wf(),
        ensures
            r == (match self.selector_view() {
                SelectorView::Fields(fs) => match rules_for(fs, field_name@) {
                    Some(rule) => if rule.kind == SelectedFieldKind::Text {
                        rule.max_size
                    } else {
                        None
                    },
                    None => None,
                },
                _ => None,
            }),
    {
        match &self.selector {
            Selector::Fields(_) => {
                let ghost fv = fields_view(self.fields@);
                match self.find_rules(field_name) {
                    Some(k) => {
                        assert(fv[k as int] == self.fields@[k as int]@);
                        match self.fields[k].kind {
                            SelectedFieldKind::Text => self.fields[k].max_size,
                            SelectedFieldKind::File => None,
                        }
                    },
                    None => None,
                }
            },
            _ => None,
        }
    }
}

} // verus!
