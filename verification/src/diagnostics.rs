//! Compiler diagnostics: collecting them with a count per severity.
use vstd::prelude::*;

use crate::text::{opt_str_eq, opt_str_view};

verus! {

/// The package a diagnostic code belongs to (`None` for the compiler's own).
pub type ExternalPrefix = Option<&'static str>;

/// The name under which a filter is known in attributes.
pub type WellKnownFilterName = &'static str;

/// The category of the diagnostics that suggest source migrations.
pub const MIGRATION_CATEGORY: u8 = 12;

/// How grave a diagnostic is, from least to most.
#[derive(Clone, Copy, Debug, PartialEq, Eq, Hash)]
pub enum Severity {
    Warning,
    NonblockingError,
    BlockingError,
    Bug,
}

/// The position of a severity in the order from least to most grave.
pub open spec fn severity_rank(s: Severity) -> int {
    match s {
        Severity::Warning => 0,
        Severity::NonblockingError => 1,
        Severity::BlockingError => 2,
        Severity::Bug => 3,
    }
}

/// The severity at a position of the order.
pub open spec fn severity_at(i: int) -> Severity {
    if i == 0 {
        Severity::Warning
    } else if i == 1 {
        Severity::NonblockingError
    } else if i == 2 {
        Severity::BlockingError
    } else {
        Severity::Bug
    }
}

impl Severity {
    /// The position of the severity in the order from least to most grave.
    pub fn rank(&self) -> (r: usize)
        ensures
            r == severity_rank(*self),
            r < 4,
            severity_at(r as int) == *self,
    {
        match self {
            Severity::Warning => 0,
            Severity::NonblockingError => 1,
            Severity::BlockingError => 2,
            Severity::Bug => 3,
        }
    }

    /// The severity at a position of the order.
    pub fn from_rank(i: usize) -> (r: Severity)
        requires
            i < 4,
        ensures
            r == severity_at(i as int),
            severity_rank(r) == i,
    {
        if i == 0 {
            Severity::Warning
        } else if i == 1 {
            Severity::NonblockingError
        } else if i == 2 {
            Severity::BlockingError
        } else {
            Severity::Bug
        }
    }
}

/// What a diagnostic code says: its severity, category, code, message and
/// the package it belongs to.
#[derive(Clone, Copy, Debug, PartialEq, Eq, Hash)]
pub struct DiagnosticInfo {
    pub severity: Severity,
    pub category: u8,
    pub code: u8,
    pub message: &'static str,
    pub external_prefix: ExternalPrefix,
}

impl DiagnosticInfo {
    pub fn severity(&self) -> (r: Severity)
        ensures
            r == self.severity,
    {
        self.severity
    }

    pub fn category(&self) -> (r: u8)
        ensures
            r == self.category,
    {
        self.category
    }

    pub fn code(&self) -> (r: u8)
        ensures
            r == self.code,
    {
        self.code
    }

    pub fn message(&self) -> (r: &'static str)
        ensures
            r == self.message,
    {
        self.message
    }

    pub fn external_prefix(&self) -> (r: ExternalPrefix)
        ensures
            r == self.external_prefix,
    {
        self.external_prefix
    }

    /// The same information with another severity.
    pub fn set_severity(self, severity: Severity) -> (r: DiagnosticInfo)
        ensures
            r == (DiagnosticInfo { severity, ..self }),
    {
        DiagnosticInfo { severity, ..self }
    }
}

/// A span of a source file: the file's hash and byte offsets.
#[derive(Clone, Copy, Debug, PartialEq, Eq, Hash)]
pub struct Loc {
    pub file_hash: [u8; 32],
    pub start: u32,
    pub end: u32,
}

/// The location of the bytes from `start` up to `end` of the file with the
/// given hash (offsets kept to their low 32 bits).
pub fn make_loc(file_hash: [u8; 32], start: usize, end: usize) -> (r: Loc)
    ensures
        r == (Loc { file_hash, start: start as u32, end: end as u32 }),
{
    Loc { file_hash, start: start as u32, end: end as u32 }
}

/// A diagnostic: what it is, where, and further labels and notes.
#[derive(Debug, PartialEq, Eq)]
pub struct Diagnostic {
    info: DiagnosticInfo,
    primary_label: (Loc, String),
    secondary_labels: Vec<(Loc, String)>,
    notes: Vec<String>,
}

impl Diagnostic {
    pub closed spec fn spec_info(&self) -> DiagnosticInfo {
        self.info
    }

    pub closed spec fn spec_primary_label(&self) -> (Loc, Seq<char>) {
        (self.primary_label.0, self.primary_label.1@)
    }

    pub closed spec fn spec_secondary_labels(&self) -> Seq<(Loc, String)> {
        self.secondary_labels@
    }

    pub closed spec fn spec_notes(&self) -> Seq<String> {
        self.notes@
    }

    /// A diagnostic with the given code information, primary label,
    /// secondary labels and notes.
    pub fn new(
        info: DiagnosticInfo,
        primary_label: (Loc, String),
        secondary_labels: Vec<(Loc, String)>,
        notes: Vec<String>,
    ) -> (r: Self)
        ensures
            r.spec_info() == info,
            r.spec_primary_label() == (primary_label.0, primary_label.1@),
            r.spec_secondary_labels() == secondary_labels@,
            r.spec_notes() == notes@,
    {
        Diagnostic { info, primary_label, secondary_labels, notes }
    }

    /// The diagnostic with another code.
    pub fn set_code(self, info: DiagnosticInfo) -> (r: Self)
        ensures
            r.spec_info() == info,
            r.spec_primary_label() == self.spec_primary_label(),
            r.spec_secondary_labels() == self.spec_secondary_labels(),
            r.spec_notes() == self.spec_notes(),
    {
        Diagnostic { info, ..self }
    }

    /// The diagnostic with another severity.
    pub fn set_severity(self, severity: Severity) -> (r: Self)
        ensures
            r.spec_info() == (DiagnosticInfo { severity, ..self.spec_info() }),
            r.spec_primary_label() == self.spec_primary_label(),
            r.spec_secondary_labels() == self.spec_secondary_labels(),
            r.spec_notes() == self.spec_notes(),
    {
        let info = self.info.set_severity(severity);
        Diagnostic { info, ..self }
    }

    /// Adds secondary labels after the present ones.
    pub fn add_secondary_labels(&mut self, additional_labels: Vec<(Loc, String)>)
        ensures
            final(self).spec_secondary_labels() == old(self).spec_secondary_labels()
                + additional_labels@,
            final(self).spec_info() == old(self).spec_info(),
            final(self).spec_primary_label() == old(self).spec_primary_label(),
            final(self).spec_notes() == old(self).spec_notes(),
    {
        let mut additional_labels = additional_labels;
        self.secondary_labels.append(&mut additional_labels);
    }

    /// Adds a secondary label after the present ones.
    pub fn add_secondary_label(&mut self, label: (Loc, String))
        ensures
            final(self).spec_secondary_labels() == old(self).spec_secondary_labels().push(label),
            final(self).spec_info() == old(self).spec_info(),
            final(self).spec_primary_label() == old(self).spec_primary_label(),
            final(self).spec_notes() == old(self).spec_notes(),
    {
        self.secondary_labels.push(label)
    }

    /// The number of secondary labels and notes.
    pub fn extra_labels_len(&self) -> (r: usize)
        requires
            self.spec_secondary_labels().len() + self.spec_notes().len() <= usize::MAX,
        ensures
            r == self.spec_secondary_labels().len() + self.spec_notes().len(),
    {
        self.secondary_labels.len() + self.notes.len()
    }

    /// Adds notes after the present ones.
    pub fn add_notes(&mut self, additional_notes: Vec<String>)
        ensures
            final(self).spec_notes() == old(self).spec_notes() + additional_notes@,
            final(self).spec_info() == old(self).spec_info(),
            final(self).spec_primary_label() == old(self).spec_primary_label(),
            final(self).spec_secondary_labels() == old(self).spec_secondary_labels(),
    {
        let mut additional_notes = additional_notes;
        self.notes.append(&mut additional_notes);
    }

    /// Adds a note after the present ones.
    pub fn add_note(&mut self, msg: String)
        ensures
            final(self).spec_notes() == old(self).spec_notes().push(msg),
            final(self).spec_info() == old(self).spec_info(),
            final(self).spec_primary_label() == old(self).spec_primary_label(),
            final(self).spec_secondary_labels() == old(self).spec_secondary_labels(),
    {
        self.notes.push(msg)
    }

    /// The code information.
    pub fn info(&self) -> (r: &DiagnosticInfo)
        ensures
            *r == self.spec_info(),
    {
        &self.info
    }

    /// The location of the primary label.
    pub fn primary_loc(&self) -> (r: Loc)
        ensures
            r == self.spec_primary_label().0,
    {
        self.primary_label.0
    }

    /// The message of the primary label.
    pub fn primary_msg(&self) -> (r: &str)
        ensures
            r@ == self.spec_primary_label().1,
    {
        self.primary_label.1.as_str()
    }

    /// The diagnostic suggests a source migration.
    pub fn is_migration(&self) -> (r: bool)
        ensures
            r == (self.spec_info().category == MIGRATION_CATEGORY),
    {
        self.info.category() == MIGRATION_CATEGORY
    }
}

/// Two diagnostics say the same: the same code information, labels and
/// notes.
pub open spec fn same_diagnostic(a: Diagnostic, b: Diagnostic) -> bool {
    &&& a.spec_info() == b.spec_info()
    &&& a.spec_primary_label() == b.spec_primary_label()
    &&& a.spec_secondary_labels() == b.spec_secondary_labels()
    &&& a.spec_notes() == b.spec_notes()
}

/// The diagnostics that suggest source migrations, in order.
pub open spec fn migrations_of(diags: Seq<Diagnostic>) -> Seq<Diagnostic>
    decreases diags.len(),
{
    if diags.len() == 0 {
        diags
    } else {
        let rest = migrations_of(diags.drop_last());
        if diags.last().spec_info().category == MIGRATION_CATEGORY {
            rest.push(diags.last())
        } else {
            rest
        }
    }
}

/// A copy of a diagnostic.
fn copy_diagnostic(d: &Diagnostic) -> (r: Diagnostic)
    ensures
        same_diagnostic(r, *d),
{
    let mut secondary: Vec<(Loc, String)> = Vec::new();
    let mut i: usize = 0;
    while i < d.secondary_labels.len()
        invariant
            i <= d.secondary_labels@.len(),
            secondary@ == d.secondary_labels@.take(i as int),
        decreases d.secondary_labels@.len() - i,
    {
        let label = &d.secondary_labels[i];
        secondary.push((label.0, label.1.clone()));
        i = i + 1;
        assert(secondary@ =~= d.secondary_labels@.take(i as int));
    }
    let mut notes: Vec<String> = Vec::new();
    let mut j: usize = 0;
    while j < d.notes.len()
        invariant
            j <= d.notes@.len(),
            notes@ == d.notes@.take(j as int),
        decreases d.notes@.len() - j,
    {
        notes.push(d.notes[j].clone());
        j = j + 1;
        assert(notes@ =~= d.notes@.take(j as int));
    }
    proof {
        assert(d.secondary_labels@.take(i as int) =~= d.secondary_labels@);
        assert(d.notes@.take(j as int) =~= d.notes@);
    }
    Diagnostic {
        info: d.info,
        primary_label: (d.primary_label.0, d.primary_label.1.clone()),
        secondary_labels: secondary,
        notes,
    }
}

/// The number of diagnostics of a severity in a sequence.
pub open spec fn count_severity(diags: Seq<Diagnostic>, s: Severity) -> nat
    decreases diags.len(),
{
    if diags.len() == 0 {
        0
    } else {
        count_severity(diags.drop_last(), s) + if diags.last().spec_info().severity == s {
            1nat
        } else {
            0nat
        }
    }
}

/// The number of diagnostics in a sequence whose severity is at least as
/// grave as `threshold`.
pub open spec fn count_at_or_above(diags: Seq<Diagnostic>, threshold: Severity) -> nat
    decreases diags.len(),
{
    if diags.len() == 0 {
        0
    } else {
        count_at_or_above(diags.drop_last(), threshold) + if severity_rank(
            diags.last().spec_info().severity,
        ) >= severity_rank(threshold) {
            1nat
        } else {
            0nat
        }
    }
}

/// Counting the diagnostics at or above a threshold is adding up the counts
/// of each severity at or above it.
proof fn lemma_count_at_or_above_by_severity(diags: Seq<Diagnostic>, threshold: Severity)
    ensures
        count_at_or_above(diags, threshold) == (if severity_rank(threshold) <= 0 {
            count_severity(diags, Severity::Warning)
        } else {
            0
        }) + (if severity_rank(threshold) <= 1 {
            count_severity(diags, Severity::NonblockingError)
        } else {
            0
        }) + (if severity_rank(threshold) <= 2 {
            count_severity(diags, Severity::BlockingError)
        } else {
            0
        }) + count_severity(diags, Severity::Bug),
    decreases diags.len(),
{
    if diags.len() > 0 {
        lemma_count_at_or_above_by_severity(diags.drop_last(), threshold);
    }
}

/// A severity is counted in a sequence exactly when some diagnostic of the
/// sequence has it.
proof fn lemma_count_severity_positive(diags: Seq<Diagnostic>, s: Severity)
    ensures
        count_severity(diags, s) > 0 <==> exists|i: int|
            0 <= i < diags.len() && (#[trigger] diags[i]).spec_info().severity == s,
    decreases diags.len(),
{
    if diags.len() > 0 {
        let init = diags.drop_last();
        lemma_count_severity_positive(init, s);
        if count_severity(init, s) > 0 {
            let i = choose|i: int| 0 <= i < init.len() && (#[trigger] init[i]).spec_info().severity == s;
            assert(diags[i] == init[i]);
        }
        if exists|i: int| 0 <= i < diags.len() && (#[trigger] diags[i]).spec_info().severity == s {
            let i = choose|i: int| 0 <= i < diags.len() && (#[trigger] diags[i]).spec_info().severity == s;
            if i < diags.len() - 1 {
                assert(init[i] == diags[i]);
            }
        }
    }
}

/// The count of diagnostics of a sequence is that of its parts.
pub proof fn lemma_count_severity_concat(a: Seq<Diagnostic>, b: Seq<Diagnostic>, s: Severity)
    ensures
        count_severity(a + b, s) == count_severity(a, s) + count_severity(b, s),
    decreases b.len(),
{
    if b.len() == 0 {
        assert(a + b =~= a);
    } else {
        lemma_count_severity_concat(a, b.drop_last(), s);
        assert((a + b).drop_last() =~= a + b.drop_last());
    }
}

/// A sequence holds at least as many diagnostics as it holds of any severity.
pub proof fn lemma_count_severity_le_len(diags: Seq<Diagnostic>, s: Severity)
    ensures
        count_severity(diags, s) <= diags.len(),
    decreases diags.len(),
{
    if diags.len() > 0 {
        lemma_count_severity_le_len(diags.drop_last(), s);
    }
}

/// The diagnostics of `diags` whose flag in `keep` is set, in order.
pub open spec fn select(diags: Seq<Diagnostic>, keep: Seq<bool>) -> Seq<Diagnostic>
    decreases diags.len(),
{
    if diags.len() == 0 || keep.len() == 0 {
        Seq::empty()
    } else {
        let rest = select(diags.drop_last(), keep.drop_last());
        if keep.last() {
            rest.push(diags.last())
        } else {
            rest
        }
    }
}

#[derive(Debug, PartialEq, Eq)]
struct DiagnosticsInner {
    diagnostics: Vec<Diagnostic>,
    /// Diagnostics that the source code filtered out.
    filtered_source_diagnostics: Vec<Diagnostic>,
    /// The number of diagnostics of each severity, by rank.
    severity_count: [usize; 4],
}

/// A collection of diagnostics with the number of diagnostics of each
/// severity that were added.
#[derive(Debug, PartialEq, Eq)]
pub struct Diagnostics(Option<DiagnosticsInner>);


impl Diagnostics {
    /// The diagnostics held, in the order they were added.
    pub closed spec fn spec_diags(&self) -> Seq<Diagnostic> {
        match self.0 {
            Some(inner) => inner.diagnostics@,
            None => Seq::empty(),
        }
    }

    /// The diagnostics that source code filtered out.
    pub closed spec fn spec_filtered(&self) -> Seq<Diagnostic> {
        match self.0 {
            Some(inner) => inner.filtered_source_diagnostics@,
            None => Seq::empty(),
        }
    }

    /// The recorded number of diagnostics of a severity.
    pub closed spec fn spec_count(&self, s: Severity) -> nat {
        match self.0 {
            Some(inner) => inner.severity_count[severity_rank(s)] as nat,
            None => 0,
        }
    }

    /// The recorded counts are those of the diagnostics held.
    pub open spec fn counts_match(&self) -> bool {
        forall|s: Severity| #[trigger] self.spec_count(s) == count_severity(self.spec_diags(), s)
    }

    /// The recorded number of diagnostics at or above a severity.
    pub open spec fn spec_count_at_or_above(&self, threshold: Severity) -> nat {
        let t = severity_rank(threshold);
        (if t <= 0 { self.spec_count(Severity::Warning) } else { 0 }) + (if t <= 1 {
            self.spec_count(Severity::NonblockingError)
        } else {
            0
        }) + (if t <= 2 {
            self.spec_count(Severity::BlockingError)
        } else {
            0
        }) + self.spec_count(Severity::Bug)
    }

    /// The gravest severity with a non-zero count.
    pub open spec fn spec_max_severity(&self) -> Option<Severity> {
        if self.spec_count(Severity::Bug) > 0 {
            Some(Severity::Bug)
        } else if self.spec_count(Severity::BlockingError) > 0 {
            Some(Severity::BlockingError)
        } else if self.spec_count(Severity::NonblockingError) > 0 {
            Some(Severity::NonblockingError)
        } else if self.spec_count(Severity::Warning) > 0 {
            Some(Severity::Warning)
        } else {
            None
        }
    }

    proof fn lemma_count_rank(&self, i: int)
        requires
            0 <= i < 4,
            self.0 is Some,
        ensures
            self.spec_count(severity_at(i)) == self.0.unwrap().severity_count[i] as nat,
    {
    }

    /// No diagnostics.
    pub fn new() -> (r: Self)
        ensures
            r.spec_diags() == Seq::<Diagnostic>::empty(),
            r.spec_filtered() == Seq::<Diagnostic>::empty(),
            forall|s: Severity| r.spec_count(s) == 0,
            r.counts_match(),
    {
        Diagnostics(None)
    }

    /// The gravest severity of the diagnostics added.
    pub fn max_severity(&self) -> (r: Option<Severity>)
        ensures
            r == self.spec_max_severity(),
    {
        match &self.0 {
            None => None,
            Some(inner) => {
                if inner.severity_count[3] > 0 {
                    Some(Severity::Bug)
                } else if inner.severity_count[2] > 0 {
                    Some(Severity::BlockingError)
                } else if inner.severity_count[1] > 0 {
                    Some(Severity::NonblockingError)
                } else if inner.severity_count[0] > 0 {
                    Some(Severity::Warning)
                } else {
                    None
                }
            },
        }
    }

    /// The number of diagnostics added at or above a severity.
    pub fn count_diags_at_or_above_severity(&self, threshold: Severity) -> (r: usize)
        requires
            self.spec_count_at_or_above(threshold) <= usize::MAX,
        ensures
            r == self.spec_count_at_or_above(threshold),
            self.counts_match() ==> r == count_at_or_above(self.spec_diags(), threshold),
    {
        proof {
            if self.counts_match() {
                count_at_or_above_counts_held_diagnostics(*self, threshold);
            }
        }
        match &self.0 {
            None => 0,
            Some(inner) => {
                let t = threshold.rank();
                proof {
                    self.lemma_count_rank(0);
                    self.lemma_count_rank(1);
                    self.lemma_count_rank(2);
                    self.lemma_count_rank(3);
                }
                let mut sum: usize = inner.severity_count[3];
                if t <= 2 {
                    sum = sum + inner.severity_count[2];
                }
                if t <= 1 {
                    sum = sum + inner.severity_count[1];
                }
                if t == 0 {
                    sum = sum + inner.severity_count[0];
                }
                sum
            },
        }
    }

    /// No diagnostic is held.
    pub fn is_empty(&self) -> (r: bool)
        ensures
            r == (self.spec_diags().len() == 0),
    {
        match &self.0 {
            None => true,
            Some(inner) => inner.diagnostics.len() == 0,
        }
    }

    /// The number of diagnostics held.
    pub fn len(&self) -> (r: usize)
        ensures
            r == self.spec_diags().len(),
    {
        match &self.0 {
            None => 0,
            Some(inner) => inner.diagnostics.len(),
        }
    }

    /// Adds a diagnostic and counts it under its severity.
    pub fn add(&mut self, diag: Diagnostic)
        requires
            old(self).spec_count(diag.spec_info().severity) < usize::MAX,
        ensures
            final(self).spec_diags() == old(self).spec_diags().push(diag),
            final(self).spec_filtered() == old(self).spec_filtered(),
            forall|s: Severity| #[trigger]
                final(self).spec_count(s) == old(self).spec_count(s) + if s
                    == diag.spec_info().severity {
                    1nat
                } else {
                    0nat
                },
            old(self).counts_match() ==> final(self).counts_match(),
    {
        if self.0.is_none() {
            self.0 = Some(DiagnosticsInner {
                diagnostics: Vec::new(),
                filtered_source_diagnostics: Vec::new(),
                severity_count: [0, 0, 0, 0],
            });
        }
        let ghost prev = *self;
        match &mut self.0 {
            Some(inner) => {
                let k = diag.info.severity.rank();
                inner.severity_count[k] = inner.severity_count[k] + 1;
                inner.diagnostics.push(diag);
            },
            None => {},
        }
        proof {
            assert(self.spec_diags().drop_last() =~= old(self).spec_diags());
            assert forall|s: Severity| #[trigger]
                self.spec_count(s) == old(self).spec_count(s) + if s
                    == diag.spec_info().severity {
                    1nat
                } else {
                    0nat
                } by {
                if severity_rank(s) == severity_rank(diag.spec_info().severity) {
                    assert(s == diag.spec_info().severity);
                }
            }
        }
    }

    /// Adds the diagnostic, if any.
    pub fn add_opt(&mut self, diag_opt: Option<Diagnostic>)
        requires
            diag_opt matches Some(d) ==> old(self).spec_count(d.spec_info().severity) < usize::MAX,
        ensures
            final(self).spec_diags() == match diag_opt {
                Some(d) => old(self).spec_diags().push(d),
                None => old(self).spec_diags(),
            },
            final(self).spec_filtered() == old(self).spec_filtered(),
            forall|s: Severity| #[trigger]
                final(self).spec_count(s) == old(self).spec_count(s) + match diag_opt {
                    Some(d) => if s == d.spec_info().severity {
                        1nat
                    } else {
                        0nat
                    },
                    None => 0nat,
                },
            old(self).counts_match() ==> final(self).counts_match(),
    {
        if let Some(diag) = diag_opt {
            self.add(diag)
        }
    }

    /// Records a diagnostic that source code filtered out.
    pub fn add_source_filtered(&mut self, diag: Diagnostic)
        ensures
            final(self).spec_filtered() == old(self).spec_filtered().push(diag),
            final(self).spec_diags() == old(self).spec_diags(),
            forall|s: Severity| #[trigger] final(self).spec_count(s) == old(self).spec_count(s),
            old(self).counts_match() ==> final(self).counts_match(),
    {
        if self.0.is_none() {
            self.0 = Some(DiagnosticsInner {
                diagnostics: Vec::new(),
                filtered_source_diagnostics: Vec::new(),
                severity_count: [0, 0, 0, 0],
            });
        }
        match &mut self.0 {
            Some(inner) => {
                inner.filtered_source_diagnostics.push(diag);
            },
            None => {},
        }
        proof {
            if old(self).counts_match() {
                assert forall|s: Severity| #[trigger] self.spec_count(s) == count_severity(
                    self.spec_diags(),
                    s,
                ) by {
                    assert(old(self).spec_count(s) == count_severity(old(self).spec_diags(), s));
                }
            }
        }
    }

    /// Adds the diagnostics of `other` after these, with their counts; the
    /// diagnostics that `other` filtered out are dropped.
    pub fn extend(&mut self, other: Self)
        requires
            forall|s: Severity| #[trigger]
                old(self).spec_count(s) + other.spec_count(s) <= usize::MAX,
        ensures
            final(self).spec_diags() == old(self).spec_diags() + other.spec_diags(),
            final(self).spec_filtered() == old(self).spec_filtered(),
            forall|s: Severity| #[trigger]
                final(self).spec_count(s) == old(self).spec_count(s) + other.spec_count(s),
            old(self).counts_match() && other.counts_match() ==> final(self).counts_match(),
    {
        let Diagnostics(other_inner) = other;
        let DiagnosticsInner { diagnostics, filtered_source_diagnostics: _, severity_count } =
            match other_inner {
            Some(i) => i,
            None => {
                proof {
                    assert(old(self).spec_diags() + other.spec_diags() =~= old(self).spec_diags());
                }
                return ;
            },
        };
        if self.0.is_none() {
            self.0 = Some(DiagnosticsInner {
                diagnostics: Vec::new(),
                filtered_source_diagnostics: Vec::new(),
                severity_count: [0, 0, 0, 0],
            });
        }
        let mut diagnostics = diagnostics;
        match &mut self.0 {
            Some(inner) => {
                proof {
                    assert forall|i: int| 0 <= i < 4 implies inner.severity_count[i]
                        + severity_count[i] <= usize::MAX by {
                        assert(old(self).spec_count(severity_at(i)) + other.spec_count(
                            severity_at(i),
                        ) <= usize::MAX);
                    }
                }
                let c0 = inner.severity_count[0] + severity_count[0];
                let c1 = inner.severity_count[1] + severity_count[1];
                let c2 = inner.severity_count[2] + severity_count[2];
                let c3 = inner.severity_count[3] + severity_count[3];
                inner.severity_count = [c0, c1, c2, c3];
                inner.diagnostics.append(&mut diagnostics);
            },
            None => {},
        }
        proof {
            assert forall|s: Severity| #[trigger]
                self.spec_count(s) == old(self).spec_count(s) + other.spec_count(s) by {
                let r = severity_rank(s);
                assert(severity_at(r) == s);
            }
            assert forall|s: Severity| old(self).counts_match() && other.counts_match() implies #[trigger] self.spec_count(s)
                == count_severity(self.spec_diags(), s) by {
                lemma_count_severity_concat(old(self).spec_diags(), other.spec_diags(), s);
            }
        }
    }

    /// Copies of the diagnostics that suggest source migrations, in order.
    pub fn migration_diagnostics(&self) -> (r: Vec<Diagnostic>)
        ensures
            r@.len() == migrations_of(self.spec_diags()).len(),
            forall|i: int|
                0 <= i < r@.len() ==> same_diagnostic(
                    #[trigger] r@[i],
                    migrations_of(self.spec_diags())[i],
                ),
    {
        let mut out: Vec<Diagnostic> = Vec::new();
        match &self.0 {
            None => {},
            Some(inner) => {
                let all = &inner.diagnostics;
                let mut i: usize = 0;
                while i < all.len()
                    invariant
                        i <= all@.len(),
                        all@ == self.spec_diags(),
                        out@.len() == migrations_of(all@.take(i as int)).len(),
                        forall|k: int|
                            0 <= k < out@.len() ==> same_diagnostic(
                                #[trigger] out@[k],
                                migrations_of(all@.take(i as int))[k],
                            ),
                    decreases all@.len() - i,
                {
                    proof {
                        assert(all@.take(i + 1).drop_last() =~= all@.take(i as int));
                    }
                    if all[i].is_migration() {
                        out.push(copy_diagnostic(&all[i]));
                    }
                    i = i + 1;
                }
                proof {
                    assert(all@.take(i as int) =~= all@);
                }
            },
        }
        out
    }

    /// The diagnostics held.
    pub fn into_vec(self) -> (r: Vec<Diagnostic>)
        ensures
            r@ == self.spec_diags(),
    {
        match self.0 {
            Some(inner) => inner.diagnostics,
            None => Vec::new(),
        }
    }

    /// Keeps the diagnostics for which `f` holds, in order. The counts are
    /// left as they were: they still count the diagnostics that were added.
    pub fn retain<F: Fn(&Diagnostic) -> bool>(&mut self, f: F)
        requires
            forall|d: &Diagnostic| #[trigger] f.requires((d,)),
        ensures
            exists|keep: Seq<bool>|
                {
                    &&& keep.len() == old(self).spec_diags().len()
                    &&& forall|i: int|
                        0 <= i < keep.len() ==> f.ensures(
                            (&old(self).spec_diags()[i],),
                            #[trigger] keep[i],
                        )
                    &&& final(self).spec_diags() == select(old(self).spec_diags(), keep)
                },
            final(self).spec_filtered() == old(self).spec_filtered(),
            forall|s: Severity| #[trigger] final(self).spec_count(s) == old(self).spec_count(s),
    {
        let ghost all = self.spec_diags();
        match &mut self.0 {
            None => {
                proof {
                    assert(select(all, Seq::<bool>::empty()) =~= Seq::<Diagnostic>::empty());
                }
            },
            Some(inner) => {
                let mut pending: Vec<Diagnostic> = Vec::new();
                std::mem::swap(&mut inner.diagnostics, &mut pending);
                let mut reversed: Vec<Diagnostic> = Vec::new();
                while pending.len() > 0
                    invariant
                        pending@.len() <= all.len(),
                        pending@ == all.take(pending@.len() as int),
                        reversed@ == all.skip(pending@.len() as int).reverse(),
                    decreases pending@.len(),
                {
                    let ghost n = pending@.len() as int;
                    let d = pending.pop().unwrap();
                    reversed.push(d);
                    proof {
                        assert(pending@ =~= all.take(n - 1));
                        assert(reversed@ =~= all.skip(n - 1).reverse());
                    }
                }
                let mut kept: Vec<Diagnostic> = Vec::new();
                let ghost mut keep: Seq<bool> = Seq::empty();
                proof {
                    assert(all.skip(0) =~= all);
                    assert(select(all.take(0), keep) =~= Seq::<Diagnostic>::empty());
                }
                while reversed.len() > 0
                    invariant
                        keep.len() <= all.len(),
                        reversed@ == all.skip(keep.len() as int).reverse(),
                        forall|d: &Diagnostic| #[trigger] f.requires((d,)),
                        forall|i: int| 0 <= i < keep.len() ==> f.ensures((&all[i],), #[trigger] keep[i]),
                        kept@ == select(all.take(keep.len() as int), keep),
                    decreases reversed@.len(),
                {
                    let ghost k = keep.len() as int;
                    let d = reversed.pop().unwrap();
                    proof {
                        assert(all.skip(k).reverse().last() == all[k]);
                    }
                    let b = f(&d);
                    proof {
                        let new_keep = keep.push(b);
                        assert(all.take(k + 1).drop_last() =~= all.take(k));
                        assert(all.take(k + 1).last() == all[k]);
                        assert(new_keep.drop_last() =~= keep);
                        keep = new_keep;
                    }
                    if b {
                        kept.push(d);
                    }
                    proof {
                        assert(reversed@ =~= all.skip(keep.len() as int).reverse());
                        assert(kept@ =~= select(all.take(keep.len() as int), keep));
                    }
                }
                proof {
                    assert(all.take(keep.len() as int) =~= all);
                }
                inner.diagnostics = kept;
            },
        }
    }

    /// Some diagnostic held belongs to the package `prefix`.
    pub fn any_with_prefix(&self, prefix: &str) -> (r: bool)
        ensures
            r == exists|i: int|
                0 <= i < self.spec_diags().len() && opt_str_view(
                    #[trigger] self.spec_diags()[i].spec_info().external_prefix,
                ) == Some(prefix@),
    {
        match &self.0 {
            None => false,
            Some(inner) => {
                let mut i: usize = 0;
                while i < inner.diagnostics.len()
                    invariant
                        self.0 == Some(*inner),
                        i <= inner.diagnostics@.len(),
                        forall|j: int|
                            0 <= j < i ==> opt_str_view(
                                #[trigger] inner.diagnostics@[j].spec_info().external_prefix,
                            ) != Some(prefix@),
                    decreases inner.diagnostics@.len() - i,
                {
                    if opt_str_eq(inner.diagnostics[i].info.external_prefix, Some(prefix)) {
                        assert(self.spec_diags()[i as int] == inner.diagnostics@[i as int]);
                        assert(opt_str_view(Some(prefix)) == Some(prefix@));
                        assert(opt_str_view(self.spec_diags()[i as int].spec_info().external_prefix)
                            == Some(prefix@));
                        return true;
                    }
                    i = i + 1;
                }
                false
            },
        }
    }

    /// Of the diagnostics that source code filtered out, the number that
    /// belong to the package `prefix`, and the number of their categories.
    pub fn filtered_source_diags_with_prefix(&self, prefix: &str) -> (r: (usize, usize))
        ensures
            r.0 == prefix_match_count(self.spec_filtered(), prefix@),
            r.1 == prefix_match_categories(self.spec_filtered(), prefix@).len(),
    {
        match &self.0 {
            None => {
                proof {
                    broadcast use vstd::set::group_set_axioms;

                }
                (0, 0)
            },
            Some(inner) => {
                let v = &inner.filtered_source_diagnostics;
                let mut seen: [bool; 256] = [false; 256];
                let mut count: usize = 0;
                let mut distinct: usize = 0;
                let mut i: usize = 0;
                proof {
                    broadcast use vstd::set::group_set_axioms;

                    assert(v@.take(0) =~= Seq::<Diagnostic>::empty());
                }
                while i < v.len()
                    invariant
                        self.spec_filtered() == v@,
                        i <= v@.len(),
                        count == prefix_match_count(v@.take(i as int), prefix@),
                        count <= i,
                        distinct <= i,
                        prefix_match_categories(v@.take(i as int), prefix@).finite(),
                        distinct == prefix_match_categories(v@.take(i as int), prefix@).len(),
                        forall|c: u8| #[trigger] seen[c as int] == prefix_match_categories(
                            v@.take(i as int),
                            prefix@,
                        ).contains(c),
                    decreases v@.len() - i,
                {
                    proof {
                        broadcast use vstd::set::group_set_axioms;

                        assert(v@.take(i + 1).drop_last() =~= v@.take(i as int));
                    }
                    let d = &v[i];
                    if opt_str_eq(d.info.external_prefix, Some(prefix)) {
                        count = count + 1;
                        let c = d.info.category;
                        if !seen[c as usize] {
                            seen[c as usize] = true;
                            distinct = distinct + 1;
                        }
                    }
                    i = i + 1;
                    proof {
                        broadcast use vstd::set::group_set_axioms;

                        let cur = prefix_match_categories(v@.take(i as int), prefix@);
                        assert forall|c: u8| #[trigger] seen[c as int] == cur.contains(c) by {}
                        lemma_categories_len_le(v@.take(i as int), prefix@);
                    }
                }
                proof {
                    assert(v@.take(v@.len() as int) =~= v@);
                }
                (count, distinct)
            },
        }
    }

    /// From a list of diagnostics, with their counts.
    pub fn from_vec(diagnostics: Vec<Diagnostic>) -> (r: Self)
        ensures
            r.spec_diags() == diagnostics@,
            r.spec_filtered() == Seq::<Diagnostic>::empty(),
            r.counts_match(),
    {
        if diagnostics.len() == 0 {
            return Diagnostics(None);
        }
        let mut severity_count: [usize; 4] = [0, 0, 0, 0];
        let mut i: usize = 0;
        while i < diagnostics.len()
            invariant
                i <= diagnostics@.len(),
                forall|k: int| 0 <= k < 4 ==> #[trigger] severity_count[k] == count_severity(diagnostics@.take(i as int), severity_at(k)),
            decreases diagnostics@.len() - i,
        {
            proof {
                assert(diagnostics@.take(i + 1).drop_last() =~= diagnostics@.take(i as int));
                lemma_count_severity_le_len(diagnostics@.take(i as int), diagnostics@[i as int].spec_info().severity);
            }
            let k = diagnostics[i].info.severity.rank();
            severity_count[k] = severity_count[k] + 1;
            i = i + 1;
        }
        let r = Diagnostics(Some(DiagnosticsInner {
            diagnostics,
            filtered_source_diagnostics: Vec::new(),
            severity_count,
        }));
        proof {
            assert(diagnostics@.take(diagnostics@.len() as int) =~= diagnostics@);
            assert forall|s: Severity| #[trigger] r.spec_count(s) == count_severity(r.spec_diags(), s) by {
                assert(severity_at(severity_rank(s)) == s);
            }
        }
        r
    }

    /// From an optional diagnostic.
    pub fn from_opt(diagnostic_opt: Option<Diagnostic>) -> (r: Self)
        ensures
            r.spec_diags() == match diagnostic_opt {
                Some(d) => seq![d],
                None => Seq::<Diagnostic>::empty(),
            },
            r.spec_filtered() == Seq::<Diagnostic>::empty(),
            r.counts_match(),
    {
        let mut v: Vec<Diagnostic> = Vec::new();
        if let Some(d) = diagnostic_opt {
            v.push(d);
        }
        proof {
            assert(v@ =~= match diagnostic_opt {
                Some(d) => seq![d],
                None => Seq::<Diagnostic>::empty(),
            });
        }
        Self::from_vec(v)
    }
}


//------------------------------------------------------------------------------------------
// Warning filters
//------------------------------------------------------------------------------------------

/// The map that a list of key-value entries denotes, a later entry replacing
/// an earlier one with the same key.
pub open spec fn assoc_map<K, V>(v: Seq<(K, V)>) -> Map<K, V>
    decreases v.len(),
{
    if v.len() == 0 {
        Map::empty()
    } else {
        assoc_map(v.drop_last()).insert(v.last().0, v.last().1)
    }
}

/// Appending an entry inserts it into the map.
pub proof fn lemma_assoc_push<K, V>(v: Seq<(K, V)>, e: (K, V))
    ensures
        assoc_map(v.push(e)) == assoc_map(v).insert(e.0, e.1),
{
    assert(v.push(e).drop_last() =~= v);
}

/// Filters a diagnostic of the compiler's packages or of one external package,
/// by category and code.
#[verifier::ext_equal]
pub enum FilterSet {
    /// Filters every warning.
    All,
    /// Filters the warnings of these categories, and of these (category, code)
    /// pairs, each with the name the filter is known by.
    Specified {
        categories: Map<u8, Option<WellKnownFilterName>>,
        codes: Map<(u8, u8), Option<WellKnownFilterName>>,
    },
    /// Filters nothing.
    Empty,
}

/// The filter set filters out the diagnostic: only warnings are filtered.
pub open spec fn set_filters(f: FilterSet, info: DiagnosticInfo) -> bool {
    match f {
        FilterSet::All => info.severity == Severity::Warning,
        FilterSet::Specified { categories, codes } => info.severity == Severity::Warning && (
        categories.dom().contains(info.category) || codes.dom().contains(
            (info.category, info.code),
        )),
        FilterSet::Empty => false,
    }
}

/// The filter set with a category (`code` is `None`) or a code added. A
/// category replaces the codes of that category; nothing is added to a set
/// that filters everything, or to a category already filtered.
pub open spec fn set_add(
    f: FilterSet,
    category: u8,
    code: Option<u8>,
    name: Option<WellKnownFilterName>,
) -> FilterSet {
    let (categories, codes) = match f {
        FilterSet::Specified { categories, codes } => (categories, codes),
        _ => (Map::empty(), Map::empty()),
    };
    match f {
        FilterSet::All => FilterSet::All,
        _ => if categories.dom().contains(category) {
            f
        } else {
            match code {
                Some(c) => FilterSet::Specified { categories, codes: codes.insert((category, c), name) },
                None => FilterSet::Specified {
                    categories: categories.insert(category, name),
                    codes: codes.restrict(codes.dom().filter(|k: (u8, u8)| k.0 != category)),
                },
            }
        },
    }
}

/// The union of two filter sets; codes of `b` whose category is filtered
/// already are dropped.
pub open spec fn set_union(a: FilterSet, b: FilterSet) -> FilterSet {
    match (a, b) {
        (FilterSet::Empty, _) => b,
        (_, FilterSet::Empty) => a,
        (FilterSet::All, _) => FilterSet::All,
        (_, FilterSet::All) => FilterSet::All,
        (
            FilterSet::Specified { categories, codes },
            FilterSet::Specified { categories: other_categories, codes: other_codes },
        ) => {
            let cats = categories.union_prefer_right(other_categories);
            FilterSet::Specified {
                categories: cats,
                codes: codes.union_prefer_right(
                    other_codes.restrict(
                        other_codes.dom().filter(|k: (u8, u8)| !cats.dom().contains(k.0)),
                    ),
                ),
            }
        },
    }
}

/// The union of two filter sets filters what either of them filters.
pub proof fn lemma_set_union_filters(a: FilterSet, b: FilterSet, info: DiagnosticInfo)
    ensures
        set_filters(set_union(a, b), info) == (set_filters(a, info) || set_filters(b, info)),
{
    match (a, b) {
        (
            FilterSet::Specified { categories, codes },
            FilterSet::Specified { categories: oc, codes: ocodes },
        ) => {
            let cats = categories.union_prefer_right(oc);
            let k = (info.category, info.code);
            if ocodes.dom().contains(k) && !cats.dom().contains(info.category) {
                assert(ocodes.dom().filter(|x: (u8, u8)| !cats.dom().contains(x.0)).contains(k));
            }
        },
        _ => {},
    }
}

/// Adding to a filter set never stops it filtering a diagnostic.
pub proof fn lemma_set_add_monotone(
    f: FilterSet,
    category: u8,
    code: Option<u8>,
    name: Option<WellKnownFilterName>,
    info: DiagnosticInfo,
)
    ensures
        set_filters(f, info) ==> set_filters(set_add(f, category, code, name), info),
        info.severity == Severity::Warning && info.category == category && (code matches Some(c)
            ==> info.code == c) ==> set_filters(set_add(f, category, code, name), info),
{
    match f {
        FilterSet::Specified { categories, codes } => {
            let k = (info.category, info.code);
            if codes.dom().contains(k) && info.category != category {
                assert(codes.dom().filter(|x: (u8, u8)| x.0 != category).contains(k));
            }
        },
        _ => {},
    }
}

/// A filter on diagnostics, by the package a diagnostic belongs to.
pub enum WarningFilter {
    /// Filter all warnings of the package.
    All(ExternalPrefix),
    /// Filter the warnings of a category.
    Category { prefix: ExternalPrefix, category: u8, name: Option<WellKnownFilterName> },
    /// Filter the warnings of a code.
    Code { prefix: ExternalPrefix, category: u8, code: u8, name: Option<WellKnownFilterName> },
}

/// The filters of one package.
#[derive(Debug, PartialEq, Eq)]
pub enum UnprefixedWarningFilters {
    /// Remove all warnings.
    All,
    /// Remove the warnings of these categories and of these codes.
    Specified {
        categories: Vec<(u8, Option<WellKnownFilterName>)>,
        codes: Vec<((u8, u8), Option<WellKnownFilterName>)>,
    },
    /// No filter.
    Empty,
}

impl UnprefixedWarningFilters {
    /// The filter set this denotes.
    pub closed spec fn view(&self) -> FilterSet {
        match self {
            UnprefixedWarningFilters::All => FilterSet::All,
            UnprefixedWarningFilters::Specified { categories, codes } => FilterSet::Specified {
                categories: assoc_map(categories@),
                codes: assoc_map(codes@),
            },
            UnprefixedWarningFilters::Empty => FilterSet::Empty,
        }
    }

    /// No filter.
    pub fn new() -> (r: Self)
        ensures
            r.view() == FilterSet::Empty,
    {
        UnprefixedWarningFilters::Empty
    }

    fn is_filtered_by_info(&self, info: &DiagnosticInfo) -> (r: bool)
        ensures
            r == set_filters(self.view(), *info),
    {
        match self {
            UnprefixedWarningFilters::All => is_warning(info.severity),
            UnprefixedWarningFilters::Specified { categories, codes } => {
                is_warning(info.severity) && (contains_category(categories, info.category)
                    || contains_code(codes, (info.category, info.code)))
            },
            UnprefixedWarningFilters::Empty => false,
        }
    }

    /// A copy of the filters.
    fn duplicate(&self) -> (r: Self)
        ensures
            r.view() == self.view(),
    {
        match self {
            UnprefixedWarningFilters::All => UnprefixedWarningFilters::All,
            UnprefixedWarningFilters::Specified { categories, codes } => {
                UnprefixedWarningFilters::Specified {
                    categories: copy_entries(categories),
                    codes: copy_entries(codes),
                }
            },
            UnprefixedWarningFilters::Empty => UnprefixedWarningFilters::Empty,
        }
    }

    /// Adds the filters of `other`.
    pub fn union(&mut self, other: &Self)
        ensures
            final(self).view() == set_union(old(self).view(), other.view()),
    {
        match (&*self, other) {
            (UnprefixedWarningFilters::Empty, _) => {
                *self = other.duplicate();
                return ;
            },
            (_, UnprefixedWarningFilters::Empty) => {
                return ;
            },
            (UnprefixedWarningFilters::All, _) => {
                return ;
            },
            (_, UnprefixedWarningFilters::All) => {
                *self = UnprefixedWarningFilters::All;
                return ;
            },
            _ => {},
        }
        let mut prev = UnprefixedWarningFilters::Empty;
        std::mem::swap(&mut prev, self);
        match (prev, other) {
            (
                UnprefixedWarningFilters::Specified { categories, codes },
                UnprefixedWarningFilters::Specified { categories: oc, codes: ocodes },
            ) => {
                let categories = extend_categories(categories, oc);
                let codes = extend_codes_outside(codes, ocodes, &categories);
                *self = UnprefixedWarningFilters::Specified { categories, codes };
            },
            (p, _) => {
                proof {
                    assert(false);
                }
                *self = p;
            },
        }
    }

    /// Adds a filter of a category (when `filter_code` is `None`) or of a code.
    pub fn add(
        &mut self,
        filter_category: u8,
        filter_code: Option<u8>,
        filter_name: Option<WellKnownFilterName>,
    )
        ensures
            final(self).view() == set_add(old(self).view(), filter_category, filter_code, filter_name),
    {
        let mut prev = UnprefixedWarningFilters::Empty;
        std::mem::swap(&mut prev, self);
        let (categories, codes) = match prev {
            UnprefixedWarningFilters::All => {
                *self = UnprefixedWarningFilters::All;
                return ;
            },
            UnprefixedWarningFilters::Empty => (Vec::new(), Vec::new()),
            UnprefixedWarningFilters::Specified { categories, codes } => (categories, codes),
        };
        proof {
            assert(assoc_map(Seq::<(u8, Option<WellKnownFilterName>)>::empty()) == Map::<
                u8,
                Option<WellKnownFilterName>,
            >::empty());
            assert(assoc_map(Seq::<((u8, u8), Option<WellKnownFilterName>)>::empty()) == Map::<
                (u8, u8),
                Option<WellKnownFilterName>,
            >::empty());
        }
        if contains_category(&categories, filter_category) {
            *self = UnprefixedWarningFilters::Specified { categories, codes };
            return ;
        }
        match filter_code {
            Some(code) => {
                let mut codes = codes;
                let e = ((filter_category, code), filter_name);
                proof {
                    lemma_assoc_push(codes@, e);
                }
                let ghost old_codes = codes@;
                codes.push(e);
                *self = UnprefixedWarningFilters::Specified { categories, codes };
                proof {
                    assert(assoc_map(codes@) == assoc_map(old_codes).insert(
                        (filter_category, code),
                        filter_name,
                    ));
                    assert(self.view() =~= set_add(old(self).view(), filter_category, filter_code, filter_name));
                }
            },
            None => {
                let mut categories = categories;
                let e = (filter_category, filter_name);
                proof {
                    lemma_assoc_push(categories@, e);
                }
                categories.push(e);
                let codes = remove_codes_of_category(codes, filter_category);
                *self = UnprefixedWarningFilters::Specified { categories, codes };
            },
        }
    }
}

/// The severity is `Warning`.
fn is_warning(s: Severity) -> (r: bool)
    ensures
        r == (s == Severity::Warning),
{
    match s {
        Severity::Warning => true,
        _ => false,
    }
}

/// Copies a list of entries of copyable keys and values.
fn copy_entries<K: Copy, V: Copy>(v: &Vec<(K, V)>) -> (r: Vec<(K, V)>)
    ensures
        r@ == v@,
{
    let mut r: Vec<(K, V)> = Vec::new();
    let mut i: usize = 0;
    while i < v.len()
        invariant
            i <= v@.len(),
            r@ == v@.take(i as int),
        decreases v@.len() - i,
    {
        r.push(v[i]);
        i = i + 1;
        assert(r@ =~= v@.take(i as int));
    }
    assert(v@.take(v@.len() as int) =~= v@);
    r
}

/// Some entry has the category as key.
fn contains_category(v: &Vec<(u8, Option<WellKnownFilterName>)>, category: u8) -> (r: bool)
    ensures
        r == assoc_map(v@).dom().contains(category),
{
    let mut i: usize = 0;
    while i < v.len()
        invariant
            i <= v@.len(),
            !assoc_map(v@.take(i as int)).dom().contains(category),
        decreases v@.len() - i,
    {
        proof {
            assert(v@.take(i + 1).drop_last() =~= v@.take(i as int));
        }
        if v[i].0 == category {
            proof {
                lemma_assoc_contains_later(v@.take(i + 1), v@.skip(i + 1), category);
                assert(v@.take(i + 1) + v@.skip(i + 1) =~= v@);
            }
            return true;
        }
        i = i + 1;
    }
    assert(v@.take(v@.len() as int) =~= v@);
    false
}

/// Some entry has the (category, code) pair as key.
fn contains_code(v: &Vec<((u8, u8), Option<WellKnownFilterName>)>, key: (u8, u8)) -> (r: bool)
    ensures
        r == assoc_map(v@).dom().contains(key),
{
    let mut i: usize = 0;
    while i < v.len()
        invariant
            i <= v@.len(),
            !assoc_map(v@.take(i as int)).dom().contains(key),
        decreases v@.len() - i,
    {
        proof {
            assert(v@.take(i + 1).drop_last() =~= v@.take(i as int));
        }
        if v[i].0.0 == key.0 && v[i].0.1 == key.1 {
            proof {
                lemma_assoc_contains_later(v@.take(i + 1), v@.skip(i + 1), key);
                assert(v@.take(i + 1) + v@.skip(i + 1) =~= v@);
            }
            return true;
        }
        i = i + 1;
    }
    assert(v@.take(v@.len() as int) =~= v@);
    false
}

/// A key in the map of a prefix stays in the map of any extension.
proof fn lemma_assoc_contains_later<K, V>(a: Seq<(K, V)>, b: Seq<(K, V)>, k: K)
    requires
        assoc_map(a).dom().contains(k),
    ensures
        assoc_map(a + b).dom().contains(k),
    decreases b.len(),
{
    if b.len() > 0 {
        lemma_assoc_contains_later(a, b.drop_last(), k);
        assert((a + b).drop_last() =~= a + b.drop_last());
    }
}

/// Drops the codes of a category.
fn remove_codes_of_category(v: Vec<((u8, u8), Option<WellKnownFilterName>)>, category: u8) -> (r: Vec<
    ((u8, u8), Option<WellKnownFilterName>),
>)
    ensures
        assoc_map(r@) == assoc_map(v@).restrict(
            assoc_map(v@).dom().filter(|k: (u8, u8)| k.0 != category),
        ),
{
    let mut r: Vec<((u8, u8), Option<WellKnownFilterName>)> = Vec::new();
    let mut i: usize = 0;
    while i < v.len()
        invariant
            i <= v@.len(),
            assoc_map(r@) == assoc_map(v@.take(i as int)).restrict(
                assoc_map(v@.take(i as int)).dom().filter(|k: (u8, u8)| k.0 != category),
            ),
        decreases v@.len() - i,
    {
        let e = v[i];
        proof {
            assert(v@.take(i + 1).drop_last() =~= v@.take(i as int));
            lemma_assoc_push(r@, e);
        }
        if e.0.0 != category {
            r.push(e);
        }
        i = i + 1;
        proof {
            let base = assoc_map(v@.take(i - 1));
            let next = assoc_map(v@.take(i as int));
            assert(next == base.insert(e.0, e.1));
            assert(assoc_map(r@) =~= next.restrict(
                next.dom().filter(|k: (u8, u8)| k.0 != category),
            ));
        }
    }
    assert(v@.take(v@.len() as int) =~= v@);
    r
}

/// Adds the categories of `other`, replacing the names of those present.
fn extend_categories(
    v: Vec<(u8, Option<WellKnownFilterName>)>,
    other: &Vec<(u8, Option<WellKnownFilterName>)>,
) -> (r: Vec<(u8, Option<WellKnownFilterName>)>)
    ensures
        assoc_map(r@) == assoc_map(v@).union_prefer_right(assoc_map(other@)),
{
    let mut r = v;
    let mut i: usize = 0;
    while i < other.len()
        invariant
            i <= other@.len(),
            assoc_map(r@) == assoc_map(v@).union_prefer_right(assoc_map(other@.take(i as int))),
        decreases other@.len() - i,
    {
        let e = other[i];
        proof {
            assert(other@.take(i + 1).drop_last() =~= other@.take(i as int));
            lemma_assoc_push(r@, e);
        }
        r.push(e);
        i = i + 1;
        proof {
            assert(assoc_map(r@) =~= assoc_map(v@).union_prefer_right(
                assoc_map(other@.take(i as int)),
            ));
        }
    }
    assert(other@.take(other@.len() as int) =~= other@);
    r
}

/// Adds the codes of `other` whose category is not among `categories`.
fn extend_codes_outside(
    v: Vec<((u8, u8), Option<WellKnownFilterName>)>,
    other: &Vec<((u8, u8), Option<WellKnownFilterName>)>,
    categories: &Vec<(u8, Option<WellKnownFilterName>)>,
) -> (r: Vec<((u8, u8), Option<WellKnownFilterName>)>)
    ensures
        assoc_map(r@) == assoc_map(v@).union_prefer_right(
            assoc_map(other@).restrict(
                assoc_map(other@).dom().filter(
                    |k: (u8, u8)| !assoc_map(categories@).dom().contains(k.0),
                ),
            ),
        ),
{
    let ghost cats = assoc_map(categories@).dom();
    let mut r = v;
    let mut i: usize = 0;
    while i < other.len()
        invariant
            i <= other@.len(),
            cats == assoc_map(categories@).dom(),
            assoc_map(r@) == assoc_map(v@).union_prefer_right(
                assoc_map(other@.take(i as int)).restrict(
                    assoc_map(other@.take(i as int)).dom().filter(
                        |k: (u8, u8)| !cats.contains(k.0),
                    ),
                ),
            ),
        decreases other@.len() - i,
    {
        let e = other[i];
        proof {
            assert(other@.take(i + 1).drop_last() =~= other@.take(i as int));
            lemma_assoc_push(r@, e);
        }
        if !contains_category(categories, e.0.0) {
            r.push(e);
        }
        i = i + 1;
        proof {
            let next = assoc_map(other@.take(i as int));
            assert(assoc_map(r@) =~= assoc_map(v@).union_prefer_right(
                next.restrict(next.dom().filter(|k: (u8, u8)| !cats.contains(k.0))),
            ));
        }
    }
    assert(other@.take(other@.len() as int) =~= other@);
    r
}


/// The filter set of a package in a map of filters; nothing when absent.
pub open spec fn get_or_empty(m: Map<Option<Seq<char>>, FilterSet>, p: Option<Seq<char>>) -> FilterSet {
    if m.dom().contains(p) {
        m[p]
    } else {
        FilterSet::Empty
    }
}

/// The map of filters filters the diagnostic: the filter set of its package does.
pub open spec fn filters_filter(m: Map<Option<Seq<char>>, FilterSet>, info: DiagnosticInfo) -> bool {
    let p = opt_str_view(info.external_prefix);
    m.dom().contains(p) && set_filters(m[p], info)
}

/// The union of two maps of filters, package by package.
pub open spec fn filters_union(
    m1: Map<Option<Seq<char>>, FilterSet>,
    m2: Map<Option<Seq<char>>, FilterSet>,
) -> Map<Option<Seq<char>>, FilterSet> {
    Map::new(
        |p: Option<Seq<char>>| m1.dom().contains(p) || m2.dom().contains(p),
        |p: Option<Seq<char>>|
            if m2.dom().contains(p) {
                set_union(get_or_empty(m1, p), m2[p])
            } else {
                m1[p]
            },
    )
}

/// The map of filters with a filter added.
pub open spec fn filters_add(m: Map<Option<Seq<char>>, FilterSet>, filter: WarningFilter) -> Map<
    Option<Seq<char>>,
    FilterSet,
> {
    match filter {
        WarningFilter::All(prefix) => m.insert(opt_str_view(prefix), FilterSet::All),
        WarningFilter::Category { prefix, category, name } => m.insert(
            opt_str_view(prefix),
            set_add(get_or_empty(m, opt_str_view(prefix)), category, None, name),
        ),
        WarningFilter::Code { prefix, category, code, name } => m.insert(
            opt_str_view(prefix),
            set_add(get_or_empty(m, opt_str_view(prefix)), category, Some(code), name),
        ),
    }
}

/// The union of two maps of filters filters what either of them filters.
pub proof fn lemma_filters_union(
    m1: Map<Option<Seq<char>>, FilterSet>,
    m2: Map<Option<Seq<char>>, FilterSet>,
    info: DiagnosticInfo,
)
    ensures
        filters_filter(filters_union(m1, m2), info) == (filters_filter(m1, info) || filters_filter(
            m2,
            info,
        )),
{
    let p = opt_str_view(info.external_prefix);
    lemma_set_union_filters(get_or_empty(m1, p), get_or_empty(m2, p), info);
}

/// Adding a filter never stops a map of filters filtering a diagnostic, and
/// afterwards the warnings that the filter names are filtered.
pub proof fn lemma_filters_add(m: Map<Option<Seq<char>>, FilterSet>, filter: WarningFilter, info: DiagnosticInfo)
    ensures
        filters_filter(m, info) ==> filters_filter(filters_add(m, filter), info),
        info.severity == Severity::Warning ==> match filter {
            WarningFilter::All(prefix) => opt_str_view(prefix) == opt_str_view(info.external_prefix),
            WarningFilter::Category { prefix, category, name } => opt_str_view(prefix)
                == opt_str_view(info.external_prefix) && info.category == category,
            WarningFilter::Code { prefix, category, code, name } => opt_str_view(prefix)
                == opt_str_view(info.external_prefix) && info.category == category && info.code
                == code,
        } ==> filters_filter(filters_add(m, filter), info),
{
    let p = opt_str_view(info.external_prefix);
    match filter {
        WarningFilter::All(prefix) => {},
        WarningFilter::Category { prefix, category, name } => {
            lemma_set_add_monotone(get_or_empty(m, p), category, None, name, info);
        },
        WarningFilter::Code { prefix, category, code, name } => {
            lemma_set_add_monotone(get_or_empty(m, p), category, Some(code), name, info);
        },
    }
}

/// The keys of a list of entries are pairwise different.
pub open spec fn unique_keys<K, V>(s: Seq<(K, V)>) -> bool {
    forall|i: int, j: int| 0 <= i < j < s.len() ==> s[i].0 != s[j].0
}

/// With unique keys, an entry's key maps to its value, and a key of no entry
/// is not in the map.
pub proof fn lemma_assoc_unique<K, V>(s: Seq<(K, V)>, k: K)
    requires
        unique_keys(s),
    ensures
        forall|i: int| 0 <= i < s.len() && s[i].0 == k ==> assoc_map(s).dom().contains(k)
            && assoc_map(s)[k] == s[i].1,
        (forall|i: int| 0 <= i < s.len() ==> s[i].0 != k) ==> !assoc_map(s).dom().contains(k),
    decreases s.len(),
{
    if s.len() > 0 {
        lemma_assoc_unique(s.drop_last(), k);
        assert forall|i: int| 0 <= i < s.len() && s[i].0 == k implies assoc_map(s).dom().contains(
            k,
        ) && assoc_map(s)[k] == s[i].1 by {
            if i < s.len() - 1 {
                assert(s.drop_last()[i] == s[i]);
            }
        }
        if forall|i: int| 0 <= i < s.len() ==> s[i].0 != k {
            assert forall|i: int| 0 <= i < s.drop_last().len() implies s.drop_last()[i].0 != k by {
                assert(s.drop_last()[i] == s[i]);
            }
        }
    }
}

/// With unique keys, replacing the value of an entry inserts it into the map.
pub proof fn lemma_assoc_update<K, V>(s: Seq<(K, V)>, j: int, v: V)
    requires
        unique_keys(s),
        0 <= j < s.len(),
    ensures
        assoc_map(s.update(j, (s[j].0, v))) == assoc_map(s).insert(s[j].0, v),
    decreases s.len(),
{
    let k = s[j].0;
    if j == s.len() - 1 {
        assert(s.update(j, (k, v)).drop_last() =~= s.drop_last());
        assert(assoc_map(s.update(j, (k, v))) =~= assoc_map(s).insert(k, v));
    } else {
        let t = s.drop_last();
        assert(unique_keys(t));
        lemma_assoc_update(t, j, v);
        assert(s.update(j, (k, v)).drop_last() =~= t.update(j, (k, v)));
        assert(s.last().0 != k);
        assert(assoc_map(s.update(j, (k, v))) =~= assoc_map(s).insert(k, v));
    }
}

/// The filters of each package.
#[derive(Debug, PartialEq, Eq)]
pub struct WarningFilters {
    filters: Vec<(ExternalPrefix, UnprefixedWarningFilters)>,
    /// Whether the filters apply to dependencies rather than source code.
    for_dependency: bool,
}

/// The entries of a list of package filters, keyed by the package's name.
spec fn entries_view(v: Seq<(ExternalPrefix, UnprefixedWarningFilters)>) -> Seq<
    (Option<Seq<char>>, FilterSet),
> {
    v.map_values(|e: (ExternalPrefix, UnprefixedWarningFilters)| (opt_str_view(e.0), e.1.view()))
}

impl WarningFilters {
    /// The filter set of each package.
    pub closed spec fn view(&self) -> Map<Option<Seq<char>>, FilterSet> {
        assoc_map(entries_view(self.filters@))
    }

    /// Whether the filters apply to dependencies.
    pub closed spec fn spec_for_dependency(&self) -> bool {
        self.for_dependency
    }

    /// No package is named twice.
    pub closed spec fn wf(&self) -> bool {
        unique_keys(entries_view(self.filters@))
    }

    /// No filter, for source code.
    pub fn new_for_source() -> (r: Self)
        ensures
            r.wf(),
            r.view() == Map::<Option<Seq<char>>, FilterSet>::empty(),
            !r.spec_for_dependency(),
    {
        let r = WarningFilters { filters: Vec::new(), for_dependency: false };
        assert(entries_view(r.filters@) =~= Seq::empty());
        r
    }

    /// No filter, for dependencies.
    pub fn new_for_dependency() -> (r: Self)
        ensures
            r.wf(),
            r.view() == Map::<Option<Seq<char>>, FilterSet>::empty(),
            r.spec_for_dependency(),
    {
        let r = WarningFilters { filters: Vec::new(), for_dependency: true };
        assert(entries_view(r.filters@) =~= Seq::empty());
        r
    }

    /// Whether the filters apply to dependencies.
    pub fn for_dependency(&self) -> (r: bool)
        ensures
            r == self.spec_for_dependency(),
    {
        self.for_dependency
    }

    /// The position of the package's filters.
    fn find(&self, prefix: ExternalPrefix) -> (r: Option<usize>)
        requires
            self.wf(),
        ensures
            match r {
                Some(j) => j < self.filters@.len() && entries_view(self.filters@)[j as int].0
                    == opt_str_view(prefix) && self.view().dom().contains(opt_str_view(prefix))
                    && self.view()[opt_str_view(prefix)] == self.filters@[j as int].1.view(),
                None => !self.view().dom().contains(opt_str_view(prefix)),
            },
    {
        let ghost ev = entries_view(self.filters@);
        let mut i: usize = 0;
        while i < self.filters.len()
            invariant
                i <= self.filters@.len(),
                ev == entries_view(self.filters@),
                unique_keys(ev),
                forall|j: int| 0 <= j < i ==> ev[j].0 != opt_str_view(prefix),
            decreases self.filters@.len() - i,
        {
            if opt_str_eq(self.filters[i].0, prefix) {
                proof {
                    assert(ev[i as int] == (
                        opt_str_view(self.filters@[i as int].0),
                        self.filters@[i as int].1.view(),
                    ));
                    assert(ev[i as int].0 == opt_str_view(prefix));
                    lemma_assoc_unique(ev, opt_str_view(prefix));
                    assert(assoc_map(ev)[opt_str_view(prefix)] == ev[i as int].1);
                }
                return Some(i);
            }
            i = i + 1;
        }
        proof {
            lemma_assoc_unique(ev, opt_str_view(prefix));
        }
        None
    }

    /// The filters filter the diagnostic out.
    pub fn is_filtered(&self, diag: &Diagnostic) -> (r: bool)
        requires
            self.wf(),
        ensures
            r == filters_filter(self.view(), diag.spec_info()),
    {
        self.is_filtered_by_info(&diag.info)
    }

    /// The filters filter out diagnostics with this information.
    pub fn is_filtered_by_info(&self, info: &DiagnosticInfo) -> (r: bool)
        requires
            self.wf(),
        ensures
            r == filters_filter(self.view(), *info),
    {
        match self.find(info.external_prefix) {
            Some(j) => self.filters[j].1.is_filtered_by_info(info),
            None => false,
        }
    }

    /// Sets the filters of a package, keeping the names unique.
    fn put(&mut self, prefix: ExternalPrefix, f: UnprefixedWarningFilters)
        requires
            old(self).wf(),
        ensures
            final(self).wf(),
            final(self).view() == old(self).view().insert(opt_str_view(prefix), f.view()),
            final(self).for_dependency == old(self).for_dependency,
    {
        let ghost ev = entries_view(self.filters@);
        let ghost fv = f.view();
        match self.find(prefix) {
            Some(j) => {
                let ghost key = entries_view(self.filters@)[j as int].0;
                self.filters.set(j, (prefix, f));
                proof {
                    assert(entries_view(self.filters@) =~= ev.update(j as int, (key, fv)));
                    lemma_assoc_update(ev, j as int, fv);
                    assert(unique_keys(entries_view(self.filters@)));
                }
            },
            None => {
                proof {
                    lemma_assoc_unique(ev, opt_str_view(prefix));
                }
                self.filters.push((prefix, f));
                proof {
                    assert(entries_view(self.filters@) =~= ev.push((opt_str_view(prefix), fv)));
                    lemma_assoc_push(ev, (opt_str_view(prefix), fv));
                    assert forall|i: int| 0 <= i < ev.len() implies ev[i].0 != opt_str_view(
                        prefix,
                    ) by {
                        if ev[i].0 == opt_str_view(prefix) {
                            lemma_assoc_unique(ev, opt_str_view(prefix));
                        }
                    }
                    assert(unique_keys(entries_view(self.filters@)));
                }
            },
        }
    }

    /// A copy of the filters of a package, or none.
    fn get_copy(&self, prefix: ExternalPrefix) -> (r: UnprefixedWarningFilters)
        requires
            self.wf(),
        ensures
            r.view() == get_or_empty(self.view(), opt_str_view(prefix)),
    {
        match self.find(prefix) {
            Some(j) => self.filters[j].1.duplicate(),
            None => UnprefixedWarningFilters::new(),
        }
    }

    /// Adds the filters of `other`, package by package. The result applies to
    /// dependencies if either does.
    pub fn union(&mut self, other: &Self)
        requires
            old(self).wf(),
            other.wf(),
        ensures
            final(self).wf(),
            final(self).view() == filters_union(old(self).view(), other.view()),
            final(self).spec_for_dependency() == (old(self).spec_for_dependency()
                || other.spec_for_dependency()),
    {
        let ghost m1 = self.view();
        let ghost ov = entries_view(other.filters@);
        let mut i: usize = 0;
        while i < other.filters.len()
            invariant
                i <= other.filters@.len(),
                self.wf(),
                other.wf(),
                ov == entries_view(other.filters@),
                self.for_dependency == old(self).for_dependency,
                self.view() == filters_union(m1, assoc_map(ov.take(i as int))),
            decreases other.filters@.len() - i,
        {
            let prefix = other.filters[i].0;
            let mut cur = self.get_copy(prefix);
            cur.union(&other.filters[i].1);
            proof {
                let p = opt_str_view(prefix);
                let m2 = assoc_map(ov.take(i as int));
                assert(ov.take(i + 1).drop_last() =~= ov.take(i as int));
                assert(ov[i as int] == (p, other.filters@[i as int].1.view()));
                assert forall|j: int| 0 <= j < i implies ov.take(i as int)[j].0 != p by {
                    assert(ov[j].0 != ov[i as int].0);
                }
                assert(unique_keys(ov.take(i as int)));
                lemma_assoc_unique(ov.take(i as int), p);
            }
            self.put(prefix, cur);
            i = i + 1;
            proof {
                let m2 = assoc_map(ov.take(i as int));
                assert(self.view() =~= filters_union(m1, m2));
            }
        }
        proof {
            assert(ov.take(ov.len() as int) =~= ov);
        }
        self.for_dependency = self.for_dependency || other.for_dependency;
    }

    /// Adds a filter.
    pub fn add(&mut self, filter: WarningFilter)
        requires
            old(self).wf(),
        ensures
            final(self).wf(),
            final(self).view() == filters_add(old(self).view(), filter),
            final(self).spec_for_dependency() == old(self).spec_for_dependency(),
    {
        let (prefix, category, code, name) = match filter {
            WarningFilter::All(prefix) => {
                self.put(prefix, UnprefixedWarningFilters::All);
                return ;
            },
            WarningFilter::Category { prefix, category, name } => (prefix, category, None, name),
            WarningFilter::Code { prefix, category, code, name } => (
                prefix,
                category,
                Some(code),
                name,
            ),
        };
        let mut cur = self.get_copy(prefix);
        cur.add(category, code, name);
        self.put(prefix, cur);
    }
}


/// The number of diagnostics that belong to the package `prefix`.
pub open spec fn prefix_match_count(diags: Seq<Diagnostic>, prefix: Seq<char>) -> nat
    decreases diags.len(),
{
    if diags.len() == 0 {
        0
    } else {
        prefix_match_count(diags.drop_last(), prefix) + if opt_str_view(
            diags.last().spec_info().external_prefix,
        ) == Some(prefix) {
            1nat
        } else {
            0nat
        }
    }
}

/// The categories of the diagnostics that belong to the package `prefix`.
pub open spec fn prefix_match_categories(diags: Seq<Diagnostic>, prefix: Seq<char>) -> Set<u8>
    decreases diags.len(),
{
    if diags.len() == 0 {
        Set::empty()
    } else if opt_str_view(diags.last().spec_info().external_prefix) == Some(prefix) {
        prefix_match_categories(diags.drop_last(), prefix).insert(diags.last().spec_info().category)
    } else {
        prefix_match_categories(diags.drop_last(), prefix)
    }
}

/// There are no more categories than diagnostics.
proof fn lemma_categories_len_le(diags: Seq<Diagnostic>, prefix: Seq<char>)
    ensures
        prefix_match_categories(diags, prefix).finite(),
        prefix_match_categories(diags, prefix).len() <= diags.len(),
    decreases diags.len(),
{
    broadcast use vstd::set::group_set_axioms;

    if diags.len() > 0 {
        lemma_categories_len_le(diags.drop_last(), prefix);
    }
}

/// The number of diagnostics at or above a threshold is the number of held
/// diagnostics whose severity is at least as grave as the threshold; one of
/// exactly the threshold's severity is counted.
pub proof fn count_at_or_above_counts_held_diagnostics(d: Diagnostics, threshold: Severity)
    requires
        d.counts_match(),
    ensures
        d.spec_count_at_or_above(threshold) == count_at_or_above(d.spec_diags(), threshold),
{
    lemma_count_at_or_above_by_severity(d.spec_diags(), threshold);
    assert(d.spec_count(Severity::Warning) == count_severity(d.spec_diags(), Severity::Warning));
    assert(d.spec_count(Severity::NonblockingError) == count_severity(
        d.spec_diags(),
        Severity::NonblockingError,
    ));
    assert(d.spec_count(Severity::BlockingError) == count_severity(
        d.spec_diags(),
        Severity::BlockingError,
    ));
    assert(d.spec_count(Severity::Bug) == count_severity(d.spec_diags(), Severity::Bug));
}

/// The gravest severity is that of some held diagnostic, and no held
/// diagnostic is graver; there is none exactly when nothing is held.
pub proof fn max_severity_is_gravest_held(d: Diagnostics)
    requires
        d.counts_match(),
    ensures
        d.spec_max_severity() is None <==> d.spec_diags().len() == 0,
        d.spec_max_severity() matches Some(m) ==> {
            &&& exists|i: int|
                0 <= i < d.spec_diags().len() && (#[trigger] d.spec_diags()[i]).spec_info().severity
                    == m
            &&& forall|i: int|
                0 <= i < d.spec_diags().len() ==> severity_rank(
                    (#[trigger] d.spec_diags()[i]).spec_info().severity,
                ) <= severity_rank(m)
        },
{
    let ds = d.spec_diags();
    assert(d.spec_count(Severity::Warning) == count_severity(ds, Severity::Warning));
    assert(d.spec_count(Severity::NonblockingError) == count_severity(ds, Severity::NonblockingError));
    assert(d.spec_count(Severity::BlockingError) == count_severity(ds, Severity::BlockingError));
    assert(d.spec_count(Severity::Bug) == count_severity(ds, Severity::Bug));
    lemma_count_severity_positive(ds, Severity::Warning);
    lemma_count_severity_positive(ds, Severity::NonblockingError);
    lemma_count_severity_positive(ds, Severity::BlockingError);
    lemma_count_severity_positive(ds, Severity::Bug);
    if ds.len() > 0 {
        let s0 = ds[0].spec_info().severity;
        assert(ds[0].spec_info().severity == s0);
        match s0 {
            Severity::Warning => {},
            Severity::NonblockingError => {},
            Severity::BlockingError => {},
            Severity::Bug => {},
        }
    }
    assert forall|i: int| 0 <= i < ds.len() implies (d.spec_max_severity() matches Some(m)
        && severity_rank((#[trigger] ds[i]).spec_info().severity) <= severity_rank(m)) by {
        let si = ds[i].spec_info().severity;
        match si {
            Severity::Warning => {},
            Severity::NonblockingError => {},
            Severity::BlockingError => {},
            Severity::Bug => {},
        }
    }
}

} // verus!
