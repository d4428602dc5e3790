//! Workflow runs that are protected by name from any purge.
use crate::model::{Account, AccountView, RepositoryRef, RepositoryRefView, WorkflowRun, WorkflowRunView};
use crate::text::{
    blank, byte_width, bytes_up_to, chars_of, decimal, has_control, is_blank, is_control, is_space, join2, join4,
    join9, number, quoted, quoted_text,
};
use crate::time::{utc_now, Timestamp};
use crate::value::Value;
use vstd::prelude::*;

verus! {

/// What a protection is of.
#[derive(Clone, Debug, PartialEq, Eq, Hash)]
pub struct RunProtectionKey {
    pub provider: String,
    pub provider_instance: String,
    pub repository_id: u64,
    pub run_id: u64,
}

/// The contents of [`RunProtectionKey`].
#[verifier::ext_equal]
pub struct RunProtectionKeyView {
    pub provider: Seq<char>,
    pub provider_instance: Seq<char>,
    pub repository_id: u64,
    pub run_id: u64,
}

impl DeepView for RunProtectionKey {
    type V = RunProtectionKeyView;

    open spec fn deep_view(&self) -> RunProtectionKeyView {
        RunProtectionKeyView {
            provider: self.provider.deep_view(),
            provider_instance: self.provider_instance.deep_view(),
            repository_id: self.repository_id,
            run_id: self.run_id,
        }
    }
}

impl Value for RunProtectionKey {
    fn copied(&self) -> (result: Self) {
        RunProtectionKey {
            provider: self.provider.copied(),
            provider_instance: self.provider_instance.copied(),
            repository_id: self.repository_id,
            run_id: self.run_id,
        }
    }

    fn same(&self, other: &Self) -> (result: bool) {
        self.provider.same(&other.provider)
            && self.provider_instance.same(&other.provider_instance)
            && self.repository_id == other.repository_id
            && self.run_id == other.run_id
    }
}

/// A protection of a workflow run.
#[derive(Clone, Debug, PartialEq, Eq)]
pub struct RunProtection {
    pub key: RunProtectionKey,
    pub account: Account,
    pub repository: RepositoryRef,
    pub workflow_id: u64,
    pub head_sha: String,
    pub run_number: u64,
    pub created_at: Timestamp,
    pub protected_at: Timestamp,
    pub reason: String,
}

/// The contents of [`RunProtection`].
#[verifier::ext_equal]
pub struct RunProtectionView {
    pub key: RunProtectionKeyView,
    pub account: AccountView,
    pub repository: RepositoryRefView,
    pub workflow_id: u64,
    pub head_sha: Seq<char>,
    pub run_number: u64,
    pub created_at: Timestamp,
    pub protected_at: Timestamp,
    pub reason: Seq<char>,
}

impl DeepView for RunProtection {
    type V = RunProtectionView;

    open spec fn deep_view(&self) -> RunProtectionView {
        RunProtectionView {
            key: self.key.deep_view(),
            account: self.account.deep_view(),
            repository: self.repository.deep_view(),
            workflow_id: self.workflow_id,
            head_sha: self.head_sha.deep_view(),
            run_number: self.run_number,
            created_at: self.created_at,
            protected_at: self.protected_at,
            reason: self.reason.deep_view(),
        }
    }
}

impl Value for RunProtection {
    fn copied(&self) -> (result: Self) {
        RunProtection {
            key: self.key.copied(),
            account: self.account.copied(),
            repository: self.repository.copied(),
            workflow_id: self.workflow_id,
            head_sha: self.head_sha.copied(),
            run_number: self.run_number,
            created_at: self.created_at,
            protected_at: self.protected_at,
            reason: self.reason.copied(),
        }
    }

    fn same(&self, other: &Self) -> (result: bool) {
        self.key.same(&other.key)
            && self.account.same(&other.account)
            && self.repository.same(&other.repository)
            && self.workflow_id == other.workflow_id
            && self.head_sha.same(&other.head_sha)
            && self.run_number == other.run_number
            && self.created_at == other.created_at
            && self.protected_at == other.protected_at
            && self.reason.same(&other.reason)
    }
}

/// Why a protection needs a look.
#[derive(Clone, Copy, Debug, PartialEq, Eq, Structural)]
pub enum ProtectionReviewCode {
    IdentityMismatch,
    RepositoryRenamed,
    Unverifiable,
}

impl DeepView for ProtectionReviewCode {
    type V = ProtectionReviewCode;

    open spec fn deep_view(&self) -> ProtectionReviewCode {
        *self
    }
}

impl Value for ProtectionReviewCode {
    fn copied(&self) -> (result: Self) {
        *self
    }

    fn same(&self, other: &Self) -> (result: bool) {
        *self == *other
    }
}

/// Whether a run is protected.
#[derive(Clone, Debug, PartialEq, Eq)]
pub enum ProtectionAssessment {
    NoEntry,
    Protected(Box<RunProtection>),
    Review { code: ProtectionReviewCode, explanation: String },
}

/// The contents of [`ProtectionAssessment`].
#[verifier::ext_equal]
pub enum ProtectionAssessmentView {
    NoEntry,
    Protected(RunProtectionView),
    Review { code: ProtectionReviewCode, explanation: Seq<char> },
}

impl DeepView for ProtectionAssessment {
    type V = ProtectionAssessmentView;

    open spec fn deep_view(&self) -> ProtectionAssessmentView {
        match self {
            ProtectionAssessment::NoEntry => ProtectionAssessmentView::NoEntry,
            ProtectionAssessment::Protected(inner) => ProtectionAssessmentView::Protected((**inner).deep_view()),
            ProtectionAssessment::Review { code, explanation } => ProtectionAssessmentView::Review { code: *code, explanation: explanation.deep_view() },
        }
    }
}

/// Why a protection cannot be had.
#[derive(Debug)]
pub enum RunProtectionError {
    Invalid(String),
    Duplicate(RunProtectionKey),
    Store(String),
}

/// The contents of [`RunProtectionError`].
#[verifier::ext_equal]
pub enum RunProtectionErrorView {
    Invalid(Seq<char>),
    Duplicate(RunProtectionKeyView),
    Store(Seq<char>),
}

impl DeepView for RunProtectionError {
    type V = RunProtectionErrorView;

    open spec fn deep_view(&self) -> RunProtectionErrorView {
        match self {
            RunProtectionError::Invalid(detail) => RunProtectionErrorView::Invalid(detail@),
            RunProtectionError::Duplicate(key) => RunProtectionErrorView::Duplicate(key.deep_view()),
            RunProtectionError::Store(detail) => RunProtectionErrorView::Store(detail@),
        }
    }
}

impl RunProtectionKeyView {
    /// The key with the names of its parts.
    pub open spec fn text(self) -> Seq<char> {
        "RunProtectionKey { provider: "@ + quoted_text(self.provider) + ", provider_instance: "@ + quoted_text(
            self.provider_instance,
        ) + ", repository_id: "@ + decimal(self.repository_id as nat) + ", run_id: "@ + decimal(self.run_id as nat)
            + " }"@
    }
}

impl RunProtectionErrorView {
    /// The error in words.
    pub open spec fn text(self) -> Seq<char> {
        match self {
            RunProtectionErrorView::Invalid(detail) => "invalid workflow run protection: "@ + detail,
            RunProtectionErrorView::Duplicate(key) => "duplicate workflow run protection: "@ + key.text(),
            RunProtectionErrorView::Store(detail) => "workflow run protection storage unavailable: "@ + detail,
        }
    }
}

impl RunProtectionError {
    /// The error in words.
    pub fn message(&self) -> (result: String)
        ensures
            result@ == self.deep_view().text(),
    {
        match self {
            RunProtectionError::Invalid(detail) => join2("invalid workflow run protection: ", detail.as_str()),
            RunProtectionError::Duplicate(key) => {
                let text = join9(
                    "RunProtectionKey { provider: ",
                    quoted(key.provider.as_str()).as_str(),
                    ", provider_instance: ",
                    quoted(key.provider_instance.as_str()).as_str(),
                    ", repository_id: ",
                    number(key.repository_id).as_str(),
                    ", run_id: ",
                    number(key.run_id).as_str(),
                    " }",
                );
                join2("duplicate workflow run protection: ", text.as_str())
            },
            RunProtectionError::Store(detail) => join2(
                "workflow run protection storage unavailable: ",
                detail.as_str(),
            ),
        }
    }
}

impl ProtectionReviewCode {
    pub open spec fn text(self) -> Seq<char> {
        match self {
            ProtectionReviewCode::IdentityMismatch => "local_protection_identity_mismatch"@,
            ProtectionReviewCode::RepositoryRenamed => "local_protection_repository_renamed"@,
            ProtectionReviewCode::Unverifiable => "local_protection_unverifiable"@,
        }
    }

    /// The code as it is stored and shown.
    pub fn as_str(self) -> (result: &'static str)
        ensures
            result@ == self.text(),
    {
        match self {
            ProtectionReviewCode::IdentityMismatch => "local_protection_identity_mismatch",
            ProtectionReviewCode::RepositoryRenamed => "local_protection_repository_renamed",
            ProtectionReviewCode::Unverifiable => "local_protection_unverifiable",
        }
    }
}

/// The key of a run.
pub open spec fn key_of(provider_instance: Seq<char>, account: AccountView, run: WorkflowRunView) -> RunProtectionKeyView {
    RunProtectionKeyView {
        provider: account.provider,
        provider_instance,
        repository_id: run.repository.id,
        run_id: run.id,
    }
}

impl RunProtectionKey {
    /// The key of a run.
    pub fn for_run(provider_instance: &str, account: &Account, run: &WorkflowRun) -> (result: Self)
        ensures
            result.deep_view() == key_of(provider_instance@, account.deep_view(), run.deep_view()),
    {
        RunProtectionKey {
            provider: account.provider.copied(),
            provider_instance: provider_instance.to_string(),
            repository_id: run.repository.id,
            run_id: run.id,
        }
    }
}

/// An owner and a name around the one slash.
pub open spec fn owner_slash_name(s: Seq<char>) -> bool {
    exists|k: int| 0 < k < s.len() - 1 && only_slash(s, k)
}

/// The slash at `k` is the only one.
pub open spec fn only_slash(s: Seq<char>, k: int) -> bool {
    forall|i: int| 0 <= i < s.len() ==> ((#[trigger] s[i]) == '/' <==> i == k)
}

fn is_owner_slash_name(s: &str) -> (result: bool)
    ensures
        result == owner_slash_name(s@),
{
    let x = chars_of(s);
    let mut i: usize = 0;
    while i < x.len() && x[i] != '/'
        invariant
            x@ == s@,
            i <= x.len(),
            forall|k: int| 0 <= k < i ==> #[trigger] s@[k] != '/',
        decreases x.len() - i,
    {
        i = i + 1;
    }
    if i == 0 || i >= x.len() || i + 1 == x.len() {
        proof {
            if owner_slash_name(s@) {
                let k = choose|k: int| 0 < k < s@.len() - 1 && only_slash(s@, k);
                assert(s@[k] == '/');
                if i < x.len() {
                    assert(s@[i as int] == '/');
                }
            }
        }
        return false;
    }
    let slash: usize = i;
    i = i + 1;
    while i < x.len()
        invariant
            x@ == s@,
            0 < slash < i <= x.len(),
            slash + 1 < x.len(),
            s@[slash as int] == '/',
            forall|k: int| 0 <= k < i && k != slash ==> #[trigger] s@[k] != '/',
        decreases x.len() - i,
    {
        if x[i] == '/' {
            proof {
                if owner_slash_name(s@) {
                    let k = choose|k: int| 0 < k < s@.len() - 1 && only_slash(s@, k);
                    assert(s@[i as int] == '/');
                    assert(s@[slash as int] == '/');
                }
            }
            return false;
        }
        i = i + 1;
    }
    assert(only_slash(s@, slash as int));
    true
}

impl RunProtectionView {
    /// Whether the protection says of itself what it has to.
    pub open spec fn valid(self) -> bool {
        &&& self.key.provider.len() > 0
        &&& self.key.provider_instance.len() > 0
        &&& self.key.repository_id != 0
        &&& self.key.run_id != 0
        &&& self.account.provider == self.key.provider
        &&& self.account.login.len() > 0
        &&& self.repository.id == self.key.repository_id
        &&& owner_slash_name(self.repository.full_name)
        &&& self.workflow_id != 0
        &&& self.head_sha.len() > 0
        &&& self.run_number != 0
        &&& !blank(self.reason)
        &&& byte_width(self.reason) <= 1024
        &&& forall|i: int| 0 <= i < self.reason.len() ==> !is_control(#[trigger] self.reason[i])
    }
}

/// What is said of a protection that is not valid.
pub open spec fn invalid_protection() -> RunProtectionErrorView {
    RunProtectionErrorView::Invalid("protection identity or reason is incomplete or invalid"@)
}

fn is_empty(s: &String) -> (result: bool)
    ensures
        result == (s@.len() == 0),
{
    chars_of(s.as_str()).len() == 0
}

/// The protection of a run.
pub open spec fn protection_of(
    provider_instance: Seq<char>,
    account: AccountView,
    run: WorkflowRunView,
    reason: Seq<char>,
    protected_at: Timestamp,
) -> RunProtectionView {
    RunProtectionView {
        key: key_of(provider_instance, account, run),
        account,
        repository: run.repository,
        workflow_id: run.workflow_id,
        head_sha: run.head_sha,
        run_number: run.run_number,
        created_at: run.created_at,
        protected_at,
        reason,
    }
}

impl RunProtection {
    /// Protects a run from now on.
    pub fn from_verified_run(
        provider_instance: &str,
        account: &Account,
        run: &WorkflowRun,
        reason: String,
    ) -> (result: Result<Self, RunProtectionError>)
        ensures
            match result {
                Ok(protection) => protection.deep_view().valid() && protection.deep_view() == protection_of(
                    provider_instance@,
                    account.deep_view(),
                    run.deep_view(),
                    reason@,
                    protection.deep_view().protected_at,
                ),
                Err(error) => error.deep_view() == invalid_protection() && forall|at: Timestamp|
                    !(#[trigger] protection_of(
                        provider_instance@,
                        account.deep_view(),
                        run.deep_view(),
                        reason@,
                        at,
                    )).valid(),
            },
    {
        let protection = RunProtection {
            key: RunProtectionKey::for_run(provider_instance, account, run),
            account: account.copied(),
            repository: run.repository.copied(),
            workflow_id: run.workflow_id,
            head_sha: run.head_sha.copied(),
            run_number: run.run_number,
            created_at: run.created_at,
            protected_at: utc_now(),
            reason,
        };
        match protection.validate() {
            Ok(()) => Ok(protection),
            Err(error) => Err(error),
        }
    }

    /// Checks that the protection says of itself what it has to.
    pub fn validate(&self) -> (result: Result<(), RunProtectionError>)
        ensures
            result is Ok <==> self.deep_view().valid(),
            result matches Err(error) ==> error.deep_view() == invalid_protection(),
    {
        if is_empty(&self.key.provider) || is_empty(&self.key.provider_instance) || self.key.repository_id == 0
            || self.key.run_id == 0 || !self.account.provider.same(&self.key.provider) || is_empty(&self.account.login)
            || self.repository.id != self.key.repository_id || !is_owner_slash_name(self.repository.full_name.as_str())
            || self.workflow_id == 0 || is_empty(&self.head_sha) || self.run_number == 0 || is_blank(
            self.reason.as_str(),
        ) || bytes_up_to(self.reason.as_str(), 1024) > 1024 || has_control(self.reason.as_str()) {
            return Err(
                RunProtectionError::Invalid(
                    "protection identity or reason is incomplete or invalid".to_string(),
                ),
            );
        }
        Ok(())
    }
}

/// All protections.
#[derive(Clone, Debug, PartialEq, Eq)]
pub struct ProtectionIndex {
    entries: Vec<RunProtection>,
}

impl DeepView for ProtectionIndex {
    type V = Seq<RunProtectionView>;

    closed spec fn deep_view(&self) -> Seq<RunProtectionView> {
        self.entries.deep_view()
    }
}

impl Default for ProtectionIndex {
    /// No protections.
    fn default() -> (result: Self)
        ensures
            result.deep_view() == Seq::<RunProtectionView>::empty(),
    {
        ProtectionIndex { entries: crate::value::nothing() }
    }
}

/// Whether an entry before `end` has the key.
pub open spec fn key_before(entries: Seq<RunProtectionView>, end: int, key: RunProtectionKeyView) -> bool {
    exists|i: int| 0 <= i < end && (#[trigger] entries[i]).key == key
}

/// The first thing that is wrong with the entries from `from` on.
pub open spec fn entries_problem(entries: Seq<RunProtectionView>, from: int) -> Option<RunProtectionErrorView>
    decreases entries.len() - from,
{
    if from < 0 || from >= entries.len() {
        None
    } else if !entries[from].valid() {
        Some(invalid_protection())
    } else if key_before(entries, from, entries[from].key) {
        Some(RunProtectionErrorView::Duplicate(entries[from].key))
    } else {
        entries_problem(entries, from + 1)
    }
}

/// The first entry from `from` on with the key, or else, if `loosely`, with the same run of the
/// same provider.
pub open spec fn first_entry(
    entries: Seq<RunProtectionView>,
    key: RunProtectionKeyView,
    loosely: bool,
    from: int,
) -> Option<int>
    decreases entries.len() - from,
{
    if from < 0 || from >= entries.len() {
        None
    } else if (if loosely {
        same_run(entries[from].key, key)
    } else {
        entries[from].key == key
    }) {
        Some(from)
    } else {
        first_entry(entries, key, loosely, from + 1)
    }
}

/// The same run of the same provider, whatever its repository.
pub open spec fn same_run(a: RunProtectionKeyView, b: RunProtectionKeyView) -> bool {
    a.provider == b.provider && a.provider_instance == b.provider_instance && a.run_id == b.run_id
}

/// The entry that speaks of a run.
pub open spec fn entry_for(entries: Seq<RunProtectionView>, key: RunProtectionKeyView) -> Option<int> {
    match first_entry(entries, key, false, 0) {
        Some(i) => Some(i),
        None => first_entry(entries, key, true, 0),
    }
}

/// What an entry says of a run.
pub open spec fn assessed(
    entry: RunProtectionView,
    account: AccountView,
    run: WorkflowRunView,
) -> ProtectionAssessmentView {
    if entry.key.repository_id != run.repository.id {
        ProtectionAssessmentView::Review {
            code: ProtectionReviewCode::IdentityMismatch,
            explanation: "repository name now resolves to a different repository ID"@,
        }
    } else if entry.repository.full_name != run.repository.full_name {
        ProtectionAssessmentView::Review {
            code: ProtectionReviewCode::RepositoryRenamed,
            explanation: "protected repository name "@ + entry.repository.full_name + " differs from current "@
                + run.repository.full_name,
        }
    } else if entry.account != account {
        ProtectionAssessmentView::Review {
            code: ProtectionReviewCode::Unverifiable,
            explanation: "authenticated account differs from the protection record"@,
        }
    } else if entry.workflow_id != run.workflow_id || entry.head_sha != run.head_sha || entry.run_number
        != run.run_number || entry.created_at != run.created_at {
        ProtectionAssessmentView::Review {
            code: ProtectionReviewCode::IdentityMismatch,
            explanation: "workflow run stable identity differs from the protection record"@,
        }
    } else {
        ProtectionAssessmentView::Protected(entry)
    }
}

/// What the entries say of a run.
pub open spec fn assessment(
    entries: Seq<RunProtectionView>,
    provider_instance: Seq<char>,
    account: AccountView,
    run: WorkflowRunView,
) -> ProtectionAssessmentView {
    match entry_for(entries, key_of(provider_instance, account, run)) {
        Some(i) => assessed(entries[i], account, run),
        None => ProtectionAssessmentView::NoEntry,
    }
}

fn is_same_run(a: &RunProtectionKey, b: &RunProtectionKey) -> (result: bool)
    ensures
        result == same_run(a.deep_view(), b.deep_view()),
{
    a.provider.same(&b.provider) && a.provider_instance.same(&b.provider_instance) && a.run_id == b.run_id
}

impl ProtectionIndex {
    /// Takes protections that are valid and do not speak of the same run twice.
    pub fn new(entries: Vec<RunProtection>) -> (result: Result<Self, RunProtectionError>)
        ensures
            match entries_problem(entries.deep_view(), 0) {
                Some(problem) => result is Err && result->Err_0.deep_view() == problem,
                None => result is Ok && result->Ok_0.deep_view() == entries.deep_view(),
            },
    {
        let ghost all = entries.deep_view();
        let mut i: usize = 0;
        while i < entries.len()
            invariant
                i <= entries.len(),
                all == entries.deep_view(),
                entries_problem(all, 0) == entries_problem(all, i as int),
            decreases entries.len() - i,
        {
            assert(all[i as int] == entries@[i as int].deep_view());
            match entries[i].validate() {
                Ok(()) => {},
                Err(error) => {
                    return Err(error);
                },
            }
            let mut j: usize = 0;
            while j < i && !entries[j].key.same(&entries[i].key)
                invariant
                    j <= i < entries.len(),
                    all == entries.deep_view(),
                    forall|k: int| 0 <= k < j ==> (#[trigger] all[k]).key != all[i as int].key,
                decreases i - j,
            {
                j = j + 1;
            }
            if j < i {
                assert(all[j as int].key == all[i as int].key);
                return Err(RunProtectionError::Duplicate(entries[i].key.copied()));
            }
            i = i + 1;
        }
        Ok(ProtectionIndex { entries })
    }

    pub fn entries(&self) -> (result: &Vec<RunProtection>)
        ensures
            result.deep_view() == self.deep_view(),
    {
        &self.entries
    }

    fn find(&self, key: &RunProtectionKey, loosely: bool) -> (result: Option<usize>)
        ensures
            match first_entry(self.deep_view(), key.deep_view(), loosely, 0) {
                Some(i) => result matches Some(k) && k == i && k < self.deep_view().len(),
                None => result is None,
            },
    {
        let ghost all = self.entries.deep_view();
        let mut i: usize = 0;
        while i < self.entries.len()
            invariant
                i <= self.entries.len(),
                all == self.entries.deep_view(),
                first_entry(all, key.deep_view(), loosely, 0) == first_entry(all, key.deep_view(), loosely, i as int),
            decreases self.entries.len() - i,
        {
            assert(all[i as int] == self.entries@[i as int].deep_view());
            let found = if loosely {
                is_same_run(&self.entries[i].key, key)
            } else {
                self.entries[i].key.same(key)
            };
            if found {
                return Some(i);
            }
            i = i + 1;
        }
        None
    }

    /// Whether a run is protected.
    pub fn assess(&self, provider_instance: &str, account: &Account, run: &WorkflowRun) -> (result:
        ProtectionAssessment)
        ensures
            result.deep_view() == assessment(
                self.deep_view(),
                provider_instance@,
                account.deep_view(),
                run.deep_view(),
            ),
    {
        let key = RunProtectionKey::for_run(provider_instance, account, run);
        let found = match self.find(&key, false) {
            Some(i) => Some(i),
            None => self.find(&key, true),
        };
        let i: usize = match found {
            Some(i) => i,
            None => {
                return ProtectionAssessment::NoEntry;
            },
        };
        let entry = &self.entries[i];
        assert(self.deep_view()[i as int] == entry.deep_view());
        assert(entry_for(self.deep_view(), key.deep_view()) == Some(i as int));
        if entry.key.repository_id != run.repository.id {
            return ProtectionAssessment::Review {
                code: ProtectionReviewCode::IdentityMismatch,
                explanation: "repository name now resolves to a different repository ID".to_string(),
            };
        }
        if !entry.repository.full_name.same(&run.repository.full_name) {
            return ProtectionAssessment::Review {
                code: ProtectionReviewCode::RepositoryRenamed,
                explanation: join4(
                    "protected repository name ",
                    entry.repository.full_name.as_str(),
                    " differs from current ",
                    run.repository.full_name.as_str(),
                ),
            };
        }
        if !entry.account.same(account) {
            return ProtectionAssessment::Review {
                code: ProtectionReviewCode::Unverifiable,
                explanation: "authenticated account differs from the protection record".to_string(),
            };
        }
        if entry.workflow_id != run.workflow_id || !entry.head_sha.same(&run.head_sha) || entry.run_number
            != run.run_number || entry.created_at != run.created_at {
            return ProtectionAssessment::Review {
                code: ProtectionReviewCode::IdentityMismatch,
                explanation: "workflow run stable identity differs from the protection record".to_string(),
            };
        }
        ProtectionAssessment::Protected(Box::new(entry.copied()))
    }
}

proof fn lemma_first_entry(entries: Seq<RunProtectionView>, key: RunProtectionKeyView, loosely: bool, from: int, i: int)
    requires
        0 <= from <= i < entries.len(),
        forall|j: int|
            from <= j < i ==> !(if loosely {
                same_run((#[trigger] entries[j]).key, key)
            } else {
                entries[j].key == key
            }),
        if loosely {
            same_run(entries[i].key, key)
        } else {
            entries[i].key == key
        },
    ensures
        first_entry(entries, key, loosely, from) == Some(i),
    decreases i - from,
{
    if from < i {
        assert(!(if loosely {
            same_run(entries[from].key, key)
        } else {
            entries[from].key == key
        }));
        lemma_first_entry(entries, key, loosely, from + 1, i);
    }
}

proof fn lemma_no_entry(entries: Seq<RunProtectionView>, key: RunProtectionKeyView, loosely: bool, from: int)
    requires
        0 <= from <= entries.len(),
        forall|j: int| from <= j < entries.len() ==> !same_run((#[trigger] entries[j]).key, key),
    ensures
        first_entry(entries, key, loosely, from) is None,
    decreases entries.len() - from,
{
    if from < entries.len() {
        assert(!same_run(entries[from].key, key));
        lemma_no_entry(entries, key, loosely, from + 1);
    }
}

proof fn lemma_keys_differ(entries: Seq<RunProtectionView>, from: int, i: int, j: int)
    requires
        0 <= from <= j < entries.len(),
        0 <= i < j,
        entries_problem(entries, from) is None,
    ensures
        entries[i].key != entries[j].key,
    decreases j - from,
{
    if from < j {
        lemma_keys_differ(entries, from + 1, i, j);
    } else {
        if entries[i].key == entries[j].key {
            assert(key_before(entries, j, entries[j].key));
        }
    }
}

/// A protected run stays protected however often it is attempted again: neither the attempt nor
/// its state, title or last update counts.
pub proof fn protection_survives_another_attempt(
    entries: Seq<RunProtectionView>,
    provider_instance: Seq<char>,
    account: AccountView,
    run: WorkflowRunView,
    again: WorkflowRunView,
)
    requires
        assessment(entries, provider_instance, account, run) is Protected,
        again.id == run.id,
        again.repository == run.repository,
        again.workflow_id == run.workflow_id,
        again.head_sha == run.head_sha,
        again.run_number == run.run_number,
        again.created_at == run.created_at,
    ensures
        assessment(entries, provider_instance, account, again) == assessment(entries, provider_instance, account, run),
{
}

/// What was protected is found protected: in an index of valid entries, a run is protected by the
/// entry that was made of it.
pub proof fn a_protected_run_is_found(
    entries: Seq<RunProtectionView>,
    i: int,
    provider_instance: Seq<char>,
    account: AccountView,
    run: WorkflowRunView,
    reason: Seq<char>,
    protected_at: Timestamp,
)
    requires
        entries_problem(entries, 0) is None,
        0 <= i < entries.len(),
        entries[i] == protection_of(provider_instance, account, run, reason, protected_at),
    ensures
        assessment(entries, provider_instance, account, run) == ProtectionAssessmentView::Protected(entries[i]),
{
    let key = key_of(provider_instance, account, run);
    assert forall|j: int| 0 <= j < i implies (#[trigger] entries[j]).key != key by {
        lemma_keys_differ(entries, 0, j, i);
    }
    lemma_first_entry(entries, key, false, 0, i);
}

/// Protection never moves to another run: a run that no entry names is not protected.
pub proof fn protection_never_moves(
    entries: Seq<RunProtectionView>,
    provider_instance: Seq<char>,
    account: AccountView,
    run: WorkflowRunView,
)
    requires
        forall|j: int|
            0 <= j < entries.len() ==> !same_run(
                (#[trigger] entries[j]).key,
                key_of(provider_instance, account, run),
            ),
    ensures
        assessment(entries, provider_instance, account, run) is NoEntry,
{
    lemma_no_entry(entries, key_of(provider_instance, account, run), false, 0);
    lemma_no_entry(entries, key_of(provider_instance, account, run), true, 0);
}

/// What guards runs: it tells of a run whether it is protected.
pub trait RunProtectionGuard: Send + Sync {
    fn assess(&self, provider_instance: &str, account: &Account, run: &WorkflowRun) -> Result<
        ProtectionAssessment,
        RunProtectionError,
    >;
}

/// A protection is kept only where it names a provider, a repository, a run and an account that fit
/// together, and gives a reason that is not blank, not longer than 1024 bytes and free of control
/// characters.
pub proof fn a_valid_protection_is_complete(protection: RunProtectionView)
    ensures
        protection.valid() <==> {
            &&& protection.key.provider.len() > 0 && protection.key.provider_instance.len() > 0
            &&& protection.key.repository_id > 0 && protection.key.run_id > 0
            &&& protection.account.provider == protection.key.provider && protection.account.login.len() > 0
            &&& protection.repository.id == protection.key.repository_id
            &&& exists|k: int|
                0 < k < protection.repository.full_name.len() - 1 && #[trigger] protection.repository.full_name[k] == '/'
                    && forall|i: int|
                    0 <= i < protection.repository.full_name.len() && i != k
                        ==> #[trigger] protection.repository.full_name[i] != '/'
            &&& protection.workflow_id > 0 && protection.head_sha.len() > 0 && protection.run_number > 0
            &&& exists|i: int| 0 <= i < protection.reason.len() && !is_space(#[trigger] protection.reason[i])
            &&& byte_width(protection.reason) <= 1024
            &&& forall|i: int| 0 <= i < protection.reason.len() ==> !is_control(#[trigger] protection.reason[i])
        },
{
    let name = protection.repository.full_name;
    if owner_slash_name(name) {
        let k = choose|k: int| 0 < k < name.len() - 1 && only_slash(name, k);
        assert(name[k] == '/');
        assert forall|i: int| 0 <= i < name.len() && i != k implies #[trigger] name[i] != '/' by {}
    }
    if exists|k: int|
        0 < k < name.len() - 1 && #[trigger] name[k] == '/' && forall|i: int|
            0 <= i < name.len() && i != k ==> #[trigger] name[i] != '/' {
        let k = choose|k: int|
            0 < k < name.len() - 1 && #[trigger] name[k] == '/' && forall|i: int|
                0 <= i < name.len() && i != k ==> #[trigger] name[i] != '/';
        assert(only_slash(name, k));
    }
}

/// The protection of a run holds what tells the run from every other: where it is, whose it is, of
/// which workflow and commit, its number, and when it was made.
pub proof fn a_protection_holds_what_tells_the_run(
    provider_instance: Seq<char>,
    account: AccountView,
    run: WorkflowRunView,
    reason: Seq<char>,
    protected_at: Timestamp,
)
    ensures
        ({
            let protection = protection_of(provider_instance, account, run, reason, protected_at);
            &&& protection.key.provider == account.provider
            &&& protection.key.provider_instance == provider_instance
            &&& protection.key.repository_id == run.repository.id
            &&& protection.key.run_id == run.id
            &&& protection.account == account
            &&& protection.repository == run.repository
            &&& protection.workflow_id == run.workflow_id
            &&& protection.head_sha == run.head_sha
            &&& protection.run_number == run.run_number
            &&& protection.created_at == run.created_at
            &&& protection.protected_at == protected_at
            &&& protection.reason == reason
        }),
{
}

/// Protections are kept where each is valid and no two have the same key.
pub proof fn protections_are_kept_once(entries: Seq<RunProtectionView>)
    ensures
        entries_problem(entries, 0) is None <==> (forall|i: int|
            0 <= i < entries.len() ==> (#[trigger] entries[i]).valid()) && (forall|i: int, j: int|
            0 <= i < j < entries.len() ==> (#[trigger] entries[i]).key != (#[trigger] entries[j]).key),
{
    lemma_entries(entries, 0);
}

proof fn lemma_entries(entries: Seq<RunProtectionView>, from: int)
    requires
        0 <= from <= entries.len(),
    ensures
        entries_problem(entries, from) is None <==> (forall|i: int|
            from <= i < entries.len() ==> (#[trigger] entries[i]).valid()) && (forall|i: int, j: int|
            0 <= i < j < entries.len() && from <= j ==> (#[trigger] entries[i]).key != (#[trigger] entries[j]).key),
    decreases entries.len() - from,
{
    if from < entries.len() {
        lemma_entries(entries, from + 1);
        if key_before(entries, from, entries[from].key) {
            let i = choose|i: int| 0 <= i < from && (#[trigger] entries[i]).key == entries[from].key;
            assert(entries[i].key == entries[from].key);
        } else if entries[from].valid() && entries_problem(entries, from + 1) is None {
            assert forall|i: int, j: int| 0 <= i < j < entries.len() && from <= j implies (#[trigger] entries[i]).key
                != (#[trigger] entries[j]).key by {
                if j == from {
                    assert(!key_before(entries, from, entries[from].key));
                }
            }
        }
    }
}

/// Whether an entry is of the provider, of its instance and of the number of a run.
pub open spec fn names_run(
    entry: RunProtectionView,
    provider_instance: Seq<char>,
    account: AccountView,
    run: WorkflowRunView,
) -> bool {
    entry.key.provider == account.provider && entry.key.provider_instance == provider_instance && entry.key.run_id
        == run.id
}

/// What the entry with the repository and the number of a run says of it: it is protected where
/// nothing that tells it from others differs. Otherwise somebody has to look: at a repository of
/// another name, at another account, at a run that is another one.
pub proof fn an_entry_protects_its_own_run(
    entries: Seq<RunProtectionView>,
    i: int,
    provider_instance: Seq<char>,
    account: AccountView,
    run: WorkflowRunView,
)
    requires
        entries_problem(entries, 0) is None,
        0 <= i < entries.len(),
        names_run(entries[i], provider_instance, account, run),
        entries[i].key.repository_id == run.repository.id,
    ensures
        ({
            let entry = entries[i];
            let found = assessment(entries, provider_instance, account, run);
            let named = entry.repository.full_name == run.repository.full_name;
            let identical = entry.workflow_id == run.workflow_id && entry.head_sha == run.head_sha && entry.run_number
                == run.run_number && entry.created_at == run.created_at;
            &&& found is Protected <==> named && entry.account == account && identical
            &&& found is Protected ==> found->Protected_0 == entry
            &&& found !is NoEntry
            &&& found is Review && found->code == ProtectionReviewCode::RepositoryRenamed <==> !named
            &&& found is Review && found->code == ProtectionReviewCode::Unverifiable <==> named && entry.account
                != account
            &&& found is Review && found->code == ProtectionReviewCode::IdentityMismatch <==> named && entry.account
                == account && !identical
        }),
{
    let key = key_of(provider_instance, account, run);
    assert(entries[i].key == key);
    assert forall|j: int| 0 <= j < i implies (#[trigger] entries[j]).key != key by {
        lemma_keys_differ(entries, 0, j, i);
    }
    lemma_first_entry(entries, key, false, 0, i);
}

/// A run of the same number in another repository is never taken for the protected one, and never
/// for one that nobody protected: somebody has to look.
pub proof fn another_repository_needs_a_person(
    entries: Seq<RunProtectionView>,
    i: int,
    provider_instance: Seq<char>,
    account: AccountView,
    run: WorkflowRunView,
)
    requires
        0 <= i < entries.len(),
        names_run(entries[i], provider_instance, account, run),
        forall|j: int|
            0 <= j < entries.len() && names_run(#[trigger] entries[j], provider_instance, account, run)
                ==> entries[j].key.repository_id != run.repository.id,
    ensures
        ({
            let found = assessment(entries, provider_instance, account, run);
            found is Review && found->code == ProtectionReviewCode::IdentityMismatch
        }),
{
    let key = key_of(provider_instance, account, run);
    assert forall|j: int| 0 <= j < entries.len() implies (#[trigger] entries[j]).key != key by {
        if entries[j].key == key {
            assert(names_run(entries[j], provider_instance, account, run));
        }
    }
    lemma_no_such_key(entries, key, 0);
    lemma_some_entry(entries, key, 0, i);
    let k = first_entry(entries, key, true, 0)->0;
    assert(names_run(entries[k], provider_instance, account, run));
}

proof fn lemma_no_such_key(entries: Seq<RunProtectionView>, key: RunProtectionKeyView, from: int)
    requires
        0 <= from <= entries.len(),
        forall|j: int| from <= j < entries.len() ==> (#[trigger] entries[j]).key != key,
    ensures
        first_entry(entries, key, false, from) is None,
    decreases entries.len() - from,
{
    if from < entries.len() {
        assert(entries[from].key != key);
        lemma_no_such_key(entries, key, from + 1);
    }
}

proof fn lemma_some_entry(entries: Seq<RunProtectionView>, key: RunProtectionKeyView, from: int, i: int)
    requires
        0 <= from <= i < entries.len(),
        same_run(entries[i].key, key),
    ensures
        first_entry(entries, key, true, from) matches Some(k) && from <= k < entries.len() && same_run(
            entries[k].key,
            key,
        ),
    decreases i - from,
{
    if !same_run(entries[from].key, key) {
        lemma_some_entry(entries, key, from + 1, i);
    }
}

} // verus!
