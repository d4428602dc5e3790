//! Runs that must never be purged.
use chrono::{TimeZone, Utc};
use gh_housekeeper::model::{Account, RepositoryRef, WorkflowRun};
use gh_housekeeper::run_protection::{
    ProtectionAssessment, ProtectionIndex, ProtectionReviewCode, RunProtection, RunProtectionError,
    RunProtectionGuard, RunProtectionKey,
};
use gh_housekeeper::time::Timestamp;

fn run() -> WorkflowRun {
    let time = Utc.with_ymd_and_hms(2026, 9, 20, 12, 0, 0).unwrap();
    let timestamp = Timestamp::from_unix(time.timestamp(), 0).unwrap();
    WorkflowRun {
        id: 7,
        repository: RepositoryRef { id: 11, full_name: "example/project".to_owned() },
        workflow_id: 17,
        workflow_name: Some("CI".to_owned()),
        display_title: "Build".to_owned(),
        event: "push".to_owned(),
        status: "completed".to_owned(),
        conclusion: Some("success".to_owned()),
        head_branch: Some("main".to_owned()),
        head_sha: "0123456789abcdef0123456789abcdef01234567".to_owned(),
        run_number: 5,
        run_attempt: 1,
        created_at: timestamp,
        updated_at: timestamp,
    }
}

fn account() -> Account {
    Account { provider: "github".to_owned(), login: "example".to_owned() }
}

#[test]
fn exact_identity_survives_rerun_but_never_moves_to_another_run() {
    let protected = RunProtection::from_verified_run(
        "https://api.github.com",
        &account(),
        &run(),
        "Evidence".to_owned(),
    )
    .unwrap();
    let index = ProtectionIndex::new(vec![protected]).unwrap();
    let mut attempted_again = run();
    attempted_again.run_attempt = 2;
    assert!(matches!(
        index.assess("https://api.github.com", &account(), &attempted_again),
        ProtectionAssessment::Protected(_)
    ));
    attempted_again.head_sha = "different".to_owned();
    assert!(matches!(
        index.assess("https://api.github.com", &account(), &attempted_again),
        ProtectionAssessment::Review {
            code: ProtectionReviewCode::IdentityMismatch,
            ..
        }
    ));
    attempted_again.id = 8;
    assert_eq!(
        index.assess("https://api.github.com", &account(), &attempted_again),
        ProtectionAssessment::NoEntry
    );
}

#[test]
fn rejects_duplicate_keys() {
    let protection = RunProtection::from_verified_run(
        "https://api.github.com",
        &account(),
        &run(),
        "Evidence".to_owned(),
    )
    .unwrap();
    assert!(matches!(
        ProtectionIndex::new(vec![protection.clone(), protection]),
        Err(RunProtectionError::Duplicate(_))
    ));
}

#[test]
fn a_protected_run_id_with_a_different_repository_needs_review() {
    let protected = RunProtection::from_verified_run(
        "https://api.github.com",
        &account(),
        &run(),
        "Evidence".to_owned(),
    )
    .unwrap();
    let index = ProtectionIndex::new(vec![protected]).unwrap();
    let mut different_repository = run();
    different_repository.repository.id = 99;
    different_repository.repository.full_name = "other/project".to_owned();
    assert!(matches!(
        index.assess("https://api.github.com", &account(), &different_repository),
        ProtectionAssessment::Review {
            code: ProtectionReviewCode::IdentityMismatch,
            ..
        }
    ));
}

fn protected() -> RunProtection {
    RunProtection::from_verified_run(
        "https://api.github.com",
        &account(),
        &run(),
        "Evidence".to_owned(),
    )
    .unwrap()
}

#[test]
fn a_renamed_repository_needs_review() {
    let index = ProtectionIndex::new(vec![protected()]).unwrap();
    let mut renamed = run();
    renamed.repository.full_name = "example/renamed".to_owned();
    assert!(matches!(
        index.assess("https://api.github.com", &account(), &renamed),
        ProtectionAssessment::Review { code: ProtectionReviewCode::RepositoryRenamed, .. }
    ));
    assert_eq!(ProtectionReviewCode::RepositoryRenamed.as_str(), "local_protection_repository_renamed");
}

#[test]
fn protection_needs_a_reason_and_an_identity() {
    for reason in ["", "   "] {
        assert!(matches!(
            RunProtection::from_verified_run(
                "https://api.github.com",
                &account(),
                &run(),
                reason.to_owned(),
            ),
            Err(RunProtectionError::Invalid(_))
        ));
    }
    let mut broken = protected();
    broken.head_sha = String::new();
    let error = broken.validate().unwrap_err();
    assert!(matches!(error, RunProtectionError::Invalid(_)));
    assert!(!error.message().is_empty());
}

#[test]
fn a_key_names_provider_repository_and_run() {
    let key = RunProtectionKey::for_run("https://api.github.com", &account(), &run());
    assert_eq!(key, protected().key);
    assert_eq!((key.repository_id, key.run_id), (11, 7));
    assert_eq!(ProtectionIndex::default().entries().len(), 0);
    assert_eq!(
        ProtectionIndex::default().assess("https://api.github.com", &account(), &run()),
        ProtectionAssessment::NoEntry
    );
}

struct IndexGuard(ProtectionIndex);

impl RunProtectionGuard for IndexGuard {
    fn assess(
        &self,
        provider_instance: &str,
        account: &Account,
        run: &WorkflowRun,
    ) -> Result<ProtectionAssessment, RunProtectionError> {
        Ok(self.0.assess(provider_instance, account, run))
    }
}

#[test]
fn a_guard_can_stand_behind_a_pointer() {
    let protected = RunProtection::from_verified_run(
        "https://api.github.com",
        &account(),
        &run(),
        "Evidence".to_owned(),
    )
    .unwrap();
    let guard: Box<dyn RunProtectionGuard> =
        Box::new(IndexGuard(ProtectionIndex::new(vec![protected]).unwrap()));
    assert!(matches!(
        guard.assess("https://api.github.com", &account(), &run()),
        Ok(ProtectionAssessment::Protected(_))
    ));
}
