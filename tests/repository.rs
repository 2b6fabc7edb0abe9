use impactifier::cli::{log_level, repository_source, LogLevel, RepositorySource};
use impactifier::config::{OptionsConfig, RepositoryConfig};
use impactifier::git::{remote_branch_ref, DiffOptions, FileDelta};

fn repo(url: Option<&str>, path: Option<&str>) -> RepositoryConfig {
    RepositoryConfig {
        url: url.map(|s| s.to_string()),
        path: path.map(|s| s.to_string()),
        access_token: None,
    }
}

#[test]
fn url_takes_precedence_and_clones_into_default_directory() {
    let src = repository_source(
        &repo(Some("https://example.com/r.git"), Some("/tmp/r")),
        &OptionsConfig { clone_into: None },
    );
    match src {
        Some(RepositorySource::Clone { url, into }) => {
            assert_eq!(url, "https://example.com/r.git");
            assert_eq!(into, "cloned_repository");
        }
        _ => panic!("expected a clone"),
    }
}

#[test]
fn clone_directory_comes_from_options() {
    let src = repository_source(
        &repo(Some("https://example.com/r.git"), None),
        &OptionsConfig { clone_into: Some("work".to_string()) },
    );
    assert!(matches!(src, Some(RepositorySource::Clone { into, .. }) if into == "work"));
}

#[test]
fn path_opens_a_local_repository() {
    let src = repository_source(&repo(None, Some("/tmp/r")), &OptionsConfig { clone_into: None });
    assert!(matches!(src, Some(RepositorySource::Open { path }) if path == "/tmp/r"));
}

#[test]
fn neither_url_nor_path_gives_nothing() {
    let src = repository_source(&repo(None, None), &OptionsConfig { clone_into: None });
    assert!(src.is_none());
}

#[test]
fn log_levels_by_number() {
    assert_eq!(log_level(0), LogLevel::Trace);
    assert_eq!(log_level(1), LogLevel::Debug);
    assert_eq!(log_level(2), LogLevel::Info);
    assert_eq!(log_level(3), LogLevel::Warn);
    assert_eq!(log_level(4), LogLevel::Error);
    assert_eq!(log_level(9), LogLevel::Info);
}

#[test]
fn branch_reference_under_origin() {
    assert_eq!(remote_branch_ref("main"), "refs/remotes/origin/main");
}

#[test]
fn file_delta_keeps_its_text() {
    assert_eq!(FileDelta::from("diff --git a b".to_string()).value, "diff --git a b");
    let DiffOptions::Branches { from, to } =
        DiffOptions::Branches { from: "dev".to_string(), to: "main".to_string() };
    assert_eq!((from.as_str(), to.as_str()), ("dev", "main"));
}

use impactifier::utils::{credential_plan, directory_action, CredentialPlan, DirectoryAction};

#[test]
fn clone_directory_handling() {
    assert_eq!(directory_action(false, true), DirectoryAction::Create);
    assert_eq!(directory_action(true, true), DirectoryAction::Keep);
    assert_eq!(directory_action(true, false), DirectoryAction::Recreate);
}

fn refusal(plan: CredentialPlan) -> Option<String> {
    match plan {
        CredentialPlan::Refuse(msg) => Some(msg),
        _ => None,
    }
}

#[test]
fn credentials_prefer_ssh_key_then_token_then_default() {
    assert!(matches!(credential_plan(false, false, true, true), CredentialPlan::Default));
    assert!(matches!(credential_plan(true, true, true, true), CredentialPlan::SshKey));
    assert!(matches!(credential_plan(false, true, true, true), CredentialPlan::UserPassPlaintext));
    assert_eq!(
        refusal(credential_plan(true, false, false, true)),
        Some("Unsupported credential type for SSH".to_string())
    );
    assert_eq!(
        refusal(credential_plan(false, true, true, false)),
        Some("Unsupported credential type for user_pass_plaintext".to_string())
    );
}
