use vstd::prelude::*;

verus! {

/// What to do with the directory that a repository is cloned into.
#[derive(Debug, Clone, Copy, PartialEq, Eq, Structural)]
pub enum DirectoryAction {
    /// It exists and is empty: use it as it is.
    Keep,
    /// It exists and holds files: remove it with its contents, create it anew.
    Recreate,
    /// It does not exist: create it.
    Create,
}

pub fn directory_action(exists: bool, is_empty: bool) -> (r: DirectoryAction)
    ensures
        r == (if !exists {
            DirectoryAction::Create
        } else if is_empty {
            DirectoryAction::Keep
        } else {
            DirectoryAction::Recreate
        }),
{
    if exists {
        if is_empty {
            DirectoryAction::Keep
        } else {
            DirectoryAction::Recreate
        }
    } else {
        DirectoryAction::Create
    }
}

/// Which credentials to answer a git credential request with.
pub enum CredentialPlan {
    /// The default credentials of the environment.
    Default,
    /// The configured SSH key.
    SshKey,
    /// The user name with the personal access token.
    UserPassPlaintext,
    /// None fits what the server accepts; the message says why.
    Refuse(String),
}

/// An SSH key, when configured, is the only candidate; otherwise a personal
/// access token; with neither, the default credentials.
pub fn credential_plan(has_ssh_key: bool, has_pat: bool, ssh_allowed: bool, plaintext_allowed: bool) -> (r:
    CredentialPlan)
    ensures
        !has_ssh_key && !has_pat ==> r is Default,
        has_ssh_key && ssh_allowed ==> r is SshKey,
        has_ssh_key && !ssh_allowed ==> r is Refuse && r->Refuse_0@
            == "Unsupported credential type for SSH"@,
        !has_ssh_key && has_pat && plaintext_allowed ==> r is UserPassPlaintext,
        !has_ssh_key && has_pat && !plaintext_allowed ==> r is Refuse && r->Refuse_0@
            == "Unsupported credential type for user_pass_plaintext"@,
{
    if !has_ssh_key && !has_pat {
        CredentialPlan::Default
    } else if has_ssh_key {
        if ssh_allowed {
            CredentialPlan::SshKey
        } else {
            CredentialPlan::Refuse(String::from_str("Unsupported credential type for SSH"))
        }
    } else if plaintext_allowed {
        CredentialPlan::UserPassPlaintext
    } else {
        CredentialPlan::Refuse(
            String::from_str("Unsupported credential type for user_pass_plaintext"),
        )
    }
}

} // verus!
