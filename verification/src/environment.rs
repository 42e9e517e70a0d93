//! The environment variables that put a session under custody.

use crate::error::{invalid, joined, BoundedReadError, Refusal};
use crate::limits::MAX_ENVIRONMENT_TEXT_BYTES;
use vstd::prelude::*;
use vstd::utf8::encode_utf8;

verus! {

/// The value of an environment variable.
#[derive(Debug)]
pub enum EnvValue {
    Absent,
    NotUtf8,
    Text(String),
}

/// What a [`EnvValue`] says: its text, where it has one.
pub open spec fn env_value_text(value: EnvValue) -> Option<Seq<char>> {
    match value {
        EnvValue::Text(text) => Some(text@),
        _ => None,
    }
}

/// What the environment says of the custody that is asked for, beside the manifest's path.
#[derive(Debug)]
pub struct CustodyEnvironment {
    pub expected_digest: String,
    pub request_id: String,
    pub project_id: String,
    pub revision: String,
}

/// What a [`CustodyEnvironment`] says.
pub struct EnvironmentView {
    pub expected_digest: Seq<char>,
    pub request_id: Seq<char>,
    pub project_id: Seq<char>,
    pub revision: Seq<char>,
}

impl View for CustodyEnvironment {
    type V = EnvironmentView;

    open spec fn view(&self) -> EnvironmentView {
        EnvironmentView {
            expected_digest: self.expected_digest@,
            request_id: self.request_id@,
            project_id: self.project_id@,
            revision: self.revision@,
        }
    }
}

/// What the check of a named text of the environment finds: it must be there and be UTF-8, not be
/// empty, and have at most 256 bytes.
pub open spec fn env_text_verdict(value: Option<Seq<char>>, name: Seq<char>) -> Result<
    Seq<char>,
    Refusal,
> {
    match value {
        Some(text) => if text.len() == 0 {
            Err(Refusal::InvalidCustody(name + " is empty or not UTF-8"@))
        } else if encode_utf8(text).len() > MAX_ENVIRONMENT_TEXT_BYTES {
            Err(Refusal::InvalidCustody(name + " is too long"@))
        } else {
            Ok(text)
        },
        None => Err(Refusal::InvalidCustody(name + " is empty or not UTF-8"@)),
    }
}

/// What the environment asks for: no custody where none of its variables is set, and else the
/// custody that they describe, or what is wrong with the first one that is at fault.
pub open spec fn environment_verdict(
    manifest_is_set: bool,
    digest: EnvValue,
    request_id: EnvValue,
    project_id: EnvValue,
    revision: EnvValue,
) -> Result<Option<EnvironmentView>, Refusal> {
    let request = env_text_verdict(env_value_text(request_id), "request id"@);
    let project = env_text_verdict(env_value_text(project_id), "project id"@);
    let version = env_text_verdict(env_value_text(revision), "revision"@);
    if !manifest_is_set && digest is Absent && request_id is Absent && project_id is Absent
        && revision is Absent {
        Ok(None)
    } else if !manifest_is_set || digest is Absent || request_id is Absent || project_id is Absent
        || revision is Absent {
        Err(Refusal::InvalidCustody("bounded read environment is incomplete"@))
    } else if digest is NotUtf8 {
        Err(Refusal::InvalidCustody("manifest digest is not UTF-8"@))
    } else if request is Err {
        Err(request->Err_0)
    } else if project is Err {
        Err(project->Err_0)
    } else if version is Err {
        Err(version->Err_0)
    } else {
        Ok(
            Some(
                EnvironmentView {
                    expected_digest: digest->Text_0@,
                    request_id: request->Ok_0,
                    project_id: project->Ok_0,
                    revision: version->Ok_0,
                },
            ),
        )
    }
}

/// Takes a named text of the environment.
pub fn env_text(value: &EnvValue, name: &str) -> (result: Result<String, BoundedReadError>)
    ensures
        match env_text_verdict(env_value_text(*value), name@) {
            Ok(text) => result matches Ok(taken) && taken@ == text,
            Err(refusal) => result matches Err(error) && error@ == refusal,
        },
{
    match value {
        EnvValue::Text(text) => {
            let bytes: &[u8] = text.as_str().as_bytes();
            if text.as_str().is_empty() {
                return Err(invalid(joined(name, " is empty or not UTF-8").as_str()));
            }
            if bytes.len() > MAX_ENVIRONMENT_TEXT_BYTES {
                return Err(invalid(joined(name, " is too long").as_str()));
            }
            Ok(text.clone())
        },
        _ => Err(invalid(joined(name, " is empty or not UTF-8").as_str())),
    }
}

/// Whether a variable is not set.
fn is_absent(value: &EnvValue) -> (absent: bool)
    ensures
        absent == (*value is Absent),
{
    match value {
        EnvValue::Absent => true,
        _ => false,
    }
}

/// Reads what the environment asks for.
pub fn custody_environment(
    manifest_is_set: bool,
    digest: EnvValue,
    request_id: EnvValue,
    project_id: EnvValue,
    revision: EnvValue,
) -> (result: Result<Option<CustodyEnvironment>, BoundedReadError>)
    ensures
        match environment_verdict(manifest_is_set, digest, request_id, project_id, revision) {
            Ok(None) => result matches Ok(None),
            Ok(Some(environment)) => result matches Ok(Some(found)) && found@ == environment,
            Err(refusal) => result matches Err(error) && error@ == refusal,
        },
{
    let no_digest: bool = is_absent(&digest);
    let no_request: bool = is_absent(&request_id);
    let no_project: bool = is_absent(&project_id);
    let no_revision: bool = is_absent(&revision);
    if !manifest_is_set && no_digest && no_request && no_project && no_revision {
        return Ok(None);
    }
    if !manifest_is_set || no_digest || no_request || no_project || no_revision {
        return Err(invalid("bounded read environment is incomplete"));
    }
    let expected_digest: String = match digest {
        EnvValue::Text(text) => text,
        _ => {
            return Err(invalid("manifest digest is not UTF-8"));
        },
    };
    let request_id: String = env_text(&request_id, "request id")?;
    let project_id: String = env_text(&project_id, "project id")?;
    let revision: String = env_text(&revision, "revision")?;
    Ok(Some(CustodyEnvironment { expected_digest, request_id, project_id, revision }))
}

} // verus!
