use vstd::prelude::*;

use crate::cache::errors::CacheErr;
use crate::filesys::{FileSysErr, IoError};
use crate::models::DplTarget;

verus! {

/// A deployment to deploy has no config instances.
#[derive(Debug)]
pub struct EmptyConfigInstancesErr {
    pub deployment_id: String,
}

/// A config instance's filepath may not be written.
#[derive(Debug)]
pub struct PathNotAllowedErr {
    pub filepath: String,
    pub reason: String,
}

/// A deployment to deploy does not target the deployed status.
#[derive(Debug)]
pub struct InvalidDeploymentTargetErr {
    pub deployment_id: String,
    pub target_status: DplTarget,
}

/// More than one deployment targets the deployed status.
#[derive(Debug)]
pub struct ConflictingDeploymentsErr {
    pub ids: Vec<String>,
}

#[derive(Debug)]
pub struct GenericErr {
    pub msg: String,
}

/// Two config instances of a deployment share a filepath.
#[derive(Debug)]
pub struct DuplicateFilepathErr {
    pub filepath: String,
    pub cfg_inst_ids: Vec<String>,
}

/// Backing up an existing file was refused by the filesystem.
#[derive(Debug)]
pub struct BackupAccessDeniedErr {
    pub cfg_inst_id: String,
    pub filepath: String,
    pub backup_filepath: String,
    pub source: IoError,
}

/// Writing a config instance was refused by the filesystem.
#[derive(Debug)]
pub struct WriteAccessDeniedErr {
    pub cfg_inst_id: String,
    pub filepath: String,
    pub source: IoError,
}

/// Errors of deploying and removing deployments.
#[derive(Debug)]
pub enum DeployErr {
    BackupAccessDenied(BackupAccessDeniedErr),
    ConflictingDeployments(ConflictingDeploymentsErr),
    DuplicateFilepath(DuplicateFilepathErr),
    EmptyConfigInstances(EmptyConfigInstancesErr),
    InvalidDeploymentTarget(InvalidDeploymentTargetErr),
    CacheErr(CacheErr),
    FileSysErr(FileSysErr),
    PathNotAllowed(PathNotAllowedErr),
    WriteAccessDenied(WriteAccessDeniedErr),
    GenericErr(GenericErr),
}

impl crate::errors::ErrorClass for DeployErr {
    open spec fn spec_is_network_conn_err(&self) -> bool {
        false
    }

    open spec fn spec_is_terminal(&self) -> bool {
        false
    }

    fn is_network_conn_err(&self) -> (r: bool) {
        false
    }

    fn is_terminal(&self) -> (r: bool) {
        false
    }
}

} // verus!
