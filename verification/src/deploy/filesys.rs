use vstd::prelude::*;
use vstd::string::*;

use crate::deploy::errors::{
    BackupAccessDeniedErr, DeployErr, DuplicateFilepathErr, EmptyConfigInstancesErr,
    InvalidDeploymentTargetErr, PathNotAllowedErr, WriteAccessDeniedErr,
};
use crate::filesys::{File, FileSysErr, IoErrorKind};
use crate::models::{ConfigInstance, Deployment, DplTarget};

verus! {

/// Prefix of the sibling file that backs up a config file while it is replaced.
pub const BACKUP_FILE_PREFIX: &'static str = "miru.backup";

// ================================= VALIDATION ==================================== //

/// Err when the deployment has no config instances.
pub fn validate_has_cfg_insts(deployment: &Deployment) -> (r: Result<(), DeployErr>)
    ensures
        deployment.config_instance_ids@.len() == 0 <==> r is Err,
        r matches Err(e) ==> e matches DeployErr::EmptyConfigInstances(ee) && ee.deployment_id
            == deployment.id,
{
    if deployment.config_instance_ids.len() == 0 {
        return Err(
            DeployErr::EmptyConfigInstances(
                EmptyConfigInstancesErr { deployment_id: deployment.id.clone() },
            ),
        );
    }
    Ok(())
}

/// Err when the deployment does not target the deployed status.
pub fn validate_deploy_target(deployment: &Deployment) -> (r: Result<(), DeployErr>)
    ensures
        deployment.target_status != DplTarget::Deployed <==> r is Err,
        r matches Err(e) ==> e matches DeployErr::InvalidDeploymentTarget(ee) && ee.deployment_id
            == deployment.id && ee.target_status == deployment.target_status,
{
    if deployment.target_status != DplTarget::Deployed {
        return Err(
            DeployErr::InvalidDeploymentTarget(
                InvalidDeploymentTargetErr {
                    deployment_id: deployment.id.clone(),
                    target_status: deployment.target_status,
                },
            ),
        );
    }
    Ok(())
}

/// A path is absolute when it starts at the root.
pub open spec fn is_absolute(p: Seq<char>) -> bool {
    p.len() > 0 && p[0] == '/'
}

/// `p[i..i + 2]` is a `..` component: it is delimited by `/` or the path's ends.
pub open spec fn is_parent_component_at(p: Seq<char>, i: int) -> bool {
    &&& 0 <= i
    &&& i + 2 <= p.len()
    &&& p[i] == '.'
    &&& p[i + 1] == '.'
    &&& (i == 0 || p[i - 1] == '/')
    &&& (i + 2 == p.len() || p[i + 2] == '/')
}

/// Whether some component of the path is `..`.
pub open spec fn has_parent_traversal(p: Seq<char>) -> bool {
    exists|i: int| #[trigger] is_parent_component_at(p, i)
}

/// Config files may only be written at absolute paths without `..` components.
pub open spec fn path_allowed(p: Seq<char>) -> bool {
    is_absolute(p) && !has_parent_traversal(p)
}

/// `e` is the rejection of path `p`, with the reason for it.
pub open spec fn is_path_rejection(p: Seq<char>, e: DeployErr) -> bool {
    e matches DeployErr::PathNotAllowed(pe) && pe.filepath@ == p && pe.reason@ == (
    if !is_absolute(p) {
        "filepath is not absolute"@
    } else {
        "filepath contains parent traversal"@
    })
}

fn contains_parent_component(p: &str) -> (r: bool)
    ensures
        r == has_parent_traversal(p@),
{
    let n = p.unicode_len();
    if n < 2 {
        assert forall|i: int| !is_parent_component_at(p@, i) by {}
        return false;
    }
    let mut i: usize = 0;
    while i < n - 1
        invariant
            n == p@.len(),
            n >= 2,
            i <= n - 1,
            forall|k: int| 0 <= k < i ==> !is_parent_component_at(p@, k),
        decreases n - i,
    {
        if p.get_char(i) == '.' && p.get_char(i + 1) == '.' && (i == 0 || p.get_char(i - 1)
            == '/') && (i + 2 == n || p.get_char(i + 2) == '/') {
            assert(is_parent_component_at(p@, i as int));
            return true;
        }
        i = i + 1;
    }
    assert forall|k: int| !is_parent_component_at(p@, k) by {
        if 0 <= k < i {
        }
    }
    false
}

/// Ok exactly when the file's path is absolute and has no `..` component.
pub fn validate_filepath(file: &File) -> (r: Result<(), DeployErr>)
    ensures
        r is Ok <==> path_allowed(file.path@),
        r matches Err(e) ==> is_path_rejection(file.path@, e),
{
    let path = file.path();
    if !(path.unicode_len() > 0 && path.get_char(0) == '/') {
        return Err(
            DeployErr::PathNotAllowed(
                PathNotAllowedErr {
                    filepath: path.to_owned(),
                    reason: "filepath is not absolute".to_owned(),
                },
            ),
        );
    }
    if contains_parent_component(path) {
        return Err(
            DeployErr::PathNotAllowed(
                PathNotAllowedErr {
                    filepath: path.to_owned(),
                    reason: "filepath contains parent traversal".to_owned(),
                },
            ),
        );
    }
    Ok(())
}

/// The config instances before index `n` have allowed, pairwise distinct paths.
pub open spec fn cfg_insts_ok_upto(cfgs: Seq<ConfigInstance>, n: int) -> bool {
    &&& forall|j: int| 0 <= j < n ==> path_allowed(#[trigger] cfgs[j].filepath@)
    &&& forall|i: int, j: int|
        0 <= i < j < n ==> #[trigger] cfgs[i].filepath@ != #[trigger] cfgs[j].filepath@
}

/// `e` reports the first problem of the config instances, found at index `j`: either
/// its path is not allowed, or it repeats the path of the instance at index `i < j`
/// (the error names the repeated path and both instance ids, the earlier first).
pub open spec fn is_cfg_inst_rejection(cfgs: Seq<ConfigInstance>, e: DeployErr) -> bool {
    exists|j: int|
        #![trigger cfgs[j]]
        0 <= j < cfgs.len() && cfg_insts_ok_upto(cfgs, j) && if !path_allowed(cfgs[j].filepath@) {
            is_path_rejection(cfgs[j].filepath@, e)
        } else {
            exists|i: int|
                #![trigger cfgs[i]]
                0 <= i < j && cfgs[i].filepath@ == cfgs[j].filepath@ && (e matches DeployErr::DuplicateFilepath(de)
                    && de.filepath@ == cfgs[j].filepath@ && de.cfg_inst_ids@.len() == 2
                    && de.cfg_inst_ids@[0]@ == cfgs[i].id@ && de.cfg_inst_ids@[1]@ == cfgs[j].id@)
        }
}

/// Ok exactly when every config instance has an allowed path and no two share one;
/// otherwise the error reports the first problem in order.
pub fn validate_cfg_insts(cfg_insts: &[ConfigInstance]) -> (r: Result<(), DeployErr>)
    ensures
        r is Ok <==> cfg_insts_ok_upto(cfg_insts@, cfg_insts@.len() as int),
        r matches Err(e) ==> is_cfg_inst_rejection(cfg_insts@, e),
{
    let n = cfg_insts.len();
    let mut j: usize = 0;
    while j < n
        invariant
            n == cfg_insts@.len(),
            j <= n,
            cfg_insts_ok_upto(cfg_insts@, j as int),
        decreases n - j,
    {
        let cfg = &cfg_insts[j];
        let file = File::new(cfg.filepath.as_str());
        match validate_filepath(&file) {
            Ok(()) => {},
            Err(e) => {
                assert(cfg_insts@[j as int] == *cfg);
                return Err(e);
            },
        }
        let mut i: usize = 0;
        while i < j
            invariant
                n == cfg_insts@.len(),
                j < n,
                i <= j,
                cfg_insts_ok_upto(cfg_insts@, j as int),
                path_allowed(cfg_insts@[j as int].filepath@),
                forall|k: int| 0 <= k < i ==> cfg_insts@[k].filepath@ != cfg_insts@[j as int].filepath@,
            decreases j - i,
        {
            if cfg_insts[i].filepath == cfg_insts[j].filepath {
                let ids = vec![cfg_insts[i].id.clone(), cfg_insts[j].id.clone()];
                let e = DeployErr::DuplicateFilepath(
                    DuplicateFilepathErr { filepath: cfg_insts[j].filepath.clone(), cfg_inst_ids: ids },
                );
                assert(cfg_insts@[i as int] == cfg_insts@[i as int]);
                return Err(e);
            }
            i = i + 1;
        }
        j = j + 1;
    }
    Ok(())
}

// =============================== ERROR MAPPING =================================== //

/// Permission-denied and read-only-filesystem failures mean the agent lacks access.
pub open spec fn spec_is_access_denied(kind: IoErrorKind) -> bool {
    kind == IoErrorKind::PermissionDenied || kind == IoErrorKind::ReadOnlyFilesystem
}

pub fn is_access_denied(kind: IoErrorKind) -> (r: bool)
    ensures
        r == spec_is_access_denied(kind),
{
    match kind {
        IoErrorKind::PermissionDenied | IoErrorKind::ReadOnlyFilesystem => true,
        _ => false,
    }
}

/// An atomic write refused for lack of access becomes `WriteAccessDenied` naming the
/// config instance; every other error is passed through as a filesystem error.
pub fn map_write_err(cfg_inst: &ConfigInstance, err: FileSysErr) -> (r: DeployErr)
    ensures
        match err {
            FileSysErr::AtomicWriteFileErr { file, source } => if spec_is_access_denied(
                source.kind,
            ) {
                r matches DeployErr::WriteAccessDenied(w) && w.cfg_inst_id == cfg_inst.id
                    && w.filepath == cfg_inst.filepath && w.source == source
            } else {
                r == DeployErr::FileSysErr(err)
            },
            _ => r == DeployErr::FileSysErr(err),
        },
{
    match err {
        FileSysErr::AtomicWriteFileErr { file, source } => {
            if is_access_denied(source.kind()) {
                DeployErr::WriteAccessDenied(
                    WriteAccessDeniedErr {
                        cfg_inst_id: cfg_inst.id.clone(),
                        filepath: cfg_inst.filepath.clone(),
                        source,
                    },
                )
            } else {
                DeployErr::FileSysErr(FileSysErr::AtomicWriteFileErr { file, source })
            }
        },
        other => DeployErr::FileSysErr(other),
    }
}

/// A backup copy refused for lack of access becomes `BackupAccessDenied` naming the
/// config instance, the destination and the backup; every other error is passed
/// through as a filesystem error.
pub fn map_snapshot_err(cfg_inst: &ConfigInstance, dest: &File, backup: &File, err: FileSysErr) -> (r:
    DeployErr)
    ensures
        match err {
            FileSysErr::CopyFileErr { source, src_file, dest_file } => if spec_is_access_denied(
                source.kind,
            ) {
                r matches DeployErr::BackupAccessDenied(b) && b.cfg_inst_id == cfg_inst.id
                    && b.filepath@ == dest.path@ && b.backup_filepath@ == backup.path@ && b.source
                    == source
            } else {
                r == DeployErr::FileSysErr(err)
            },
            _ => r == DeployErr::FileSysErr(err),
        },
{
    match err {
        FileSysErr::CopyFileErr { source, src_file, dest_file } => {
            if is_access_denied(source.kind()) {
                DeployErr::BackupAccessDenied(
                    BackupAccessDeniedErr {
                        cfg_inst_id: cfg_inst.id.clone(),
                        filepath: dest.path().to_owned(),
                        backup_filepath: backup.path().to_owned(),
                        source,
                    },
                )
            } else {
                DeployErr::FileSysErr(FileSysErr::CopyFileErr { source, src_file, dest_file })
            }
        },
        other => DeployErr::FileSysErr(other),
    }
}

// ================================== BACKUPS ====================================== //

/// The index of the last `/` in `p`, if any.
pub open spec fn last_slash(p: Seq<char>) -> Option<int>
    decreases p.len(),
{
    if p.len() == 0 {
        None
    } else if p.last() == '/' {
        Some(p.len() - 1)
    } else {
        last_slash(p.drop_last())
    }
}

/// Where a destination file is backed up: the sibling named `miru.backup.<name>` in the
/// same directory. A path without a `/` has no known parent directory, and one ending
/// in `/` has no file name.
pub open spec fn spec_backup_location(p: Seq<char>) -> Option<Seq<char>> {
    match last_slash(p) {
        Some(k) => if k + 1 < p.len() {
            Some(p.take(k + 1) + "miru.backup."@ + p.skip(k + 1))
        } else {
            None
        },
        None => None,
    }
}

proof fn lemma_last_slash_step(p: Seq<char>, i: int)
    requires
        0 < i <= p.len(),
        p[i - 1] != '/',
    ensures
        last_slash(p.take(i)) == last_slash(p.take(i - 1)),
{
    assert(p.take(i).drop_last() =~= p.take(i - 1));
}

fn find_last_slash(p: &str) -> (r: Option<usize>)
    ensures
        r matches Some(k) ==> last_slash(p@) == Some(k as int) && k < p@.len(),
        r is None ==> last_slash(p@) is None,
{
    let n = p.unicode_len();
    let mut i: usize = n;
    assert(p@.take(n as int) =~= p@);
    while i > 0
        invariant
            n == p@.len(),
            i <= n,
            last_slash(p@) == last_slash(p@.take(i as int)),
        decreases i,
    {
        if p.get_char(i - 1) == '/' {
            assert(p@.take(i as int).last() == '/');
            return Some(i - 1);
        }
        proof {
            lemma_last_slash_step(p@, i as int);
        }
        i = i - 1;
    }
    assert(p@.take(0).len() == 0);
    None
}

/// The backup file for `dst` (see `spec_backup_location`).
pub fn backup_location(dst: &File) -> (r: Result<File, FileSysErr>)
    ensures
        match spec_backup_location(dst.path@) {
            Some(b) => r matches Ok(f) && f.path@ == b,
            None => r matches Err(e) && (e matches FileSysErr::UnknownParentDirErr { path }
                || e matches FileSysErr::UnknownFileNameErr { path }),
        },
{
    let p = dst.path();
    let n = p.unicode_len();
    let k = match find_last_slash(p) {
        Some(k) => k,
        None => return Err(FileSysErr::UnknownParentDirErr { path: p.to_owned() }),
    };
    if k + 1 >= n {
        return Err(FileSysErr::UnknownFileNameErr { path: p.to_owned() });
    }
    let mut out = p.substring_char(0, k + 1).to_owned();
    out.append("miru.backup.");
    out.append(p.substring_char(k + 1, n));
    assert(p@.skip(k + 1) =~= p@.subrange(k + 1, n as int));
    assert(p@.take(k + 1) =~= p@.subrange(0, k + 1));
    Ok(File { path: out })
}

// ================================== REMOVAL ====================================== //

/// The paths of the config instances before index `n` that are not kept, in order.
pub open spec fn spec_removals(cfgs: Seq<ConfigInstance>, keeps: Seq<File>, n: int) -> Seq<Seq<char>>
    decreases n,
{
    if n <= 0 {
        Seq::empty()
    } else {
        let prev = spec_removals(cfgs, keeps, n - 1);
        if exists|k: int| 0 <= k < keeps.len() && #[trigger] keeps[k].path@ == cfgs[n - 1].filepath@ {
            prev
        } else {
            prev.push(cfgs[n - 1].filepath@)
        }
    }
}

/// The files that removing a deployment deletes: its config instances' files, in
/// order, except those in `keeps`.
pub fn files_to_remove(cfg_insts: &[ConfigInstance], keeps: &[File]) -> (r: Vec<File>)
    ensures
        r@.map_values(|f: File| f.path@) == spec_removals(
            cfg_insts@,
            keeps@,
            cfg_insts@.len() as int,
        ),
{
    let mut out: Vec<File> = Vec::new();
    let n = cfg_insts.len();
    let mut j: usize = 0;
    while j < n
        invariant
            n == cfg_insts@.len(),
            j <= n,
            out@.map_values(|f: File| f.path@) == spec_removals(cfg_insts@, keeps@, j as int),
        decreases n - j,
    {
        let mut kept = false;
        let mut k: usize = 0;
        while k < keeps.len()
            invariant
                j < n,
                n == cfg_insts@.len(),
                k <= keeps@.len(),
                kept == exists|m: int|
                    0 <= m < k && #[trigger] keeps@[m].path@ == cfg_insts@[j as int].filepath@,
            decreases keeps@.len() - k,
        {
            if keeps[k].path == cfg_insts[j].filepath {
                kept = true;
            }
            k = k + 1;
        }
        if !kept {
            let f = File::new(cfg_insts[j].filepath.as_str());
            let ghost before = out@;
            out.push(f);
            assert(out@.map_values(|f: File| f.path@) =~= before.map_values(|f: File| f.path@).push(
                cfg_insts@[j as int].filepath@,
            ));
        }
        j = j + 1;
    }
    out
}

} // verus!
