use miru_agent::deploy::filesys::{
    backup_location, map_snapshot_err, map_write_err, validate_cfg_insts, validate_filepath,
};
use miru_agent::deploy::DeployErr;
use miru_agent::filesys::{File, FileSysErr, IoError, IoErrorKind};
use miru_agent::models::ConfigInstance;

fn cfg_inst(id: &str) -> ConfigInstance {
    ConfigInstance {
        id: id.to_string(),
        filepath: "/tmp/config.json".to_string(),
    }
}

fn io(kind: IoErrorKind, msg: &str) -> IoError {
    IoError::new(kind, msg.to_string())
}

// ============================= map_write_err ============================= //

#[test]
fn map_write_err_maps_permission_denied_atomic_write_to_write_access_denied() {
    let cfg_inst = cfg_inst("cfg_1");
    let err = FileSysErr::AtomicWriteFileErr {
        file: File::new(&cfg_inst.filepath),
        source: io(IoErrorKind::PermissionDenied, "permission denied"),
    };

    let actual = map_write_err(&cfg_inst, err);
    assert!(
        matches!(actual, DeployErr::WriteAccessDenied(_)),
        "expected WriteAccessDenied, got {actual:?}"
    );
}

#[test]
fn map_write_err_maps_read_only_fs_atomic_write_to_write_access_denied() {
    let cfg_inst = cfg_inst("cfg_2");
    let err = FileSysErr::AtomicWriteFileErr {
        file: File::new(&cfg_inst.filepath),
        source: io(IoErrorKind::ReadOnlyFilesystem, "read-only filesystem"),
    };

    let actual = map_write_err(&cfg_inst, err);
    assert!(
        matches!(actual, DeployErr::WriteAccessDenied(_)),
        "expected WriteAccessDenied, got {actual:?}"
    );
}

#[test]
fn map_write_err_keeps_atomic_write_err_for_non_permission_kinds() {
    let cfg_inst = cfg_inst("cfg_3");
    let err = FileSysErr::AtomicWriteFileErr {
        file: File::new(&cfg_inst.filepath),
        source: io(IoErrorKind::NotFound, "missing parent"),
    };

    let actual = map_write_err(&cfg_inst, err);
    match actual {
        DeployErr::FileSysErr(FileSysErr::AtomicWriteFileErr { source, .. }) => {
            assert_eq!(source.kind(), IoErrorKind::NotFound);
        }
        other => panic!("expected FileSysErr(AtomicWriteFileErr), got {other:?}"),
    }
}

#[test]
fn map_write_err_keeps_non_atomic_filesys_errors_unchanged() {
    let cfg_inst = cfg_inst("cfg_4");
    let err = FileSysErr::CreateTmpDirErr {
        source: io(IoErrorKind::PermissionDenied, "mkdir denied"),
    };

    let actual = map_write_err(&cfg_inst, err);
    assert!(
        matches!(actual, DeployErr::FileSysErr(FileSysErr::CreateTmpDirErr { .. })),
        "expected FileSysErr(CreateTmpDirErr), got {actual:?}"
    );
}

#[test]
fn map_write_err_names_the_config_instance() {
    let cfg_inst = cfg_inst("cfg_9");
    let err = FileSysErr::AtomicWriteFileErr {
        file: File::new(&cfg_inst.filepath),
        source: io(IoErrorKind::PermissionDenied, "permission denied"),
    };
    match map_write_err(&cfg_inst, err) {
        DeployErr::WriteAccessDenied(e) => {
            assert_eq!(e.cfg_inst_id, "cfg_9");
            assert_eq!(e.filepath, "/tmp/config.json");
            assert_eq!(e.source.kind(), IoErrorKind::PermissionDenied);
            assert_eq!(e.source.msg, "permission denied");
        }
        other => panic!("expected WriteAccessDenied, got {other:?}"),
    }
}

// ============================= map_snapshot_err ============================= //

#[test]
fn map_snapshot_err_maps_copy_permission_denied_to_backup_access_denied() {
    let cfg_inst = cfg_inst("cfg_5");
    let dest = File::new(&cfg_inst.filepath);
    let backup = File::new("/tmp/miru.backup.config.json");
    let err = FileSysErr::CopyFileErr {
        source: io(IoErrorKind::PermissionDenied, "permission denied"),
        src_file: dest.clone(),
        dest_file: backup.clone(),
    };

    let actual = map_snapshot_err(&cfg_inst, &dest, &backup, err);
    match actual {
        DeployErr::BackupAccessDenied(e) => {
            assert_eq!(e.cfg_inst_id, cfg_inst.id);
            assert_eq!(e.filepath, cfg_inst.filepath);
            assert_eq!(e.backup_filepath, backup.path().to_string());
            assert_eq!(e.source.kind(), IoErrorKind::PermissionDenied);
        }
        other => panic!("expected BackupAccessDenied, got {other:?}"),
    }
}

#[test]
fn map_snapshot_err_maps_copy_read_only_fs_to_backup_access_denied() {
    let cfg_inst = cfg_inst("cfg_7");
    let dest = File::new(&cfg_inst.filepath);
    let backup = File::new("/tmp/miru.backup.config.json");
    let err = FileSysErr::CopyFileErr {
        source: io(IoErrorKind::ReadOnlyFilesystem, "read-only filesystem"),
        src_file: dest.clone(),
        dest_file: backup.clone(),
    };

    let actual = map_snapshot_err(&cfg_inst, &dest, &backup, err);
    assert!(
        matches!(actual, DeployErr::BackupAccessDenied(_)),
        "expected BackupAccessDenied, got {actual:?}"
    );
}

#[test]
fn map_snapshot_err_keeps_copy_err_for_non_permission_kinds() {
    let cfg_inst = cfg_inst("cfg_6");
    let dest = File::new(&cfg_inst.filepath);
    let backup = File::new("/tmp/miru.backup.config.json");
    let err = FileSysErr::CopyFileErr {
        source: io(IoErrorKind::NotFound, "missing source"),
        src_file: dest.clone(),
        dest_file: backup.clone(),
    };

    let actual = map_snapshot_err(&cfg_inst, &dest, &backup, err);
    assert!(
        matches!(actual, DeployErr::FileSysErr(FileSysErr::CopyFileErr { .. })),
        "expected FileSysErr(CopyFileErr), got {actual:?}"
    );
}

#[test]
fn map_snapshot_err_keeps_non_copy_filesys_errors_unchanged() {
    let cfg_inst = cfg_inst("cfg_8");
    let dest = File::new(&cfg_inst.filepath);
    let backup = File::new("/tmp/miru.backup.config.json");
    let err = FileSysErr::CreateTmpDirErr {
        source: io(IoErrorKind::PermissionDenied, "mkdir denied"),
    };

    let actual = map_snapshot_err(&cfg_inst, &dest, &backup, err);
    assert!(
        matches!(actual, DeployErr::FileSysErr(FileSysErr::CreateTmpDirErr { .. })),
        "expected FileSysErr(CreateTmpDirErr), got {actual:?}"
    );
}

// ============================= validate_filepath ============================= //

#[test]
fn validate_filepath_accepts_clean_absolute_path() {
    let f = File::new("/etc/myapp/config.json");
    assert!(validate_filepath(&f).is_ok());
}

#[test]
fn validate_filepath_rejects_relative_path() {
    let f = File::new("v1/motion-control.json");
    assert!(matches!(
        validate_filepath(&f),
        Err(DeployErr::PathNotAllowed(_))
    ));
}

#[test]
fn validate_filepath_rejects_parent_traversal() {
    let f = File::new("/etc/myapp/../passwd");
    assert!(matches!(
        validate_filepath(&f),
        Err(DeployErr::PathNotAllowed(_))
    ));
}

#[test]
fn validate_filepath_allows_dots_inside_names() {
    assert!(validate_filepath(&File::new("/etc/my..app/config.json")).is_ok());
    assert!(validate_filepath(&File::new("/etc/..hidden")).is_ok());
    assert!(matches!(
        validate_filepath(&File::new("/etc/..")),
        Err(DeployErr::PathNotAllowed(_))
    ));
    assert!(matches!(
        validate_filepath(&File::new("")),
        Err(DeployErr::PathNotAllowed(_))
    ));
}

#[test]
fn validate_cfg_insts_reports_the_first_duplicate_path() {
    let a = ConfigInstance {
        id: "a".to_string(),
        filepath: "/etc/x.json".to_string(),
    };
    let b = ConfigInstance {
        id: "b".to_string(),
        filepath: "/etc/y.json".to_string(),
    };
    let c = ConfigInstance {
        id: "c".to_string(),
        filepath: "/etc/x.json".to_string(),
    };
    assert!(validate_cfg_insts(&[a.clone(), b.clone()]).is_ok());
    match validate_cfg_insts(&[a, b, c]) {
        Err(DeployErr::DuplicateFilepath(e)) => {
            assert_eq!(e.filepath, "/etc/x.json");
            assert_eq!(e.cfg_inst_ids, vec!["a".to_string(), "c".to_string()]);
        }
        other => panic!("expected DuplicateFilepath, got {other:?}"),
    }
}

#[test]
fn backup_sits_beside_the_file() {
    let backup = backup_location(&File::new("/etc/myapp/config.json")).unwrap();
    assert_eq!(backup.path(), "/etc/myapp/miru.backup.config.json");
}
