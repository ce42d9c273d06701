use continu::backup::{blob_name, prepare_package_upload, run_backup, FileEntry};
use continu::crypto::{decrypt_data, CryptoError};
use continu::progress::BackupState;
use continu::restore::{run_restore, DownloadItem};

fn test_key() -> Vec<u8> {
    (0u8..32).collect()
}

fn test_iv() -> Vec<u8> {
    (200u8..216).collect()
}

#[test]
fn blob_name_is_the_final_segment() {
    assert_eq!(blob_name("/home/user/.bashrc"), ".bashrc");
    assert_eq!(blob_name("/tmp/installed_packages.txt"), "installed_packages.txt");
    assert_eq!(blob_name("plain"), "plain");
    assert_eq!(blob_name("trailing/"), "");
    assert_eq!(blob_name(""), "");
}

#[test]
fn one_existing_file_yields_one_named_upload() {
    let key = test_key();
    let iv = test_iv();
    let entries = vec![FileEntry {
        path: "/home/user/.bashrc".to_string(),
        data: Some(vec![9u8; 100]),
    }];
    let out = run_backup(&entries, &key, &iv).unwrap();
    assert_eq!(out.uploads.len(), 1);
    assert_eq!(out.uploads[0].name, ".bashrc");
    assert_eq!(out.skipped.len(), 0);
    assert_eq!(out.state.total_files, 1);
    assert_eq!(out.state.completed_files, 1);
    assert_eq!(out.state.total_size, 100);
    assert_eq!(out.state.processed_size, 100);
    let back = decrypt_data(&out.uploads[0].blob, &key, &iv).unwrap();
    assert_eq!(back, vec![9u8; 100]);
}

#[test]
fn missing_file_is_skipped_without_upload() {
    let key = test_key();
    let iv = test_iv();
    let entries = vec![FileEntry { path: "/home/user/.bashrc".to_string(), data: None }];
    let out = run_backup(&entries, &key, &iv).unwrap();
    assert_eq!(out.uploads.len(), 0);
    assert_eq!(out.skipped, vec!["/home/user/.bashrc".to_string()]);
    assert_eq!(out.state.completed_files, 0);
    assert_eq!(out.state.processed_size, 0);
}

#[test]
fn mixed_entries_upload_only_the_existing_one() {
    let key = test_key();
    let iv = test_iv();
    let entries = vec![
        FileEntry { path: "/etc/environment".to_string(), data: Some(b"PATH=/usr/bin".to_vec()) },
        FileEntry { path: "/home/user/.vimrc".to_string(), data: None },
    ];
    let out = run_backup(&entries, &key, &iv).unwrap();
    assert_eq!(out.uploads.len(), 1);
    assert_eq!(out.uploads[0].name, "environment");
    assert_eq!(out.skipped, vec!["/home/user/.vimrc".to_string()]);
    assert_eq!(out.state.total_files, 2);
    assert_eq!(out.state.completed_files, 1);
    assert_eq!(out.state.total_size, 13);
    assert_eq!(out.state.processed_size, 13);
}

#[test]
fn backup_rejects_bad_keys() {
    let entries = Vec::new();
    assert!(matches!(
        run_backup(&entries, &vec![0u8; 5], &test_iv()),
        Err(CryptoError::InvalidKeyLength)
    ));
    assert!(matches!(
        run_backup(&entries, &test_key(), &vec![0u8; 5]),
        Err(CryptoError::InvalidIvLength)
    ));
}

#[test]
fn package_manifest_gets_its_own_named_blob() {
    let key = test_key();
    let iv = test_iv();
    let manifest = b"bash\tinstall\nvim\tinstall\n".to_vec();
    let item = prepare_package_upload(&manifest, &key, &iv).unwrap();
    assert_eq!(item.name, "installed_packages.txt");
    let back = decrypt_data(&item.blob, &key, &iv).unwrap();
    assert_eq!(back, manifest);
}

#[test]
fn restore_mirrors_backup() {
    let key = test_key();
    let iv = test_iv();
    let candidates = vec!["/home/user/.bashrc".to_string(), "/etc/environment".to_string()];
    let entries = vec![
        FileEntry { path: "/home/user/.bashrc".to_string(), data: Some(b"alias ls".to_vec()) },
        FileEntry { path: "/etc/environment".to_string(), data: Some(b"LANG=C".to_vec()) },
    ];
    let out = run_backup(&entries, &key, &iv).unwrap();
    let downloads: Vec<DownloadItem> = out
        .uploads
        .into_iter()
        .map(|u| DownloadItem { name: u.name, blob: u.blob })
        .collect();
    let restored = run_restore(&downloads, &candidates, &key, &iv).unwrap();
    assert_eq!(restored.failures, 0);
    assert_eq!(restored.files.len(), 2);
    assert_eq!(restored.files[0].path, "/home/user/.bashrc");
    assert_eq!(restored.files[0].data, b"alias ls".to_vec());
    assert_eq!(restored.files[1].path, "/etc/environment");
    assert_eq!(restored.files[1].data, b"LANG=C".to_vec());
}

#[test]
fn restore_counts_undecryptable_blobs_and_continues() {
    let key = test_key();
    let iv = test_iv();
    let candidates = vec!["/etc/environment".to_string()];
    let entries =
        vec![FileEntry { path: "/etc/environment".to_string(), data: Some(b"LANG=C".to_vec()) }];
    let out = run_backup(&entries, &key, &iv).unwrap();
    let downloads = vec![
        DownloadItem { name: "junk".to_string(), blob: vec![1u8; 24] },
        DownloadItem { name: out.uploads[0].name.clone(), blob: out.uploads[0].blob.clone() },
    ];
    let restored = run_restore(&downloads, &candidates, &key, &iv).unwrap();
    assert_eq!(restored.failures, 1);
    assert_eq!(restored.files.len(), 1);
    assert_eq!(restored.files[0].path, "/etc/environment");
    assert_eq!(restored.files[0].data, b"LANG=C".to_vec());
}

#[test]
fn restore_of_unknown_name_uses_the_bare_name() {
    let key = test_key();
    let iv = test_iv();
    let entries = vec![FileEntry { path: "/tmp/notes.txt".to_string(), data: Some(b"n".to_vec()) }];
    let out = run_backup(&entries, &key, &iv).unwrap();
    let downloads = vec![DownloadItem {
        name: out.uploads[0].name.clone(),
        blob: out.uploads[0].blob.clone(),
    }];
    let restored = run_restore(&downloads, &Vec::new(), &key, &iv).unwrap();
    assert_eq!(restored.files[0].path, "notes.txt");
}

#[test]
fn progress_counts_and_percentage() {
    let mut state = BackupState::new(2, 250);
    assert_eq!(state.progress_percentage(), 0);
    state.update_progress(100);
    assert_eq!(state.completed_files, 1);
    assert_eq!(state.processed_size, 100);
    assert_eq!(state.progress_percentage(), 40);
    state.update_progress(150);
    assert_eq!(state.completed_files, 2);
    assert_eq!(state.processed_size, 250);
    assert_eq!(state.progress_percentage(), 100);
}

#[test]
fn empty_plan_reports_zero_percent() {
    let state = BackupState::new(0, 0);
    assert_eq!(state.progress_percentage(), 0);
}
