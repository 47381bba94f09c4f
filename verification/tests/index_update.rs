use monotools::platform::usn::{UsnChangeReason, UsnRecord};
use monotools::search_engine::index_update::{
    batch_order, no_volumes_error, plan_volume, rebuild_required_error, usn_edit, IndexBatch, IndexEdit, VolumePlan,
    INCREMENTAL_FLUSH_INTERVAL,
};

fn rec(name: &str, dir: bool, reason: UsnChangeReason, usn: u64) -> UsnRecord {
    UsnRecord {
        file_reference_number: 1,
        parent_file_reference: 0,
        file_name: name.into(),
        full_path: format!("C:\\{name}"),
        file_size: 0,
        last_write_time: 0,
        is_directory: dir,
        extension: None,
        reason,
        usn,
    }
}

#[test]
fn edits_per_reason() {
    assert_eq!(usn_edit(&UsnChangeReason::Created), IndexEdit::Insert);
    assert_eq!(usn_edit(&UsnChangeReason::RenamedNewName), IndexEdit::Insert);
    assert_eq!(usn_edit(&UsnChangeReason::Deleted), IndexEdit::Delete);
    assert_eq!(usn_edit(&UsnChangeReason::RenamedOldName), IndexEdit::Delete);
    assert_eq!(usn_edit(&UsnChangeReason::Modified), IndexEdit::InsertIfMissing);
}

#[test]
fn volume_without_position_or_journal_needs_rebuild() {
    assert!(matches!(plan_volume(0, Some(&[])), VolumePlan::FullRebuild));
    assert!(matches!(plan_volume(5, None), VolumePlan::FullRebuild));
}

#[test]
fn volume_changes_give_edits_and_new_position() {
    let recs = vec![
        rec("a", false, UsnChangeReason::Created, 120),
        rec("b", false, UsnChangeReason::Deleted, 90),
        rec("c", true, UsnChangeReason::Modified, 150),
    ];
    match plan_volume(100, Some(&recs)) {
        VolumePlan::Apply { edits, new_usn } => {
            assert_eq!(edits, vec![IndexEdit::Insert, IndexEdit::Delete, IndexEdit::InsertIfMissing]);
            assert_eq!(new_usn, 150);
        }
        other => panic!("{:?}", other),
    }
    match plan_volume(100, Some(&[])) {
        VolumePlan::Apply { edits, new_usn } => {
            assert!(edits.is_empty());
            assert_eq!(new_usn, 100);
        }
        other => panic!("{:?}", other),
    }
}

#[test]
fn batch_writes_folders_first() {
    let buf = vec![
        rec("f1", false, UsnChangeReason::Created, 0),
        rec("d1", true, UsnChangeReason::Created, 0),
        rec("f2", false, UsnChangeReason::Created, 0),
        rec("d2", true, UsnChangeReason::Created, 0),
    ];
    assert_eq!(batch_order(&buf), vec![1, 3, 0, 2]);
}

#[test]
fn batch_is_due_at_flush_interval() {
    let mut b = IndexBatch::new();
    assert!(b.is_empty());
    for i in 0..INCREMENTAL_FLUSH_INTERVAL - 1 {
        assert!(!b.push(rec("f", false, UsnChangeReason::Created, i as u64)));
    }
    assert!(b.push(rec("f", false, UsnChangeReason::Created, 0)));
    let out = b.take();
    assert_eq!(out.len(), 5000);
    assert!(b.is_empty());
}

#[test]
fn update_errors() {
    assert_eq!(no_volumes_error(), "no volumes to update");
    assert_eq!(rebuild_required_error(), "incremental update unavailable, full rebuild required");
}
