use cliobulk_core::progress::batch_records;
use cliobulk_core::progress::complete_record;
use cliobulk_core::progress::error_record;
use cliobulk_core::progress::processing_record;

#[test]
fn processing_record_reports_dispatch_count() {
    let r = processing_record(2, 5, "a.jpg");
    assert_eq!(r.done, 2);
    assert_eq!(r.total, 5);
    assert_eq!(r.current_file, "a.jpg");
    assert_eq!(r.status, "processing");
}

#[test]
fn error_record_carries_the_message() {
    let r = error_record(1, 4, "b.dng", "decode failed");
    assert_eq!(r.done, 1);
    assert_eq!(r.total, 4);
    assert_eq!(r.current_file, "b.dng");
    assert_eq!(r.status, "error: decode failed");
}

#[test]
fn complete_record_closes_the_batch() {
    let r = complete_record(3);
    assert_eq!(r.done, 3);
    assert_eq!(r.total, 3);
    assert_eq!(r.current_file, "Done");
    assert_eq!(r.status, "complete");
}

#[test]
fn clean_batch_emits_one_record_per_item_plus_complete() {
    let names = vec!["a.jpg".to_string(), "b.jpg".to_string(), "c.jpg".to_string()];
    let errors: Vec<Option<String>> = vec![None, None, None];
    let recs = batch_records(&names, &errors);
    assert_eq!(recs.len(), 4);
    for (i, name) in names.iter().enumerate() {
        assert_eq!(recs[i].done, i);
        assert_eq!(recs[i].total, 3);
        assert_eq!(&recs[i].current_file, name);
        assert_eq!(recs[i].status, "processing");
    }
    assert_eq!(recs[3].status, "complete");
    assert_eq!(recs[3].done, 3);
    assert_eq!(recs[3].current_file, "Done");
}

#[test]
fn one_bad_item_adds_one_error_and_keeps_the_batch() {
    // Item 2 of 3 (1-indexed) is unreadable: the batch still emits one
    // processing record per item, one error for the bad item, and one
    // final complete record.
    let names = vec!["a.jpg".to_string(), "bad.jpg".to_string(), "c.jpg".to_string()];
    let errors: Vec<Option<String>> = vec![None, Some("unreadable".to_string()), None];
    let recs = batch_records(&names, &errors);
    assert_eq!(recs.len(), 5);
    let processing = recs.iter().filter(|r| r.status == "processing").count();
    let errored = recs.iter().filter(|r| r.status.starts_with("error: ")).count();
    let completed = recs.iter().filter(|r| r.status == "complete").count();
    assert_eq!(processing, 3);
    assert_eq!(errored, 1);
    assert_eq!(completed, 1);
    assert_eq!(recs[2].status, "error: unreadable");
    assert_eq!(recs[2].current_file, "bad.jpg");
    assert_eq!(recs[2].done, 1);
    assert_eq!(recs[4].status, "complete");
    // The two clean items produce output files; the bad one does not.
    let successes = errors.iter().filter(|e| e.is_none()).count();
    assert_eq!(successes, 2);
}

#[test]
fn empty_batch_still_completes() {
    let recs = batch_records(&Vec::new(), &Vec::new());
    assert_eq!(recs.len(), 1);
    assert_eq!(recs[0].status, "complete");
    assert_eq!(recs[0].done, 0);
    assert_eq!(recs[0].total, 0);
}
