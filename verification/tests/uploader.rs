use dicom_uploader::failure::Failure;
use dicom_uploader::uploader::{judge, UploadOutcome};

#[test]
fn success_statuses_are_no_failure() {
    assert_eq!(judge(UploadOutcome::Responded { status: 200 }), Ok(()));
    assert_eq!(judge(UploadOutcome::Responded { status: 201 }), Ok(()));
    assert_eq!(judge(UploadOutcome::Responded { status: 204 }), Ok(()));
    assert_eq!(judge(UploadOutcome::Responded { status: 299 }), Ok(()));
}

#[test]
fn other_statuses_are_upload_failures() {
    assert_eq!(judge(UploadOutcome::Responded { status: 199 }), Err(Failure::Upload));
    assert_eq!(judge(UploadOutcome::Responded { status: 300 }), Err(Failure::Upload));
    assert_eq!(judge(UploadOutcome::Responded { status: 404 }), Err(Failure::Upload));
    assert_eq!(judge(UploadOutcome::Responded { status: 500 }), Err(Failure::Upload));
    assert_eq!(judge(UploadOutcome::Responded { status: 0 }), Err(Failure::Upload));
    assert_eq!(judge(UploadOutcome::Responded { status: u16::MAX }), Err(Failure::Upload));
}

#[test]
fn every_status_is_judged_by_its_range() {
    for status in 0..=u16::MAX {
        let expected = if (200..=299).contains(&status) { Ok(()) } else { Err(Failure::Upload) };
        assert_eq!(judge(UploadOutcome::Responded { status }), expected);
    }
}

#[test]
fn unreadable_file_is_a_read_failure() {
    assert_eq!(judge(UploadOutcome::ReadFailed), Err(Failure::Read));
}

#[test]
fn lost_request_is_an_upload_failure() {
    assert_eq!(judge(UploadOutcome::TransportFailed), Err(Failure::Upload));
}

#[test]
fn operations_have_their_names() {
    assert_eq!(Failure::Scan.operation(), "scan");
    assert_eq!(Failure::Read.operation(), "read");
    assert_eq!(Failure::Upload.operation(), "upload");
    assert_eq!(Failure::Unlink.operation(), "unlink");
}

#[test]
fn diagnostic_names_operation_and_path() {
    assert_eq!(Failure::Read.diagnostic("/in/a.dcm"), "read failed on /in/a.dcm");
    assert_eq!(Failure::Upload.diagnostic("/in/a.dcm"), "upload failed on /in/a.dcm");
    assert_eq!(Failure::Unlink.diagnostic("sub/d.dcm"), "unlink failed on sub/d.dcm");
    assert_eq!(Failure::Scan.diagnostic(""), "scan failed on ");
    assert!(Failure::Scan.diagnostic("/in/locked").ends_with("/in/locked"));
}
