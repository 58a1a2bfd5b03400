use neetan_dos::commands::copy::reject_protected_drive;
use neetan_dos::commands::copy_transfer::{
    copy_finish, CopyTransfer, TransferPhase, TransferReply, TransferRequest,
};

fn job(dos: bool, verify: bool) -> CopyTransfer {
    CopyTransfer {
        phase: TransferPhase::Begin,
        display_name: b"A:\\FOO.TXT".to_vec(),
        dst_is_dos: dos,
        dst_cluster_size: if dos { Some(1024) } else { None },
        verify,
        overwrite_all: false,
        files_copied: 0,
        concat_remaining: 0,
        data: Vec::new(),
    }
}

#[test]
fn a_file_is_read_written_verified_and_closed() {
    let mut t = job(true, true);
    assert_eq!(t.request(), TransferRequest::DestinationExists);
    assert_eq!(t.advance(TransferReply::Exists(Ok(false))), b"A:\\FOO.TXT\r\n".to_vec());
    assert_eq!(t.request(), TransferRequest::Open);
    assert!(t.advance(TransferReply::Opened(Ok(false))).is_empty());
    assert_eq!(t.request(), TransferRequest::Read { chunk: 1024 });
    t.advance(TransferReply::Data(Ok(Some(b"hello".to_vec()))));
    assert_eq!(t.request(), TransferRequest::Write);
    t.advance(TransferReply::Written(Ok(7)));
    assert_eq!(t.request(), TransferRequest::ReadCluster(7));
    let mut back = b"hello".to_vec();
    back.resize(1024, 0);
    assert!(t.advance(TransferReply::Cluster(Some(Ok(back)))).is_empty());
    assert_eq!(t.phase, TransferPhase::ReadChunk);
    t.advance(TransferReply::Data(Ok(None)));
    assert_eq!(t.request(), TransferRequest::Finish);
    t.advance(TransferReply::Closed(true));
    assert_eq!(t.phase, TransferPhase::NextItem);
    assert_eq!(t.files_copied, 1);
    assert_eq!(t.request(), TransferRequest::NextItem);
}

#[test]
fn host_destination_reads_in_4k_chunks_without_verify() {
    let mut t = job(false, true);
    t.advance(TransferReply::Exists(Ok(false)));
    t.advance(TransferReply::Opened(Ok(false)));
    assert_eq!(t.request(), TransferRequest::Read { chunk: 4096 });
    t.advance(TransferReply::Data(Ok(Some(vec![1, 2, 3]))));
    t.advance(TransferReply::Written(Ok(0)));
    assert_eq!(t.phase, TransferPhase::ReadChunk);
    t.advance(TransferReply::Data(Ok(Some(Vec::new()))));
    assert_eq!(t.phase, TransferPhase::FinishFile);
    assert_eq!(t.advance(TransferReply::Closed(false)), b"Write error\r\n".to_vec());
    assert_eq!(t.request(), TransferRequest::Finished(1));
}

#[test]
fn empty_source_goes_straight_to_finish() {
    let mut t = job(true, false);
    t.advance(TransferReply::Exists(Ok(false)));
    t.advance(TransferReply::Opened(Ok(true)));
    assert_eq!(t.phase, TransferPhase::FinishFile);
}

#[test]
fn overwrite_question() {
    let mut t = job(true, false);
    assert_eq!(t.advance(TransferReply::Exists(Ok(true))), b"Overwrite (Yes/No/All)?".to_vec());
    assert_eq!(t.request(), TransferRequest::Key);
    assert!(t.advance(TransferReply::NoKey).is_empty());
    assert_eq!(t.phase, TransferPhase::ConfirmOverwrite);
    assert_eq!(t.advance(TransferReply::Key(b'n')), b"\r\n".to_vec());
    assert_eq!(t.phase, TransferPhase::NextItem);

    let mut t = job(true, false);
    t.advance(TransferReply::Exists(Ok(true)));
    assert_eq!(t.advance(TransferReply::Key(b'a')), b"\r\nA:\\FOO.TXT\r\n".to_vec());
    assert!(t.overwrite_all);
    assert_eq!(t.phase, TransferPhase::Open);
    // With "All" answered, later files are not asked about.
    t.phase = TransferPhase::Begin;
    assert_eq!(t.advance(TransferReply::Exists(Ok(true))), b"A:\\FOO.TXT\r\n".to_vec());

    let mut t = job(true, false);
    t.advance(TransferReply::Exists(Ok(true)));
    t.advance(TransferReply::Key(b'Y'));
    assert!(!t.overwrite_all);
    assert_eq!(t.phase, TransferPhase::Open);
}

#[test]
fn transfer_errors() {
    let mut t = job(true, false);
    assert_eq!(
        t.advance(TransferReply::Exists(Err(b"Invalid drive specification\r\n".to_vec()))),
        b"Invalid drive specification\r\n".to_vec()
    );
    assert_eq!(t.phase, TransferPhase::Done(1));

    let mut t = job(true, false);
    t.phase = TransferPhase::ReadChunk;
    assert_eq!(t.advance(TransferReply::Data(Err(()))), b"Read error\r\n".to_vec());

    let mut t = job(true, false);
    t.phase = TransferPhase::WriteChunk;
    t.data = vec![1];
    assert_eq!(t.advance(TransferReply::Written(Err(0x1F))), b"Insufficient disk space\r\n".to_vec());

    let mut t = job(true, false);
    t.phase = TransferPhase::WriteChunk;
    assert_eq!(t.advance(TransferReply::Written(Err(0x05))), b"Write error\r\n".to_vec());

    let mut t = job(false, false);
    t.phase = TransferPhase::WriteChunk;
    assert_eq!(t.advance(TransferReply::Written(Err(0x1F))), b"Write error\r\n".to_vec());

    let mut t = job(true, true);
    t.phase = TransferPhase::VerifyChunk(3);
    t.data = vec![1, 2, 3];
    assert_eq!(t.advance(TransferReply::Cluster(Some(Ok(vec![1, 2, 4, 0])))), b"Verify error\r\n".to_vec());

    let mut t = job(true, true);
    t.phase = TransferPhase::VerifyChunk(3);
    assert_eq!(t.advance(TransferReply::Cluster(Some(Err(())))), b"Verify error\r\n".to_vec());

    let mut t = job(true, true);
    t.phase = TransferPhase::VerifyChunk(3);
    assert!(t.advance(TransferReply::Cluster(None)).is_empty());
    assert_eq!(t.phase, TransferPhase::Done(1));

    let mut t = job(true, false);
    t.phase = TransferPhase::FinishFile;
    assert_eq!(t.advance(TransferReply::Closed(false)), b"Unable to create destination\r\n".to_vec());

    let mut t = job(true, false);
    t.phase = TransferPhase::Open;
    assert_eq!(t.advance(TransferReply::Opened(Err(b"Read error\r\n".to_vec()))), b"Read error\r\n".to_vec());
}

#[test]
fn joined_sources_are_appended_in_turn() {
    let mut t = job(true, false);
    t.phase = TransferPhase::ConcatRead;
    t.concat_remaining = 2;
    t.advance(TransferReply::Data(Ok(Some(b"abc".to_vec()))));
    assert_eq!(t.phase, TransferPhase::ConcatWrite);
    t.advance(TransferReply::Written(Ok(2)));
    assert_eq!(t.phase, TransferPhase::ConcatRead);
    t.advance(TransferReply::Data(Ok(None)));
    assert_eq!(t.request(), TransferRequest::FindConcatSource);
    assert!(t.advance(TransferReply::Source(None)).is_empty());
    assert_eq!(t.concat_remaining, 1);
    assert_eq!(t.phase, TransferPhase::ConcatNextSource);
    assert_eq!(t.advance(TransferReply::Source(Some((b"B.TXT".to_vec(), 10)))), b"B.TXT\r\n".to_vec());
    assert_eq!(t.phase, TransferPhase::ConcatRead);
    assert_eq!(t.concat_remaining, 0);
    t.advance(TransferReply::Data(Ok(Some(Vec::new()))));
    assert_eq!(t.request(), TransferRequest::Proceed);
    t.advance(TransferReply::Proceed);
    assert_eq!(t.phase, TransferPhase::FinishFile);
    t.advance(TransferReply::Closed(true));
    assert_eq!(t.files_copied, 1);
}

#[test]
fn empty_joined_source_is_skipped() {
    let mut t = job(true, false);
    t.phase = TransferPhase::ConcatNextSource;
    t.concat_remaining = 1;
    assert_eq!(t.advance(TransferReply::Source(Some((b"E.TXT".to_vec(), 0)))), b"E.TXT\r\n".to_vec());
    assert_eq!(t.phase, TransferPhase::ConcatNextSource);
}

#[test]
fn finish_line() {
    assert_eq!(copy_finish(0), (b"File not found\r\n".to_vec(), 1));
    assert_eq!(copy_finish(1), (b"        1 file(s) copied\r\n".to_vec(), 0));
    assert_eq!(copy_finish(12), (b"       12 file(s) copied\r\n".to_vec(), 0));
    assert_eq!(copy_finish(12345), (b"     12345 file(s) copied\r\n".to_vec(), 0));
}

#[test]
fn chunks_are_written_as_read() {
    let mut t = job(false, false);
    t.phase = TransferPhase::ReadChunk;
    let chunks = vec![b"first".to_vec(), b"second".to_vec(), b"x".to_vec()];
    let mut written: Vec<Vec<u8>> = Vec::new();
    for c in &chunks {
        t.advance(TransferReply::Data(Ok(Some(c.clone()))));
        assert_eq!(t.request(), TransferRequest::Write);
        written.push(t.data.clone());
        t.advance(TransferReply::Written(Ok(0)));
    }
    assert_eq!(written, chunks);
    t.advance(TransferReply::Data(Ok(None)));
    t.advance(TransferReply::Closed(true));
    assert_eq!((t.phase, t.files_copied), (TransferPhase::NextItem, 1));
}

#[test]
fn drive_z_is_protected() {
    assert_eq!(reject_protected_drive(25), Err("Access denied\r\n"));
    assert_eq!(reject_protected_drive(0), Ok(()));
}
