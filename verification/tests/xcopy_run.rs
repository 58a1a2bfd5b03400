use neetan_dos::commands::dir::ReadDirEntry;
use neetan_dos::commands::xcopy_run::{ChunkRead, XcopyPhase, XcopyReply, XcopyRequest, XcopyRun};

fn entry(name: &[u8; 11], attribute: u8, size: u32) -> ReadDirEntry {
    ReadDirEntry { name: *name, attribute, time: 0, date: 0, file_size: size }
}

fn run(recursive: bool, copy_empty_dirs: bool, prompt_each: bool) -> XcopyRun {
    XcopyRun {
        phase: XcopyPhase::FindNext,
        src_directory: 100,
        search_index: 0,
        dst_dir_cluster: 2,
        files_copied: 0,
        recursive,
        copy_empty_dirs,
        prompt_each,
        dir_stack: Vec::new(),
        entry: entry(b"           ", 0, 0),
        data: Vec::new(),
        subdirs: Vec::new(),
    }
}

#[test]
fn files_are_copied_then_counted() {
    let mut r = run(false, false, false);
    assert_eq!(r.request(), XcopyRequest::FindEntry { directory: 100, search_index: 0 });
    let out = r.advance(XcopyReply::Found(Ok(Some((entry(b"README  TXT", 0x20, 5), 1)))));
    assert_eq!(out, b"README.TXT\r\n".to_vec());
    assert_eq!(r.request(), XcopyRequest::Read);
    r.advance(XcopyReply::Chunk(ChunkRead::Bytes(b"hello".to_vec())));
    assert_eq!(r.request(), XcopyRequest::Write);
    r.advance(XcopyReply::Written(Ok(())));
    r.advance(XcopyReply::Chunk(ChunkRead::End));
    assert_eq!(r.request(), XcopyRequest::Finish);
    r.advance(XcopyReply::Closed(true));
    assert_eq!(r.files_copied, 1);
    assert_eq!(r.request(), XcopyRequest::FindEntry { directory: 100, search_index: 1 });
    // A directory entry is passed over silently.
    assert!(r.advance(XcopyReply::Found(Ok(Some((entry(b"SUB        ", 0x10, 0), 2))))).is_empty());
    assert_eq!(r.search_index, 2);
    // An empty file goes straight to closing.
    r.advance(XcopyReply::Found(Ok(Some((entry(b"EMPTY   DAT", 0x20, 0), 3)))));
    assert_eq!(r.phase, XcopyPhase::FinishFile);
    r.advance(XcopyReply::Closed(true));
    r.advance(XcopyReply::Found(Ok(None)));
    assert_eq!(r.phase, XcopyPhase::Summary);
    assert_eq!(r.advance(XcopyReply::Proceed), b"2 File(s) copied\r\n".to_vec());
    assert_eq!(r.request(), XcopyRequest::Finished(0));
}

#[test]
fn each_file_is_asked_about_with_p() {
    let mut r = run(false, false, true);
    let out = r.advance(XcopyReply::Found(Ok(Some((entry(b"A       BIN", 0x20, 9), 1)))));
    assert_eq!(out, b"A.BIN (Y/N)?".to_vec());
    assert_eq!(r.request(), XcopyRequest::Key);
    assert!(r.advance(XcopyReply::NoKey).is_empty());
    assert_eq!(r.advance(XcopyReply::Key(b'n')), b"\r\n".to_vec());
    assert_eq!(r.phase, XcopyPhase::FindNext);
    r.advance(XcopyReply::Found(Ok(Some((entry(b"B       BIN", 0x20, 9), 2)))));
    r.advance(XcopyReply::Key(b'y'));
    assert_eq!(r.phase, XcopyPhase::ReadChunk);
    assert_eq!(r.entry.name, *b"B       BIN");
}

#[test]
fn xcopy_errors() {
    let mut r = run(false, false, false);
    assert_eq!(r.advance(XcopyReply::Found(Err(()))), b"File not found\r\n".to_vec());
    assert_eq!(r.phase, XcopyPhase::Done(1));

    let mut r = run(false, false, false);
    r.phase = XcopyPhase::ReadChunk;
    assert_eq!(r.advance(XcopyReply::Chunk(ChunkRead::Failed)), b"Read error\r\n".to_vec());
    let mut r = run(false, false, false);
    r.phase = XcopyPhase::ReadChunk;
    assert!(r.advance(XcopyReply::Chunk(ChunkRead::NoVolume)).is_empty());
    assert_eq!(r.phase, XcopyPhase::Done(1));

    let mut r = run(false, false, false);
    r.phase = XcopyPhase::WriteChunk;
    assert_eq!(r.advance(XcopyReply::Written(Err(0x1F))), b"Insufficient disk space\r\n".to_vec());
    let mut r = run(false, false, false);
    r.phase = XcopyPhase::WriteChunk;
    assert_eq!(r.advance(XcopyReply::Written(Err(0x13))), b"Write error\r\n".to_vec());

    let mut r = run(false, false, false);
    r.phase = XcopyPhase::FinishFile;
    assert_eq!(r.advance(XcopyReply::Closed(false)), b"Unable to create destination\r\n".to_vec());
}

#[test]
fn subdirectories_are_made_and_visited_last_first() {
    let mut r = run(true, false, false);
    r.advance(XcopyReply::Found(Ok(None)));
    assert_eq!(r.request(), XcopyRequest::ListEntries { directory: 100 });
    r.advance(XcopyReply::Entries(vec![
        (entry(b".          ", 0x10, 0), Some(100)),
        (entry(b"..         ", 0x10, 0), Some(1)),
        (entry(b"FILE    TXT", 0x20, 3), None),
        (entry(b"FIRST      ", 0x10, 0), Some(200)),
        (entry(b"EMPTY      ", 0x10, 0), Some(300)),
        (entry(b"GONE       ", 0x10, 0), None),
        (entry(b"SECOND     ", 0x10, 0), Some(400)),
    ]));
    assert_eq!(r.subdirs.len(), 3);
    assert_eq!(r.request(), XcopyRequest::MakeDirectory { parent: 2, name: *b"FIRST      " });
    r.advance(XcopyReply::Made(Some(20)));
    assert_eq!(r.request(), XcopyRequest::HasEntries { directory: 200 });
    r.advance(XcopyReply::HasEntries(Some(true)));
    assert_eq!(r.request(), XcopyRequest::MakeDirectory { parent: 2, name: *b"EMPTY      " });
    r.advance(XcopyReply::Made(Some(30)));
    r.advance(XcopyReply::HasEntries(Some(false)));
    r.advance(XcopyReply::Made(Some(40)));
    r.advance(XcopyReply::HasEntries(None));
    assert_eq!(r.dir_stack, vec![(200, 20)]);
    assert_eq!(r.request(), XcopyRequest::Proceed);
    r.advance(XcopyReply::Proceed);
    assert_eq!(r.phase, XcopyPhase::FindNext);
    assert_eq!((r.src_directory, r.dst_dir_cluster, r.search_index), (200, 20, 0));
    assert!(r.dir_stack.is_empty());
}

#[test]
fn empty_subdirectories_are_kept_with_e() {
    let mut r = run(true, true, false);
    r.advance(XcopyReply::Found(Ok(None)));
    r.advance(XcopyReply::Entries(vec![
        (entry(b"A          ", 0x10, 0), Some(1)),
        (entry(b"B          ", 0x10, 0), Some(2)),
    ]));
    r.advance(XcopyReply::Made(Some(11)));
    r.advance(XcopyReply::Made(None));
    r.advance(XcopyReply::Proceed);
    assert_eq!((r.src_directory, r.dst_dir_cluster), (1, 11));
    // Nothing left: the count line comes next.
    r.advance(XcopyReply::Found(Ok(None)));
    r.advance(XcopyReply::Entries(Vec::new()));
    r.advance(XcopyReply::Proceed);
    assert_eq!(r.phase, XcopyPhase::Summary);
}
