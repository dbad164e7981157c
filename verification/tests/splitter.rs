use rs_split::Action;
use rs_split::Config;
use rs_split::Event;
use rs_split::FileSyncType;

fn config_with_capacity(capacity: usize) -> Config {
    Config {
        output_dir_name: String::new(),
        max_line_per_file: capacity,
        file_sync_type: FileSyncType::Nop,
        show_progress: false,
    }
}

/// Drives a whole run in memory, the way the process drives it against
/// the file system: an open buffer per chunk file, committed on Commit
/// and WriteCommit, discarded on Finish, left as-is on Fail.  Records
/// are fed in order; after `records` are exhausted the source reports
/// end-of-input, or a read error when `fail` is set.  Returns the
/// committed files as (name, bytes) in commit order, the state of the
/// open file when the run aborted, and whether the run succeeded.
fn run_in_memory(
    capacity: usize,
    records: Vec<&[u8]>,
    fail: bool,
) -> (Vec<(String, Vec<u8>)>, Option<(String, Vec<u8>)>, bool) {
    let cfg = config_with_capacity(capacity);
    let mut sp = cfg.split_default();
    let mut committed: Vec<(String, Vec<u8>)> = Vec::new();
    let mut source = records.into_iter();
    loop {
        let mut name = String::new();
        sp.current_basename(&mut name);
        let mut open: Vec<u8> = Vec::new();
        loop {
            let ev = match source.next() {
                Some(r) => Event::Record(r.to_vec()),
                None if fail => Event::ReadError,
                None => Event::End,
            };
            match sp.step(ev) {
                Action::Write(line) => {
                    open.extend_from_slice(&line);
                }
                Action::WriteCommit(line) => {
                    open.extend_from_slice(&line);
                    committed.push((name.clone(), open));
                    break;
                }
                Action::Commit => {
                    committed.push((name.clone(), open));
                    break;
                }
                Action::Finish => {
                    assert!(sp.is_done());
                    return (committed, None, true);
                }
                Action::Fail => {
                    assert!(sp.is_done());
                    return (committed, Some((name, open)), false);
                }
            }
        }
        assert_eq!(sp.committed_count(), committed.len());
    }
}

#[test]
fn three_records_capacity_two() {
    let (files, open, ok) = run_in_memory(2, vec![b"a", b"b", b"c"], false);
    assert!(ok);
    assert!(open.is_none());
    assert_eq!(files.len(), 2);
    assert_eq!(files[0].0, "00000000.txt");
    assert_eq!(files[0].1, b"a\nb\n".to_vec());
    assert_eq!(files[1].0, "00000001.txt");
    assert_eq!(files[1].1, b"c\n".to_vec());
}

#[test]
fn empty_source_commits_nothing() {
    let (files, open, ok) = run_in_memory(2, vec![], false);
    assert!(ok);
    assert!(open.is_none());
    assert_eq!(files.len(), 0);
}

#[test]
fn exact_chunk_boundary_leaves_no_empty_file() {
    let (files, open, ok) = run_in_memory(2, vec![b"p", b"q", b"r", b"s"], false);
    assert!(ok);
    assert!(open.is_none());
    assert_eq!(files.len(), 2);
    assert_eq!(files[0].1, b"p\nq\n".to_vec());
    assert_eq!(files[1].1, b"r\ns\n".to_vec());
}

#[test]
fn capacity_one_commits_one_record_per_file() {
    let (files, open, ok) = run_in_memory(1, vec![b"x", b"y"], false);
    assert!(ok);
    assert!(open.is_none());
    assert_eq!(files.len(), 2);
    assert_eq!(files[0].0, "00000000.txt");
    assert_eq!(files[0].1, b"x\n".to_vec());
    assert_eq!(files[1].0, "00000001.txt");
    assert_eq!(files[1].1, b"y\n".to_vec());
}

#[test]
fn file_count_is_records_divided_by_capacity_rounded_up() {
    for n in 0..10usize {
        for c in 1..5usize {
            let records: Vec<Vec<u8>> = (0..n).map(|i| format!("r{i}").into_bytes()).collect();
            let borrowed: Vec<&[u8]> = records.iter().map(|r| r.as_slice()).collect();
            let (files, _, ok) = run_in_memory(c, borrowed, false);
            assert!(ok);
            assert_eq!(files.len(), n.div_ceil(c));
            for (i, (name, bytes)) in files.iter().enumerate() {
                let lines = bytes.iter().filter(|b| **b == b'\n').count();
                assert!(lines >= 1);
                assert!(lines <= c);
                if i + 1 < files.len() {
                    assert_eq!(lines, c);
                } else if n % c != 0 {
                    assert_eq!(lines, n % c);
                } else {
                    assert_eq!(lines, c);
                }
                assert_eq!(*name, format!("{i:08x}.txt"));
            }
        }
    }
}

#[test]
fn concatenation_reproduces_records() {
    let records: Vec<&[u8]> = vec![b"alpha", b"", b"beta\r", b"gamma", b"d"];
    let (files, open, ok) = run_in_memory(3, records, false);
    assert!(ok);
    assert!(open.is_none());
    let mut all: Vec<u8> = Vec::new();
    for (_, bytes) in &files {
        all.extend_from_slice(bytes);
    }
    assert_eq!(all, b"alpha\n\nbeta\r\ngamma\nd\n".to_vec());
    let recovered: Vec<&[u8]> = all.split_last().map(|(_, rest)| rest).unwrap().split(|b| *b == b'\n').collect();
    assert_eq!(recovered, vec![&b"alpha"[..], b"", b"beta\r", b"gamma", b"d"]);
}

#[test]
fn read_error_aborts_and_keeps_committed_files() {
    let (files, open, ok) = run_in_memory(2, vec![b"a", b"b", b"c"], true);
    assert!(!ok);
    assert_eq!(files.len(), 1);
    assert_eq!(files[0].0, "00000000.txt");
    assert_eq!(files[0].1, b"a\nb\n".to_vec());
    let (name, bytes) = open.unwrap();
    assert_eq!(name, "00000001.txt");
    assert_eq!(bytes, b"c\n".to_vec());
}

#[test]
fn read_error_before_any_record() {
    let (files, open, ok) = run_in_memory(4, vec![], true);
    assert!(!ok);
    assert_eq!(files.len(), 0);
    let (name, bytes) = open.unwrap();
    assert_eq!(name, "00000000.txt");
    assert_eq!(bytes, b"".to_vec());
}

#[test]
fn step_by_step_actions_and_names() {
    let cfg = config_with_capacity(2);
    let mut sp = cfg.split_default();
    let mut name = String::new();
    sp.current_basename(&mut name);
    assert_eq!(name, "00000000.txt");
    assert_eq!(sp.capacity(), 2);
    assert_eq!(sp.committed_count(), 0);
    assert_eq!(sp.current_fill(), 0);
    match sp.step(Event::Record(b"a".to_vec())) {
        Action::Write(line) => assert_eq!(line, b"a\n".to_vec()),
        _ => panic!("one record in a chunk of two must only be written"),
    }
    assert_eq!(sp.current_fill(), 1);
    match sp.step(Event::Record(b"b".to_vec())) {
        Action::WriteCommit(line) => assert_eq!(line, b"b\n".to_vec()),
        _ => panic!("the second record must commit the file"),
    }
    assert_eq!(sp.committed_count(), 1);
    assert_eq!(sp.current_fill(), 0);
    sp.current_basename(&mut name);
    assert_eq!(name, "00000001.txt");
    match sp.step(Event::Record(b"c".to_vec())) {
        Action::Write(line) => assert_eq!(line, b"c\n".to_vec()),
        _ => panic!("one record in a chunk of two must only be written"),
    }
    match sp.step(Event::End) {
        Action::Commit => {}
        _ => panic!("a partial last chunk must be committed"),
    }
    assert_eq!(sp.committed_count(), 2);
    sp.current_basename(&mut name);
    assert_eq!(name, "00000002.txt");
    match sp.step(Event::End) {
        Action::Finish => {}
        _ => panic!("an empty last file must be discarded"),
    }
    assert!(sp.is_done());
    assert_eq!(sp.committed_count(), 2);
}
