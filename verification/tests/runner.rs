use kvstore::http::{get_response, write_response, AppBuilder};
use kvstore::kvs::compression::CompressionKvs;
use kvstore::kvs::concurrency::{dispatch, run_commands, settle_reply, Command};
use kvstore::kvs::memory::MemKvs;
use kvstore::kvs::{Kvs, KvsError};

#[test]
fn dispatch_executes_each_operation() {
    let mut store = MemKvs::new();
    let r = dispatch(&mut store, Command::Insert("a".to_string(), vec![1]));
    assert_eq!(r.unwrap(), None);
    let r = dispatch(&mut store, Command::Get("a".to_string()));
    assert_eq!(r.unwrap(), Some(vec![1]));
    let r = dispatch(&mut store, Command::Remove("a".to_string()));
    assert_eq!(r.unwrap(), Some(vec![1]));
    assert_eq!(store.get("a").unwrap(), None);
}

#[test]
fn all_inserts_land() {
    let mut store = CompressionKvs::new(MemKvs::new());
    let mut cmds = Vec::new();
    for i in 0..40u8 {
        cmds.push(Command::Insert(format!("key{}", i), vec![i]));
    }
    let replies = run_commands(&mut store, cmds);
    assert_eq!(replies.len(), 40);
    for r in &replies {
        assert!(r.is_ok());
    }
    for i in 0..40u8 {
        assert_eq!(store.get(&format!("key{}", i)).unwrap(), Some(vec![i]));
    }
}

#[test]
fn same_key_commands_keep_arrival_order() {
    let mut store = CompressionKvs::new(MemKvs::new());
    let cmds = vec![
        Command::Insert("k".to_string(), b"v1".to_vec()),
        Command::Insert("k".to_string(), b"v2".to_vec()),
        Command::Get("k".to_string()),
    ];
    let replies = run_commands(&mut store, cmds);
    assert_eq!(replies.len(), 3);
    assert_eq!(replies[2].as_ref().unwrap(), &Some(b"v2".to_vec()));
    assert_eq!(store.get("k").unwrap(), Some(b"v2".to_vec()));
}

#[test]
fn settle_reply_paths() {
    let delivered = settle_reply(Some(Ok(Some(vec![9]))), "unused".to_string());
    assert_eq!(delivered.unwrap(), Some(vec![9]));
    let lost = settle_reply(None, "channel closed".to_string());
    match lost {
        Err(KvsError::Other(m)) => assert_eq!(m, "channel closed"),
        _ => panic!("a missing reply must surface as the Other kind"),
    }
}

#[test]
fn response_codes() {
    assert_eq!(get_response(Ok(Some(b"x".to_vec()))), Ok(b"x".to_vec()));
    assert_eq!(get_response(Ok(None)), Err(404));
    assert_eq!(get_response(Err(KvsError::Other("e".to_string()))), Err(500));
    assert_eq!(write_response(&Ok(None)), Ok(()));
    assert_eq!(write_response(&Ok(Some(vec![1]))), Ok(()));
    assert_eq!(write_response(&Err(KvsError::Io("e".to_string()))), Err(500));
}

#[test]
fn app_builder_mounts_at_root() {
    let buf = AppBuilder::new(MemKvs::new());
    assert_eq!(buf.root, "/");
}
