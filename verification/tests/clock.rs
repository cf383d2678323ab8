use goose_gateway::clock::{seconds_of, unix_now};
use goose_gateway::stream::ChunkWriter;

#[test]
fn readings_become_seconds() {
    assert_eq!(seconds_of(None), 0);
    assert_eq!(seconds_of(Some(1700000000)), 1700000000);
    assert_eq!(seconds_of(Some(i64::MAX as u64)), i64::MAX);
    assert_eq!(seconds_of(Some(1 << 63)), i64::MIN);
    assert_eq!(seconds_of(Some(u64::MAX)), -1);
}

#[test]
fn the_clock_is_read() {
    let before = unix_now();
    assert!(before > 1700000000, "this century");
    let writer = ChunkWriter::new("m".to_owned(), false);
    assert!(writer.created >= before && writer.created <= before + 60);
    assert_eq!(writer.id, format!("chatcmpl-{}", writer.created));
}
