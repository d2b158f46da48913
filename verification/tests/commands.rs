use tairvector::arg::{push_arg, Arg};
use tairvector::command::{
    push_list, push_pairs, tvs_create_index, tvs_create_index_with_params, tvs_del_index,
    tvs_get_index, tvs_get_vector, tvs_hgetall, tvs_hmget, tvs_hset, tvs_hset_multi,
    tvs_hset_vector, tvs_knnsearch, tvs_knnsearch_with_params,
};

fn packed(args: &[&[u8]]) -> Vec<u8> {
    let owned: Vec<Vec<u8>> = args.iter().map(|arg| arg.to_vec()).collect();
    redis::pack_command(&owned)
}

#[test]
fn create_index_wire_form() {
    let cmd = tvs_create_index(
        Arg::Text("t"),
        Arg::Number(2),
        Arg::Text("FLAT"),
        Arg::Text("L2"),
    );
    assert_eq!(
        cmd.get_packed_command(),
        b"*5\r\n$15\r\nTVS.CREATEINDEX\r\n$1\r\nt\r\n$1\r\n2\r\n$4\r\nFLAT\r\n$2\r\nL2\r\n".to_vec()
    );
    assert!(!cmd.in_scan_mode());
}

#[test]
fn create_index_with_params_wire_form() {
    let params = [
        (Arg::Text("ef_construct"), Arg::Number(100)),
        (Arg::Text("M"), Arg::Number(24)),
    ];
    let cmd = tvs_create_index_with_params(Arg::Text("test-sync-ops"), 2, "HNSW", "L2", &params);
    assert_eq!(
        cmd.get_packed_command(),
        packed(&[
            b"TVS.CREATEINDEX",
            b"test-sync-ops",
            b"2",
            b"HNSW",
            b"L2",
            b"ef_construct",
            b"100",
            b"M",
            b"24",
        ])
    );
}

#[test]
fn create_index_with_no_params_is_the_plain_command() {
    let with = tvs_create_index_with_params(Arg::Text("t"), 2, "FLAT", "L2", &[]);
    let without = tvs_create_index(
        Arg::Text("t"),
        Arg::Number(2),
        Arg::Text("FLAT"),
        Arg::Text("L2"),
    );
    assert_eq!(with.get_packed_command(), without.get_packed_command());
}

#[test]
fn params_are_neither_reordered_nor_deduplicated() {
    let params = [
        (Arg::Text("b"), Arg::Number(1)),
        (Arg::Text("a"), Arg::Number(2)),
        (Arg::Text("b"), Arg::Number(3)),
    ];
    let cmd = tvs_knnsearch_with_params(Arg::Text("t"), 5, Arg::Text("[0]"), &params);
    assert_eq!(
        cmd.get_packed_command(),
        packed(&[b"TVS.KNNSEARCH", b"t", b"5", b"[0]", b"b", b"1", b"a", b"2", b"b", b"3"])
    );
}

#[test]
fn get_index_wire_form() {
    let cmd = tvs_get_index(Arg::Text("t"));
    assert_eq!(cmd.get_packed_command(), b"*2\r\n$12\r\nTVS.GETINDEX\r\n$1\r\nt\r\n".to_vec());
}

#[test]
fn del_index_wire_form() {
    let cmd = tvs_del_index(Arg::Text("t"));
    assert_eq!(cmd.get_packed_command(), b"*2\r\n$12\r\nTVS.DELINDEX\r\n$1\r\nt\r\n".to_vec());
}

#[test]
fn hset_vector_wire_form() {
    let cmd = tvs_hset_vector(Arg::Text("t"), Arg::Text("k1"), Arg::Bytes(b"[1,2]"));
    assert_eq!(
        cmd.get_packed_command(),
        b"*5\r\n$8\r\nTVS.HSET\r\n$1\r\nt\r\n$2\r\nk1\r\n$6\r\nVECTOR\r\n$5\r\n[1,2]\r\n".to_vec()
    );
}

#[test]
fn hset_wire_form() {
    let cmd = tvs_hset(Arg::Text("t"), Arg::Text("k1"), Arg::Text("attr1"), Arg::Text("val1"));
    assert_eq!(
        cmd.get_packed_command(),
        packed(&[b"TVS.HSET", b"t", b"k1", b"attr1", b"val1"])
    );
}

#[test]
fn hset_multi_wire_form() {
    let attrs = [
        (Arg::Text("attr1"), Arg::Text("val1")),
        (Arg::Text("VECTOR"), Arg::Text("[1,2]")),
    ];
    let cmd = tvs_hset_multi(Arg::Text("t"), Arg::Text("k1"), &attrs);
    assert_eq!(
        cmd.get_packed_command(),
        packed(&[b"TVS.HSET", b"t", b"k1", b"attr1", b"val1", b"VECTOR", b"[1,2]"])
    );
}

#[test]
fn hgetall_wire_form() {
    let cmd = tvs_hgetall(Arg::Text("t"), Arg::Text("k1"));
    assert_eq!(cmd.get_packed_command(), packed(&[b"TVS.HGETALL", b"t", b"k1"]));
}

#[test]
fn get_vector_wire_form() {
    let cmd = tvs_get_vector(Arg::Text("t"), Arg::Number(17));
    assert_eq!(cmd.get_packed_command(), packed(&[b"TVS.HMGET", b"t", b"17", b"VECTOR"]));
}

#[test]
fn hmget_wire_form() {
    let cmd = tvs_hmget(Arg::Text("t"), Arg::Text("k1"), &[Arg::Text("attr1"), Arg::Text("VECTOR")]);
    assert_eq!(
        cmd.get_packed_command(),
        packed(&[b"TVS.HMGET", b"t", b"k1", b"attr1", b"VECTOR"])
    );
}

#[test]
fn hmget_without_fields_has_no_field_slot() {
    let cmd = tvs_hmget(Arg::Text("t"), Arg::Text("k1"), &[]);
    assert_eq!(cmd.get_packed_command(), packed(&[b"TVS.HMGET", b"t", b"k1"]));
}

#[test]
fn knnsearch_wire_form() {
    let cmd = tvs_knnsearch(Arg::Text("t"), 1, Arg::Bytes(b"[1,2]"));
    assert_eq!(
        cmd.get_packed_command(),
        b"*4\r\n$13\r\nTVS.KNNSEARCH\r\n$1\r\nt\r\n$1\r\n1\r\n$5\r\n[1,2]\r\n".to_vec()
    );
}

#[test]
fn knnsearch_with_params_wire_form() {
    let params = [(Arg::Text("ef_search"), Arg::Number(100))];
    let cmd = tvs_knnsearch_with_params(Arg::Text("t"), 10, Arg::Bytes(b"[1,2]"), &params);
    assert_eq!(
        cmd.get_packed_command(),
        packed(&[b"TVS.KNNSEARCH", b"t", b"10", b"[1,2]", b"ef_search", b"100"])
    );
}

#[test]
fn number_is_sent_in_decimal() {
    for (number, digits) in [
        (0usize, "0"),
        (7, "7"),
        (10, "10"),
        (99, "99"),
        (100, "100"),
        (12345, "12345"),
        (4294967295, "4294967295"),
    ] {
        let cmd = tvs_get_index(Arg::Number(number));
        assert_eq!(cmd.get_packed_command(), packed(&[b"TVS.GETINDEX", digits.as_bytes()]));
    }
    let cmd = tvs_get_index(Arg::Number(usize::MAX));
    assert_eq!(
        cmd.get_packed_command(),
        packed(&[b"TVS.GETINDEX", usize::MAX.to_string().as_bytes()])
    );
}

#[test]
fn bytes_are_sent_as_they_are() {
    let raw = [0u8, 255, b'\r', b'\n', b','];
    let cmd = tvs_get_index(Arg::Bytes(&raw));
    assert_eq!(cmd.get_packed_command(), b"*2\r\n$12\r\nTVS.GETINDEX\r\n$5\r\n\x00\xff\r\n,\r\n".to_vec());
}

#[test]
fn empty_bytes_are_one_empty_slot() {
    let cmd = tvs_get_index(Arg::Bytes(b""));
    assert_eq!(cmd.get_packed_command(), b"*2\r\n$12\r\nTVS.GETINDEX\r\n$0\r\n\r\n".to_vec());
}

#[test]
fn text_is_sent_as_utf8() {
    let cmd = tvs_get_index(Arg::Text("né"));
    assert_eq!(cmd.get_packed_command(), packed(&[b"TVS.GETINDEX", "né".as_bytes()]));
}

#[test]
fn push_arg_appends_one_slot() {
    let mut cmd = tvs_get_index(Arg::Text("t"));
    push_arg(&mut cmd, Arg::Number(3));
    push_arg(&mut cmd, Arg::Bytes(b"x"));
    assert_eq!(cmd.get_packed_command(), packed(&[b"TVS.GETINDEX", b"t", b"3", b"x"]));
}

#[test]
fn push_list_and_pairs_append_in_order() {
    let mut cmd = tvs_get_index(Arg::Text("t"));
    push_list(&mut cmd, &[Arg::Text("a"), Arg::Number(1)]);
    push_pairs(&mut cmd, &[(Arg::Text("k"), Arg::Text("v")), (Arg::Number(2), Arg::Bytes(b"w"))]);
    assert_eq!(
        cmd.get_packed_command(),
        packed(&[b"TVS.GETINDEX", b"t", b"a", b"1", b"k", b"v", b"2", b"w"])
    );
}
