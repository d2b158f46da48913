use tairvector::arg::Arg;
use tairvector::bulk::{plan, upserts, CHUNK_SIZE};
use tairvector::tally::tally;
use tairvector::vector::{decode, NdArrayVector, Vector};
use tairvector::command::{
    tvs_create_index, tvs_del_index, tvs_get_vector, tvs_hgetall, tvs_hmget, tvs_hset_multi,
    tvs_knnsearch,
};
use tairvector::cursor::drain_pages;
use tairvector::scan::tvs_scan;

fn as_text(value: &f32) -> String {
    value.to_string()
}

fn as_number(text: &str) -> Option<f32> {
    text.parse::<f32>().ok()
}

fn slots_of(cmd: &redis::Cmd) -> Vec<Vec<u8>> {
    cmd.args_iter()
        .map(|arg| match arg {
            redis::Arg::Simple(bytes) => bytes.to_vec(),
            redis::Arg::Cursor => b"<cursor>".to_vec(),
        })
        .collect()
}

fn words(slots: &[&str]) -> Vec<Vec<u8>> {
    slots.iter().map(|slot| slot.as_bytes().to_vec()).collect()
}

#[test]
fn flat_index_with_one_record() {
    let created = tvs_create_index(
        Arg::Text("t"),
        Arg::Number(2),
        Arg::Text("FLAT"),
        Arg::Text("L2"),
    );
    assert_eq!(slots_of(&created), words(&["TVS.CREATEINDEX", "t", "2", "FLAT", "L2"]));

    let vector = Vector::new(vec![1.0f32, 2.0]);
    let text = vector.encode(as_text);
    assert_eq!(text, b"[1,2]".to_vec());

    let attrs = [
        (Arg::Text("attr1"), Arg::Text("val1")),
        (Arg::Text("VECTOR"), Arg::Bytes(&text)),
    ];
    let upsert = tvs_hset_multi(Arg::Text("t"), Arg::Text("k1"), &attrs);
    assert_eq!(
        slots_of(&upsert),
        words(&["TVS.HSET", "t", "k1", "attr1", "val1", "VECTOR", "[1,2]"])
    );

    let all = tvs_hgetall(Arg::Text("t"), Arg::Text("k1"));
    assert_eq!(slots_of(&all), words(&["TVS.HGETALL", "t", "k1"]));

    let some = tvs_hmget(Arg::Text("t"), Arg::Text("k1"), &[Arg::Text("attr1"), Arg::Text("VECTOR")]);
    assert_eq!(slots_of(&some), words(&["TVS.HMGET", "t", "k1", "attr1", "VECTOR"]));

    let nearest = tvs_knnsearch(Arg::Text("t"), 1, Arg::Bytes(&text));
    assert_eq!(slots_of(&nearest), words(&["TVS.KNNSEARCH", "t", "1", "[1,2]"]));

    let deleted = tvs_del_index(Arg::Text("t"));
    assert_eq!(slots_of(&deleted), words(&["TVS.DELINDEX", "t"]));
}

#[test]
fn upserted_vector_comes_back_from_its_field() {
    let inserted = vec![0.125f32, -7.5, 3.0e-5, 42.0];
    let text = Vector::new(inserted.clone()).encode(as_text);

    let fetch = tvs_get_vector(Arg::Text("t"), Arg::Text("k1"));
    assert_eq!(slots_of(&fetch), words(&["TVS.HMGET", "t", "k1", "VECTOR"]));

    let reply = redis::Value::Bulk(vec![redis::Value::Data(text)]);
    let fields = match reply {
        redis::Value::Bulk(fields) => fields,
        _ => unreachable!(),
    };
    let got: Vec<Vector<f32>> = fields
        .iter()
        .map(|field| Vector::from_redis_value(field, as_number).unwrap())
        .collect();
    assert_eq!(got.len(), 1);
    assert_eq!(got[0].components(), &inserted);
}

#[test]
fn hundred_vectors_of_dimension_thirty_two() {
    let dim = 32;
    let nvecs = 100;
    let mut seed: u32 = 12345;
    let mut rows: Vec<Vec<f32>> = Vec::new();
    for _ in 0..nvecs {
        let mut row = Vec::new();
        for _ in 0..dim {
            seed = seed.wrapping_mul(1664525).wrapping_add(1013904223);
            row.push((seed >> 8) as f32 / (1u32 << 24) as f32);
        }
        rows.push(row);
    }

    // The store as the commands leave it: key to vector text.
    let mut stored: Vec<(Vec<u8>, Vec<u8>)> = Vec::new();
    let mut reports: Vec<Option<usize>> = Vec::new();
    for chunk in plan(nvecs, CHUNK_SIZE) {
        let texts: Vec<Vec<u8>> = (0..chunk.len)
            .map(|offset| NdArrayVector::new(&rows[chunk.start + offset][..]).encode(as_text))
            .collect();
        let mut outcomes: Vec<Option<usize>> = Vec::new();
        for cmd in upserts(Arg::Text("test-bulk-load"), &chunk, &texts) {
            let slots = slots_of(&cmd);
            assert_eq!(slots.len(), 5);
            assert_eq!(slots[0], b"TVS.HSET".to_vec());
            assert_eq!(slots[1], b"test-bulk-load".to_vec());
            assert_eq!(slots[3], b"VECTOR".to_vec());
            stored.push((slots[2].clone(), slots[4].clone()));
            outcomes.push(Some(1));
        }
        reports.push(tally(&outcomes));
    }
    assert_eq!(tally(&reports), Some(100));

    // A full scan, in pages of a size that the store chose.
    let mut pages: Vec<(u64, Vec<String>)> = Vec::new();
    for (number, page) in stored.chunks(10).enumerate() {
        let next = if (number + 1) * 10 >= stored.len() { 0 } else { number as u64 + 1 };
        let keys = page.iter().map(|(key, _)| String::from_utf8(key.clone()).unwrap()).collect();
        pages.push((next, keys));
    }
    let first_page = tvs_scan(Arg::Text("test-bulk-load")).command(0);
    assert_eq!(slots_of(&first_page), words(&["TVS.SCAN", "test-bulk-load", "<cursor>"]));
    let scanned = drain_pages(pages);
    assert_eq!(scanned.len(), nvecs);
    let expected: Vec<String> = (0..nvecs).map(|i| i.to_string()).collect();
    assert_eq!(scanned, expected);

    for key in scanned {
        let idx: usize = key.parse().unwrap();
        let (_, text) = &stored[idx];
        let v = decode(text, as_number);
        assert_eq!(v.len(), dim);
        for i in 0..dim {
            assert!((v[i] - rows[idx][i]).abs() < 1e-6);
        }
    }
}
