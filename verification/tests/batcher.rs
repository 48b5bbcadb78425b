use solana_mint_generator::batcher::{individual_retries, Batcher};
use solana_mint_generator::record::AddressRecord;

fn record(n: u8) -> AddressRecord {
    AddressRecord {
        pub_key: vec![b'P', n],
        private_key: vec![b'K', n],
        suffix_type: b"pump".to_vec(),
    }
}

#[test]
fn threshold_two_flushes_on_second_push() {
    // count=3, batch_size=2: the first batch call carries exactly 2 records,
    // the final flush exactly 1, and 3 records were discovered in all.
    let mut batcher = Batcher::new(2);
    let mut batch_calls: Vec<Vec<AddressRecord>> = Vec::new();
    for n in 0..3u8 {
        if let Some(batch) = batcher.push(record(n)) {
            batch_calls.push(batch);
        }
    }
    if let Some(rest) = batcher.take_remaining() {
        batch_calls.push(rest);
    }
    assert_eq!(batch_calls.len(), 2);
    assert_eq!(batch_calls[0].len(), 2);
    assert_eq!(batch_calls[1].len(), 1);
    assert_eq!(batch_calls[0][0].pub_key, vec![b'P', 0]);
    assert_eq!(batch_calls[0][1].pub_key, vec![b'P', 1]);
    assert_eq!(batch_calls[1][0].pub_key, vec![b'P', 2]);
}

#[test]
fn threshold_zero_defers_everything_to_the_end() {
    // batch_size=0, count=5: no batch is handed out until the end, then one
    // batch of all 5 records.
    let mut batcher = Batcher::new(0);
    for n in 0..5u8 {
        assert!(batcher.push(record(n)).is_none());
    }
    let rest = batcher.take_remaining().expect("final flush has the records");
    assert_eq!(rest.len(), 5);
    for (i, r) in rest.iter().enumerate() {
        assert_eq!(r.pub_key, vec![b'P', i as u8]);
    }
    assert!(batcher.take_remaining().is_none());
}

#[test]
fn threshold_one_flushes_every_push() {
    let mut batcher = Batcher::new(1);
    for n in 0..3u8 {
        let batch = batcher.push(record(n)).expect("every push reaches the threshold");
        assert_eq!(batch.len(), 1);
        assert_eq!(batch[0].pub_key, vec![b'P', n]);
    }
    assert!(batcher.take_remaining().is_none());
}

#[test]
fn failed_batch_of_four_retries_each_record_individually() {
    // A failed batch insert of 4 records triggers exactly 4 individual
    // insert calls, carrying the same records in order.
    let batch: Vec<AddressRecord> = (0..4u8).map(record).collect();
    let retries = individual_retries(&batch, false);
    assert_eq!(retries.len(), 4);
    for (r, b) in retries.iter().zip(batch.iter()) {
        assert_eq!(r.pub_key, b.pub_key);
        assert_eq!(r.private_key, b.private_key);
        assert_eq!(r.suffix_type, b.suffix_type);
    }
}

#[test]
fn successful_batch_needs_no_retries() {
    let batch: Vec<AddressRecord> = (0..4u8).map(record).collect();
    let retries = individual_retries(&batch, true);
    assert!(retries.is_empty());
}

#[test]
fn empty_buffer_final_flush_is_silent() {
    let mut batcher = Batcher::new(7);
    assert!(batcher.take_remaining().is_none());
}
