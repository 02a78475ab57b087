use std::collections::BTreeSet;
use utxo_reducer::chain::{
    Block, BlockContext, Datum, KnownUtxo, OutputRef, Produced, Transaction, TxOutput, Witness,
};
use utxo_reducer::reducer::{Config, CrdtCommand, Reducer, RuntimePolicy};

const ADDR: &str = "addr1vx2fxv2umyhttkxyxp8x0dlpdt3k6cwng5pxj3jhsydzers66hrl8";
const OTHER: &str = "addr1w8phkx6acpnf78fuvxn0mkew3l0fd058hzquvz7w36x4gtcyjy7wx";

fn reducer(prefix: Option<&str>, address_as_key: Option<bool>) -> Reducer {
    Config { filter: vec![ADDR.to_string()], prefix: prefix.map(|p| p.to_string()), address_as_key }
        .plugin(&RuntimePolicy::SkipMissing)
}

fn output(address: &str, lovelace: u64) -> TxOutput {
    TxOutput {
        address: Some(address.to_string()),
        datum: Datum::Absent,
        lovelace,
        assets: Vec::new(),
    }
}

fn tx(byte: u8, consumes: Vec<OutputRef>, outputs: Vec<TxOutput>) -> Transaction {
    let produces = outputs
        .into_iter()
        .enumerate()
        .map(|(i, output)| Produced { index: i as u64, output })
        .collect();
    Transaction { hash: [byte; 32], consumes, produces, witnesses: Vec::new() }
}

fn at(byte: u8, index: u64) -> OutputRef {
    OutputRef { tx_hash: [byte; 32], index }
}

fn no_context() -> BlockContext {
    BlockContext { utxos: Vec::new() }
}

fn value_by_place(address: &str, lovelace: u64) -> String {
    format!(
        "{{\"address\":\"{}\",\"amount\":[{{\"quantity\":\"{}\",\"unit\":\"lovelace\"}}]}}",
        address, lovelace
    )
}

fn apply(store: &mut (BTreeSet<(Option<String>, String, String)>, BTreeSet<(Option<String>, String, String)>), c: &CrdtCommand) {
    match c.clone() {
        CrdtCommand::SetAdd { namespace, key, value } => {
            store.0.insert((namespace, key, value));
        }
        CrdtCommand::SetRemove { namespace, key, value } => {
            store.1.insert((namespace, key, value));
        }
    }
}

#[test]
fn produced_output_to_watched_address_gives_one_add() {
    let mut r = reducer(None, None);
    let block = Block { txs: vec![tx(0xc4, Vec::new(), vec![output(ADDR, 5_000_000)])] };
    let got = r.reduce_block(&block, &no_context());
    let expected = CrdtCommand::SetAdd {
        namespace: None,
        key: format!("{}#0", "c4".repeat(32)),
        value: value_by_place(ADDR, 5_000_000),
    };
    assert_eq!(got, vec![expected]);
    assert!(!got.iter().any(|c| format!("{:?}", c).contains("datum")));
}

#[test]
fn consumed_output_gives_the_removal_of_what_was_added() {
    let mut r = reducer(None, None);
    let first = Block { txs: vec![tx(0xc4, Vec::new(), vec![output(ADDR, 5_000_000)])] };
    let added = r.reduce_block(&first, &no_context());
    let second = Block { txs: vec![tx(0xc5, vec![at(0xc4, 0)], Vec::new())] };
    let ctx = BlockContext {
        utxos: vec![KnownUtxo { reference: at(0xc4, 0), output: output(ADDR, 5_000_000), witnesses: Vec::new() }],
    };
    let removed = r.reduce_block(&second, &ctx);
    assert_eq!(removed.len(), 1);
    match (&added[0], &removed[0]) {
        (
            CrdtCommand::SetAdd { namespace: n1, key: k1, value: v1 },
            CrdtCommand::SetRemove { namespace: n2, key: k2, value: v2 },
        ) => {
            assert_eq!(k1.as_bytes(), k2.as_bytes());
            assert_eq!(v1.as_bytes(), v2.as_bytes());
            assert_eq!(n1, n2);
        }
        _ => panic!("an addition, then a removal"),
    }
}

#[test]
fn two_outputs_to_one_address_share_the_key_under_address_keys() {
    let mut r = reducer(None, Some(true));
    let block = Block { txs: vec![tx(0x07, Vec::new(), vec![output(ADDR, 1), output(ADDR, 1)])] };
    let got = r.reduce_block(&block, &no_context());
    assert_eq!(got.len(), 2);
    let parts: Vec<(String, String)> = got
        .iter()
        .map(|c| match c {
            CrdtCommand::SetAdd { namespace: None, key, value } => (key.clone(), value.clone()),
            _ => panic!("an addition without namespace"),
        })
        .collect();
    assert_eq!(parts[0].0, ADDR);
    assert_eq!(parts[1].0, ADDR);
    assert_ne!(parts[0].1, parts[1].1);
    assert!(parts[0].1.contains("\"output_index\":0"));
    assert!(parts[1].1.contains("\"output_index\":1"));
    assert!(parts[0].1.contains(&format!("\"tx_hash\":\"{}\"", "07".repeat(32))));
}

#[test]
fn removals_carry_the_prefix_and_additions_do_not() {
    let mut r = reducer(Some("utxos"), None);
    let block = Block { txs: vec![tx(0x02, vec![at(0x01, 3)], vec![output(ADDR, 9)])] };
    let ctx = BlockContext { utxos: vec![KnownUtxo { reference: at(0x01, 3), output: output(ADDR, 4), witnesses: Vec::new() }] };
    let got = r.reduce_block(&block, &ctx);
    let expected = vec![
        CrdtCommand::SetRemove {
            namespace: Some("utxos".to_string()),
            key: format!("{}#3", "01".repeat(32)),
            value: value_by_place(ADDR, 4),
        },
        CrdtCommand::SetAdd {
            namespace: None,
            key: format!("{}#0", "02".repeat(32)),
            value: value_by_place(ADDR, 9),
        },
    ];
    assert_eq!(got, expected);
}

#[test]
fn commands_follow_transactions_then_inputs_then_outputs() {
    let mut r = reducer(None, None);
    let block = Block {
        txs: vec![
            tx(0x0a, vec![at(0x01, 0), at(0x01, 1)], vec![output(ADDR, 1), output(OTHER, 2), output(ADDR, 3)]),
            tx(0x0b, vec![at(0x01, 2)], vec![output(ADDR, 4)]),
        ],
    };
    let ctx = BlockContext {
        utxos: vec![
            KnownUtxo { reference: at(0x01, 2), output: output(ADDR, 30), witnesses: Vec::new() },
            KnownUtxo { reference: at(0x01, 1), output: output(ADDR, 20), witnesses: Vec::new() },
            KnownUtxo { reference: at(0x01, 0), output: output(OTHER, 10), witnesses: Vec::new() },
        ],
    };
    let got: Vec<(bool, String)> = r
        .reduce_block(&block, &ctx)
        .into_iter()
        .map(|c| match c {
            CrdtCommand::SetAdd { key, .. } => (true, key),
            CrdtCommand::SetRemove { key, .. } => (false, key),
        })
        .collect();
    let expected = vec![
        (false, format!("{}#1", "01".repeat(32))),
        (true, format!("{}#0", "0a".repeat(32))),
        (true, format!("{}#2", "0a".repeat(32))),
        (false, format!("{}#2", "01".repeat(32))),
        (true, format!("{}#0", "0b".repeat(32))),
    ];
    assert_eq!(got, expected);
}

#[test]
fn unknown_spent_output_is_skipped() {
    let mut r = reducer(None, None);
    let block = Block { txs: vec![tx(0x0a, vec![at(0x01, 0)], Vec::new())] };
    assert_eq!(r.reduce_block(&block, &no_context()), Vec::new());
    let ctx = BlockContext { utxos: vec![KnownUtxo { reference: at(0x01, 1), output: output(ADDR, 1), witnesses: Vec::new() }] };
    assert_eq!(r.reduce_block(&block, &ctx), Vec::new());
}

#[test]
fn produced_index_is_taken_from_the_transaction() {
    let mut r = reducer(None, None);
    let mut t = tx(0x0a, Vec::new(), vec![output(ADDR, 1)]);
    t.produces[0].index = 4;
    let got = r.reduce_block(&Block { txs: vec![t] }, &no_context());
    assert_eq!(got.len(), 1);
    match &got[0] {
        CrdtCommand::SetAdd { key, .. } => assert_eq!(*key, format!("{}#4", "0a".repeat(32))),
        _ => panic!("an addition"),
    }
}

#[test]
fn empty_block_gives_no_commands() {
    let mut r = reducer(Some("p"), Some(true));
    assert_eq!(r.reduce_block(&Block { txs: Vec::new() }, &no_context()), Vec::new());
    let before = r.clone();
    let block = Block { txs: vec![tx(1, Vec::new(), vec![output(ADDR, 1)])] };
    r.reduce_block(&block, &no_context());
    assert_eq!(r, before);
}

#[test]
fn replayed_command_leaves_the_store_as_it_was() {
    let mut r = reducer(None, None);
    let block = Block { txs: vec![tx(0x02, vec![at(0x01, 3)], vec![output(ADDR, 9)])] };
    let ctx = BlockContext { utxos: vec![KnownUtxo { reference: at(0x01, 3), output: output(ADDR, 4), witnesses: Vec::new() }] };
    for c in r.reduce_block(&block, &ctx) {
        let mut once = (BTreeSet::new(), BTreeSet::new());
        apply(&mut once, &c);
        let mut twice = once.clone();
        apply(&mut twice, &c);
        assert_eq!(once, twice);
    }
}

#[test]
fn addition_and_removal_commute() {
    let mut r = reducer(None, None);
    let first = Block { txs: vec![tx(0xc4, Vec::new(), vec![output(ADDR, 5)])] };
    let add = r.reduce_block(&first, &no_context()).remove(0);
    let second = Block { txs: vec![tx(0xc5, vec![at(0xc4, 0)], Vec::new())] };
    let ctx = BlockContext { utxos: vec![KnownUtxo { reference: at(0xc4, 0), output: output(ADDR, 5), witnesses: Vec::new() }] };
    let remove = r.reduce_block(&second, &ctx).remove(0);
    let mut one = (BTreeSet::new(), BTreeSet::new());
    apply(&mut one, &add);
    apply(&mut one, &remove);
    let mut other = (BTreeSet::new(), BTreeSet::new());
    apply(&mut other, &remove);
    apply(&mut other, &add);
    assert_eq!(one, other);
    let present: Vec<_> = one.0.difference(&one.1).collect();
    assert!(present.is_empty());
}

fn hashed_output(bytes: &[u8]) -> TxOutput {
    let mut o = output(ADDR, 3);
    o.datum = Datum::HashOnly(*pallas::crypto::hash::Hasher::<256>::hash(bytes));
    o
}

fn parts(c: &CrdtCommand) -> (String, String) {
    match c {
        CrdtCommand::SetAdd { key, value, .. } => (key.clone(), value.clone()),
        CrdtCommand::SetRemove { key, value, .. } => (key.clone(), value.clone()),
    }
}

#[test]
fn removal_is_built_against_the_witnesses_of_the_producing_transaction() {
    let mut r = reducer(None, None);
    let datum = vec![0xd8, 0x79, 0x80];
    let mut producing = tx(0xc4, Vec::new(), vec![hashed_output(&datum)]);
    producing.witnesses.push(Witness { bytes: datum.clone() });
    let added = r.reduce_block(&Block { txs: vec![producing.clone()] }, &no_context());
    let consuming = tx(0xc5, vec![at(0xc4, 0)], Vec::new());
    let ctx = BlockContext {
        utxos: vec![KnownUtxo {
            reference: at(0xc4, 0),
            output: hashed_output(&datum),
            witnesses: producing.witnesses.clone(),
        }],
    };
    let removed = r.reduce_block(&Block { txs: vec![consuming] }, &ctx);
    assert_eq!(added.len(), 1);
    assert_eq!(removed.len(), 1);
    assert!(matches!(added[0], CrdtCommand::SetAdd { .. }));
    assert!(matches!(removed[0], CrdtCommand::SetRemove { .. }));
    assert_eq!(parts(&added[0]), parts(&removed[0]));
    assert!(parts(&removed[0]).1.contains("\"datum\":\"d87980\""));
}

#[test]
fn witnesses_of_the_consuming_transaction_do_not_reach_the_removal() {
    let mut r = reducer(None, None);
    let datum = vec![0xd8, 0x79, 0x80];
    let producing = tx(0xc4, Vec::new(), vec![hashed_output(&datum)]);
    let added = r.reduce_block(&Block { txs: vec![producing] }, &no_context());
    let mut consuming = tx(0xc5, vec![at(0xc4, 0)], Vec::new());
    consuming.witnesses.push(Witness { bytes: datum.clone() });
    let ctx = BlockContext {
        utxos: vec![KnownUtxo {
            reference: at(0xc4, 0),
            output: hashed_output(&datum),
            witnesses: Vec::new(),
        }],
    };
    let removed = r.reduce_block(&Block { txs: vec![consuming] }, &ctx);
    assert_eq!(parts(&added[0]), parts(&removed[0]));
    assert!(parts(&removed[0]).1.contains("\"datum_hash\""));
    assert!(!parts(&removed[0]).1.contains("\"datum\":"));
}

#[test]
fn outputs_of_two_transactions_to_one_address_share_the_key_under_address_keys() {
    let mut r = reducer(Some("p"), Some(true));
    let block = Block {
        txs: vec![
            tx(0x07, Vec::new(), vec![output(OTHER, 1), output(ADDR, 1)]),
            tx(0x08, Vec::new(), vec![output(ADDR, 1)]),
        ],
    };
    let got = r.reduce_block(&block, &no_context());
    assert_eq!(got.len(), 2);
    for c in got.iter() {
        assert!(matches!(c, CrdtCommand::SetAdd { namespace: None, .. }));
        assert_eq!(parts(c).0, ADDR);
        assert!(!parts(c).1.contains("\"address\""));
    }
    assert_ne!(parts(&got[0]).1, parts(&got[1]).1);
    assert!(parts(&got[0]).1.contains(&format!("\"output_index\":1,\"tx_hash\":\"{}\"", "07".repeat(32))));
    assert!(parts(&got[1]).1.contains(&format!("\"output_index\":0,\"tx_hash\":\"{}\"", "08".repeat(32))));
}
