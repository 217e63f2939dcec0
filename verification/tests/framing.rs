use fuel_core_types::fuel_tx::{
    Cacheable, Create, Input, Mint, Output, StorageSlot, Transaction, TxPointer, UniqueIdentifier,
    UtxoId, Witness,
};
use fuel_core_types::fuel_types::bytes::{Deserializable, SerializableVec};
use fuel_core_types::fuel_types::{Address, AssetId, Bytes32, ContractId, MessageId, Salt};
use fuelmint::codec::{decode, EncodedTransaction};
use fuelmint::identity::compute_identity;
use fuelmint::frame::{
    frame_length, read_word, skip_bytes, skip_input, skip_output, skip_part, skip_parts,
    skip_witness, transaction_kind, Part, TransactionKind,
};

fn inputs() -> Vec<Input> {
    let utxo = UtxoId::new(Bytes32::new([1; 32]), 2);
    let pointer = TxPointer::new(6, 7);
    vec![
        Input::coin_signed(utxo, Address::new([3; 32]), 40, AssetId::new([5; 32]), pointer, 0, 9),
        Input::coin_predicate(
            utxo,
            Address::new([3; 32]),
            41,
            AssetId::new([5; 32]),
            pointer,
            9,
            vec![1, 2, 3],
            vec![4, 5, 6, 7, 8, 9, 10, 11, 12],
        ),
        Input::contract(
            utxo,
            Bytes32::new([8; 32]),
            Bytes32::new([9; 32]),
            pointer,
            ContractId::new([10; 32]),
        ),
        Input::message_signed(
            MessageId::new([11; 32]),
            Address::new([12; 32]),
            Address::new([13; 32]),
            14,
            15,
            1,
            vec![1, 2, 3, 4, 5],
        ),
        Input::message_predicate(
            MessageId::new([11; 32]),
            Address::new([12; 32]),
            Address::new([13; 32]),
            14,
            15,
            vec![1; 16],
            vec![2; 7],
            vec![],
        ),
    ]
}

fn outputs() -> Vec<Output> {
    vec![
        Output::coin(Address::new([1; 32]), 2, AssetId::new([3; 32])),
        Output::contract(0, Bytes32::new([4; 32]), Bytes32::new([5; 32])),
        Output::message(Address::new([6; 32]), 7),
        Output::change(Address::new([8; 32]), 9, AssetId::new([10; 32])),
        Output::variable(Address::new([11; 32]), 12, AssetId::new([13; 32])),
        Output::contract_created(ContractId::new([14; 32]), Bytes32::new([15; 32])),
    ]
}

fn witnesses() -> Vec<Witness> {
    vec![Witness::from(vec![1u8, 2, 3]), Witness::from(vec![]), Witness::from(vec![7u8; 16])]
}

fn full_script() -> Vec<u8> {
    let script =
        Transaction::script(1, 2, 3, vec![0x24, 0, 0, 0, 1], vec![9; 11], inputs(), outputs(), witnesses());
    Transaction::from(script).to_bytes()
}

fn full_create() -> Vec<u8> {
    let slots = vec![
        StorageSlot::new(Bytes32::new([1; 32]), Bytes32::new([2; 32])),
        StorageSlot::new(Bytes32::new([3; 32]), Bytes32::new([4; 32])),
    ];
    let create: Create =
        Transaction::create(1, 2, 3, 1, Salt::new([5; 32]), slots, inputs(), outputs(), witnesses());
    Transaction::from(create).to_bytes()
}

fn full_mint() -> Vec<u8> {
    let mint: Mint = Transaction::mint(TxPointer::new(3, 4), outputs());
    Transaction::from(mint).to_bytes()
}

fn with_word(bytes: &[u8], at: usize, word: u64) -> Vec<u8> {
    let mut patched = bytes.to_vec();
    patched[at..at + 8].copy_from_slice(&word.to_be_bytes());
    patched
}

fn engine_length(bytes: &[u8]) -> Option<usize> {
    Transaction::try_from_bytes(bytes).ok().map(|(n, _)| n)
}

#[test]
fn reads_a_big_endian_word() {
    let bytes = [0u8, 1, 2, 3, 4, 5, 6, 7, 8, 9];
    assert_eq!(read_word(&bytes, 0), 0x0001_0203_0405_0607);
    assert_eq!(read_word(&bytes, 2), 0x0203_0405_0607_0809);
    assert_eq!(read_word(&[0xff; 8], 0), u64::MAX);
    assert_eq!(read_word(&[0, 0, 0, 0, 0, 0, 1, 0], 0), 256);
}

#[test]
fn byte_fields_are_padded_to_words() {
    let bytes = [0u8; 24];
    assert_eq!(skip_bytes(&bytes, 0, 0), Some(0));
    assert_eq!(skip_bytes(&bytes, 0, 1), Some(8));
    assert_eq!(skip_bytes(&bytes, 0, 8), Some(8));
    assert_eq!(skip_bytes(&bytes, 8, 9), Some(24));
    assert_eq!(skip_bytes(&bytes, 0, 24), Some(24));
    assert_eq!(skip_bytes(&bytes, 8, 17), None);
    assert_eq!(skip_bytes(&bytes, 24, 0), Some(24));
    assert_eq!(skip_bytes(&bytes, 24, 1), None);
    assert_eq!(skip_bytes(&bytes, 0, u64::MAX), None);
    assert_eq!(skip_bytes(&bytes[..20], 0, 17), None);
}

#[test]
fn outputs_have_the_size_of_their_tag() {
    let mut bytes = vec![0u8; 80];
    assert_eq!(skip_output(&bytes, 0), Some(80));
    assert_eq!(skip_output(&bytes[..79], 0), None);
    bytes[7] = 1;
    assert_eq!(skip_output(&bytes, 0), Some(80));
    bytes[7] = 2;
    assert_eq!(skip_output(&bytes, 0), Some(48));
    assert_eq!(skip_output(&bytes[..47], 0), None);
    bytes[7] = 3;
    assert_eq!(skip_output(&bytes, 0), Some(80));
    bytes[7] = 4;
    assert_eq!(skip_output(&bytes, 0), Some(80));
    bytes[7] = 5;
    assert_eq!(skip_output(&bytes, 0), Some(72));
    assert_eq!(skip_output(&bytes, 8), None);
    bytes[15] = 2;
    assert_eq!(skip_output(&bytes, 8), Some(56));
    bytes[15] = 0;
    bytes[7] = 6;
    assert_eq!(skip_output(&bytes, 0), None);
    assert_eq!(skip_output(&bytes, 76), None);
}

#[test]
fn inputs_end_behind_their_fields() {
    let mut coin = vec![0u8; 168 + 8 + 16];
    coin[159] = 3;
    coin[167] = 9;
    assert_eq!(skip_input(&coin, 0), Some(168 + 8 + 16));
    assert_eq!(skip_input(&coin[..168 + 8 + 15], 0), None);
    assert_eq!(skip_input(&coin[..167], 0), None);
    let mut contract = vec![0u8; 160];
    contract[7] = 1;
    assert_eq!(skip_input(&contract, 0), Some(160));
    assert_eq!(skip_input(&contract[..159], 0), None);
    let mut message = vec![0u8; 152 + 8 + 8 + 8];
    message[7] = 2;
    message[135] = 5;
    message[143] = 8;
    message[151] = 1;
    assert_eq!(skip_input(&message, 0), Some(152 + 24));
    assert_eq!(skip_input(&message[..152 + 23], 0), None);
    message[7] = 3;
    assert_eq!(skip_input(&message, 0), None);
}

#[test]
fn witnesses_carry_their_length() {
    let mut bytes = vec![0u8; 24];
    assert_eq!(skip_witness(&bytes, 0), Some(8));
    bytes[7] = 9;
    assert_eq!(skip_witness(&bytes, 0), Some(24));
    bytes[7] = 17;
    assert_eq!(skip_witness(&bytes, 0), None);
    assert_eq!(skip_witness(&bytes[..7], 0), None);
}

#[test]
fn runs_of_parts_stop_at_the_first_that_does_not_fit() {
    let bytes = vec![0u8; 64 * 3];
    assert_eq!(skip_part(&bytes, 0, Part::StorageSlot), Some(64));
    assert_eq!(skip_parts(&bytes, 0, Part::StorageSlot, 0), Some(0));
    assert_eq!(skip_parts(&bytes, 0, Part::StorageSlot, 3), Some(192));
    assert_eq!(skip_parts(&bytes, 64, Part::StorageSlot, 2), Some(192));
    assert_eq!(skip_parts(&bytes, 0, Part::StorageSlot, 4), None);
    assert_eq!(skip_parts(&bytes, 0, Part::StorageSlot, u64::MAX), None);
    assert_eq!(skip_parts(&bytes, 0, Part::Witness, 24), Some(192));
    assert_eq!(skip_parts(&bytes, 0, Part::Witness, 25), None);
    assert_eq!(skip_parts(&bytes, 0, Part::Output, 2), Some(160));
    assert_eq!(skip_parts(&bytes, 0, Part::Output, 3), None);
    assert_eq!(skip_parts(&bytes, 0, Part::Input, 1), Some(168));
    assert_eq!(skip_parts(&bytes, 0, Part::Input, 2), None);
}

#[test]
fn the_first_word_tells_the_kind() {
    assert_eq!(transaction_kind(&full_script()), Some(TransactionKind::Script));
    assert_eq!(transaction_kind(&full_create()), Some(TransactionKind::Create));
    assert_eq!(transaction_kind(&full_mint()), Some(TransactionKind::Mint));
    assert_eq!(transaction_kind(&[0, 0, 0, 0, 0, 0, 0, 3]), None);
    assert_eq!(transaction_kind(&[1, 0, 0, 0, 0, 0, 0, 0]), None);
    assert_eq!(transaction_kind(&[0, 0, 0, 0, 0, 0, 0]), None);
}

#[test]
fn frames_every_sort_of_part() {
    for bytes in [full_script(), full_create(), full_mint()] {
        assert_eq!(frame_length(&bytes), Some(bytes.len()));
        assert_eq!(frame_length(&bytes), engine_length(&bytes));
        let text = EncodedTransaction::new(&hex::encode(&bytes));
        assert_eq!(decode(&text).unwrap().bytes(), &bytes[..]);
    }
}

#[test]
fn identifies_transactions_with_every_sort_of_part() {
    for bytes in [full_script(), full_create(), full_mint()] {
        let mut tx = decode(&EncodedTransaction::new(&hex::encode(&bytes))).unwrap();
        let id = compute_identity(&mut tx);
        let mut engine_tx = Transaction::from_bytes(&bytes).unwrap();
        engine_tx.precompute();
        assert_eq!(id.as_bytes(), &*engine_tx.id());
    }
}

#[test]
fn frames_the_smallest_transactions() {
    let script = Transaction::default().to_bytes();
    assert_eq!(script.len(), 112);
    assert_eq!(frame_length(&script), Some(112));
    let create = Transaction::from(Create::default()).to_bytes();
    assert_eq!(frame_length(&create), Some(112));
    let mint = Transaction::from(Mint::default()).to_bytes();
    assert_eq!(frame_length(&mint), Some(32));
}

#[test]
fn the_frame_ends_before_what_follows_it() {
    for bytes in [full_script(), full_create(), full_mint()] {
        let mut longer = bytes.clone();
        longer.extend_from_slice(&[0xab; 13]);
        assert_eq!(frame_length(&longer), Some(bytes.len()));
        assert_eq!(frame_length(&longer), engine_length(&longer));
    }
}

#[test]
fn no_cut_transaction_is_framed() {
    for bytes in [full_script(), full_create(), full_mint()] {
        for len in 0..bytes.len() {
            assert_eq!(frame_length(&bytes[..len]), None);
            assert_eq!(engine_length(&bytes[..len]), None);
        }
    }
}

#[test]
fn data_behind_an_empty_predicate_is_framed() {
    let coin = inputs().remove(0);
    let script = Transaction::script(0, 0, 0, vec![], vec![], vec![coin], vec![], vec![]);
    let bytes = Transaction::from(script).to_bytes();
    assert_eq!(bytes.len(), 104 + 168);
    let mut patched = with_word(&bytes, 104 + 160, 5);
    assert_eq!(frame_length(&patched), None);
    patched.extend_from_slice(&[1, 2, 3, 4, 5, 0, 0, 0]);
    assert_eq!(frame_length(&patched), Some(104 + 168 + 8));
    assert_eq!(frame_length(&patched), engine_length(&patched));
    let mut tx = decode(&EncodedTransaction::new(&hex::encode(&patched))).unwrap();
    let mut engine_tx = Transaction::from_bytes(&patched).unwrap();
    engine_tx.precompute();
    assert_eq!(compute_identity(&mut tx).as_bytes(), &*engine_tx.id());
}

#[test]
fn only_the_low_bits_count_the_storage_slots() {
    let bytes = full_create();
    let patched = with_word(&bytes, 48, 0x0005_0000_0000_0002);
    assert_eq!(frame_length(&patched), Some(bytes.len()));
    assert_eq!(frame_length(&patched), engine_length(&patched));
    let patched = with_word(&bytes, 48, 0x1_0003);
    assert_eq!(frame_length(&patched), None);
}

#[test]
fn lengths_and_counts_past_the_end_are_not_framed() {
    let script = full_script();
    for at in [32usize, 40, 48, 56, 64] {
        for word in [1 << 16, 1 << 40, u64::MAX - 8, u64::MAX] {
            assert_eq!(frame_length(&with_word(&script, at, word)), None);
        }
    }
    let create = full_create();
    for at in [56usize, 64, 72] {
        assert_eq!(frame_length(&with_word(&create, at, u64::MAX)), None);
    }
    assert_eq!(frame_length(&with_word(&full_mint(), 24, 7)), None);
}
