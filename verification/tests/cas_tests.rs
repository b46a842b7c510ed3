//! The chain CAS pairing: buffered reads and writes, element
//! assembly, flushing.

use holo_dht::action::{
    entry_hash, action_hash, Action, AppEntryType, Create, Dna, Entry, EntryType, EntryVisibility,
};
use holo_dht::chain_cas::{
    CasBuf, ChainCasBuf, ChainElement, ChainInvalidReason, DbManager, SignedHeader,
    SourceChainError, Writer,
};

fn dna_header() -> Action {
    Action::Dna(Dna {
        author: vec![0x84u8; 39],
        timestamp: 7,
        hash: vec![1u8; 39],
    })
}

fn create_header(entry: &Entry) -> Action {
    Action::Create(Create {
        author: vec![0x84u8; 39],
        timestamp: 8,
        action_seq: 3,
        prev_action: vec![2u8; 39],
        entry_type: EntryType::App(AppEntryType {
            entry_index: 0,
            zome_index: 0,
            visibility: EntryVisibility::Public,
        }),
        entry_hash: entry_hash(entry),
    })
}

fn empty_dbs() -> DbManager {
    DbManager {
        primary_chain_entries: CasBuf::new(),
        primary_chain_headers: CasBuf::new(),
        cache_chain_entries: CasBuf::new(),
        cache_chain_headers: CasBuf::new(),
    }
}

#[test]
fn put_then_get_element() {
    let dbs = empty_dbs();
    let mut buf = ChainCasBuf::primary(&dbs).unwrap();

    let entry = Entry::App(vec![1, 2, 3]);
    let header = create_header(&entry);
    let header_hash = action_hash(&header);
    let element = ChainElement::new(vec![9u8; 64], header, Some(entry.clone_entry()));
    buf.put(element).unwrap();

    // The entry is stored under its own hash.
    let got_entry = buf.get_entry(&entry_hash(&entry)).unwrap().unwrap();
    assert!(matches!(got_entry, Entry::App(_)));
    assert!(buf.contains(&entry_hash(&entry)).unwrap());

    // The full element is reassembled from the header address.
    let got = buf.get_element(&header_hash).unwrap().unwrap();
    assert_eq!(got.signature, vec![9u8; 64]);
    assert!(got.maybe_entry.is_some());

    // An address never stored yields nothing.
    assert!(buf.get_element(&vec![0u8; 39]).unwrap().is_none());
}

#[test]
fn element_without_entry_is_fine() {
    let dbs = empty_dbs();
    let mut buf = ChainCasBuf::primary(&dbs).unwrap();
    let header = dna_header();
    let header_hash = action_hash(&header);
    buf.put(ChainElement::new(vec![5u8; 64], header, None)).unwrap();
    let got = buf.get_element(&header_hash).unwrap().unwrap();
    assert!(got.maybe_entry.is_none());
}

/// A header that declares an entry address whose entry was never
/// stored is invalid structure: the data had better have been stored.
#[test]
fn missing_entry_is_invalid_structure() {
    let dbs = empty_dbs();
    let buf = ChainCasBuf::primary(&dbs).unwrap();
    let entry = Entry::App(vec![4, 5]);
    let header = create_header(&entry);
    let sh = SignedHeader {
        signature: vec![1u8; 64],
        header,
    };
    let r = buf.chain_element(sh);
    match r {
        Err(SourceChainError::InvalidStructure(ChainInvalidReason::MissingData(addr))) => {
            assert_eq!(addr, entry_hash(&entry));
        }
        other => panic!("expected missing data, got {:?}", other),
    }
}

#[test]
fn deletes_hide_earlier_puts() {
    let dbs = empty_dbs();
    let mut buf = ChainCasBuf::primary(&dbs).unwrap();
    let entry = Entry::App(vec![6]);
    let header = create_header(&entry);
    let header_hash = action_hash(&header);
    buf.put(ChainElement::new(vec![1u8; 64], header, Some(entry.clone_entry()))).unwrap();
    buf.delete_entry(entry_hash(&entry));
    assert!(!buf.contains(&entry_hash(&entry)).unwrap());
    buf.delete_header(header_hash.clone());
    assert!(buf.get_header(&header_hash).unwrap().is_none());
}

#[test]
fn flush_moves_writes_to_the_transaction() {
    let dbs = empty_dbs();
    let mut buf = ChainCasBuf::primary(&dbs).unwrap();
    let header = dna_header();
    buf.put(ChainElement::new(vec![2u8; 64], header, None)).unwrap();
    let mut writer = Writer {
        entries: CasBuf::new(),
        headers: CasBuf::new(),
    };
    buf.flush_to_txn(&mut writer).unwrap();
    // The flushed header is durable now.
    let header = dna_header();
    let got = writer.headers.get(&action_hash(&header));
    assert!(got.is_some());
}

#[test]
fn cache_is_separate_from_primary() {
    let mut dbs = empty_dbs();
    let entry = Entry::App(vec![7]);
    dbs.cache_chain_entries.put(entry_hash(&entry), entry.clone_entry());
    let primary = ChainCasBuf::primary(&dbs).unwrap();
    let cache = ChainCasBuf::cache(&dbs).unwrap();
    assert!(!primary.contains(&entry_hash(&entry)).unwrap());
    assert!(cache.contains(&entry_hash(&entry)).unwrap());
}
