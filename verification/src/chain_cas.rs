//! A convenient pairing of two content-addressed buffers, one for
//! entries and one for signed headers.
//!
//! Writes are buffered: a put or delete lands in the buffer and is
//! only made durable by `flush_to_txn`.  A read sees the latest write
//! for its address.  A header that declares an entry address must find
//! its entry in the buffer, or the chain structure is invalid.

use vstd::prelude::*;
use crate::action::{
    spec_action_hash, spec_entry_hash, Action, ActionView, Entry, EntryView, action_hash,
    entry_hash,
};
use crate::bytes::bytes_eq;
use crate::chain::copy_bytes;

verus! {

/// Why a chain read found the data structurally invalid.
#[derive(Clone, Debug)]
pub enum ChainInvalidReason {
    /// A header declares an entry that the store does not hold.
    MissingData(Vec<u8>),
}

/// The failures of source-chain reads.
#[derive(Clone, Debug)]
pub enum SourceChainError {
    /// The chain data violates its structural invariants.
    InvalidStructure(ChainInvalidReason),
}

/// The failures of the underlying database.  The in-memory model never
/// fails, but callers of the durable store see this type.
#[derive(Clone, Copy, Debug, PartialEq, Eq, Structural)]
pub struct DatabaseError;

/// A header together with its author's signature.
#[derive(Clone, Debug)]
pub struct SignedHeader {
    /// The author's signature over the header.
    pub signature: Vec<u8>,
    /// The header.
    pub header: Action,
}

/// The mathematical value of a [`SignedHeader`].
pub struct SignedHeaderView {
    /// The signature bytes.
    pub signature: Seq<u8>,
    /// The header.
    pub header: ActionView,
}

impl View for SignedHeader {
    type V = SignedHeaderView;

    open spec fn view(&self) -> SignedHeaderView {
        SignedHeaderView { signature: self.signature@, header: self.header@ }
    }
}

/// A full chain element: signature, header, and the entry if the
/// header declares one.
#[derive(Clone, Debug)]
pub struct ChainElement {
    /// The author's signature.
    pub signature: Vec<u8>,
    /// The header.
    pub header: Action,
    /// The entry, when the header declares one.
    pub maybe_entry: Option<Entry>,
}

impl ChainElement {
    /// Assemble an element.
    pub fn new(signature: Vec<u8>, header: Action, maybe_entry: Option<Entry>) -> (r:
        ChainElement)
        ensures
            r.signature@ == signature@,
            r.header@ == header@,
            spec_entry_opt_cas(r.maybe_entry) == spec_entry_opt_cas(maybe_entry),
    {
        ChainElement { signature, header, maybe_entry }
    }
}

/// What an optional owned entry stands for.
pub open spec fn spec_entry_opt_cas(e: Option<Entry>) -> Option<EntryView> {
    match e {
        Option::None => Option::None,
        Option::Some(v) => Option::Some(v@),
    }
}

/// A content-addressed buffer: writes in arrival order, a `None` value
/// marking a delete; a read sees the latest write for its address.
pub struct CasBuf<T> {
    rows: Vec<(Vec<u8>, Option<T>)>,
}

/// The latest buffered value for an address: `None` if never written
/// or last deleted.
pub open spec fn cas_get<V>(rows: Seq<(Seq<u8>, Option<V>)>, k: Seq<u8>) -> Option<V>
    decreases rows.len(),
{
    if rows.len() == 0 {
        Option::None
    } else {
        if rows.last().0 == k {
            rows.last().1
        } else {
            cas_get(rows.drop_last(), k)
        }
    }
}

impl<T: View> View for CasBuf<T> {
    type V = Seq<(Seq<u8>, Option<T::V>)>;

    closed spec fn view(&self) -> Seq<(Seq<u8>, Option<T::V>)> {
        Seq::new(
            self.rows@.len(),
            |i: int|
                (
                    self.rows@[i].0@,
                    match self.rows@[i].1 {
                        Option::None => Option::None,
                        Option::Some(ref t) => Option::Some(t@),
                    },
                ),
        )
    }
}

impl<T: View> CasBuf<T> {
    /// An empty buffer.
    pub fn new() -> (r: CasBuf<T>)
        ensures
            r@.len() == 0,
    {
        let r = CasBuf { rows: Vec::new() };
        proof {
            assert(r@ =~= Seq::<(Seq<u8>, Option<T::V>)>::empty());
        }
        r
    }

    /// The latest value buffered for an address.
    pub fn get(&self, k: &Vec<u8>) -> (r: Option<&T>)
        ensures
            match r {
                Option::Some(t) => cas_get(self@, k@) == Option::Some(t@),
                Option::None => cas_get(self@, k@) is None,
            },
    {
        let n = self.rows.len();
        let mut i: usize = n;
        proof {
            assert(self@.take(n as int) =~= self@);
        }
        while i > 0
            invariant
                n == self.rows@.len(),
                i <= n,
                self@.len() == self.rows@.len(),
                forall|m: int|
                    0 <= m < n ==> #[trigger] self@[m] == (
                        self.rows@[m].0@,
                        match self.rows@[m].1 {
                            Option::None => Option::None,
                            Option::Some(ref t) => Option::Some(t@),
                        },
                    ),
                cas_get(self@, k@) == cas_get(self@.take(i as int), k@),
            decreases i,
        {
            let ghost pre = self@.take(i as int);
            proof {
                assert(pre.last() == self@[i - 1]);
                assert(pre.drop_last() =~= self@.take(i as int - 1));
            }
            i = i - 1;
            let row = &self.rows[i];
            if bytes_eq(row.0.as_slice(), k.as_slice()) {
                match &row.1 {
                    Option::Some(t) => {
                        return Option::Some(t);
                    },
                    Option::None => {
                        return Option::None;
                    },
                }
            }
        }
        proof {
            assert(self@.take(0) =~= Seq::<(Seq<u8>, Option<T::V>)>::empty());
        }
        Option::None
    }

    /// Buffer a value for an address.
    pub fn put(&mut self, k: Vec<u8>, t: T)
        ensures
            final(self)@.len() == old(self)@.len() + 1,
            final(self)@.last() == (k@, Option::Some(t@)),
            forall|i: int| 0 <= i < old(self)@.len() ==> #[trigger] final(self)@[i] == old(self)@[i],
            forall|key: Seq<u8>|
                #[trigger] cas_get(final(self)@, key) == if key == k@ {
                    Option::Some(t@)
                } else {
                    cas_get(old(self)@, key)
                },
    {
        let ghost oldv = self@;
        let n = self.rows.len();
        self.rows.push((k, Option::Some(t)));
        proof {
            assert(self@ =~= oldv.push(
                (
                    self.rows@[n as int].0@,
                    match self.rows@[n as int].1 {
                        Option::None => Option::None,
                        Option::Some(ref t) => Option::Some(t@),
                    },
                ),
            ));
            assert forall|key: Seq<u8>| #[trigger] cas_get(self@, key) == (if key
                == self@.last().0 {
                self@.last().1
            } else {
                cas_get(oldv, key)
            }) by {
                assert(self@.drop_last() =~= oldv);
            }
        }
    }

    /// Buffer a delete for an address.
    pub fn delete(&mut self, k: Vec<u8>)
        ensures
            final(self)@.len() == old(self)@.len() + 1,
            final(self)@.last() == (k@, Option::None::<T::V>),
            forall|i: int| 0 <= i < old(self)@.len() ==> #[trigger] final(self)@[i] == old(self)@[i],
            forall|key: Seq<u8>|
                #[trigger] cas_get(final(self)@, key) == if key == k@ {
                    Option::None::<T::V>
                } else {
                    cas_get(old(self)@, key)
                },
    {
        let ghost oldv = self@;
        let n = self.rows.len();
        self.rows.push((k, Option::None));
        proof {
            assert(self@ =~= oldv.push((self.rows@[n as int].0@, Option::None::<T::V>)));
            assert forall|key: Seq<u8>| #[trigger] cas_get(self@, key) == (if key
                == self@.last().0 {
                self@.last().1
            } else {
                cas_get(oldv, key)
            }) by {
                assert(self@.drop_last() =~= oldv);
            }
        }
    }

    /// Move this buffer's writes onto the end of a durable buffer, in
    /// order.
    pub fn flush_to(self, writer: &mut CasBuf<T>)
        ensures
            final(writer)@ == old(writer)@ + self@,
    {
        let ghost selfv = self@;
        let ghost oldw = writer@;
        let mut rows = self.rows;
        let n = rows.len();
        let mut i: usize = 0;
        proof {
            assert(selfv.take(0) =~= Seq::<(Seq<u8>, Option<T::V>)>::empty());
            assert(oldw + selfv.take(0) =~= oldw);
        }
        while i < n
            invariant
                i <= n,
                n == selfv.len(),
                rows@.len() == n - i,
                forall|m: int|
                    0 <= m < rows@.len() ==> #[trigger] selfv[i + m] == (
                        rows@[m].0@,
                        match rows@[m].1 {
                            Option::None => Option::None,
                            Option::Some(ref t) => Option::Some(t@),
                        },
                    ),
                writer@ == oldw + selfv.take(i as int),
            decreases n - i,
        {
            let ghost prew = writer@;
            let ghost oldrows = rows@;
            proof {
                assert(selfv[i as int + 0] == (
                    oldrows[0].0@,
                    match oldrows[0].1 {
                        Option::None => Option::None,
                        Option::Some(ref t) => Option::Some(t@),
                    },
                ));
                assert(selfv[i as int] == selfv[i as int + 0]);
            }
            let row = rows.remove(0);
            let ghost rv = (
                row.0@,
                match row.1 {
                    Option::None => Option::None,
                    Option::Some(ref t) => Option::Some(t@),
                },
            );
            proof {
                assert(rows@ =~= oldrows.drop_first());
                assert(rv == selfv[i as int]);
            }
            let wn = writer.rows.len();
            writer.rows.push(row);
            proof {
                assert(writer@ =~= prew.push(rv));
                assert(oldw + selfv.take(i as int + 1) =~= (oldw + selfv.take(i as int)).push(
                    selfv[i as int],
                ));
                assert forall|m: int| 0 <= m < rows@.len() implies #[trigger] selfv[i + 1 + m] == (
                    rows@[m].0@,
                    match rows@[m].1 {
                        Option::None => Option::None,
                        Option::Some(ref t) => Option::Some(t@),
                    },
                ) by {
                    assert(rows@[m] == oldrows[m + 1]);
                    assert(selfv[i as int + (m + 1)] == (
                        oldrows[m + 1].0@,
                        match oldrows[m + 1].1 {
                            Option::None => Option::None,
                            Option::Some(ref t) => Option::Some(t@),
                        },
                    ));
                    assert(i + 1 + m == i as int + (m + 1));
                }
            }
            i = i + 1;
        }
        proof {
            assert(selfv.take(n as int) =~= selfv);
        }
    }
}

/// The buffer pairing entries with their addresses.
pub type EntryCas = CasBuf<Entry>;

/// The buffer pairing signed headers with their addresses.
pub type HeaderCas = CasBuf<SignedHeader>;

impl CasBuf<Entry> {
    /// A snapshot copy of the buffer: readers are snapshot-isolated.
    pub fn snapshot(&self) -> (r: CasBuf<Entry>)
        ensures
            r@ == self@,
    {
        let n = self.rows.len();
        let mut rows: Vec<(Vec<u8>, Option<Entry>)> = Vec::new();
        let mut i: usize = 0;
        while i < n
            invariant
                n == self.rows@.len(),
                i <= n,
                self@.len() == n,
                forall|m: int|
                    0 <= m < n ==> #[trigger] self@[m] == (
                        self.rows@[m].0@,
                        match self.rows@[m].1 {
                            Option::None => Option::None,
                            Option::Some(ref t) => Option::Some(t@),
                        },
                    ),
                rows@.len() == i,
                forall|m: int|
                    0 <= m < i ==> #[trigger] self@[m] == (
                        rows@[m].0@,
                        match rows@[m].1 {
                            Option::None => Option::None,
                            Option::Some(ref t) => Option::Some(t@),
                        },
                    ),
            decreases n - i,
        {
            let row = &self.rows[i];
            let copied_val: Option<Entry> = match &row.1 {
                Option::None => Option::None,
                Option::Some(e) => Option::Some(e.clone_entry()),
            };
            rows.push((copy_bytes(&row.0), copied_val));
            i = i + 1;
        }
        let r = CasBuf { rows };
        proof {
            assert(r@ =~= self@);
        }
        r
    }
}

impl CasBuf<SignedHeader> {
    /// A snapshot copy of the buffer: readers are snapshot-isolated.
    pub fn snapshot(&self) -> (r: CasBuf<SignedHeader>)
        ensures
            r@ == self@,
    {
        let n = self.rows.len();
        let mut rows: Vec<(Vec<u8>, Option<SignedHeader>)> = Vec::new();
        let mut i: usize = 0;
        while i < n
            invariant
                n == self.rows@.len(),
                i <= n,
                self@.len() == n,
                forall|m: int|
                    0 <= m < n ==> #[trigger] self@[m] == (
                        self.rows@[m].0@,
                        match self.rows@[m].1 {
                            Option::None => Option::None,
                            Option::Some(ref t) => Option::Some(t@),
                        },
                    ),
                rows@.len() == i,
                forall|m: int|
                    0 <= m < i ==> #[trigger] self@[m] == (
                        rows@[m].0@,
                        match rows@[m].1 {
                            Option::None => Option::None,
                            Option::Some(ref t) => Option::Some(t@),
                        },
                    ),
            decreases n - i,
        {
            let row = &self.rows[i];
            let copied_val: Option<SignedHeader> = match &row.1 {
                Option::None => Option::None,
                Option::Some(h) => Option::Some(
                    SignedHeader {
                        signature: copy_bytes(&h.signature),
                        header: h.header.clone_action(),
                    },
                ),
            };
            rows.push((copy_bytes(&row.0), copied_val));
            i = i + 1;
        }
        let r = CasBuf { rows };
        proof {
            assert(r@ =~= self@);
        }
        r
    }
}

/// The per-space database manager: the durable primary and cache
/// chain stores.
pub struct DbManager {
    /// The primary chain entries.
    pub primary_chain_entries: EntryCas,
    /// The primary chain headers.
    pub primary_chain_headers: HeaderCas,
    /// The cache chain entries.
    pub cache_chain_entries: EntryCas,
    /// The cache chain headers.
    pub cache_chain_headers: HeaderCas,
}

/// A write transaction: buffered writes flushed here become durable.
pub struct Writer {
    /// The entries made durable so far.
    pub entries: EntryCas,
    /// The headers made durable so far.
    pub headers: HeaderCas,
}

/// A convenient pairing of two CAS buffers, one for entries and one
/// for headers.
pub struct ChainCasBuf {
    entries: EntryCas,
    headers: HeaderCas,
}

impl ChainCasBuf {
    /// Pair two buffers.
    fn new(entries: EntryCas, headers: HeaderCas) -> (r: Result<ChainCasBuf, DatabaseError>)
        ensures
            r is Ok,
            r.unwrap().entries_view() == entries@,
            r.unwrap().headers_view() == headers@,
    {
        Ok(ChainCasBuf { entries, headers })
    }

    /// The buffered entry rows.
    pub closed spec fn entries_view(&self) -> Seq<(Seq<u8>, Option<EntryView>)> {
        self.entries@
    }

    /// The buffered header rows.
    pub closed spec fn headers_view(&self) -> Seq<(Seq<u8>, Option<SignedHeaderView>)> {
        self.headers@
    }

    /// A buffer over a snapshot of the primary chain stores.
    pub fn primary(dbs: &DbManager) -> (r: Result<ChainCasBuf, DatabaseError>)
        ensures
            r is Ok,
            r.unwrap().entries_view() == dbs.primary_chain_entries@,
            r.unwrap().headers_view() == dbs.primary_chain_headers@,
    {
        let entries = dbs.primary_chain_entries.snapshot();
        let headers = dbs.primary_chain_headers.snapshot();
        Self::new(entries, headers)
    }

    /// A buffer over a snapshot of the cache chain stores.
    pub fn cache(dbs: &DbManager) -> (r: Result<ChainCasBuf, DatabaseError>)
        ensures
            r is Ok,
            r.unwrap().entries_view() == dbs.cache_chain_entries@,
            r.unwrap().headers_view() == dbs.cache_chain_headers@,
    {
        let entries = dbs.cache_chain_entries.snapshot();
        let headers = dbs.cache_chain_headers.snapshot();
        Self::new(entries, headers)
    }

    /// The entry at an address, if buffered and not deleted.
    pub fn get_entry(&self, entry_address: &Vec<u8>) -> (r: Result<Option<Entry>, DatabaseError>)
        ensures
            r is Ok,
            spec_entry_opt_cas(r.unwrap()) == cas_get(self.entries_view(), entry_address@),
    {
        match self.entries.get(entry_address) {
            Option::Some(e) => Ok(Option::Some(e.clone_entry())),
            Option::None => Ok(Option::None),
        }
    }

    /// Whether an entry is buffered at an address.
    pub fn contains(&self, entry_address: &Vec<u8>) -> (r: Result<bool, DatabaseError>)
        ensures
            r is Ok,
            r.unwrap() == (cas_get(self.entries_view(), entry_address@) is Some),
    {
        match self.entries.get(entry_address) {
            Option::Some(_) => Ok(true),
            Option::None => Ok(false),
        }
    }

    /// The signed header at an address.
    pub fn get_header(&self, header_address: &Vec<u8>) -> (r: Result<
        Option<SignedHeader>,
        DatabaseError,
    >)
        ensures
            r is Ok,
            match r.unwrap() {
                Option::Some(h) => cas_get(self.headers_view(), header_address@) == Option::Some(
                    h@,
                ),
                Option::None => cas_get(self.headers_view(), header_address@) is None,
            },
    {
        match self.headers.get(header_address) {
            Option::Some(h) => Ok(
                Option::Some(
                    SignedHeader {
                        signature: copy_bytes(&h.signature),
                        header: h.header.clone_action(),
                    },
                ),
            ),
            Option::None => Ok(Option::None),
        }
    }

    /// The entry address a header declares, if its variant creates an
    /// entry.
    pub open spec fn spec_header_entry_address(h: ActionView) -> Option<Seq<u8>> {
        match h {
            ActionView::Create(c) => Option::Some(c.entry_hash),
            ActionView::Update(u) => Option::Some(u.entry_hash),
            _ => Option::None,
        }
    }

    /// Build the full chain element for a signed header: entry-creating
    /// headers must find their entry in the buffer — if the header
    /// declares an address, it had better have been stored — and any
    /// other header yields an element without an entry.
    pub fn chain_element(&self, signed_header: SignedHeader) -> (r: Result<
        Option<ChainElement>,
        SourceChainError,
    >)
        ensures
            match Self::spec_header_entry_address(signed_header@.header) {
                Option::Some(addr) => match cas_get(self.entries_view(), addr) {
                    Option::Some(e) => r is Ok && r.unwrap() is Some && {
                        let el = r.unwrap().unwrap();
                        el.signature@ == signed_header@.signature && el.header@
                            == signed_header@.header && spec_entry_opt_cas(el.maybe_entry)
                            == Option::Some(e)
                    },
                    Option::None => r is Err && (r.get_Err_0() matches
                        SourceChainError::InvalidStructure(ChainInvalidReason::MissingData(a))
                        && a@ == addr),
                },
                Option::None => r is Ok && r.unwrap() is Some && {
                    let el = r.unwrap().unwrap();
                    el.signature@ == signed_header@.signature && el.header@
                        == signed_header@.header && spec_entry_opt_cas(el.maybe_entry) is None
                },
            },
    {
        let maybe_entry_address: Option<Vec<u8>> = match &signed_header.header {
            Action::Create(c) => Option::Some(copy_bytes(&c.entry_hash)),
            Action::Update(u) => Option::Some(copy_bytes(&u.entry_hash)),
            _ => Option::None,
        };
        let maybe_entry: Option<Entry> = match maybe_entry_address {
            Option::None => Option::None,
            Option::Some(entry_address) => {
                let maybe_cas_entry = match self.get_entry(&entry_address) {
                    Ok(e) => e,
                    Err(_) => Option::None,
                };
                if maybe_cas_entry.is_none() {
                    return Err(
                        SourceChainError::InvalidStructure(
                            ChainInvalidReason::MissingData(entry_address),
                        ),
                    );
                }
                maybe_cas_entry
            },
        };
        Ok(
            Option::Some(
                ChainElement::new(signed_header.signature, signed_header.header, maybe_entry),
            ),
        )
    }

    /// The full chain element for a header address, if the header is
    /// buffered.
    pub fn get_element(&self, header_address: &Vec<u8>) -> (r: Result<
        Option<ChainElement>,
        SourceChainError,
    >)
        ensures
            match cas_get(self.headers_view(), header_address@) {
                Option::None => r is Ok && r.unwrap() is None,
                Option::Some(sh) => match Self::spec_header_entry_address(sh.header) {
                    Option::Some(addr) => match cas_get(self.entries_view(), addr) {
                        Option::Some(e) => r is Ok && r.unwrap() is Some && {
                            let el = r.unwrap().unwrap();
                            el.signature@ == sh.signature && el.header@ == sh.header
                                && spec_entry_opt_cas(el.maybe_entry) == Option::Some(e)
                        },
                        Option::None => r is Err,
                    },
                    Option::None => r is Ok && r.unwrap() is Some && {
                        let el = r.unwrap().unwrap();
                        el.signature@ == sh.signature && el.header@ == sh.header
                            && spec_entry_opt_cas(el.maybe_entry) is None
                    },
                },
            },
    {
        match self.get_header(header_address) {
            Ok(Option::Some(signed_header)) => self.chain_element(signed_header),
            Ok(Option::None) => Ok(Option::None),
            Err(_) => Ok(Option::None),
        }
    }

    /// Buffer a full element: the entry (when present) under its own
    /// hash, and the signed header under the header's hash,
    /// atomically with respect to the flush.
    pub fn put(&mut self, v: ChainElement) -> (r: Result<(), DatabaseError>)
        ensures
            r is Ok,
            // The entry buffer gains exactly the entry's row, or stays
            // as it was; no other row of either buffer is touched.
            match spec_entry_opt_cas(v.maybe_entry) {
                Option::Some(e) => final(self).entries_view() == old(self).entries_view().push(
                    (spec_entry_hash(e), Option::Some(e)),
                ),
                Option::None => final(self).entries_view() == old(self).entries_view(),
            },
            // The header buffer gains exactly the signed header under
            // the header's hash.
            final(self).headers_view() == old(self).headers_view().push(
                (
                    spec_action_hash(v.header@),
                    Option::Some(SignedHeaderView { signature: v.signature@, header: v.header@ }),
                ),
            ),
            cas_get(final(self).headers_view(), spec_action_hash(v.header@)) == Option::Some(
                SignedHeaderView { signature: v.signature@, header: v.header@ },
            ),
    {
        let ghost old_entries = self.entries_view();
        let ghost old_headers = self.headers_view();
        let ChainElement { signature, header, maybe_entry } = v;
        match maybe_entry {
            Option::Some(entry) => {
                let addr = entry_hash(&entry);
                let ghost ev = entry@;
                self.entries.put(addr, entry);
                proof {
                    assert(self.entries_view() =~= old_entries.push(
                        (spec_entry_hash(ev), Option::Some(ev)),
                    ));
                }
            },
            Option::None => {},
        }
        let header_hash = action_hash(&header);
        let ghost sigv = signature@;
        let ghost headerv = header@;
        let signed_header = SignedHeader { signature, header };
        self.headers.put(header_hash, signed_header);
        proof {
            assert(self.headers_view() =~= old_headers.push(
                (
                    spec_action_hash(headerv),
                    Option::Some(SignedHeaderView { signature: sigv, header: headerv }),
                ),
            ));
        }
        Ok(())
    }

    /// Buffer the deletion of an entry.
    pub fn delete_entry(&mut self, k: Vec<u8>)
        ensures
            cas_get(final(self).entries_view(), k@) is None,
            final(self).headers_view() == old(self).headers_view(),
            forall|key: Seq<u8>|
                key != k@ ==> #[trigger] cas_get(final(self).entries_view(), key) == cas_get(
                    old(self).entries_view(),
                    key,
                ),
    {
        self.entries.delete(k)
    }

    /// Buffer the deletion of a header.
    pub fn delete_header(&mut self, k: Vec<u8>)
        ensures
            cas_get(final(self).headers_view(), k@) is None,
            final(self).entries_view() == old(self).entries_view(),
            forall|key: Seq<u8>|
                key != k@ ==> #[trigger] cas_get(final(self).headers_view(), key) == cas_get(
                    old(self).headers_view(),
                    key,
                ),
    {
        self.headers.delete(k)
    }

    /// The header buffer.
    pub fn headers(&self) -> (r: &HeaderCas)
        ensures
            r@ == self.headers_view(),
    {
        &self.headers
    }

    /// The entry buffer.
    pub fn entries(&self) -> (r: &EntryCas)
        ensures
            r@ == self.entries_view(),
    {
        &self.entries
    }

    /// Flush both buffers into the write transaction: everything
    /// buffered becomes durable, in order, entries first.
    pub fn flush_to_txn(self, writer: &mut Writer) -> (r: Result<(), DatabaseError>)
        ensures
            r is Ok,
            final(writer).entries@ == old(writer).entries@ + self.entries_view(),
            final(writer).headers@ == old(writer).headers@ + self.headers_view(),
    {
        let ChainCasBuf { entries, headers } = self;
        entries.flush_to(&mut writer.entries);
        headers.flush_to(&mut writer.headers);
        Ok(())
    }
}


} // verus!
