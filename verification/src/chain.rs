//! Plain views of ledger data: outputs, transactions, blocks and the outputs
//! that a block spends, together with the resolution of an output's datum.

use vstd::prelude::*;

verus! {

/// The datum that an output declares.
#[derive(Clone, Debug, PartialEq, Eq)]
pub enum Datum {
    /// The datum itself, in its serialized form.
    Inline(Vec<u8>),
    /// Only the hash of a datum that the transaction's witnesses may hold.
    HashOnly([u8; 32]),
    /// No datum.
    Absent,
}

/// A quantity of a native asset.
#[derive(Clone, Debug, PartialEq, Eq)]
pub struct NativeAsset {
    pub policy: [u8; 28],
    pub name: Vec<u8>,
    pub quantity: u64,
}

/// A transaction output. `address` is the display string of the output's
/// address, or `None` where the address bytes are malformed.
#[derive(Clone, Debug, PartialEq, Eq)]
pub struct TxOutput {
    pub address: Option<String>,
    pub datum: Datum,
    pub lovelace: u64,
    pub assets: Vec<NativeAsset>,
}

/// A datum among a transaction's witnesses, in its serialized form as it
/// stands on chain. Its hash is the digest of these bytes.
#[derive(Clone, Debug, PartialEq, Eq)]
pub struct Witness {
    pub bytes: Vec<u8>,
}

/// Why an output has no datum to embed.
#[derive(Clone, Debug, PartialEq, Eq)]
pub enum NoDatum {
    /// The output declares no datum.
    Absent,
    /// The output declares this hash, and no witness of the owning
    /// transaction has it.
    Unresolved([u8; 32]),
}

/// The place of an output on the chain.
#[derive(Clone, Debug, PartialEq, Eq)]
pub struct OutputRef {
    pub tx_hash: [u8; 32],
    pub index: u64,
}

/// An output that a transaction produces, with its index.
#[derive(Clone, Debug, PartialEq, Eq)]
pub struct Produced {
    pub index: u64,
    pub output: TxOutput,
}

/// A transaction: the outputs it consumes and produces, in order, and the
/// datums it witnesses.
#[derive(Clone, Debug, PartialEq, Eq)]
pub struct Transaction {
    pub hash: [u8; 32],
    pub consumes: Vec<OutputRef>,
    pub produces: Vec<Produced>,
    pub witnesses: Vec<Witness>,
}

/// A block: its transactions in order.
#[derive(Clone, Debug, PartialEq, Eq)]
pub struct Block {
    pub txs: Vec<Transaction>,
}

/// A spent output that is known, with its place and the datums witnessed
/// by the transaction that produced it.
#[derive(Clone, Debug, PartialEq, Eq)]
pub struct KnownUtxo {
    pub reference: OutputRef,
    pub output: TxOutput,
    pub witnesses: Vec<Witness>,
}

/// The spent outputs that are known for a block.
#[derive(Clone, Debug, PartialEq, Eq)]
pub struct BlockContext {
    pub utxos: Vec<KnownUtxo>,
}

/// The BLAKE2b-256 digest of a byte string.
pub uninterp spec fn datum_digest(raw: Seq<u8>) -> Seq<u8>;

/// Hashes the bytes of a datum.
///
/// Trusted: calls `pallas::crypto::hash::Hasher::<256>::hash`, which feeds
/// the bytes to BLAKE2b with a 32-byte output and returns the digest.
#[verifier::external_body]
pub(crate) fn digest_of(raw: &[u8]) -> (r: [u8; 32])
    ensures
        r@ == datum_digest(raw@),
{
    *pallas::crypto::hash::Hasher::<256>::hash(raw)
}

/// Whether two byte strings are equal.
pub fn same_bytes(a: &[u8], b: &[u8]) -> (r: bool)
    ensures
        r == (a@ == b@),
{
    if a.len() != b.len() {
        return false;
    }
    let mut i: usize = 0;
    while i < a.len()
        invariant
            a@.len() == b@.len(),
            0 <= i <= a@.len(),
            forall|k: int| 0 <= k < i ==> a@[k] == b@[k],
        decreases a@.len() - i,
    {
        if a[i] != b[i] {
            return false;
        }
        i = i + 1;
    }
    assert(a@ =~= b@);
    true
}

/// A copy of a byte string.
pub fn copy_bytes(a: &[u8]) -> (r: Vec<u8>)
    ensures
        r@ == a@,
{
    let mut out: Vec<u8> = Vec::new();
    let mut i: usize = 0;
    while i < a.len()
        invariant
            0 <= i <= a@.len(),
            out@ == a@.subrange(0, i as int),
        decreases a@.len() - i,
    {
        out.push(a[i]);
        assert(out@ =~= a@.subrange(0, i + 1));
        i = i + 1;
    }
    assert(out@ =~= a@);
    out
}

/// Whether two references name the same output.
pub open spec fn same_ref(a: OutputRef, b: OutputRef) -> bool {
    a.tx_hash@ == b.tx_hash@ && a.index == b.index
}

/// The position of the first known output at or after `from` whose
/// reference is `target`.
pub open spec fn first_utxo_from(utxos: Seq<KnownUtxo>, target: OutputRef, from: int) -> Option<
    int,
>
    decreases utxos.len() - from,
{
    if from < 0 || from >= utxos.len() {
        None
    } else if same_ref(utxos[from].reference, target) {
        Some(from)
    } else {
        first_utxo_from(utxos, target, from + 1)
    }
}

/// What the context knows for a reference: its first entry with that
/// reference.
pub open spec fn known_utxo(ctx: BlockContext, target: OutputRef) -> Option<KnownUtxo> {
    match first_utxo_from(ctx.utxos@, target, 0) {
        Some(i) => Some(ctx.utxos@[i]),
        None => None,
    }
}

impl BlockContext {
    /// Looks up the output that a reference names: the first entry with that
    /// transaction hash and index, or `None` where there is none.
    pub fn find_utxo(&self, target: &OutputRef) -> (r: Option<&KnownUtxo>)
        ensures
            r is Some <==> known_utxo(*self, *target) is Some,
            r is Some ==> *r->Some_0 == known_utxo(*self, *target)->Some_0,
            r is Some ==> same_ref(r->Some_0.reference, *target),
            r is None ==> forall|k: int|
                0 <= k < self.utxos@.len() ==> !same_ref(
                    (#[trigger] self.utxos@[k]).reference,
                    *target,
                ),
    {
        let mut i: usize = 0;
        while i < self.utxos.len()
            invariant
                0 <= i <= self.utxos@.len(),
                forall|k: int|
                    0 <= k < i ==> !same_ref((#[trigger] self.utxos@[k]).reference, *target),
                first_utxo_from(self.utxos@, *target, 0) == first_utxo_from(
                    self.utxos@,
                    *target,
                    i as int,
                ),
            decreases self.utxos@.len() - i,
        {
            let entry = &self.utxos[i];
            if entry.reference.index == target.index && same_bytes(
                entry.reference.tx_hash.as_slice(),
                target.tx_hash.as_slice(),
            ) {
                return Some(entry);
            }
            i = i + 1;
        }
        None
    }
}

/// The position of the first digest at or after `from` that equals `target`.
pub open spec fn first_equal_from(digests: Seq<Seq<u8>>, target: Seq<u8>, from: int) -> Option<int>
    decreases digests.len() - from,
{
    if from < 0 || from >= digests.len() {
        None
    } else if digests[from] == target {
        Some(from)
    } else {
        first_equal_from(digests, target, from + 1)
    }
}

/// The digests of a list as byte strings.
pub open spec fn digest_views(digests: Seq<[u8; 32]>) -> Seq<Seq<u8>> {
    Seq::new(digests.len(), |i: int| digests[i]@)
}

/// The hashes of the witnesses, in their order.
pub open spec fn witness_digests(ws: Seq<Witness>) -> Seq<Seq<u8>> {
    Seq::new(ws.len(), |i: int| datum_digest(ws[i].bytes@))
}

/// The datum of an output against the datums that its owning transaction
/// witnesses: the inline datum; for a declared hash the first witness with
/// that hash, or the hash as unresolved where there is none; absent where
/// the output declares nothing.
pub open spec fn datum_resolution(utxo: TxOutput, witnesses: Seq<Witness>) -> Result<
    Seq<u8>,
    NoDatum,
> {
    match utxo.datum {
        Datum::Inline(d) => Ok(d@),
        Datum::HashOnly(h) => match first_equal_from(witness_digests(witnesses), h@, 0) {
            Some(i) => Ok(witnesses[i].bytes@),
            None => Err(NoDatum::Unresolved(h)),
        },
        Datum::Absent => Err(NoDatum::Absent),
    }
}

/// Whether a result is the given resolution.
pub open spec fn is_resolution(r: Result<Vec<u8>, NoDatum>, expected: Result<Seq<u8>, NoDatum>) -> bool {
    match r {
        Ok(d) => expected == Ok::<Seq<u8>, NoDatum>(d@),
        Err(e) => expected == Err::<Seq<u8>, NoDatum>(e),
    }
}

/// Finds the first digest that equals `target`.
pub fn find_digest(digests: &Vec<[u8; 32]>, target: &[u8; 32]) -> (r: Option<usize>)
    ensures
        r is Some <==> first_equal_from(digest_views(digests@), target@, 0) is Some,
        r is Some ==> r->Some_0 < digests@.len() && first_equal_from(
            digest_views(digests@),
            target@,
            0,
        ) == Some(r->Some_0 as int),
        r is Some ==> digests@[r->Some_0 as int]@ == target@,
        forall|k: int|
            0 <= k < (if r is Some {
                r->Some_0 as int
            } else {
                digests@.len() as int
            }) ==> (#[trigger] digests@[k])@ != target@,
{
    let mut i: usize = 0;
    while i < digests.len()
        invariant
            0 <= i <= digests@.len(),
            forall|k: int| 0 <= k < i ==> (#[trigger] digests@[k])@ != target@,
            first_equal_from(digest_views(digests@), target@, 0) == first_equal_from(
                digest_views(digests@),
                target@,
                i as int,
            ),
        decreases digests@.len() - i,
    {
        if same_bytes(digests[i].as_slice(), target.as_slice()) {
            return Some(i);
        }
        i = i + 1;
    }
    None
}

/// Hashes each witness of a list.
pub fn digests_of(ws: &Vec<Witness>) -> (r: Vec<[u8; 32]>)
    ensures
        digest_views(r@) == witness_digests(ws@),
{
    let mut out: Vec<[u8; 32]> = Vec::new();
    let mut i: usize = 0;
    while i < ws.len()
        invariant
            0 <= i <= ws@.len(),
            out@.len() == i,
            forall|k: int| 0 <= k < i ==> (#[trigger] out@[k])@ == datum_digest(ws@[k].bytes@),
        decreases ws@.len() - i,
    {
        out.push(digest_of(ws[i].bytes.as_slice()));
        i = i + 1;
    }
    assert(digest_views(out@) =~= witness_digests(ws@));
    out
}

/// Resolves the datum of an output against the datums that its owning
/// transaction witnesses.
pub fn resolve_datum_among(utxo: &TxOutput, witnesses: &Vec<Witness>) -> (r: Result<
    Vec<u8>,
    NoDatum,
>)
    ensures
        is_resolution(r, datum_resolution(*utxo, witnesses@)),
{
    match &utxo.datum {
        Datum::Inline(d) => Ok(copy_bytes(d.as_slice())),
        Datum::HashOnly(h) => {
            let digests = digests_of(witnesses);
            match find_digest(&digests, h) {
                Some(i) => Ok(copy_bytes(witnesses[i].bytes.as_slice())),
                None => Err(NoDatum::Unresolved(*h)),
            }
        },
        Datum::Absent => Err(NoDatum::Absent),
    }
}

/// Resolves the datum of an output against the transaction that owns it.
pub fn resolve_datum(utxo: &TxOutput, tx: &Transaction) -> (r: Result<Vec<u8>, NoDatum>)
    ensures
        is_resolution(r, datum_resolution(*utxo, tx.witnesses@)),
{
    resolve_datum_among(utxo, &tx.witnesses)
}

/// Where a digest at or after `from` equals the target, the search finds
/// the first that does.
pub proof fn lemma_first_equal_found(digests: Seq<Seq<u8>>, target: Seq<u8>, from: int, at: int)
    requires
        0 <= from <= at < digests.len(),
        digests[at] == target,
    ensures
        first_equal_from(digests, target, from) is Some,
        from <= first_equal_from(digests, target, from)->Some_0 <= at,
        digests[first_equal_from(digests, target, from)->Some_0] == target,
    decreases at - from,
{
    if digests[from] != target {
        lemma_first_equal_found(digests, target, from + 1, at);
    }
}

/// What the search finds is in range and equals the target.
pub proof fn lemma_first_equal_is_equal(digests: Seq<Seq<u8>>, target: Seq<u8>, from: int)
    requires
        first_equal_from(digests, target, from) is Some,
    ensures
        0 <= first_equal_from(digests, target, from)->Some_0 < digests.len(),
        digests[first_equal_from(digests, target, from)->Some_0] == target,
    decreases digests.len() - from,
{
    if 0 <= from < digests.len() && digests[from] != target {
        lemma_first_equal_is_equal(digests, target, from + 1);
    }
}

/// An inline datum resolves to itself, whatever is witnessed.
pub proof fn lemma_inline_datum_round_trip(utxo: TxOutput, witnesses: Seq<Witness>)
    requires
        utxo.datum is Inline,
    ensures
        datum_resolution(utxo, witnesses) == Ok::<Seq<u8>, NoDatum>(utxo.datum->Inline_0@),
{
}

/// Where a witness has the hash that the output declares, the datum
/// resolves, and to bytes whose hash is the declared one.
pub proof fn lemma_witnessed_datum_resolves(utxo: TxOutput, witnesses: Seq<Witness>, at: int)
    requires
        utxo.datum is HashOnly,
        0 <= at < witnesses.len(),
        datum_digest(witnesses[at].bytes@) == utxo.datum->HashOnly_0@,
    ensures
        datum_resolution(utxo, witnesses) is Ok,
        datum_digest(datum_resolution(utxo, witnesses)->Ok_0) == utxo.datum->HashOnly_0@,
{
    let h = utxo.datum->HashOnly_0@;
    let digests = witness_digests(witnesses);
    lemma_first_equal_found(digests, h, 0, at);
    let j = first_equal_from(digests, h, 0)->Some_0;
    assert(digests[j] == datum_digest(witnesses[j].bytes@));
}

/// Whatever a declared hash resolves to has that hash.
pub proof fn lemma_resolved_datum_has_declared_hash(utxo: TxOutput, witnesses: Seq<Witness>)
    requires
        utxo.datum is HashOnly,
        datum_resolution(utxo, witnesses) is Ok,
    ensures
        datum_digest(datum_resolution(utxo, witnesses)->Ok_0) == utxo.datum->HashOnly_0@,
{
    let h = utxo.datum->HashOnly_0@;
    let digests = witness_digests(witnesses);
    lemma_first_equal_is_equal(digests, h, 0);
    let j = first_equal_from(digests, h, 0)->Some_0;
    assert(digests[j] == datum_digest(witnesses[j].bytes@));
}

/// An output resolves as unresolved only where it declares a hash, and as
/// absent only where it declares nothing.
pub proof fn lemma_absent_is_told_from_unresolved(utxo: TxOutput, witnesses: Seq<Witness>)
    ensures
        datum_resolution(utxo, witnesses) == Err::<Seq<u8>, NoDatum>(NoDatum::Absent)
            <==> utxo.datum is Absent,
        datum_resolution(utxo, witnesses) is Err && datum_resolution(utxo, witnesses)->Err_0
            is Unresolved ==> utxo.datum == Datum::HashOnly(
            datum_resolution(utxo, witnesses)->Err_0->Unresolved_0,
        ),
{
}

} // verus!
