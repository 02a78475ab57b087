//! The reducer: builds the entry of an output to a watched address and turns
//! a block into the set mutations that keep those entries current.

use vstd::prelude::*;
use vstd::string::StringExecFns;
use crate::chain::{
    datum_resolution, known_utxo, resolve_datum_among, Block, BlockContext,
    NativeAsset, NoDatum, OutputRef, Produced, Transaction, TxOutput, Witness,
};
use crate::encoding::{
    decimal_encode, decimal_text, hex_encode, hex_text, lemma_decimal_text_injective,
    lemma_hex_text_injective,
};
use crate::store::{member_of, SetStore};
use crate::json::{
    json_members, json_object_text, no_members, object_new, object_render, object_set_number,
    object_set_records, object_set_text, records_of, JsonModel,
};

verus! {

/// Which addresses are watched and how their entries are keyed.
#[derive(Clone, Debug, PartialEq, Eq)]
pub struct Config {
    /// The watched addresses; an output matches on an exact match only.
    pub filter: Vec<String>,
    /// The namespace of removals.
    pub prefix: Option<String>,
    /// Whether an entry is keyed by its address; `None` stands for `false`.
    pub address_as_key: Option<bool>,
}

/// What to do about a spent output that cannot be resolved. The reducer
/// carries the policy for whoever resolves outputs; it reads it nowhere.
#[derive(Clone, Copy, Debug, PartialEq, Eq)]
pub enum RuntimePolicy {
    FailFast,
    SkipMissing,
    WarnAndContinue,
}

/// A mutation of a store of sets.
#[derive(Clone, Debug, PartialEq, Eq)]
pub enum CrdtCommand {
    /// Add `value` to the set under `key`.
    SetAdd { namespace: Option<String>, key: String, value: String },
    /// Remove `value` from the set under `key`.
    SetRemove { namespace: Option<String>, key: String, value: String },
}

/// A mutation as plain text.
pub enum CommandModel {
    Add { namespace: Option<Seq<char>>, key: Seq<char>, value: Seq<char> },
    Remove { namespace: Option<Seq<char>>, key: Seq<char>, value: Seq<char> },
}

/// An optional string as plain text.
pub open spec fn text_of(s: Option<String>) -> Option<Seq<char>> {
    match s {
        Some(t) => Some(t@),
        None => None,
    }
}

impl View for CrdtCommand {
    type V = CommandModel;

    open spec fn view(&self) -> CommandModel {
        match *self {
            CrdtCommand::SetAdd { namespace, key, value } => CommandModel::Add {
                namespace: text_of(namespace),
                key: key@,
                value: value@,
            },
            CrdtCommand::SetRemove { namespace, key, value } => CommandModel::Remove {
                namespace: text_of(namespace),
                key: key@,
                value: value@,
            },
        }
    }
}

/// The commands of a list as plain text.
pub open spec fn views(cs: Seq<CrdtCommand>) -> Seq<CommandModel> {
    Seq::new(cs.len(), |i: int| cs[i]@)
}

/// Whether the address is in the filter, character for character.
pub open spec fn watched(filter: Seq<String>, address: Seq<char>) -> bool {
    exists|i: int| 0 <= i < filter.len() && #[trigger] filter[i]@ == address
}

/// The key of an entry: the address, or the hexadecimal transaction hash, a
/// `#` and the decimal output index.
pub open spec fn entry_key(
    address_as_key: bool,
    address: Seq<char>,
    tx_hash: Seq<u8>,
    index: u64,
) -> Seq<char> {
    if address_as_key {
        address
    } else {
        hex_text(tx_hash) + seq!['#'] + decimal_text(index as nat)
    }
}

/// The unit of a native asset: its policy and its name in hexadecimal.
pub open spec fn asset_unit(a: NativeAsset) -> Seq<char> {
    hex_text(a.policy@) + hex_text(a.name@)
}

/// The members of one item of `amount`.
pub open spec fn asset_record(unit: Seq<char>, quantity: u64) -> Map<Seq<char>, JsonModel> {
    no_members().insert("unit"@, JsonModel::Text(unit)).insert(
        "quantity"@,
        JsonModel::Text(decimal_text(quantity as nat)),
    )
}

/// The items of `amount`: the base currency first, as `lovelace`, then the
/// native assets in their order.
pub open spec fn amount_records(lovelace: u64, assets: Seq<NativeAsset>) -> Seq<
    Map<Seq<char>, JsonModel>,
> {
    Seq::new(
        assets.len() + 1,
        |i: int|
            if i == 0 {
                asset_record("lovelace"@, lovelace)
            } else {
                asset_record(asset_unit(assets[i - 1]), assets[i - 1].quantity)
            },
    )
}

/// The members that tell an entry's place or address: under an address key
/// the transaction hash and the output index, else the address.
pub open spec fn place_members(
    address_as_key: bool,
    address: Seq<char>,
    tx_hash: Seq<u8>,
    index: u64,
) -> Map<Seq<char>, JsonModel> {
    if address_as_key {
        no_members().insert("tx_hash"@, JsonModel::Text(hex_text(tx_hash))).insert(
            "output_index"@,
            JsonModel::Number(index),
        )
    } else {
        no_members().insert("address"@, JsonModel::Text(address))
    }
}

/// Adds the datum to the members: `datum` where it resolves, `datum_hash`
/// where only a hash is declared and nothing resolves, else nothing.
pub open spec fn with_datum_member(
    members: Map<Seq<char>, JsonModel>,
    utxo: TxOutput,
    witnesses: Seq<Witness>,
) -> Map<Seq<char>, JsonModel> {
    match datum_resolution(utxo, witnesses) {
        Ok(d) => members.insert("datum"@, JsonModel::Text(hex_text(d))),
        Err(NoDatum::Unresolved(h)) => members.insert(
            "datum_hash"@,
            JsonModel::Text(hex_text(h@)),
        ),
        Err(NoDatum::Absent) => members,
    }
}

/// The members of an entry's value.
pub open spec fn entry_members(
    address_as_key: bool,
    address: Seq<char>,
    utxo: TxOutput,
    witnesses: Seq<Witness>,
    place: OutputRef,
) -> Map<Seq<char>, JsonModel> {
    with_datum_member(
        place_members(address_as_key, address, place.tx_hash@, place.index),
        utxo,
        witnesses,
    ).insert("amount"@, JsonModel::Records(amount_records(utxo.lovelace, utxo.assets@)))
}

/// Whether entries are keyed by address.
pub open spec fn keyed_by_address(config: Config) -> bool {
    config.address_as_key == Some(true)
}

/// The entry of an output, built against the datums that its owning
/// transaction witnesses: its key and the JSON text of its value; `None`
/// where the output has no readable address or the address is not watched.
pub open spec fn entry_of(
    config: Config,
    utxo: TxOutput,
    witnesses: Seq<Witness>,
    place: OutputRef,
) -> Option<(Seq<char>, Seq<char>)> {
    match utxo.address {
        Some(a) => if watched(config.filter@, a@) {
            Some(
                (
                    entry_key(keyed_by_address(config), a@, place.tx_hash@, place.index),
                    json_object_text(
                        entry_members(keyed_by_address(config), a@, utxo, witnesses, place),
                    ),
                ),
            )
        } else {
            None
        },
        None => None,
    }
}

/// Whether a built entry is the given one.
pub open spec fn is_entry(r: Option<(String, String)>, expected: Option<(Seq<char>, Seq<char>)>) -> bool {
    match r {
        Some(e) => expected == Some((e.0@, e.1@)),
        None => expected is None,
    }
}

/// The removal for a consumed output: one command where the context knows
/// the output and it has an entry, in the namespace of the prefix. The
/// entry is built against what the output's own transaction witnesses, as
/// it was when the output was produced.
pub open spec fn consumed_command(config: Config, ctx: BlockContext, place: OutputRef) -> Seq<
    CommandModel,
> {
    match known_utxo(ctx, place) {
        Some(known) => match entry_of(config, known.output, known.witnesses@, place) {
            Some(e) => seq![
                CommandModel::Remove { namespace: text_of(config.prefix), key: e.0, value: e.1 },
            ],
            None => Seq::empty(),
        },
        None => Seq::empty(),
    }
}

/// The addition for a produced output: one command where it has an entry,
/// in no namespace.
pub open spec fn produced_command(config: Config, tx: Transaction, p: Produced) -> Seq<
    CommandModel,
> {
    match entry_of(
        config,
        p.output,
        tx.witnesses@,
        OutputRef { tx_hash: tx.hash, index: p.index },
    ) {
        Some(e) => seq![CommandModel::Add { namespace: None, key: e.0, value: e.1 }],
        None => Seq::empty(),
    }
}

/// The removals for the first `n` outputs that a transaction consumes.
pub open spec fn consumed_commands(config: Config, ctx: BlockContext, tx: Transaction, n: nat) -> Seq<
    CommandModel,
>
    decreases n,
{
    if n == 0 || n > tx.consumes@.len() {
        Seq::empty()
    } else {
        consumed_commands(config, ctx, tx, (n - 1) as nat) + consumed_command(
            config,
            ctx,
            tx.consumes@[n - 1],
        )
    }
}

/// The additions for the first `n` outputs that a transaction produces.
pub open spec fn produced_commands(config: Config, tx: Transaction, n: nat) -> Seq<CommandModel>
    decreases n,
{
    if n == 0 || n > tx.produces@.len() {
        Seq::empty()
    } else {
        produced_commands(config, tx, (n - 1) as nat) + produced_command(
            config,
            tx,
            tx.produces@[n - 1],
        )
    }
}

/// The commands of a transaction: its removals, then its additions.
pub open spec fn tx_commands(config: Config, ctx: BlockContext, tx: Transaction) -> Seq<
    CommandModel,
> {
    consumed_commands(config, ctx, tx, tx.consumes@.len()) + produced_commands(
        config,
        tx,
        tx.produces@.len(),
    )
}

/// The commands of the first `n` transactions of a block, in their order.
pub open spec fn block_commands(config: Config, ctx: BlockContext, block: Block, n: nat) -> Seq<
    CommandModel,
>
    decreases n,
{
    if n == 0 || n > block.txs@.len() {
        Seq::empty()
    } else {
        block_commands(config, ctx, block, (n - 1) as nat) + tx_commands(
            config,
            ctx,
            block.txs@[n - 1],
        )
    }
}

/// The reducer for the unspent outputs of watched addresses.
#[derive(Clone, Debug, PartialEq, Eq)]
pub struct Reducer {
    config: Config,
    policy: RuntimePolicy,
}

impl Config {
    /// Makes the reducer for this configuration and the given policy.
    pub fn plugin(self, policy: &RuntimePolicy) -> (r: Reducer)
        ensures
            r.config_model() == self,
            r.policy_model() == *policy,
    {
        Reducer { config: self, policy: *policy }
    }

    /// Whether the address is one of the watched ones.
    pub fn watches(&self, address: &String) -> (r: bool)
        ensures
            r == watched(self.filter@, address@),
    {
        let mut i: usize = 0;
        while i < self.filter.len()
            invariant
                0 <= i <= self.filter@.len(),
                forall|k: int| 0 <= k < i ==> (#[trigger] self.filter@[k])@ != address@,
            decreases self.filter@.len() - i,
        {
            if self.filter[i] == *address {
                return true;
            }
            i = i + 1;
        }
        false
    }
}

/// One item of `amount` as a JSON object.
fn asset_entry(unit: &str, quantity: u64) -> (r: serde_json::Map<String, serde_json::Value>)
    ensures
        json_members(r) == asset_record(unit@, quantity),
{
    let mut item = object_new();
    object_set_text(&mut item, "unit", unit);
    let text = decimal_encode(quantity);
    object_set_text(&mut item, "quantity", text.as_str());
    item
}

/// The items of `amount` for an output.
fn amount_entries(utxo: &TxOutput) -> (r: Vec<serde_json::Map<String, serde_json::Value>>)
    ensures
        records_of(r@) == amount_records(utxo.lovelace, utxo.assets@),
{
    let mut items: Vec<serde_json::Map<String, serde_json::Value>> = Vec::new();
    items.push(asset_entry("lovelace", utxo.lovelace));
    let mut i: usize = 0;
    while i < utxo.assets.len()
        invariant
            0 <= i <= utxo.assets@.len(),
            items@.len() == i + 1,
            forall|k: int|
                0 <= k < items@.len() ==> json_members(#[trigger] items@[k]) == amount_records(
                    utxo.lovelace,
                    utxo.assets@,
                )[k],
        decreases utxo.assets@.len() - i,
    {
        let asset = &utxo.assets[i];
        let name_hex = hex_encode(asset.name.as_slice());
        let unit = hex_encode(asset.policy.as_slice()).concat(name_hex.as_str());
        items.push(asset_entry(unit.as_str(), asset.quantity));
        i = i + 1;
    }
    assert(records_of(items@) =~= amount_records(utxo.lovelace, utxo.assets@));
    items
}

impl Reducer {
    /// The configuration that the reducer was made with.
    pub closed spec fn config_model(&self) -> Config {
        self.config
    }

    /// The policy that the reducer was made with.
    pub closed spec fn policy_model(&self) -> RuntimePolicy {
        self.policy
    }

    /// The configuration that the reducer was made with.
    pub fn config(&self) -> (r: &Config)
        ensures
            *r == self.config_model(),
    {
        &self.config
    }

    /// The policy that the reducer was made with.
    pub fn policy(&self) -> (r: RuntimePolicy)
        ensures
            r == self.policy_model(),
    {
        self.policy
    }

    /// Builds the entry of an output against the transaction that owns it:
    /// `None` unless its address is watched, else the key and the JSON text
    /// of the value.
    pub fn get_key_value(&self, utxo: &TxOutput, tx: &Transaction, output_ref: &OutputRef) -> (r:
        Option<(String, String)>)
        ensures
            is_entry(r, entry_of(self.config_model(), *utxo, tx.witnesses@, *output_ref)),
    {
        self.build_entry(utxo, &tx.witnesses, output_ref)
    }

    /// Builds the entry of an output against the datums that its owning
    /// transaction witnesses: `None` unless its address is watched, else
    /// the key and the JSON text of the value.
    pub fn build_entry(
        &self,
        utxo: &TxOutput,
        witnesses: &Vec<Witness>,
        output_ref: &OutputRef,
    ) -> (r: Option<(String, String)>)
        ensures
            is_entry(r, entry_of(self.config_model(), *utxo, witnesses@, *output_ref)),
    {
        let address = match &utxo.address {
            Some(a) => a,
            None => {
                return None;
            },
        };
        if !self.config.watches(address) {
            return None;
        }
        let address_as_key = match self.config.address_as_key {
            Some(b) => b,
            None => false,
        };
        let mut data = object_new();
        let hash_hex = hex_encode(output_ref.tx_hash.as_slice());
        let key: String;
        if address_as_key {
            key = address.clone();
            object_set_text(&mut data, "tx_hash", hash_hex.as_str());
            object_set_number(&mut data, "output_index", output_ref.index);
        } else {
            let index_text = decimal_encode(output_ref.index);
            proof {
                reveal_strlit("#");
                assert("#"@ =~= seq!['#']);
            }
            key = hash_hex.concat("#").concat(index_text.as_str());
            object_set_text(&mut data, "address", address.as_str());
        }
        match resolve_datum_among(utxo, witnesses) {
            Ok(datum) => {
                let datum_hex = hex_encode(datum.as_slice());
                object_set_text(&mut data, "datum", datum_hex.as_str());
            },
            Err(NoDatum::Unresolved(h)) => {
                let hash_text = hex_encode(h.as_slice());
                object_set_text(&mut data, "datum_hash", hash_text.as_str());
            },
            Err(NoDatum::Absent) => {},
        }
        let items = amount_entries(utxo);
        object_set_records(&mut data, "amount", items);
        Some((key, object_render(data)))
    }

    /// Appends the removals for the outputs that a transaction consumes.
    fn emit_consumed(&self, ctx: &BlockContext, tx: &Transaction, out: &mut Vec<CrdtCommand>)
        ensures
            views(final(out)@) == views(old(out)@) + consumed_commands(
                self.config_model(),
                *ctx,
                *tx,
                tx.consumes@.len(),
            ),
    {
        let mut i: usize = 0;
        assert(views(out@) =~= views(old(out)@) + consumed_commands(
            self.config_model(),
            *ctx,
            *tx,
            0,
        ));
        while i < tx.consumes.len()
            invariant
                0 <= i <= tx.consumes@.len(),
                views(out@) == views(old(out)@) + consumed_commands(
                    self.config_model(),
                    *ctx,
                    *tx,
                    i as nat,
                ),
            decreases tx.consumes@.len() - i,
        {
            let consumed = &tx.consumes[i];
            let ghost before = out@;
            if let Some(known) = ctx.find_utxo(consumed) {
                if let Some((key, value)) = self.build_entry(
                    &known.output,
                    &known.witnesses,
                    consumed,
                ) {
                    let namespace = match &self.config.prefix {
                        Some(p) => Some(p.clone()),
                        None => None,
                    };
                    out.push(CrdtCommand::SetRemove { namespace, key, value });
                }
            }
            assert(views(out@) =~= views(before) + consumed_command(
                self.config_model(),
                *ctx,
                *consumed,
            ));
            i = i + 1;
            assert(views(out@) =~= views(old(out)@) + consumed_commands(
                self.config_model(),
                *ctx,
                *tx,
                i as nat,
            ));
        }
    }

    /// Appends the additions for the outputs that a transaction produces.
    fn emit_produced(&self, tx: &Transaction, out: &mut Vec<CrdtCommand>)
        ensures
            views(final(out)@) == views(old(out)@) + produced_commands(
                self.config_model(),
                *tx,
                tx.produces@.len(),
            ),
    {
        let mut i: usize = 0;
        assert(views(out@) =~= views(old(out)@) + produced_commands(self.config_model(), *tx, 0));
        while i < tx.produces.len()
            invariant
                0 <= i <= tx.produces@.len(),
                views(out@) == views(old(out)@) + produced_commands(
                    self.config_model(),
                    *tx,
                    i as nat,
                ),
            decreases tx.produces@.len() - i,
        {
            let produced = &tx.produces[i];
            let ghost before = out@;
            let output_ref = OutputRef { tx_hash: tx.hash, index: produced.index };
            if let Some((key, value)) = self.get_key_value(&produced.output, tx, &output_ref) {
                out.push(CrdtCommand::SetAdd { namespace: None, key, value });
            }
            assert(views(out@) =~= views(before) + produced_command(
                self.config_model(),
                *tx,
                *produced,
            ));
            i = i + 1;
            assert(views(out@) =~= views(old(out)@) + produced_commands(
                self.config_model(),
                *tx,
                i as nat,
            ));
        }
    }

    /// Reduces a block to its commands: for each transaction in order, a
    /// removal for each consumed output that the context knows and that has
    /// an entry, then an addition for each produced output that has one.
    /// The reducer itself stays as it was.
    pub fn reduce_block(&mut self, block: &Block, ctx: &BlockContext) -> (r: Vec<CrdtCommand>)
        ensures
            *final(self) == *old(self),
            views(r@) == block_commands(old(self).config_model(), *ctx, *block, block.txs@.len()),
    {
        let mut out: Vec<CrdtCommand> = Vec::new();
        let mut i: usize = 0;
        assert(views(out@) =~= block_commands(self.config_model(), *ctx, *block, 0));
        while i < block.txs.len()
            invariant
                0 <= i <= block.txs@.len(),
                *self == *old(self),
                views(out@) == block_commands(self.config_model(), *ctx, *block, i as nat),
            decreases block.txs@.len() - i,
        {
            let tx = &block.txs[i];
            self.emit_consumed(ctx, tx, &mut out);
            self.emit_produced(tx, &mut out);
            i = i + 1;
            assert(views(out@) =~= block_commands(self.config_model(), *ctx, *block, i as nat));
        }
        out
    }
}

/// Under keys by place, two outputs at different places have different
/// keys, whatever their addresses.
pub proof fn lemma_entry_keys_distinct(
    a: OutputRef,
    b: OutputRef,
    address_a: Seq<char>,
    address_b: Seq<char>,
)
    requires
        !(a.tx_hash@ == b.tx_hash@ && a.index == b.index),
    ensures
        entry_key(false, address_a, a.tx_hash@, a.index) != entry_key(
            false,
            address_b,
            b.tx_hash@,
            b.index,
        ),
{
    let ka = entry_key(false, address_a, a.tx_hash@, a.index);
    let kb = entry_key(false, address_b, b.tx_hash@, b.index);
    if ka == kb {
        let ha = hex_text(a.tx_hash@);
        let hb = hex_text(b.tx_hash@);
        let da = decimal_text(a.index as nat);
        let db = decimal_text(b.index as nat);
        assert(ha.len() == 64 && hb.len() == 64);
        assert(ka.subrange(0, 64) =~= ha);
        assert(kb.subrange(0, 64) =~= hb);
        assert(ka.subrange(65, ka.len() as int) =~= da);
        assert(kb.subrange(65, kb.len() as int) =~= db);
        lemma_hex_text_injective(a.tx_hash@, b.tx_hash@);
        lemma_decimal_text_injective(a.index as nat, b.index as nat);
    }
}

/// Under keys by place, the entries of two outputs at different places
/// have different keys.
pub proof fn lemma_entries_at_different_places_differ(
    config: Config,
    utxo_a: TxOutput,
    witnesses_a: Seq<Witness>,
    place_a: OutputRef,
    utxo_b: TxOutput,
    witnesses_b: Seq<Witness>,
    place_b: OutputRef,
)
    requires
        !keyed_by_address(config),
        !(place_a.tx_hash@ == place_b.tx_hash@ && place_a.index == place_b.index),
        entry_of(config, utxo_a, witnesses_a, place_a) is Some,
        entry_of(config, utxo_b, witnesses_b, place_b) is Some,
    ensures
        entry_of(config, utxo_a, witnesses_a, place_a)->Some_0.0 != entry_of(
            config,
            utxo_b,
            witnesses_b,
            place_b,
        )->Some_0.0,
{
    lemma_entry_keys_distinct(
        place_a,
        place_b,
        utxo_a.address->Some_0@,
        utxo_b.address->Some_0@,
    );
}

/// Where the context knows a produced output as it was produced, with the
/// datums that its transaction witnesses, the removal of the output names
/// the key and the value of its addition, whatever datum it declares; the
/// removal stands in the namespace of the prefix, the addition in none.
pub proof fn lemma_removal_names_what_was_added(
    config: Config,
    ctx: BlockContext,
    owner: Transaction,
    p: Produced,
)
    requires
        known_utxo(ctx, OutputRef { tx_hash: owner.hash, index: p.index }) is Some,
        known_utxo(ctx, OutputRef { tx_hash: owner.hash, index: p.index })->Some_0.output
            == p.output,
        known_utxo(ctx, OutputRef { tx_hash: owner.hash, index: p.index })->Some_0.witnesses@
            == owner.witnesses@,
    ensures
        produced_command(config, owner, p).len() == consumed_command(
            config,
            ctx,
            OutputRef { tx_hash: owner.hash, index: p.index },
        ).len(),
        produced_command(config, owner, p).len() == 1 ==> {
            let added = produced_command(config, owner, p)[0];
            let removed = consumed_command(
                config,
                ctx,
                OutputRef { tx_hash: owner.hash, index: p.index },
            )[0];
            &&& added is Add
            &&& removed is Remove
            &&& added->Add_namespace is None
            &&& removed->Remove_namespace == text_of(config.prefix)
            &&& removed->Remove_key == added->Add_key
            &&& removed->Remove_value == added->Add_value
        },
        produced_command(config, owner, p).len() <= 1,
{
}

/// Without a prefix, a store that gets the addition of an output and the
/// removal built from what the context knows of it, in either order, no
/// longer holds the entry.
pub proof fn lemma_removal_clears_addition(
    config: Config,
    ctx: BlockContext,
    owner: Transaction,
    p: Produced,
    store: SetStore,
)
    requires
        config.prefix is None,
        produced_command(config, owner, p).len() == 1,
        known_utxo(ctx, OutputRef { tx_hash: owner.hash, index: p.index }) is Some,
        known_utxo(ctx, OutputRef { tx_hash: owner.hash, index: p.index })->Some_0.output
            == p.output,
        known_utxo(ctx, OutputRef { tx_hash: owner.hash, index: p.index })->Some_0.witnesses@
            == owner.witnesses@,
    ensures
        ({
            let added = produced_command(config, owner, p)[0];
            let removed = consumed_command(
                config,
                ctx,
                OutputRef { tx_hash: owner.hash, index: p.index },
            )[0];
            &&& member_of(added) == member_of(removed)
            &&& !store.apply(added).apply(removed).holds(member_of(added))
            &&& !store.apply(removed).apply(added).holds(member_of(added))
        }),
{
    lemma_removal_names_what_was_added(config, ctx, owner, p);
}

/// Under keys by address, the entry of an output to a watched address is
/// keyed by the address; its value holds the transaction hash in
/// hexadecimal and the output index as a number, and no address.
pub proof fn lemma_address_keyed_members(
    address: Seq<char>,
    utxo: TxOutput,
    witnesses: Seq<Witness>,
    place: OutputRef,
)
    ensures
        entry_key(true, address, place.tx_hash@, place.index) == address,
        entry_members(true, address, utxo, witnesses, place).contains_key("tx_hash"@),
        entry_members(true, address, utxo, witnesses, place)["tx_hash"@] == JsonModel::Text(
            hex_text(place.tx_hash@),
        ),
        entry_members(true, address, utxo, witnesses, place).contains_key("output_index"@),
        entry_members(true, address, utxo, witnesses, place)["output_index"@]
            == JsonModel::Number(place.index),
        !entry_members(true, address, utxo, witnesses, place).contains_key("address"@),
{
    lemma_member_names_differ();
}

/// Under keys by address, a produced output to a watched address gives one
/// addition, in no namespace, keyed by the address.
pub proof fn lemma_address_keyed_addition(config: Config, tx: Transaction, p: Produced)
    requires
        keyed_by_address(config),
        p.output.address is Some,
        watched(config.filter@, p.output.address->Some_0@),
    ensures
        produced_command(config, tx, p) == seq![
            CommandModel::Add {
                namespace: None,
                key: p.output.address->Some_0@,
                value: json_object_text(
                    entry_members(
                        true,
                        p.output.address->Some_0@,
                        p.output,
                        tx.witnesses@,
                        OutputRef { tx_hash: tx.hash, index: p.index },
                    ),
                ),
            },
        ],
{
}

/// What an entry's value holds of the datum, under either key layout: where
/// the datum resolves, `datum` with its bytes in hexadecimal and no
/// `datum_hash`; where a declared hash does not resolve, `datum_hash` with
/// the hash in hexadecimal and no `datum`; where nothing is declared,
/// neither.
pub proof fn lemma_entry_datum_members(
    address_as_key: bool,
    address: Seq<char>,
    utxo: TxOutput,
    witnesses: Seq<Witness>,
    place: OutputRef,
)
    ensures
        match datum_resolution(utxo, witnesses) {
            Ok(d) => {
                &&& entry_members(address_as_key, address, utxo, witnesses, place).contains_key(
                    "datum"@,
                )
                &&& entry_members(address_as_key, address, utxo, witnesses, place)["datum"@]
                    == JsonModel::Text(hex_text(d))
                &&& !entry_members(address_as_key, address, utxo, witnesses, place).contains_key(
                    "datum_hash"@,
                )
            },
            Err(NoDatum::Unresolved(h)) => {
                &&& entry_members(address_as_key, address, utxo, witnesses, place).contains_key(
                    "datum_hash"@,
                )
                &&& entry_members(address_as_key, address, utxo, witnesses, place)["datum_hash"@]
                    == JsonModel::Text(hex_text(h@))
                &&& !entry_members(address_as_key, address, utxo, witnesses, place).contains_key(
                    "datum"@,
                )
            },
            Err(NoDatum::Absent) => {
                &&& !entry_members(address_as_key, address, utxo, witnesses, place).contains_key(
                    "datum"@,
                )
                &&& !entry_members(address_as_key, address, utxo, witnesses, place).contains_key(
                    "datum_hash"@,
                )
            },
        },
{
    lemma_member_names_differ();
}

/// What holds of every command of the reducer: an addition stands in no
/// namespace, a removal in the namespace of the prefix, and under keys by
/// address the key is a watched address.
pub open spec fn in_its_namespace(config: Config, c: CommandModel) -> bool {
    match c {
        CommandModel::Add { namespace, key, .. } => namespace is None && (keyed_by_address(
            config,
        ) ==> watched(config.filter@, key)),
        CommandModel::Remove { namespace, key, .. } => namespace == text_of(config.prefix) && (
        keyed_by_address(config) ==> watched(config.filter@, key)),
    }
}

/// Whether every command of a list is in its namespace.
pub open spec fn all_in_namespace(config: Config, cs: Seq<CommandModel>) -> bool {
    forall|i: int| 0 <= i < cs.len() ==> in_its_namespace(config, #[trigger] cs[i])
}

/// The removals of a transaction are in the namespace of the prefix.
pub proof fn lemma_consumed_commands_in_namespace(
    config: Config,
    ctx: BlockContext,
    tx: Transaction,
    n: nat,
)
    ensures
        all_in_namespace(config, consumed_commands(config, ctx, tx, n)),
    decreases n,
{
    if n != 0 && n <= tx.consumes@.len() {
        lemma_consumed_commands_in_namespace(config, ctx, tx, (n - 1) as nat);
        let init = consumed_commands(config, ctx, tx, (n - 1) as nat);
        let last = consumed_command(config, ctx, tx.consumes@[n - 1]);
        assert(all_in_namespace(config, last));
        assert(all_in_namespace(config, init + last));
    }
}

/// The additions of a transaction are in no namespace.
pub proof fn lemma_produced_commands_in_namespace(config: Config, tx: Transaction, n: nat)
    ensures
        all_in_namespace(config, produced_commands(config, tx, n)),
    decreases n,
{
    if n != 0 && n <= tx.produces@.len() {
        lemma_produced_commands_in_namespace(config, tx, (n - 1) as nat);
        let init = produced_commands(config, tx, (n - 1) as nat);
        let last = produced_command(config, tx, tx.produces@[n - 1]);
        assert(all_in_namespace(config, last));
        assert(all_in_namespace(config, init + last));
    }
}

/// Every command of a block is in its namespace: the additions in none,
/// whatever the prefix, and the removals in that of the prefix.
pub proof fn lemma_block_commands_in_namespace(
    config: Config,
    ctx: BlockContext,
    block: Block,
    n: nat,
)
    ensures
        all_in_namespace(config, block_commands(config, ctx, block, n)),
    decreases n,
{
    if n != 0 && n <= block.txs@.len() {
        lemma_block_commands_in_namespace(config, ctx, block, (n - 1) as nat);
        let tx = block.txs@[n - 1];
        lemma_consumed_commands_in_namespace(config, ctx, tx, tx.consumes@.len());
        lemma_produced_commands_in_namespace(config, tx, tx.produces@.len());
        let init = block_commands(config, ctx, block, (n - 1) as nat);
        let removals = consumed_commands(config, ctx, tx, tx.consumes@.len());
        let additions = produced_commands(config, tx, tx.produces@.len());
        assert(all_in_namespace(config, removals + additions));
        assert(all_in_namespace(config, init + (removals + additions)));
    }
}

/// The names of an entry's members are different names.
pub proof fn lemma_member_names_differ()
    ensures
        "tx_hash"@ != "output_index"@,
        "tx_hash"@ != "datum"@,
        "tx_hash"@ != "datum_hash"@,
        "tx_hash"@ != "amount"@,
        "tx_hash"@ != "address"@,
        "output_index"@ != "datum"@,
        "output_index"@ != "datum_hash"@,
        "output_index"@ != "amount"@,
        "output_index"@ != "address"@,
        "address"@ != "datum"@,
        "address"@ != "datum_hash"@,
        "address"@ != "amount"@,
        "datum"@ != "datum_hash"@,
        "datum"@ != "amount"@,
        "datum_hash"@ != "amount"@,
{
    reveal_strlit("tx_hash");
    reveal_strlit("output_index");
    reveal_strlit("datum");
    reveal_strlit("datum_hash");
    reveal_strlit("amount");
    reveal_strlit("address");
    assert("tx_hash"@.len() == 7 && "address"@.len() == 7);
    assert("output_index"@.len() == 12);
    assert("datum"@.len() == 5);
    assert("datum_hash"@.len() == 10);
    assert("amount"@.len() == 6);
    assert("tx_hash"@[0] == 't' && "address"@[0] == 'a');
}

/// Under keys by address, two outputs to the same watched address at
/// different places have entries with the same key, the address, and
/// values whose members differ: in the transaction hash or in the output
/// index.
pub proof fn lemma_address_keyed_entries_differ(
    address: Seq<char>,
    utxo_a: TxOutput,
    witnesses_a: Seq<Witness>,
    place_a: OutputRef,
    utxo_b: TxOutput,
    witnesses_b: Seq<Witness>,
    place_b: OutputRef,
)
    requires
        !(place_a.tx_hash@ == place_b.tx_hash@ && place_a.index == place_b.index),
    ensures
        entry_key(true, address, place_a.tx_hash@, place_a.index) == entry_key(
            true,
            address,
            place_b.tx_hash@,
            place_b.index,
        ),
        entry_members(true, address, utxo_a, witnesses_a, place_a) != entry_members(
            true,
            address,
            utxo_b,
            witnesses_b,
            place_b,
        ),
{
    lemma_address_keyed_members(address, utxo_a, witnesses_a, place_a);
    lemma_address_keyed_members(address, utxo_b, witnesses_b, place_b);
    if place_a.tx_hash@ != place_b.tx_hash@ {
        if hex_text(place_a.tx_hash@) == hex_text(place_b.tx_hash@) {
            lemma_hex_text_injective(place_a.tx_hash@, place_b.tx_hash@);
        }
    }
}

/// An output whose address is not in the filter, character for character,
/// has no entry.
pub proof fn lemma_unwatched_has_no_entry(
    config: Config,
    utxo: TxOutput,
    witnesses: Seq<Witness>,
    place: OutputRef,
)
    requires
        utxo.address is Some ==> forall|i: int|
            0 <= i < config.filter@.len() ==> (#[trigger] config.filter@[i])@
                != utxo.address->Some_0@,
    ensures
        entry_of(config, utxo, witnesses, place) is None,
{
}

} // verus!
