//! The in-process Lightning book: real BOLT11 invoices whose payment hash is the SHA-256 of a
//! random preimage, and settlement as an incoming HTLC would do it, by showing that preimage.

use crate::crypto::{random_bytes_32, sha256, sha256_of};
use crate::hexcodec::{hex_bytes, hex_decode, hex_decode_message, hex_encode, hex_lower, hex_valid, lemma_hex_roundtrip};
use crate::json::bytes_lt;
use crate::node::NodeError;
use crate::settlement::PaymentIntent;
use crate::text::{concat_str, str_eq};
use bitcoin::secp256k1::ecdsa::RecoverableSignature;
use bitcoin::secp256k1::{Message, Secp256k1, SecretKey};
use lightning_invoice::{Bolt11Invoice, Currency, InvoiceBuilder};
use vstd::prelude::*;

verus! {

#[verifier::external_type_specification]
#[verifier::external_body]
pub struct ExSecretKey(SecretKey);

#[verifier::external_type_specification]
#[verifier::external_body]
pub struct ExMessage(Message);

#[verifier::external_type_specification]
#[verifier::external_body]
pub struct ExRecoverableSignature(RecoverableSignature);

/// The network an invoice is issued for.
#[derive(Clone, Copy, Debug, PartialEq, Eq, Structural)]
pub enum InvoiceNetwork {
    Bitcoin,
    BitcoinTestnet,
    Regtest,
    Simnet,
    Signet,
}

/// The order of the secp256k1 group, most significant byte first.
pub open spec fn secp256k1_order() -> Seq<u8> {
    seq![
        0xffu8, 0xff, 0xff, 0xff, 0xff, 0xff, 0xff, 0xff, 0xff, 0xff, 0xff, 0xff, 0xff, 0xff, 0xff, 0xfe,
        0xba, 0xae, 0xdc, 0xe6, 0xaf, 0x48, 0xa0, 0x3b, 0xbf, 0xd2, 0x5e, 0x8c, 0xd0, 0x36, 0x41, 0x41,
    ]
}

/// Whether 32 bytes are a secp256k1 secret key: not zero, and below the group order as a
/// big-endian integer.
pub open spec fn secp256k1_secret_valid(k: Seq<u8>) -> bool {
    &&& k.len() == 32
    &&& exists|i: int| 0 <= i < 32 && k[i] != 0
    &&& bytes_lt(k, secp256k1_order())
}

/// Calls `SecretKey::from_slice`, which accepts 32 bytes exactly when libsecp256k1's
/// `ec_seckey_verify` does: the key is not zero and is below the group order.
#[verifier::external_body]
fn secp_secret_key(bytes: &[u8; 32]) -> (r: Option<SecretKey>)
    ensures
        r is Some <==> secp256k1_secret_valid(bytes@),
{
    SecretKey::from_slice(bytes).ok()
}

/// Calls `Secp256k1::sign_ecdsa_recoverable` with a fresh signing context. Nothing is claimed of
/// the signature.
#[verifier::external_body]
fn sign_recoverable(msg: &Message, key: &SecretKey) -> RecoverableSignature {
    Secp256k1::new().sign_ecdsa_recoverable(msg, key)
}

/// The human-readable prefix of a network's invoices: `ln` and the currency prefix that
/// `lightning_invoice::Currency` writes.
pub open spec fn network_prefix(network: InvoiceNetwork) -> Seq<char> {
    match network {
        InvoiceNetwork::Bitcoin => "lnbc"@,
        InvoiceNetwork::BitcoinTestnet => "lntb"@,
        InvoiceNetwork::Regtest => "lnbcrt"@,
        InvoiceNetwork::Simnet => "lnsb"@,
        InvoiceNetwork::Signet => "lntbs"@,
    }
}

/// What a text holds when it parses as a BOLT11 invoice (`None` where it does not): its payment
/// hash, its amount in millisatoshis if it has one, `ln` and its currency prefix, its
/// description if it is written out, its payment secret and its final CLTV delta.
pub uninterp spec fn bolt11_fields(text: Seq<char>) -> Option<(Seq<u8>, Option<u64>, Seq<char>, Option<Seq<char>>, Seq<u8>, u64)>;

/// Builds and signs a BOLT11 invoice with `lightning_invoice::InvoiceBuilder` (stamped with the
/// current time) and renders it with `to_string`; a refusal of the builder is rendered with
/// `to_string` too. The builder can refuse (an amount whose picobitcoins overflow, a description
/// too long), and the text carries the clock and the signature, so neither success nor the text
/// is claimed. `current_timestamp` panics (through `expect`) where the system clock reads before
/// 1970 or past the largest BOLT11 timestamp, as it does in every caller of the builder; that is
/// a fault of the machine, which no argument can rule out. What is claimed is what the builder sets: an invoice it builds parses back
/// with the network, description, amount, payment hash, payment secret and CLTV delta given.
#[verifier::external_body]
fn bolt11_build(
    network: InvoiceNetwork,
    description: &str,
    amount_msat: u64,
    payment_hash: &[u8; 32],
    secret: &[u8; 32],
    min_final_cltv: u64,
    key: &SecretKey,
) -> (r: Result<String, String>)
    ensures
        amount_msat > 0 ==> (r matches Ok(s) ==> bolt11_fields(s@) == Some((
            payment_hash@,
            Some(amount_msat),
            network_prefix(network),
            Some(description@),
            secret@,
            min_final_cltv,
        ))),
{
    let currency = match network {
        InvoiceNetwork::Bitcoin => Currency::Bitcoin,
        InvoiceNetwork::BitcoinTestnet => Currency::BitcoinTestnet,
        InvoiceNetwork::Regtest => Currency::Regtest,
        InvoiceNetwork::Simnet => Currency::Simnet,
        InvoiceNetwork::Signet => Currency::Signet,
    };
    let hash = <bitcoin::hashes::sha256::Hash as bitcoin::hashes::Hash>::from_byte_array(*payment_hash);
    InvoiceBuilder::new(currency).description(description.to_string()).amount_milli_satoshis(amount_msat)
        .payment_hash(hash).payment_secret(lightning_types::payment::PaymentSecret(*secret))
        .current_timestamp().min_final_cltv_expiry_delta(min_final_cltv)
        .build_signed(|msg| sign_recoverable(msg, key)).map(|inv| inv.to_string()).map_err(|e| e.to_string())
}

/// What parsing a text as a BOLT11 invoice and writing it out again gives: the invoice's text,
/// or the text of the parse error.
pub uninterp spec fn bolt11_reencoded(text: Seq<char>) -> Result<Seq<char>, Seq<char>>;

/// Calls `str::parse::<Bolt11Invoice>` and renders the invoice, or the error, with `to_string`.
/// Claims that the outcome is `bolt11_reencoded` of the text, that it succeeds exactly on the
/// texts that parse, that the text written out holds what the text read held, and that it begins
/// with `ln` and the currency prefix (`Display` writes the human-readable part `ln`, currency,
/// amount first, in lowercase).
#[verifier::external_body]
fn bolt11_reencode(text: &str) -> (r: Result<String, String>)
    ensures
        match r {
            Ok(s) => bolt11_reencoded(text@) == Ok::<Seq<char>, Seq<char>>(s@),
            Err(e) => bolt11_reencoded(text@) == Err::<Seq<char>, Seq<char>>(e@),
        },
        r is Ok <==> bolt11_fields(text@) is Some,
        r matches Ok(s) ==> bolt11_fields(s@) == bolt11_fields(text@),
        r matches Ok(s) ==> (bolt11_fields(s@) matches Some(f) && f.2.is_prefix_of(s@)),
{
    text.parse::<Bolt11Invoice>().map(|inv| inv.to_string()).map_err(|e| e.to_string())
}

/// An invoice that the book issued.
#[derive(Clone, Debug)]
pub struct PendingInvoice {
    pub payment_hash: [u8; 32],
    pub preimage: [u8; 32],
    pub bolt11: String,
    pub millicredits: i64,
    pub account: String,
    pub amount_msat: u64,
    pub settled: bool,
}

/// An issued invoice, as values.
pub struct PendingView {
    pub payment_hash: Seq<u8>,
    pub preimage: Seq<u8>,
    pub bolt11: Seq<char>,
    pub millicredits: i64,
    pub account: Seq<char>,
    pub amount_msat: u64,
    pub settled: bool,
}

impl View for PendingInvoice {
    type V = PendingView;

    open spec fn view(&self) -> PendingView {
        PendingView {
            payment_hash: self.payment_hash@,
            preimage: self.preimage@,
            bolt11: self.bolt11@,
            millicredits: self.millicredits,
            account: self.account@,
            amount_msat: self.amount_msat,
            settled: self.settled,
        }
    }
}

impl PendingInvoice {
    /// A copy of the invoice.
    pub fn copy(&self) -> (r: Self)
        ensures
            r@ == self@,
    {
        PendingInvoice {
            payment_hash: self.payment_hash,
            preimage: self.preimage,
            bolt11: self.bolt11.clone(),
            millicredits: self.millicredits,
            account: self.account.clone(),
            amount_msat: self.amount_msat,
            settled: self.settled,
        }
    }
}

/// A request for a Lightning invoice that mints credits once paid.
#[derive(Clone, Debug)]
pub struct PayIntentRequest {
    pub account: String,
    pub millicredits_on_confirm: i64,
    pub amount_sats: u64,
}

/// The amount of an intent whose request names none: one satoshi.
pub fn one_sat() -> (r: u64)
    ensures
        r == 1,
{
    1
}

/// A claim that an invoice was paid: its payment hash and the preimage, both in hex.
#[derive(Clone, Debug)]
pub struct PaySettleRequest {
    pub payment_hash: String,
    pub preimage: String,
}

/// An issued invoice as the API shows it.
#[derive(Clone, Debug)]
pub struct PayIntentView {
    pub id: String,
    pub rail: &'static str,
    pub bolt11: String,
    pub payment_hash: String,
    pub millicredits_on_confirm: i64,
    pub amount_atomic: u64,
    pub status: String,
}

/// The amount of an invoice in millisatoshis: the satoshis times 1000 (saturating), at least
/// 1000.
pub open spec fn invoice_msat(sats: u64) -> u64 {
    let m: int = if sats * 1000 > u64::MAX { u64::MAX as int } else { sats * 1000 };
    if m < 1000 { 1000 } else { m as u64 }
}

/// What the book's invoice for a preimage holds: the preimage's SHA-256 as payment hash, the
/// satoshis' millisatoshis, regtest, the description `keel millicredit mint`, the preimage as
/// payment secret, and a final CLTV delta of 144.
pub open spec fn issued_fields(preimage: Seq<u8>, amount_sats: u64) -> (Seq<u8>, Option<u64>, Seq<char>, Option<Seq<char>>, Seq<u8>, u64) {
    (sha256_of(preimage), Some(invoice_msat(amount_sats)), "lnbcrt"@, Some("keel millicredit mint"@), preimage, 144)
}

/// Whether a book's invoices are in order: each payment hash is the SHA-256 of its preimage, both
/// are 32 bytes, and no payment hash occurs twice.
pub open spec fn book_wf(entries: Seq<PendingView>) -> bool {
    &&& forall|i: int| 0 <= i < entries.len() ==> {
        &&& (#[trigger] entries[i]).payment_hash.len() == 32
        &&& entries[i].preimage.len() == 32
        &&& entries[i].payment_hash == sha256_of(entries[i].preimage)
    }
    &&& forall|i: int, j: int| 0 <= i < j < entries.len() ==> (#[trigger] entries[i]).payment_hash != (#[trigger] entries[j]).payment_hash
}

/// Where the invoice whose payment hash is written `key` in lowercase hex stands, if the book
/// holds one.
pub open spec fn find_pending(entries: Seq<PendingView>, key: Seq<char>) -> Option<int> {
    if exists|i: int| 0 <= i < entries.len() && hex_lower(#[trigger] entries[i].payment_hash) == key {
        Some(choose|i: int| 0 <= i < entries.len() && hex_lower(#[trigger] entries[i].payment_hash) == key)
    } else {
        None
    }
}

/// The book after recording an invoice under its payment hash: it replaces the invoice of the
/// same hash, or is added.
pub open spec fn filed(entries: Seq<PendingView>, e: PendingView) -> Seq<PendingView> {
    match find_pending(entries, hex_lower(e.payment_hash)) {
        Some(i) => entries.update(i, e),
        None => entries.push(e),
    }
}

/// A fresh invoice for a preimage.
pub open spec fn new_pending(preimage: Seq<u8>, bolt11: Seq<char>, millicredits: i64, account: Seq<char>, amount_sats: u64) -> PendingView {
    PendingView {
        payment_hash: sha256_of(preimage),
        preimage,
        bolt11,
        millicredits,
        account,
        amount_msat: invoice_msat(amount_sats),
        settled: false,
    }
}

/// Whether the API's view of an invoice is the one for a preimage: id and payment hash are the
/// hex of the hash, on the Lightning rail, open, for at least one satoshi.
pub open spec fn intent_view_of(v: PayIntentView, preimage: Seq<u8>, millicredits: i64, amount_sats: u64) -> bool {
    &&& v.id@ == hex_lower(sha256_of(preimage))
    &&& v.payment_hash@ == hex_lower(sha256_of(preimage))
    &&& v.rail@ == "btc_lightning"@
    &&& v.millicredits_on_confirm == millicredits
    &&& v.amount_atomic == if amount_sats < 1 { 1 } else { amount_sats }
    &&& v.status@ == "open"@
}

/// An invoice marked paid.
pub open spec fn settled_view(p: PendingView) -> PendingView {
    PendingView { settled: true, ..p }
}

/// What settling gives: where the paid invoice stands, or the error text. The preimage must be
/// 32 bytes of hex whose SHA-256 is the payment hash, and the book must hold that hash.
pub open spec fn settle_outcome(entries: Seq<PendingView>, hash_text: Seq<char>, pre_text: Seq<char>) -> Result<int, Seq<char>> {
    if !hex_valid(pre_text) {
        Err(hex_decode_message(pre_text))
    } else if hex_bytes(pre_text).len() != 32 {
        Err("preimage must be 32 bytes"@)
    } else if !hex_valid(hash_text) {
        Err(hex_decode_message(hash_text))
    } else if sha256_of(hex_bytes(pre_text)) != hex_bytes(hash_text) {
        Err("preimage does not match payment_hash"@)
    } else {
        match find_pending(entries, hash_text) {
            Some(i) => Ok(i),
            None => Err("unknown invoice"@),
        }
    }
}

/// Equal hex means equal bytes.
proof fn lemma_hex_injective(a: Seq<u8>, b: Seq<u8>)
    requires
        hex_lower(a) == hex_lower(b),
    ensures
        a == b,
{
    lemma_hex_roundtrip(a);
    lemma_hex_roundtrip(b);
}

/// In a book in order, the invoice whose hash is written `key` is the only one.
proof fn lemma_find_unique(entries: Seq<PendingView>, key: Seq<char>, i: int)
    requires
        book_wf(entries),
        0 <= i < entries.len(),
        hex_lower(entries[i].payment_hash) == key,
    ensures
        find_pending(entries, key) == Some(i),
{
    let j = choose|j: int| 0 <= j < entries.len() && hex_lower(#[trigger] entries[j].payment_hash) == key;
    lemma_hex_injective(entries[i].payment_hash, entries[j].payment_hash);
    if i < j {
        assert(entries[i].payment_hash != entries[j].payment_hash);
    } else if j < i {
        assert(entries[j].payment_hash != entries[i].payment_hash);
    }
}

/// Filing an invoice whose hash is the SHA-256 of its preimage keeps a book in order, and the
/// invoice is then found under its hash.
proof fn lemma_filed(entries: Seq<PendingView>, e: PendingView)
    requires
        book_wf(entries),
        e.preimage.len() == 32,
        e.payment_hash.len() == 32,
        e.payment_hash == sha256_of(e.preimage),
    ensures
        book_wf(filed(entries, e)),
        find_pending(filed(entries, e), hex_lower(e.payment_hash)) matches Some(k) && filed(entries, e)[k] == e,
{
    let key = hex_lower(e.payment_hash);
    let f = filed(entries, e);
    match find_pending(entries, key) {
        Some(i) => {
            assert forall|a: int, b: int| 0 <= a < b < f.len() implies (#[trigger] f[a]).payment_hash != (#[trigger] f[b]).payment_hash by {
                if a == i {
                    if entries[b].payment_hash == e.payment_hash {
                        assert(entries[i].payment_hash == e.payment_hash) by {
                            lemma_hex_injective(entries[i].payment_hash, e.payment_hash);
                        }
                    }
                } else if b == i {
                    if entries[a].payment_hash == e.payment_hash {
                        assert(entries[i].payment_hash == e.payment_hash) by {
                            lemma_hex_injective(entries[i].payment_hash, e.payment_hash);
                        }
                    }
                }
            }
            assert(book_wf(f));
            lemma_find_unique(f, key, i);
        },
        None => {
            assert forall|a: int, b: int| 0 <= a < b < f.len() implies (#[trigger] f[a]).payment_hash != (#[trigger] f[b]).payment_hash by {
                if b == entries.len() {
                    if entries[a].payment_hash == e.payment_hash {
                        assert(hex_lower(entries[a].payment_hash) == key);
                    }
                }
            }
            assert(book_wf(f));
            lemma_find_unique(f, key, entries.len() as int);
        },
    }
}

/// Settling an invoice that the book holds, with the preimage it was issued with, succeeds: the
/// payment hash and the preimage, each in lowercase hex, are accepted, and the paid invoice is
/// the one of that hash.
pub proof fn law_recorded_preimage_settles(entries: Seq<PendingView>, i: int)
    requires
        book_wf(entries),
        0 <= i < entries.len(),
    ensures
        settle_outcome(entries, hex_lower(entries[i].payment_hash), hex_lower(entries[i].preimage)) == Ok::<int, Seq<char>>(i),
{
    lemma_hex_roundtrip(entries[i].payment_hash);
    lemma_hex_roundtrip(entries[i].preimage);
    lemma_find_unique(entries, hex_lower(entries[i].payment_hash), i);
}

/// An invoice that was just issued can be settled with its own preimage: filing it into a book in
/// order, then settling its payment hash with its preimage (both in hex), pays that invoice.
pub proof fn law_issued_invoice_settles(entries: Seq<PendingView>, e: PendingView)
    requires
        book_wf(entries),
        e.preimage.len() == 32,
        e.payment_hash.len() == 32,
        e.payment_hash == sha256_of(e.preimage),
    ensures
        settle_outcome(filed(entries, e), hex_lower(e.payment_hash), hex_lower(e.preimage)) matches Ok(k)
            && filed(entries, e)[k] == e,
{
    lemma_filed(entries, e);
    let f = filed(entries, e);
    let k = find_pending(f, hex_lower(e.payment_hash))->Some_0;
    law_recorded_preimage_settles(f, k);
}

/// After an invoice is marked paid, looking its hash up finds it, paid, and every other invoice
/// is as it was.
pub proof fn law_settled_invoice_reads_paid(entries: Seq<PendingView>, key: Seq<char>, i: int)
    requires
        book_wf(entries),
        find_pending(entries, key) == Some(i),
    ensures
        book_wf(entries.update(i, settled_view(entries[i]))),
        find_pending(entries.update(i, settled_view(entries[i])), key) == Some(i),
        entries.update(i, settled_view(entries[i]))[i].settled,
        forall|j: int| 0 <= j < entries.len() && j != i ==> entries.update(i, settled_view(entries[i]))[j] == entries[j],
{
    let u = entries.update(i, settled_view(entries[i]));
    assert(exists|j: int| 0 <= j < entries.len() && hex_lower(#[trigger] entries[j].payment_hash) == key);
    assert(book_wf(u)) by {
        assert forall|a: int, b: int| 0 <= a < b < u.len() implies (#[trigger] u[a]).payment_hash != (#[trigger] u[b]).payment_hash by {
            assert(u[a].payment_hash == entries[a].payment_hash);
            assert(u[b].payment_hash == entries[b].payment_hash);
        }
    }
    lemma_find_unique(u, key, i);
}

/// The in-process Lightning book: its signing key, and the invoices it issued, each under its
/// payment hash.
pub struct LightningBook {
    key: SecretKey,
    pending: Vec<PendingInvoice>,
}

impl LightningBook {
    /// The invoices the book holds.
    pub closed spec fn entries(self) -> Seq<PendingView> {
        self.pending@.map_values(|p: PendingInvoice| p@)
    }

    #[verifier::type_invariant]
    spec fn well_kept(self) -> bool {
        book_wf(self.entries())
    }

    /// A book with no invoices and a random signing key (the fixed key of all 3s where the
    /// random bytes are no secp256k1 key; a zero seed is first changed to begin with 3).
    pub fn new() -> (r: Self)
        ensures
            r.entries() == Seq::<PendingView>::empty(),
    {
        let mut seed: [u8; 32] = match random_bytes_32() {
            Ok(b) => b,
            Err(_) => {
                let mut s = [0u8; 32];
                s[0] = 42;
                s
            },
        };
        let mut all_zero = true;
        for i in 0..32
            invariant
                seed@.len() == 32,
        {
            if seed[i] != 0 {
                all_zero = false;
            }
        }
        if all_zero {
            seed[0] = 3;
        }
        let key = match secp_secret_key(&seed) {
            Some(k) => k,
            None => {
                let three = [3u8; 32];
                assert(three@[0] != 0);
                assert(bytes_lt(three@, secp256k1_order()));
                secp_secret_key(&three).unwrap()
            },
        };
        let r = LightningBook { key, pending: Vec::new() };
        assert(r.entries() =~= Seq::<PendingView>::empty());
        r
    }

    /// Where the invoice of a payment hash (in hex) stands.
    fn position(&self, key: &str) -> (r: Option<usize>)
        ensures
            book_wf(self.entries()),
            match r {
                Some(i) => find_pending(self.entries(), key@) == Some(i as int) && i < self.entries().len(),
                None => find_pending(self.entries(), key@) is None,
            },
    {
        proof {
            use_type_invariant(self);
        }
        let ghost es = self.entries();
        let mut i: usize = 0;
        while i < self.pending.len()
            invariant
                es == self.entries(),
                es.len() == self.pending@.len(),
                book_wf(es),
                i <= es.len(),
                forall|j: int| 0 <= j < i ==> hex_lower(#[trigger] es[j].payment_hash) != key@,
            decreases es.len() - i,
        {
            let h = hex_encode(self.pending[i].payment_hash.as_slice());
            assert(es[i as int] == self.pending@[i as int]@);
            if str_eq(h.as_str(), key) {
                proof {
                    lemma_find_unique(es, key@, i as int);
                }
                return Some(i);
            }
            i = i + 1;
        }
        None
    }

    /// The invoice of a payment hash (in hex), if the book holds it.
    pub fn get(&self, payment_hash: &str) -> (r: Option<PendingInvoice>)
        ensures
            book_wf(self.entries()),
            match find_pending(self.entries(), payment_hash@) {
                Some(i) => r matches Some(p) && p@ == self.entries()[i],
                None => r is None,
            },
    {
        match self.position(payment_hash) {
            Some(i) => Some(self.pending[i].copy()),
            None => None,
        }
    }

    /// Whether the invoice of a payment hash was paid; `false` for one the book does not hold.
    pub fn is_confirmed(&self, rail_ref: &str) -> (r: bool)
        ensures
            r == (find_pending(self.entries(), rail_ref@) matches Some(i) && self.entries()[i].settled),
    {
        match self.get(rail_ref) {
            Some(p) => p.settled,
            None => false,
        }
    }

    /// The preimage of the invoice of a payment hash, in hex (for tests and local demos).
    pub fn test_preimage(&self, payment_hash: &str) -> (r: Option<String>)
        ensures
            match find_pending(self.entries(), payment_hash@) {
                Some(i) => r matches Some(s) && s@ == hex_lower(self.entries()[i].preimage),
                None => r is None,
            },
    {
        match self.position(payment_hash) {
            Some(i) => Some(hex_encode(self.pending[i].preimage.as_slice())),
            None => None,
        }
    }

    /// Records an invoice under its payment hash.
    fn put_entry(&mut self, key: &str, entry: PendingInvoice)
        requires
            key@ == hex_lower(entry.payment_hash@),
            entry.payment_hash@ == sha256_of(entry.preimage@),
        ensures
            final(self).entries() == filed(old(self).entries(), entry@),
    {
        let pos = self.position(key);
        let ghost old_es = self.entries();
        proof {
            lemma_filed(old_es, entry@);
        }
        let mut pending: Vec<PendingInvoice> = Vec::new();
        std::mem::swap(&mut pending, &mut self.pending);
        assert(pending@.map_values(|p: PendingInvoice| p@) == old_es);
        match pos {
            Some(i) => {
                pending.set(i, entry);
                assert(pending@.map_values(|p: PendingInvoice| p@) =~= old_es.update(i as int, entry@));
            },
            None => {
                pending.push(entry);
                assert(pending@.map_values(|p: PendingInvoice| p@) =~= old_es.push(entry@));
            },
        }
        std::mem::swap(&mut pending, &mut self.pending);
    }

    /// Records the invoice for a preimage once its BOLT11 text has been read back (`bolt11` is
    /// the outcome of that reading): the book files it under the hex of the preimage's SHA-256,
    /// open, for at least 1000 millisatoshis, and the API's view of it is returned. A refused
    /// reading is reported as `parse bolt11: <error>`, and the book is left as it was.
    pub fn file_invoice(
        &mut self,
        account: &str,
        millicredits: i64,
        amount_sats: u64,
        preimage: [u8; 32],
        bolt11: Result<String, String>,
    ) -> (r: Result<PayIntentView, String>)
        ensures
            book_wf(final(self).entries()),
            match bolt11 {
                Err(e) => r matches Err(m) && m@ == "parse bolt11: "@ + e@ && final(self).entries() == old(self).entries(),
                Ok(text) => r matches Ok(v) && v.bolt11@ == text@ && intent_view_of(v, preimage@, millicredits, amount_sats)
                    && final(self).entries() == filed(old(self).entries(), new_pending(preimage@, text@, millicredits, account@, amount_sats)),
            },
    {
        proof {
            use_type_invariant(&*self);
        }
        let text = match bolt11 {
            Ok(s) => s,
            Err(e) => {
                return Err(concat_str("parse bolt11: ", e.as_str()));
            },
        };
        let payment_hash = sha256(preimage.as_slice());
        let ph = hex_encode(payment_hash.as_slice());
        let amount_msat: u64 = if amount_sats > u64::MAX / 1000 {
            u64::MAX
        } else {
            let m = amount_sats * 1000;
            if m < 1000 {
                1000
            } else {
                m
            }
        };
        let view = PayIntentView {
            id: ph.clone(),
            rail: "btc_lightning",
            bolt11: text.clone(),
            payment_hash: ph.clone(),
            millicredits_on_confirm: millicredits,
            amount_atomic: if amount_sats < 1 {
                1
            } else {
                amount_sats
            },
            status: String::from_str("open"),
        };
        let entry = PendingInvoice {
            payment_hash,
            preimage,
            bolt11: text,
            millicredits,
            account: account.to_owned(),
            amount_msat,
            settled: false,
        };
        assert(entry@ == new_pending(preimage@, view.bolt11@, millicredits, account@, amount_sats));
        self.put_entry(ph.as_str(), entry);
        proof {
            use_type_invariant(&*self);
        }
        Ok(view)
    }

    /// Issues an invoice: a random 32-byte preimage, its SHA-256 as payment hash and as payment
    /// secret the preimage, a BOLT11 invoice on regtest described `keel millicredit mint`, for
    /// the satoshis times 1000 (at least 1000) millisatoshis, with a final CLTV delta of 144,
    /// signed with the book's key. The invoice is read back and filed as `file_invoice` says. A
    /// failure of the random source or of the builder is returned as its text, with the book as
    /// it was.
    pub fn create_invoice(&mut self, account: &str, millicredits: i64, amount_sats: u64) -> (r: Result<PayIntentView, String>)
        ensures
            book_wf(final(self).entries()),
            r is Err ==> final(self).entries() == old(self).entries(),
            r matches Ok(v) ==> exists|pre: Seq<u8>, built: Seq<char>| {
                &&& pre.len() == 32
                &&& bolt11_reencoded(built) == Ok::<Seq<char>, Seq<char>>(v.bolt11@)
                &&& bolt11_fields(v.bolt11@) == Some(issued_fields(pre, amount_sats))
                &&& "lnbcrt"@.is_prefix_of(v.bolt11@)
                &&& intent_view_of(v, pre, millicredits, amount_sats)
                &&& final(self).entries() == filed(old(self).entries(), new_pending(pre, v.bolt11@, millicredits, account@, amount_sats))
            },
    {
        proof {
            use_type_invariant(&*self);
        }
        let preimage = random_bytes_32()?;
        let payment_hash = sha256(preimage.as_slice());
        let amount_msat: u64 = if amount_sats > u64::MAX / 1000 {
            u64::MAX
        } else if amount_sats < 1 {
            1000
        } else {
            amount_sats * 1000
        };
        let built = bolt11_build(
            InvoiceNetwork::Regtest,
            "keel millicredit mint",
            amount_msat,
            &payment_hash,
            &preimage,
            144,
            &self.key,
        )?;
        let parsed = bolt11_reencode(built.as_str());
        let r = self.file_invoice(account, millicredits, amount_sats, preimage, parsed);
        proof {
            if r is Ok {
                let v = r->Ok_0;
                assert(bolt11_reencoded(built@) == Ok::<Seq<char>, Seq<char>>(v.bolt11@));
                reveal_strlit("keel millicredit mint");
                assert(amount_msat == invoice_msat(amount_sats));
                assert(bolt11_fields(v.bolt11@) == Some(issued_fields(preimage@, amount_sats)));
                reveal_strlit("lnbcrt");
                assert("lnbcrt"@.is_prefix_of(v.bolt11@));
                assert(intent_view_of(v, preimage@, millicredits, amount_sats));
                assert(preimage@.len() == 32);
                assert(self.entries() == filed(old(self).entries(), new_pending(preimage@, v.bolt11@, millicredits, account@, amount_sats)));
            }
        }
        r
    }

    /// Issues the invoice for a payment intent: for its mint account (in hex), its credits and
    /// its amount in satoshis.
    pub fn create_intent(&mut self, intent: &PaymentIntent) -> (r: Result<PayIntentView, String>)
        ensures
            book_wf(final(self).entries()),
            r is Err ==> final(self).entries() == old(self).entries(),
            r matches Ok(v) ==> exists|pre: Seq<u8>, built: Seq<char>| {
                &&& pre.len() == 32
                &&& bolt11_reencoded(built) == Ok::<Seq<char>, Seq<char>>(v.bolt11@)
                &&& bolt11_fields(v.bolt11@) == Some(issued_fields(pre, intent.amount_atomic))
                &&& "lnbcrt"@.is_prefix_of(v.bolt11@)
                &&& intent_view_of(v, pre, intent.millicredits_on_confirm.0, intent.amount_atomic)
                &&& final(self).entries() == filed(
                    old(self).entries(),
                    new_pending(pre, v.bolt11@, intent.millicredits_on_confirm.0, hex_lower(intent.mint_account.0@), intent.amount_atomic),
                )
            },
    {
        let account = intent.mint_account.to_hex();
        self.create_invoice(account.as_str(), intent.millicredits_on_confirm.0, intent.amount_atomic)
    }

    /// Marks an invoice paid, as an incoming HTLC does: the preimage (hex) must be 32 bytes whose
    /// SHA-256 is the payment hash (hex), and the book must hold that hash. Returns the paid
    /// invoice; on an error the book is left as it was.
    pub fn settle(&mut self, payment_hash: &str, preimage_hex: &str) -> (r: Result<PendingInvoice, String>)
        ensures
            book_wf(final(self).entries()),
            match settle_outcome(old(self).entries(), payment_hash@, preimage_hex@) {
                Ok(i) => r matches Ok(inv) && inv@ == settled_view(old(self).entries()[i])
                    && final(self).entries() == old(self).entries().update(i, inv@),
                Err(m) => r matches Err(e) && e@ == m && final(self).entries() == old(self).entries(),
            },
    {
        proof {
            use_type_invariant(&*self);
        }
        let preimage = hex_decode(preimage_hex)?;
        if preimage.len() != 32 {
            return Err(String::from_str("preimage must be 32 bytes"));
        }
        let expect = sha256(preimage.as_slice());
        let want = hex_decode(payment_hash)?;
        let mut same = expect.len() == want.len();
        let mut k: usize = 0;
        while same && k < 32
            invariant
                expect@.len() == 32,
                same ==> want@.len() == 32,
                k <= 32,
                same ==> forall|j: int| 0 <= j < k ==> expect@[j] == want@[j],
                !same ==> expect@ != want@,
            decreases 32 - k,
        {
            if expect[k] != want[k] {
                same = false;
            }
            k = k + 1;
        }
        if !same {
            return Err(String::from_str("preimage does not match payment_hash"));
        }
        assert(expect@ =~= want@);
        let i = match self.position(payment_hash) {
            Some(i) => i,
            None => {
                return Err(String::from_str("unknown invoice"));
            },
        };
        let ghost old_es = self.entries();
        let mut pending: Vec<PendingInvoice> = Vec::new();
        std::mem::swap(&mut pending, &mut self.pending);
        assert(pending@.map_values(|p: PendingInvoice| p@) == old_es);
        let mut inv = pending[i].copy();
        inv.settled = true;
        pending.set(i, inv.copy());
        assert(pending@.map_values(|p: PendingInvoice| p@) =~= old_es.update(i as int, inv@));
        proof {
            law_settled_invoice_reads_paid(old_es, payment_hash@, i as int);
        }
        std::mem::swap(&mut pending, &mut self.pending);
        Ok(inv)
    }
}

impl Default for LightningBook {
    fn default() -> (r: Self)
        ensures
            r.entries() == Seq::<PendingView>::empty(),
    {
        Self::new()
    }
}

/// Settles a payment with the in-process book: the invoice's account and credits, or the book's
/// refusal as a conflict.
pub fn book_settlement(book: &mut LightningBook, payment_hash: &str, preimage_hex: &str) -> (r: Result<(String, i64), NodeError>)
    ensures
        book_wf(final(book).entries()),
        match settle_outcome(old(book).entries(), payment_hash@, preimage_hex@) {
            Ok(i) => r matches Ok((account, credits)) && account@ == old(book).entries()[i].account
                && credits == old(book).entries()[i].millicredits
                && final(book).entries() == old(book).entries().update(i, settled_view(old(book).entries()[i])),
            Err(m) => r matches Err(NodeError::Conflict(t)) && t@ == m && final(book).entries() == old(book).entries(),
        },
{
    match book.settle(payment_hash, preimage_hex) {
        Ok(inv) => Ok((inv.account, inv.millicredits)),
        Err(m) => Err(NodeError::Conflict(m)),
    }
}

/// Settles a payment that LND holds: it must report the invoice paid, and the node must have
/// recorded the intent (`intent` is its account and credits).
pub fn lnd_settlement(settled: bool, intent: Option<(String, i64)>, payment_hash: &str) -> (r: Result<(String, i64), NodeError>)
    ensures
        !settled ==> (r matches Err(NodeError::Conflict(t)) && t@ == "lnd invoice not settled"@),
        settled ==> match intent {
            Some((a, c)) => r matches Ok((a2, c2)) && a2@ == a@ && c2 == c,
            None => r matches Err(NodeError::NotFound(t)) && t@ == payment_hash@,
        },
{
    if !settled {
        return Err(NodeError::Conflict(String::from_str("lnd invoice not settled")));
    }
    match intent {
        Some(row) => Ok(row),
        None => Err(NodeError::NotFound(payment_hash.to_owned())),
    }
}

} // verus!
