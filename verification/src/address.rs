//! Networks, address kinds, and the address values that transaction
//! outputs pay to. Derivation and parsing of the two address forms live
//! here as well; the bech32 character-level encoding is in `segwit`.
use vstd::prelude::*;
use vstd::string::StringSliceAdditionalSpecFns;
use vstd::string::StrSliceExecFns;

use crate::errors::WalletError;
use crate::hashes::{checksum4, checksum4_of, hash160, hash160_of};

verus! {

/// The Bitcoin network a key or address belongs to. It selects the legacy
/// version byte and the segwit human-readable prefix.
#[derive(Clone, Copy, Debug, PartialEq, Eq, Structural)]
pub enum Network {
    Mainnet,
    Testnet,
    Regtest,
}

/// The two supported script types.
#[derive(Clone, Copy, Debug, PartialEq, Eq, Structural)]
pub enum AddressKind {
    P2pkh,
    P2wpkh,
}

/// A destination for an output: a legacy pay-to-public-key-hash address or
/// a version-0 pay-to-witness-public-key-hash address, each carrying the
/// 20-byte hash of the public key.
#[derive(Debug)]
pub enum BitcoinAddress {
    P2pkh { pkhash: Vec<u8> },
    P2wpkh { pkhash: Vec<u8> },
}

/// The mathematical model of an address.
#[verifier::ext_equal]
pub enum AddressModel {
    P2pkh { pkhash: Seq<u8> },
    P2wpkh { pkhash: Seq<u8> },
}

impl View for BitcoinAddress {
    type V = AddressModel;

    open spec fn view(&self) -> AddressModel {
        match self {
            BitcoinAddress::P2pkh { pkhash } => AddressModel::P2pkh { pkhash: pkhash@ },
            BitcoinAddress::P2wpkh { pkhash } => AddressModel::P2wpkh { pkhash: pkhash@ },
        }
    }
}

impl AddressModel {
    /// The embedded 20-byte public-key hash.
    pub open spec fn pkhash(self) -> Seq<u8> {
        match self {
            AddressModel::P2pkh { pkhash } => pkhash,
            AddressModel::P2wpkh { pkhash } => pkhash,
        }
    }

    /// The script type of the address.
    pub open spec fn kind(self) -> AddressKind {
        match self {
            AddressModel::P2pkh { .. } => AddressKind::P2pkh,
            AddressModel::P2wpkh { .. } => AddressKind::P2wpkh,
        }
    }

    /// A well-formed address holds exactly a 20-byte hash.
    pub open spec fn wf(self) -> bool {
        self.pkhash().len() == 20
    }
}

impl Clone for BitcoinAddress {
    fn clone(&self) -> (r: Self)
        ensures
            r@ == self@,
    {
        match self {
            BitcoinAddress::P2pkh { pkhash } => BitcoinAddress::P2pkh { pkhash: pkhash.clone() },
            BitcoinAddress::P2wpkh { pkhash } => BitcoinAddress::P2wpkh { pkhash: pkhash.clone() },
        }
    }
}

impl BitcoinAddress {
    /// The script type of the address.
    pub fn kind(&self) -> (k: AddressKind)
        ensures
            k == self@.kind(),
    {
        match self {
            BitcoinAddress::P2pkh { .. } => AddressKind::P2pkh,
            BitcoinAddress::P2wpkh { .. } => AddressKind::P2wpkh,
        }
    }
}

/// The locking script of an address: `OP_DUP OP_HASH160 <hash>
/// OP_EQUALVERIFY OP_CHECKSIG` for legacy, the version-0 witness program
/// for segwit.
pub open spec fn script_pubkey_of(a: AddressModel) -> Seq<u8> {
    match a {
        AddressModel::P2pkh { pkhash } => seq![0x76u8, 0xa9u8, 0x14u8] + pkhash + seq![
            0x88u8,
            0xacu8,
        ],
        AddressModel::P2wpkh { pkhash } => seq![0x00u8, 0x14u8] + pkhash,
    }
}

/// Builds the locking script that pays to this address.
pub fn script_pubkey(a: &BitcoinAddress) -> (r: Vec<u8>)
    ensures
        r@ == script_pubkey_of(a@),
{
    let mut out: Vec<u8> = Vec::new();
    match a {
        BitcoinAddress::P2pkh { pkhash } => {
            out.push(0x76);
            out.push(0xa9);
            out.push(0x14);
            out.extend_from_slice(pkhash.as_slice());
            out.push(0x88);
            out.push(0xac);
        },
        BitcoinAddress::P2wpkh { pkhash } => {
            out.push(0x00);
            out.push(0x14);
            out.extend_from_slice(pkhash.as_slice());
        },
    }
    proof {
        assert(out@ =~= script_pubkey_of(a@));
    }
    out
}

/// The version byte that prefixes a legacy address payload on each network.
pub open spec fn p2pkh_version_byte(network: Network) -> u8 {
    match network {
        Network::Mainnet => 0x00,
        Network::Testnet => 0x6f,
        Network::Regtest => 0x6f,
    }
}

/// The full base58check payload of a legacy address: version byte, 20-byte
/// public-key hash, four checksum bytes.
pub open spec fn p2pkh_payload_of(network: Network, public_key: Seq<u8>) -> Seq<u8> {
    versioned_hash_with_checksum(p2pkh_version_byte(network), hash160_of(public_key))
}

/// A version byte and hash, followed by the checksum over both.
pub open spec fn versioned_hash_with_checksum(version: u8, hash: Seq<u8>) -> Seq<u8> {
    let versioned = seq![version] + hash;
    versioned + checksum4_of(versioned)
}

/// The base58 encoding of a byte string with the Bitcoin alphabet, as
/// computed by the `bs58` crate.
pub uninterp spec fn base58_of(data: Seq<u8>) -> Seq<char>;

/// What the `bs58` crate decodes a string to: the bytes, or nothing when
/// the string is not well-formed base58.
pub uninterp spec fn base58_decode_of(s: Seq<char>) -> Option<Seq<u8>>;

/// Relies on bs58::encode with the default Bitcoin alphabet: the encoded
/// string depends on the input bytes alone.
#[verifier::external_body]
fn base58_encode(data: &Vec<u8>) -> (r: String)
    ensures
        r@ == base58_of(data@),
{
    bs58::encode(data.as_slice()).into_string()
}

/// Relies on bs58::decode with the default Bitcoin alphabet: the decoded
/// bytes depend on the input characters alone, and decoding fails exactly
/// on strings that are not base58.
#[verifier::external_body]
fn base58_decode(s: &str) -> (r: Option<Vec<u8>>)
    ensures
        match r {
            Some(v) => base58_decode_of(s@) == Some(v@),
            None => base58_decode_of(s@) is None,
        },
{
    bs58::decode(s).into_vec().ok()
}

/// Relies on String::from_utf8: bytes below 0x80 are valid UTF-8 and
/// decode to the characters with the same code points.
#[verifier::external_body]
pub fn string_from_ascii(bytes: Vec<u8>) -> (r: String)
    requires
        forall|i: int| 0 <= i < bytes@.len() ==> bytes@[i] < 0x80,
    ensures
        r@.len() == bytes@.len(),
        forall|i: int| 0 <= i < bytes@.len() ==> r@[i] == bytes@[i] as char,
{
    String::from_utf8(bytes).unwrap()
}

/// Derives the legacy pay-to-public-key-hash address of a public key:
/// the base58check encoding of the versioned key hash.
pub fn public_key_to_p2pkh_address(network: Network, public_key: &Vec<u8>) -> (r: String)
    ensures
        r@ == base58_of(p2pkh_payload_of(network, public_key@)),
{
    let pkhash = hash160(public_key);
    let version = match network {
        Network::Mainnet => 0x00u8,
        Network::Testnet => 0x6fu8,
        Network::Regtest => 0x6fu8,
    };
    let mut payload: Vec<u8> = Vec::new();
    payload.push(version);
    payload.extend_from_slice(pkhash.as_slice());
    proof {
        assert(payload@ =~= seq![p2pkh_version_byte(network)] + hash160_of(public_key@));
    }
    let check = checksum4(&payload);
    let mut full = payload;
    full.extend_from_slice(check.as_slice());
    proof {
        assert(full@ =~= p2pkh_payload_of(network, public_key@));
    }
    base58_encode(&full)
}

/// The characters of an ASCII byte string.
pub open spec fn ascii_chars(bytes: Seq<u8>) -> Seq<char> {
    Seq::new(bytes.len(), |i: int| bytes[i] as char)
}

/// Derives the segwit pay-to-witness-public-key-hash address of a public
/// key: the version-0 witness program over the key hash, in the
/// network's address encoding.
pub fn network_and_public_key_to_p2wpkh(network: Network, public_key: &Vec<u8>) -> (r: String)
    ensures
        r@ == ascii_chars(
            crate::segwit::p2wpkh_address_bytes(
                crate::segwit::hrp_bytes(network),
                hash160_of(public_key@),
            ),
        ),
{
    let program = hash160(public_key);
    let bytes = crate::segwit::encode_p2wpkh(network, &program);
    let r = string_from_ascii(bytes);
    proof {
        assert(r@ =~= ascii_chars(
            crate::segwit::p2wpkh_address_bytes(
                crate::segwit::hrp_bytes(network),
                hash160_of(public_key@),
            ),
        ));
    }
    r
}

/// Derives the address of a public key for the requested script type.
pub fn derive_address(network: Network, public_key: &Vec<u8>, kind: AddressKind) -> (r: String)
    ensures
        kind == AddressKind::P2pkh ==> r@ == base58_of(p2pkh_payload_of(network, public_key@)),
        kind == AddressKind::P2wpkh ==> r@ == ascii_chars(
            crate::segwit::p2wpkh_address_bytes(
                crate::segwit::hrp_bytes(network),
                hash160_of(public_key@),
            ),
        ),
{
    match kind {
        AddressKind::P2pkh => public_key_to_p2pkh_address(network, public_key),
        AddressKind::P2wpkh => network_and_public_key_to_p2wpkh(network, public_key),
    }
}

/// What parsing a legacy address string comes to: the base58 decoding
/// must give a 25-byte payload whose version byte matches the network and
/// whose last four bytes are the checksum of the rest.
pub open spec fn p2pkh_parse(chars: Seq<char>, network: Network) -> Option<Seq<u8>> {
    match base58_decode_of(chars) {
        Option::None => None,
        Option::Some(payload) => {
            if payload.len() == 25 && payload[0] == p2pkh_version_byte(network) && payload.skip(21)
                == checksum4_of(payload.take(21)) {
                Some(payload.subrange(1, 21))
            } else {
                None
            }
        },
    }
}

/// Parses an address string for the given network: a version-0 witness
/// address yields a segwit destination, a base58check string with the
/// right version and checksum a legacy one, and anything else is an
/// invalid address.
#[verifier::loop_isolation(false)]
pub fn parse_address(s: &str, network: Network) -> (r: Result<BitcoinAddress, WalletError>)
    ensures
        ({
            let segwit = crate::segwit::p2wpkh_decode(s.spec_bytes(), network);
            let legacy = p2pkh_parse(s@, network);
            match r {
                Ok(a) => a@.wf() && ((a@ is P2wpkh && segwit == Some(a@.pkhash())) || (
                a@ is P2pkh && segwit is None && legacy == Some(a@.pkhash()))),
                Err(e) => e == WalletError::InvalidAddress && segwit is None && legacy is None,
            }
        }),
{
    let bytes = s.as_bytes_vec();
    match crate::segwit::decode_p2wpkh(&bytes, network) {
        Some(program) => {
            return Ok(BitcoinAddress::P2wpkh { pkhash: program });
        },
        None => {},
    }
    let payload = match base58_decode(s) {
        Some(p) => p,
        None => {
            return Err(WalletError::InvalidAddress);
        },
    };
    if payload.len() != 25 {
        return Err(WalletError::InvalidAddress);
    }
    let version = match network {
        Network::Mainnet => 0x00u8,
        Network::Testnet => 0x6fu8,
        Network::Regtest => 0x6fu8,
    };
    if payload[0] != version {
        return Err(WalletError::InvalidAddress);
    }
    let body = copy_range(&payload, 0, 21);
    let check = checksum4(&body);
    proof {
        assert(body@ =~= payload@.take(21));
    }
    let mut i: usize = 0;
    while i < 4
        invariant
            i <= 4,
            check@ == checksum4_of(payload@.take(21)),
            check@.len() == 4,
            payload@.len() == 25,
            forall|m: int| 0 <= m < i ==> payload@[21 + m] == check@[m],
        decreases 4 - i,
    {
        if payload[21 + i] != check[i] {
            proof {
                assert(payload@.skip(21)[i as int] != checksum4_of(payload@.take(21))[i as int]);
            }
            return Err(WalletError::InvalidAddress);
        }
        i = i + 1;
    }
    proof {
        assert(payload@.skip(21) =~= checksum4_of(payload@.take(21)));
    }
    let pkhash = copy_range(&payload, 1, 21);
    proof {
        assert(pkhash@ =~= payload@.subrange(1, 21));
    }
    Ok(BitcoinAddress::P2pkh { pkhash })
}

/// Copies `src[from..to]` into a fresh vector.
fn copy_range(src: &Vec<u8>, from: usize, to: usize) -> (r: Vec<u8>)
    requires
        from <= to <= src@.len(),
    ensures
        r@ == src@.subrange(from as int, to as int),
{
    let mut out: Vec<u8> = Vec::new();
    let mut i: usize = from;
    while i < to
        invariant
            from <= i <= to <= src@.len(),
            out@ == src@.subrange(from as int, i as int),
        decreases to - i,
    {
        out.push(src[i]);
        proof {
            assert(out@ =~= src@.subrange(from as int, i + 1));
        }
        i = i + 1;
    }
    out
}

/// Every derived legacy address payload carries a checksum that
/// independently validates: past the version byte and the key hash, the
/// payload holds exactly the double-SHA-256 checksum of what precedes it.
pub proof fn lemma_p2pkh_payload_checksum(network: Network, public_key: Seq<u8>, hash_len: nat)
    requires
        hash160_of(public_key).len() == hash_len,
    ensures
        ({
            let payload = p2pkh_payload_of(network, public_key);
            payload.skip(hash_len as int + 1) == checksum4_of(payload.take(hash_len as int + 1))
                && payload.take(hash_len as int + 1) == seq![p2pkh_version_byte(network)]
                + hash160_of(public_key)
        }),
{
    let versioned = seq![p2pkh_version_byte(network)] + hash160_of(public_key);
    assert(p2pkh_payload_of(network, public_key).take(hash_len as int + 1) =~= versioned);
    assert(p2pkh_payload_of(network, public_key).skip(hash_len as int + 1) =~= checksum4_of(
        versioned,
    ));
}

/// A derived legacy address independently validates: any string that
/// base58-decodes to the derived payload passes the version and checksum
/// checks of the parser and yields back the key hash. (The hash lengths
/// are those the hashing primitives return at run time.)
pub proof fn lemma_p2pkh_parse_round_trip(chars: Seq<char>, network: Network, public_key: Seq<u8>)
    requires
        base58_decode_of(chars) == Some(p2pkh_payload_of(network, public_key)),
        hash160_of(public_key).len() == 20,
        checksum4_of(seq![p2pkh_version_byte(network)] + hash160_of(public_key)).len() == 4,
    ensures
        p2pkh_parse(chars, network) == Some(hash160_of(public_key)),
{
    let payload = p2pkh_payload_of(network, public_key);
    lemma_p2pkh_payload_checksum(network, public_key, 20);
    assert(payload.len() == 25);
    assert(payload[0] == p2pkh_version_byte(network));
    assert(payload.skip(21) == checksum4_of(payload.take(21)));
    assert(payload.subrange(1, 21) =~= hash160_of(public_key));
}

} // verus!
