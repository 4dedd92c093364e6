//! Control block location.
//!
//! Firmware that carries the trace ring buffer exports its address under the
//! symbol `_SEGGER_RTT`. Given an optional firmware image, the locator reads
//! the image's symbol table and resolves that symbol to an exact 32-bit
//! address. Every failure on this path is soft: the locator reports it and
//! yields no hint, and the attacher falls back to a memory scan.

use object::{Object, ObjectSymbol};
use vstd::prelude::*;

verus! {

/// One entry of a firmware image's symbol table: the symbol's raw name
/// bytes and its link address.
pub struct SymbolEntry {
    pub name: Vec<u8>,
    pub address: u64,
}

/// Where the trace control block is expected in target RAM.
#[derive(Clone, Copy, Debug, PartialEq, Eq)]
pub enum ControlBlockHint {
    /// No usable hint: the attacher must fall back to a memory scan.
    Unknown,
    /// The control block sits exactly at this address.
    ExactAddress(u32),
}

/// Why symbol resolution yielded no address. All of these are soft failures:
/// the locator reports them and the collector goes on without a hint.
#[derive(Clone, Copy, Debug, PartialEq, Eq)]
pub enum SymbolFault {
    /// The image bytes could not be parsed as an object file.
    ImageUnparseable,
    /// The image has no symbol with the expected name.
    SymbolMissing,
    /// The symbol's link address does not fit a 32-bit address.
    AddressNot32Bit,
}

/// The name the firmware exports at the control block: `_SEGGER_RTT`.
pub open spec fn rtt_symbol_name() -> Seq<u8> {
    seq![0x5f, 0x53, 0x45, 0x47, 0x47, 0x45, 0x52, 0x5f, 0x52, 0x54, 0x54]
}

/// The name bytes and address of each entry, as the contracts speak of them.
pub open spec fn symbol_views(entries: Seq<SymbolEntry>) -> Seq<(Seq<u8>, u64)> {
    entries.map(|i: int, e: SymbolEntry| (e.name@, e.address))
}

/// The symbol table the `object` crate reads from the given image bytes:
/// each symbol's name bytes and link address, in iteration order, or `None`
/// when the bytes do not parse as an object file.
pub uninterp spec fn image_symbols(data: Seq<u8>) -> Option<Seq<(Seq<u8>, u64)>>;

/// Relies on `object::File::parse` and the symbol-table accessors of
/// `object` (`symbols`, `name_bytes`, `address`): parsing either fails or
/// yields the image's symbol table, and both depend on the image bytes
/// alone. A symbol whose name bytes are unreadable keeps an empty name here
/// and so matches nothing.
#[verifier::external_body]
fn parse_symbol_table(data: &[u8]) -> (r: Option<Vec<SymbolEntry>>)
    ensures
        r is Some <==> image_symbols(data@) is Some,
        r matches Some(v) ==> image_symbols(data@) matches Some(syms) && symbol_views(v@)
            == syms,
{
    let file = match object::File::parse(data) {
        Ok(f) => f,
        Err(_) => return None,
    };
    let mut out = Vec::new();
    for sym in file.symbols() {
        let name = sym.name_bytes().unwrap_or(&[]).to_vec();
        out.push(SymbolEntry { name, address: sym.address() });
    }
    Some(out)
}

/// True exactly when `name` spells `_SEGGER_RTT`.
fn is_rtt_symbol_name(name: &[u8]) -> (r: bool)
    ensures
        r == (name@ == rtt_symbol_name()),
{
    if name.len() != 11 {
        return false;
    }
    let r = name[0] == 0x5f && name[1] == 0x53 && name[2] == 0x45 && name[3] == 0x47 && name[4]
        == 0x47 && name[5] == 0x45 && name[6] == 0x52 && name[7] == 0x5f && name[8] == 0x52
        && name[9] == 0x54 && name[10] == 0x54;
    proof {
        if r {
            assert(name@ =~= rtt_symbol_name());
        }
    }
    r
}

/// Index of the first symbol named `_SEGGER_RTT`, or `syms.len()` if none.
pub open spec fn first_rtt_symbol(syms: Seq<(Seq<u8>, u64)>) -> int
    decreases syms.len(),
{
    if syms.len() == 0 {
        0
    } else if syms[0].0 == rtt_symbol_name() {
        0
    } else {
        1 + first_rtt_symbol(syms.drop_first())
    }
}

/// `first_rtt_symbol` points at the first matching symbol, or at the end
/// when there is none.
pub proof fn lemma_first_rtt_symbol(syms: Seq<(Seq<u8>, u64)>)
    ensures
        0 <= first_rtt_symbol(syms) <= syms.len(),
        first_rtt_symbol(syms) < syms.len() ==> syms[first_rtt_symbol(syms)].0
            == rtt_symbol_name(),
        forall|j: int| 0 <= j < first_rtt_symbol(syms) ==> syms[j].0 != rtt_symbol_name(),
    decreases syms.len(),
{
    if syms.len() == 0 {
    } else if syms[0].0 == rtt_symbol_name() {
    } else {
        lemma_first_rtt_symbol(syms.drop_first());
        assert forall|j: int| 0 <= j < first_rtt_symbol(syms) implies syms[j].0
            != rtt_symbol_name() by {
            if j >= 1 {
                assert(syms[j] == syms.drop_first()[j - 1]);
            }
        }
    }
}

/// What resolution yields on a parsed symbol table: the first symbol named
/// `_SEGGER_RTT`, whose link address must fit 32 bits.
pub open spec fn resolution_of(syms: Seq<(Seq<u8>, u64)>) -> Result<u32, SymbolFault> {
    let i = first_rtt_symbol(syms);
    if i == syms.len() {
        Err(SymbolFault::SymbolMissing)
    } else if syms[i].1 > u32::MAX {
        Err(SymbolFault::AddressNot32Bit)
    } else {
        Ok(syms[i].1 as u32)
    }
}

fn find_rtt_symbol(entries: &Vec<SymbolEntry>) -> (r: Option<usize>)
    ensures
        match r {
            Some(k) => k < entries@.len() && first_rtt_symbol(symbol_views(entries@)) == k,
            None => first_rtt_symbol(symbol_views(entries@)) == entries@.len() as int,
        },
{
    let ghost syms = symbol_views(entries@);
    proof {
        lemma_first_rtt_symbol(syms);
    }
    let n = entries.len();
    let mut k: usize = 0;
    while k < n
        invariant
            k <= n,
            n == entries@.len(),
            syms == symbol_views(entries@),
            forall|j: int| 0 <= j < k ==> syms[j].0 != rtt_symbol_name(),
            0 <= first_rtt_symbol(syms) <= syms.len(),
            first_rtt_symbol(syms) < syms.len() ==> syms[first_rtt_symbol(syms)].0
                == rtt_symbol_name(),
            forall|j: int| 0 <= j < first_rtt_symbol(syms) ==> syms[j].0 != rtt_symbol_name(),
        decreases n - k,
    {
        if is_rtt_symbol_name(entries[k].name.as_slice()) {
            proof {
                assert(syms[k as int].0 == rtt_symbol_name());
            }
            return Some(k);
        }
        proof {
            assert(syms[k as int].0 == entries@[k as int].name@);
        }
        k += 1;
    }
    None
}

/// Resolve the control block address from a parsed symbol table.
pub fn resolve_symbols(entries: &Vec<SymbolEntry>) -> (r: Result<u32, SymbolFault>)
    ensures
        r == resolution_of(symbol_views(entries@)),
{
    proof {
        lemma_first_rtt_symbol(symbol_views(entries@));
    }
    match find_rtt_symbol(entries) {
        None => Err(SymbolFault::SymbolMissing),
        Some(k) => {
            let address = entries[k].address;
            if address > 0xffff_ffff {
                Err(SymbolFault::AddressNot32Bit)
            } else {
                Ok(address as u32)
            }
        },
    }
}

/// Resolve the control block hint from an optional firmware image. An
/// absent image, an unparseable image, a missing symbol and an oversized
/// address all yield `Unknown` together with the fault to log; none of
/// them stops the collector.
pub fn locate_control_block(image: Option<&Vec<u8>>) -> (r: (
    ControlBlockHint,
    Option<SymbolFault>,
))
    ensures
        match image {
            None => r == (ControlBlockHint::Unknown, None::<SymbolFault>),
            Some(data) => match image_symbols(data@) {
                None => r == (ControlBlockHint::Unknown, Some(SymbolFault::ImageUnparseable)),
                Some(syms) => match resolution_of(syms) {
                    Ok(address) => r == (
                        ControlBlockHint::ExactAddress(address),
                        None::<SymbolFault>,
                    ),
                    Err(fault) => r == (ControlBlockHint::Unknown, Some(fault)),
                },
            },
        },
{
    match image {
        None => (ControlBlockHint::Unknown, None),
        Some(data) => match parse_symbol_table(data.as_slice()) {
            None => (ControlBlockHint::Unknown, Some(SymbolFault::ImageUnparseable)),
            Some(entries) => match resolve_symbols(&entries) {
                Ok(address) => (ControlBlockHint::ExactAddress(address), None),
                Err(fault) => (ControlBlockHint::Unknown, Some(fault)),
            },
        },
    }
}

} // verus!
