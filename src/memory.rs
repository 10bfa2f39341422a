//! Code memory: the page range a patch must unprotect, and a model of memory
//! as a map from addresses to bytes in which patches are stated.
use vstd::prelude::*;
use crate::bytes::{from_le32, le32};

verus! {

/// The page-aligned range covering `[address, address + len)`: its start and
/// its length in bytes.
pub fn protect_range_start_len(address: usize, len: usize, page_size: usize) -> (r: (usize, usize))
    requires
        page_size > 0,
        len > 0,
        address + len - 1 + page_size <= usize::MAX,
    ensures
        r.0 == address - address % page_size,
        r.0 + r.1 == (address + len - 1) - (address + len - 1) % (page_size as int) + page_size,
        r.0 % page_size == 0,
        r.1 % page_size == 0,
        r.0 <= address,
        address + len <= r.0 + r.1,
{
    proof {
        vstd::arithmetic::div_mod::lemma_mod_decreases(address as nat, page_size as nat);
        vstd::arithmetic::div_mod::lemma_mod_decreases(
            (address + len - 1) as nat,
            page_size as nat,
        );
    }
    let start = address - address % page_size;
    let end_inclusive = address + len - 1;
    let end_page = end_inclusive - end_inclusive % page_size;
    assert(end_inclusive % page_size < page_size);
    assert(start <= end_page) by {
        assert(address / page_size <= end_inclusive / page_size) by {
            vstd::arithmetic::div_mod::lemma_div_is_ordered(
                address as int,
                end_inclusive as int,
                page_size as int,
            );
        }
        vstd::arithmetic::div_mod::lemma_fundamental_div_mod(address as int, page_size as int);
        vstd::arithmetic::div_mod::lemma_fundamental_div_mod(end_inclusive as int, page_size as int);
        vstd::arithmetic::mul::lemma_mul_inequality(
            address as int / page_size as int,
            end_inclusive as int / page_size as int,
            page_size as int,
        );
        vstd::arithmetic::mul::lemma_mul_is_commutative(
            address as int / page_size as int,
            page_size as int,
        );
        vstd::arithmetic::mul::lemma_mul_is_commutative(
            end_inclusive as int / page_size as int,
            page_size as int,
        );
    }
    let total = (end_page + page_size) - start;
    proof {
        vstd::arithmetic::div_mod::lemma_fundamental_div_mod(address as int, page_size as int);
        vstd::arithmetic::div_mod::lemma_fundamental_div_mod(end_inclusive as int, page_size as int);
        vstd::arithmetic::div_mod::lemma_mod_multiples_basic(
            address as int / page_size as int,
            page_size as int,
        );
        vstd::arithmetic::div_mod::lemma_mod_multiples_basic(
            end_inclusive as int / page_size as int + 1 - address as int / page_size as int,
            page_size as int,
        );
        vstd::arithmetic::mul::lemma_mul_is_distributive_sub_other_way(
            page_size as int,
            end_inclusive as int / page_size as int + 1,
            address as int / page_size as int,
        );
        vstd::arithmetic::mul::lemma_mul_is_distributive_add_other_way(
            page_size as int,
            end_inclusive as int / page_size as int,
            1,
        );
    }
    (start, total)
}

/// Whether every byte of `[address, address + len)` is mapped in `mem`.
pub open spec fn mapped(mem: Map<int, u8>, address: int, len: nat) -> bool {
    forall|k: int| address <= k < address + len ==> #[trigger] mem.dom().contains(k)
}

/// The `len` bytes at `address`.
pub open spec fn read_at(mem: Map<int, u8>, address: int, len: nat) -> Seq<u8> {
    Seq::new(len, |i: int| mem[address + i])
}

/// `mem` with `bytes` written at `address`.
pub open spec fn write_at(mem: Map<int, u8>, address: int, bytes: Seq<u8>) -> Map<int, u8> {
    Map::new(
        |k: int| mem.dom().contains(k),
        |k: int|
            if address <= k < address + bytes.len() {
                bytes[k - address]
            } else {
                mem[k]
            },
    )
}

/// Writing `bytes` at `address` and then writing back the bytes that the first
/// write replaced leaves memory bit-identical to what it was.
pub proof fn lemma_patch_round_trip(mem: Map<int, u8>, address: u64, bytes: Seq<u8>)
    requires
        mapped(mem, address as int, bytes.len()),
    ensures
        write_at(
            write_at(mem, address as int, bytes),
            address as int,
            read_at(mem, address as int, bytes.len()),
        ) == mem,
{
    let back = write_at(
        write_at(mem, address as int, bytes),
        address as int,
        read_at(mem, address as int, bytes.len()),
    );
    assert forall|k: int| #[trigger] back.dom().contains(k) implies back[k] == mem[k] by {
        if address <= k < address + bytes.len() {
            assert(read_at(mem, address as int, bytes.len())[k - address] == mem[k]);
        }
    }
    assert(back =~= mem);
}

/// Patching the word `new_opcode` in at `address`, and then patching back the
/// original opcode that the first patch returned, restores the four bytes there
/// bit for bit.
pub proof fn lemma_patchcode_round_trip(mem: Map<int, u8>, address: u64, new_opcode: u32)
    requires
        mapped(mem, address as int, 4),
    ensures
        write_at(
            write_at(mem, address as int, le32(new_opcode)),
            address as int,
            le32(from_le32(read_at(mem, address as int, 4))),
        ) == mem,
{
    crate::bytes::lemma_from_le32_round_trip(read_at(mem, address as int, 4));
    lemma_patch_round_trip(mem, address, le32(new_opcode));
}

} // verus!
