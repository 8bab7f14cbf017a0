//! An IPv4 subnet as the address space of a peer search. Addresses are
//! 32-bit numbers in host order: `192.168.1.5` is `0xC0A8_0105`.

use vstd::prelude::*;
use vstd::arithmetic::power2::{pow2, lemma_pow2_pos, lemma_pow2_unfold, lemma_pow2_adds};

verus! {

/// The number of addresses there are in all: `2^32`.
pub open spec fn address_space() -> nat {
    0x1_0000_0000
}

/// The number of addresses in a subnet with this prefix length:
/// `2^(32 - prefix)`.
pub open spec fn subnet_size(prefix: u8) -> nat
    recommends
        prefix <= 32,
{
    pow2((32 - prefix) as nat)
}

/// The first address of the subnet that `host` lies in: `host` with its
/// host bits cleared.
pub open spec fn network_base(host: u32, prefix: u8) -> int
    recommends
        prefix <= 32,
{
    host - (host as int) % (subnet_size(prefix) as int)
}

/// The netmask of a prefix length: every network bit set, every host bit
/// clear.
pub open spec fn netmask_spec(prefix: u8) -> u32
    recommends
        prefix <= 32,
{
    (address_space() - subnet_size(prefix)) as u32
}

/// A network interface of the host: its address and prefix length.
#[derive(Clone, Copy, Debug, PartialEq, Eq, Structural)]
pub struct Interface {
    pub address: u32,
    pub prefix: u8,
}

/// A base address and a prefix length.
#[derive(Clone, Copy, Debug, PartialEq, Eq, Structural)]
pub struct Subnet {
    base: u32,
    prefix: u8,
}

/// The index of the first interface that has the address `local` and a
/// prefix length of at most 32, or the number of interfaces if none has.
pub open spec fn first_match(interfaces: Seq<Interface>, local: u32) -> int
    decreases interfaces.len(),
{
    if interfaces.len() == 0 {
        0
    } else if interfaces[0].address == local && interfaces[0].prefix <= 32 {
        0
    } else {
        1 + first_match(interfaces.skip(1), local)
    }
}

/// The size of a subnet is positive, divides the address space, and for a
/// prefix of `p` bits is `2^32 / 2^p`.
pub proof fn lemma_subnet_size(prefix: u8)
    requires
        prefix <= 32,
    ensures
        0 < subnet_size(prefix) <= address_space(),
        subnet_size(prefix) * pow2(prefix as nat) == address_space(),
        pow2(prefix as nat) > 0,
{
    lemma_pow2_pos((32 - prefix) as nat);
    lemma_pow2_pos(prefix as nat);
    lemma_pow2_adds((32 - prefix) as nat, prefix as nat);
    vstd::arithmetic::power2::lemma2_to64();
    let s = subnet_size(prefix) as int;
    let m = pow2(prefix as nat) as int;
    assert(s * m == 0x1_0000_0000);
    assert(s <= s * m) by (nonlinear_arith)
        requires
            s > 0,
            m > 0,
    ;
}

/// Clearing the host bits of an address gives a multiple of the subnet
/// size, at most the address, with the whole subnet inside the address
/// space.
pub proof fn lemma_network_base(host: u32, prefix: u8)
    requires
        prefix <= 32,
    ensures
        0 <= network_base(host, prefix) <= host,
        host < network_base(host, prefix) + subnet_size(prefix) <= address_space(),
        network_base(host, prefix) % (subnet_size(prefix) as int) == 0,
{
    lemma_subnet_size(prefix);
    let s = subnet_size(prefix) as int;
    let m = pow2(prefix as nat) as int;
    let h = host as int;
    let q = h / s;
    assert(h == s * q + h % s && 0 <= h % s < s) by (nonlinear_arith)
        requires
            s > 0,
            q == h / s,
    ;
    assert(q + 1 <= m && q >= 0) by (nonlinear_arith)
        requires
            s > 0,
            h >= 0,
            h < s * m,
            h == s * q + h % s,
            0 <= h % s < s,
    ;
    assert(s * q + s <= s * m) by (nonlinear_arith)
        requires
            s > 0,
            q + 1 <= m,
    ;
    assert((s * q) % s == 0) by (nonlinear_arith)
        requires
            s > 0,
    ;
}

impl Subnet {
    /// The first address of the subnet.
    pub closed spec fn base_spec(&self) -> u32 {
        self.base
    }

    /// The prefix length.
    pub closed spec fn prefix_spec(&self) -> u8 {
        self.prefix
    }

    /// The number of addresses in the subnet.
    pub open spec fn size_spec(&self) -> nat {
        subnet_size(self.prefix_spec())
    }

    /// A subnet has a prefix length of at most 32 and a base address with
    /// no host bit set.
    pub open spec fn wf(&self) -> bool {
        &&& self.prefix_spec() <= 32
        &&& (self.base_spec() as int) % (self.size_spec() as int) == 0
        &&& self.base_spec() + self.size_spec() <= address_space()
    }

    /// The address at `offset` from the base.
    pub open spec fn address_at_spec(&self, offset: nat) -> int {
        self.base_spec() + offset
    }

    /// Whether `address` lies in the subnet.
    pub open spec fn contains_spec(&self, address: u32) -> bool {
        self.base_spec() <= address < self.base_spec() + self.size_spec()
    }

    /// The subnet with this prefix length that `host` lies in, or `None`
    /// if the prefix length is above 32. Its base is the host's address
    /// masked with the netmask of the prefix length.
    pub fn containing(host: u32, prefix: u8) -> (subnet: Option<Subnet>)
        ensures
            prefix > 32 ==> subnet is None,
            prefix <= 32 ==> (match subnet {
                Some(s) => s.wf() && s.prefix_spec() == prefix && s.base_spec() == network_base(
                    host,
                    prefix,
                ) && s.base_spec() == host & netmask_spec(prefix) && s.contains_spec(host),
                None => false,
            }),
    {
        if prefix > 32 {
            return None;
        }
        let size: u64 = size_of_prefix(prefix);
        proof {
            lemma_network_base(host, prefix);
            lemma_base_is_masked_host(host, prefix);
        }
        let rest: u64 = (host as u64) % size;
        let base: u32 = ((host as u64) - rest) as u32;
        Some(Subnet { base, prefix })
    }

    /// The subnet of the interface that carries the host's local address:
    /// the first of `interfaces` whose address is `local`, or `None` if no
    /// interface has that address with a prefix length of at most 32.
    pub fn of_local_interface(interfaces: &[Interface], local: u32) -> (subnet: Option<Subnet>)
        ensures
            0 <= first_match(interfaces@, local) <= interfaces@.len(),
            first_match(interfaces@, local) == interfaces@.len() ==> subnet is None,
            first_match(interfaces@, local) < interfaces@.len() ==> (match subnet {
                Some(s) => s.wf() && s.prefix_spec() == interfaces@[first_match(
                    interfaces@,
                    local,
                )].prefix && s.base_spec() == network_base(local, s.prefix_spec())
                    && s.contains_spec(local),
                None => false,
            }),
    {
        let mut i: usize = 0;
        assert(interfaces@.skip(0) =~= interfaces@);
        while i < interfaces.len()
            invariant
                i <= interfaces@.len(),
                first_match(interfaces@, local) == i + first_match(
                    interfaces@.skip(i as int),
                    local,
                ),
            decreases interfaces.len() - i,
        {
            let candidate = interfaces[i];
            proof {
                let tail = interfaces@.skip(i as int);
                assert(tail[0] == interfaces@[i as int]);
                assert(tail.skip(1) =~= interfaces@.skip(i + 1));
            }
            if candidate.address == local && candidate.prefix <= 32 {
                return Subnet::containing(local, candidate.prefix);
            }
            i = i + 1;
        }
        None
    }

    /// The first address of the subnet.
    pub fn base(&self) -> (base: u32)
        ensures
            base == self.base_spec(),
    {
        self.base
    }

    /// The prefix length.
    pub fn prefix(&self) -> (prefix: u8)
        ensures
            prefix == self.prefix_spec(),
    {
        self.prefix
    }

    /// The number of addresses in the subnet, its own base and broadcast
    /// addresses included.
    pub fn size(&self) -> (size: u64)
        requires
            self.wf(),
        ensures
            size == self.size_spec(),
            0 < size <= address_space(),
    {
        size_of_prefix(self.prefix)
    }

    /// The address at `offset` from the base, or `None` if the offset is
    /// outside the subnet.
    pub fn address_at(&self, offset: u64) -> (address: Option<u32>)
        requires
            self.wf(),
        ensures
            offset < self.size_spec() ==> address == Some(
                self.address_at_spec(offset as nat) as u32,
            ) && self.address_at_spec(offset as nat) <= u32::MAX,
            offset >= self.size_spec() ==> address is None,
    {
        let size: u64 = size_of_prefix(self.prefix);
        if offset < size {
            Some(((self.base as u64) + offset) as u32)
        } else {
            None
        }
    }

    /// Whether `address` lies in the subnet.
    pub fn contains(&self, address: u32) -> (inside: bool)
        requires
            self.wf(),
        ensures
            inside == self.contains_spec(address),
    {
        let size: u64 = size_of_prefix(self.prefix);
        address >= self.base && ((address - self.base) as u64) < size
    }
}

/// The number of addresses in a subnet with this prefix length.
fn size_of_prefix(prefix: u8) -> (size: u64)
    requires
        prefix <= 32,
    ensures
        size == subnet_size(prefix),
        0 < size <= address_space(),
{
    let bits: u8 = 32 - prefix;
    let mut size: u64 = 1;
    let mut k: u8 = 0;
    proof {
        vstd::arithmetic::power2::lemma2_to64();
    }
    while k < bits
        invariant
            k <= bits <= 32,
            size == pow2(k as nat),
            size <= pow2(32),
            pow2(32) == 0x1_0000_0000,
        decreases bits - k,
    {
        proof {
            lemma_pow2_unfold((k + 1) as nat);
            if k + 1 < 32 {
                vstd::arithmetic::power2::lemma_pow2_strictly_increases((k + 1) as nat, 32);
            }
        }
        size = size * 2;
        k = k + 1;
    }
    size
}

/// The netmask of a prefix length: the address with every network bit set
/// and every host bit clear. `None` if the prefix length is above 32.
pub fn netmask(prefix: u8) -> (mask: Option<u32>)
    ensures
        prefix > 32 ==> mask is None,
        prefix <= 32 ==> mask == Some(netmask_spec(prefix)) && netmask_spec(prefix)
            == address_space() - subnet_size(prefix),
{
    if prefix > 32 {
        return None;
    }
    let size: u64 = size_of_prefix(prefix);
    Some((0x1_0000_0000u64 - size) as u32)
}

/// The base of the subnet that a host lies in is the host's address
/// masked with the netmask.
pub proof fn lemma_base_is_masked_host(host: u32, prefix: u8)
    requires
        prefix <= 32,
    ensures
        network_base(host, prefix) == host & netmask_spec(prefix),
{
    lemma_subnet_size(prefix);
    let k: u64 = (32 - prefix) as u64;
    let size: u64 = subnet_size(prefix) as u64;
    let wide: u64 = host as u64;
    vstd::bits::lemma_u64_shl_is_mul(1, k);
    assert(size == 1u64 << k);
    let quotient: u64 = wide >> k;
    let cleared: u64 = quotient << k;
    assert((host & ((0x1_0000_0000u64 - size) as u32)) as u64 == cleared && cleared <= wide && wide
        - cleared < size && quotient <= wide) by (bit_vector)
        requires
            k <= 32,
            size == 1u64 << k,
            wide == host as u64,
            quotient == wide >> k,
            cleared == quotient << k,
    ;
    assert(quotient * size <= 0xFFFF_FFFF * 0x1_0000_0000) by (nonlinear_arith)
        requires
            quotient <= 0xFFFF_FFFF,
            size <= 0x1_0000_0000,
    ;
    vstd::bits::lemma_u64_shl_is_mul(quotient, k);
    assert(cleared == quotient * size);
    vstd::arithmetic::div_mod::lemma_fundamental_div_mod_converse(
        wide as int,
        size as int,
        quotient as int,
        wide - cleared,
    );
}

/// An address lies in a subnet exactly if clearing its host bits gives the
/// subnet's base.
pub proof fn lemma_contains_iff_same_base(subnet: Subnet, address: u32)
    requires
        subnet.wf(),
    ensures
        subnet.contains_spec(address) <==> network_base(address, subnet.prefix_spec())
            == subnet.base_spec(),
{
    lemma_subnet_size(subnet.prefix_spec());
    lemma_network_base(address, subnet.prefix_spec());
    let s = subnet.size_spec() as int;
    let b = subnet.base_spec() as int;
    let a = address as int;
    let nb = network_base(address, subnet.prefix_spec());
    if subnet.contains_spec(address) {
        assert(nb == b) by (nonlinear_arith)
            requires
                s > 0,
                b % s == 0,
                nb % s == 0,
                b <= a < b + s,
                nb <= a < nb + s,
        ;
    }
}

/// The offsets below the subnet's size and the addresses of the subnet
/// correspond one to one: every offset gives an address inside, distinct
/// offsets give distinct addresses, and every address inside is the one at
/// its distance from the base.
pub proof fn lemma_offsets_cover_subnet(subnet: Subnet)
    requires
        subnet.wf(),
    ensures
        forall|offset: nat|
            offset < subnet.size_spec() ==> 0 <= #[trigger] subnet.address_at_spec(offset)
                <= u32::MAX && subnet.contains_spec(subnet.address_at_spec(offset) as u32),
        forall|a: nat, b: nat|
            subnet.address_at_spec(a) == subnet.address_at_spec(b) ==> a == b,
        forall|address: u32| #[trigger]
            subnet.contains_spec(address) ==> address - subnet.base_spec() < subnet.size_spec()
                && subnet.address_at_spec((address - subnet.base_spec()) as nat) == address,
{
}

} // verus!
