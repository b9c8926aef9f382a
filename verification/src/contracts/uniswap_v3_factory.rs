//! Pool discovery against the factory registry.
//!
//! The registry's `getPool(tokenA, tokenB, fee)` view call answers with
//! the pool's address, or the zero address when no such pool exists.
//! Everything around the wire — building the call bytes, reading the
//! returned word, collecting the found pools — is decided here; the
//! caller's transport performs the call itself.

use vstd::prelude::*;
use crate::constants::{
    DEFAULT_FEE_TIER, factory_address, factory_address_bytes, wmon_address,
};
use crate::primitives::Address;
use crate::types::log::DecodeError;

verus! {

/// One contract view call, described in plain values.
#[derive(Debug)]
pub struct CallSpec {
    /// The contract to call.
    pub to: Address,
    /// The ABI-encoded call bytes.
    pub calldata: Vec<u8>,
}

/// A run of `n` zero bytes.
pub open spec fn zero_bytes(n: nat) -> Seq<u8> {
    Seq::new(n, |i: int| 0u8)
}

/// The ABI encoding of `getPool(tokenA, tokenB, fee)`: the four
/// selector bytes, then each argument right-aligned in its own
/// 32-byte word.
pub open spec fn spec_get_pool_calldata(token_a: Seq<u8>, token_b: Seq<u8>, fee: u32) -> Seq<u8> {
    seq![0x16u8, 0x98, 0xee, 0x82] + zero_bytes(12) + token_a + zero_bytes(12) + token_b
        + zero_bytes(29) + seq![
        (fee / 0x1_0000) as u8,
        ((fee / 0x100) % 0x100) as u8,
        (fee % 0x100) as u8,
    ]
}

/// Append `n` zero bytes.
fn push_zeros(v: &mut Vec<u8>, n: usize)
    ensures
        final(v)@ == old(v)@ + zero_bytes(n as nat),
{
    let mut i: usize = 0;
    while i < n
        invariant
            i <= n,
            v@ == old(v)@ + zero_bytes(i as nat),
        decreases n - i,
    {
        v.push(0u8);
        proof {
            assert(v@ =~= old(v)@ + zero_bytes((i + 1) as nat));
        }
        i = i + 1;
    }
}

/// Append a copy of the given bytes.
fn push_bytes(v: &mut Vec<u8>, bytes: &Vec<u8>)
    ensures
        final(v)@ == old(v)@ + bytes@,
{
    let n = bytes.len();
    let mut i: usize = 0;
    while i < n
        invariant
            i <= n,
            n == bytes@.len(),
            v@ == old(v)@ + bytes@.subrange(0, i as int),
        decreases n - i,
    {
        v.push(bytes[i]);
        proof {
            assert(v@ =~= old(v)@ + bytes@.subrange(0, i + 1));
        }
        i = i + 1;
    }
    proof {
        assert(bytes@.subrange(0, n as int) =~= bytes@);
    }
}

/// Resolves pool addresses for tokens against the factory registry.
#[derive(Debug)]
pub struct PoolDiscovery {
    /// The registry contract the calls go to.
    pub factory_address: Address,
}

impl PoolDiscovery {
    /// Discovery against the ecosystem's factory.
    pub fn new() -> (r: PoolDiscovery)
        ensures
            r.factory_address@ == factory_address_bytes(),
    {
        PoolDiscovery { factory_address: factory_address() }
    }

    /// The view call that asks the registry for the pool of a token
    /// pair at a fee tier.
    pub fn get_pool_call(&self, token_a: &Address, token_b: &Address, fee: u32) -> (r: CallSpec)
        requires
            fee < 0x100_0000,
        ensures
            r.to@ == self.factory_address@,
            r.calldata@ == spec_get_pool_calldata(token_a@, token_b@, fee),
    {
        let mut calldata: Vec<u8> = Vec::new();
        calldata.push(0x16u8);
        calldata.push(0x98u8);
        calldata.push(0xeeu8);
        calldata.push(0x82u8);
        proof {
            assert(calldata@ =~= seq![0x16u8, 0x98, 0xee, 0x82]);
        }
        push_zeros(&mut calldata, 12);
        push_bytes(&mut calldata, token_a.as_bytes());
        push_zeros(&mut calldata, 12);
        push_bytes(&mut calldata, token_b.as_bytes());
        push_zeros(&mut calldata, 29);
        calldata.push((fee / 0x1_0000) as u8);
        calldata.push(((fee / 0x100) % 0x100) as u8);
        calldata.push((fee % 0x100) as u8);
        proof {
            assert(calldata@ =~= spec_get_pool_calldata(token_a@, token_b@, fee));
        }
        CallSpec { to: self.factory_address.clone(), calldata }
    }

    /// The view call that asks for a token's pool against the wrapped
    /// base asset at the ecosystem's fee tier.
    pub fn get_pool_for_token_call(&self, token: &Address) -> (r: CallSpec)
        ensures
            r.to@ == self.factory_address@,
            r.calldata@ == spec_get_pool_calldata(
                token@,
                crate::constants::wmon_address_bytes(),
                DEFAULT_FEE_TIER,
            ),
    {
        let wmon = wmon_address();
        self.get_pool_call(token, &wmon, DEFAULT_FEE_TIER)
    }

    /// Read the registry's answer: the returned word's low 20 bytes are
    /// the pool address, and the zero address means "no pool exists" —
    /// an omission, not an error.  An answer that is not one word is
    /// malformed.
    pub fn parse_pool_result(&self, ret: &Vec<u8>) -> (r: Result<Option<Address>, DecodeError>)
        ensures
            r is Ok <==> ret@.len() == 32,
            r matches Ok(opt) ==> {
                &&& (opt is None <==> ret@.subrange(12, 32) == zero_bytes(20))
                &&& (opt matches Some(a) ==> a@ == ret@.subrange(12, 32))
            },
            r matches Err(e) ==> e == DecodeError::MalformedPayload,
    {
        if ret.len() != 32 {
            return Err(DecodeError::MalformedPayload);
        }
        let bytes = crate::bytes::copy_range(ret, 12, 32);
        let addr = Address::from_bytes(bytes).unwrap();
        if addr.is_zero() {
            proof {
                assert(ret@.subrange(12, 32) =~= zero_bytes(20));
            }
            Ok(None)
        } else {
            proof {
                assert(addr@ != zero_bytes(20));
                assert(ret@.subrange(12, 32) != zero_bytes(20));
            }
            Ok(Some(addr))
        }
    }

    /// Collect the resolved pools in input order, omitting the tokens
    /// that had none.  The result may therefore be shorter than the
    /// input, and positions do not correspond.
    pub fn collect_pools(&self, results: Vec<Option<Address>>) -> (r: Vec<Address>)
        ensures
            r@ == results@.filter(|o: Option<Address>| o is Some).map_values(
                |o: Option<Address>| o->Some_0,
            ),
    {
        let pred = Ghost(|o: Option<Address>| o is Some);
        let mut r: Vec<Address> = Vec::new();
        let mut rest = results;
        let ghost orig = rest@;
        let ghost mut done: Seq<Option<Address>> = Seq::empty();
        proof {
            assert(orig =~= done + rest@);
            assert(done.filter(pred@) =~= Seq::<Option<Address>>::empty());
            assert(r@ =~= done.filter(pred@).map_values(|o: Option<Address>| o->Some_0));
        }
        while rest.len() > 0
            invariant
                orig == done + rest@,
                r@ == done.filter(pred@).map_values(|o: Option<Address>| o->Some_0),
                pred == Ghost(|o: Option<Address>| o is Some),
            decreases rest@.len(),
        {
            let ghost rest_before = rest@;
            let o = rest.remove(0);
            let ghost go = o;
            proof {
                assert(rest_before =~= seq![o] + rest@);
                assert(done + rest_before =~= done.push(o) + rest@);
                crate::sequencer::lemma_filter_push(done, go, pred@);
            }
            match o {
                Some(a) => {
                    r.push(a);
                    proof {
                        assert(r@ =~= done.push(go).filter(pred@).map_values(
                            |x: Option<Address>| x->Some_0,
                        ));
                    }
                },
                None => {
                    proof {
                        assert(r@ =~= done.push(go).filter(pred@).map_values(
                            |x: Option<Address>| x->Some_0,
                        ));
                    }
                },
            }
            proof {
                done = done.push(go);
            }
        }
        proof {
            assert(done =~= orig);
        }
        r
    }
}

} // verus!
