//! Plain-value stand-ins for the on-chain primitive types.
//!
//! An address is 20 raw bytes, a topic or hash is 32 raw bytes, and a
//! 256-bit unsigned quantity is four 64-bit limbs.  Each type carries its
//! mathematical meaning as a view: a byte sequence for `Address` and
//! `B256`, a natural number for `U256`.

use vstd::prelude::*;
use vstd::string::StringSliceAdditionalSpecFns;

verus! {

/// A 20-byte account or contract address.
#[derive(Debug, Hash)]
pub struct Address {
    bytes: Vec<u8>,
}

impl Clone for Address {
    fn clone(&self) -> (r: Address)
        ensures
            r@ == self@,
    {
        proof {
            use_type_invariant(self);
        }
        Address { bytes: clone_bytes(&self.bytes) }
    }
}

impl View for Address {
    type V = Seq<u8>;

    closed spec fn view(&self) -> Seq<u8> {
        self.bytes@
    }
}

impl Address {
    /// The number of bytes in an address.
    pub open spec fn spec_len() -> nat {
        20
    }

    #[verifier::type_invariant]
    pub closed spec fn wf(self) -> bool {
        self.bytes@.len() == 20
    }

    /// Build an address from exactly 20 bytes.
    pub fn from_bytes(bytes: Vec<u8>) -> (r: Option<Address>)
        ensures
            bytes@.len() == 20 ==> (r matches Some(a) && a@ == bytes@),
            bytes@.len() != 20 ==> r is None,
    {
        if bytes.len() == 20 {
            Some(Address { bytes })
        } else {
            None
        }
    }

    /// The all-zero address, which the pool registry uses for "no pool".
    pub fn zero() -> (r: Address)
        ensures
            r@ == Seq::<u8>::new(20, |i: int| 0u8),
    {
        let mut bytes: Vec<u8> = Vec::new();
        let mut i: usize = 0;
        while i < 20
            invariant
                i <= 20,
                bytes@ == Seq::<u8>::new(i as nat, |j: int| 0u8),
            decreases 20 - i,
        {
            bytes.push(0u8);
            proof {
                assert(bytes@ =~= Seq::<u8>::new((i + 1) as nat, |j: int| 0u8));
            }
            i = i + 1;
        }
        Address { bytes }
    }

    /// The bytes of the address, in order.
    pub fn as_bytes(&self) -> (r: &Vec<u8>)
        ensures
            r@ == self@,
    {
        &self.bytes
    }

    /// True exactly when every byte is zero.
    pub fn is_zero(&self) -> (r: bool)
        ensures
            r == (self@ == Seq::<u8>::new(20, |i: int| 0u8)),
    {
        proof {
            use_type_invariant(self);
        }
        let mut i: usize = 0;
        while i < 20
            invariant
                i <= 20,
                self@.len() == 20,
                forall|j: int| 0 <= j < i ==> self@[j] == 0u8,
            decreases 20 - i,
        {
            if *vstd::slice::slice_index_get(self.bytes.as_slice(), i) != 0u8 {
                assert(self@ != Seq::<u8>::new(20, |k: int| 0u8)) by {
                    assert(self@[i as int] != Seq::<u8>::new(20, |k: int| 0u8)[i as int]);
                }
                return false;
            }
            i = i + 1;
        }
        proof {
            assert(self@ =~= Seq::<u8>::new(20, |k: int| 0u8));
        }
        true
    }
}

/// The value of one hexadecimal digit character, by its ASCII byte.
pub open spec fn spec_hex_digit(b: u8) -> Option<u8> {
    if 0x30 <= b <= 0x39 {
        Some((b - 0x30) as u8)
    } else if 0x61 <= b <= 0x66 {
        Some((b - 0x57) as u8)
    } else if 0x41 <= b <= 0x46 {
        Some((b - 0x37) as u8)
    } else {
        None
    }
}

/// The bytes a hexadecimal character string denotes: two digits per
/// byte, high digit first; any non-digit, or an odd length, is a
/// failure.
pub open spec fn spec_hex_bytes(s: Seq<u8>) -> Option<Seq<u8>>
    decreases s.len(),
{
    if s.len() == 0 {
        Some(Seq::<u8>::empty())
    } else if s.len() == 1 {
        None
    } else {
        match (spec_hex_digit(s[0]), spec_hex_digit(s[1])) {
            (Some(hi), Some(lo)) => match spec_hex_bytes(s.skip(2)) {
                Some(rest) => Some(seq![(hi * 16 + lo) as u8] + rest),
                None => None,
            },
            _ => None,
        }
    }
}

/// The address a hexadecimal spelling denotes: an optional `0x` prefix,
/// then exactly forty digits.
pub open spec fn spec_parse_address(s: Seq<u8>) -> Option<Seq<u8>> {
    let body = if s.len() >= 2 && s[0] == 0x30u8 && s[1] == 0x78u8 {
        s.skip(2)
    } else {
        s
    };
    if body.len() == 40 {
        spec_hex_bytes(body)
    } else {
        None
    }
}

impl Address {
    /// Parse the conventional hexadecimal spelling of an address, with
    /// or without its `0x` prefix; either letter case is accepted.
    pub fn from_hex(s: &str) -> (r: Option<Address>)
        ensures
            match r {
                Some(a) => spec_parse_address(s.spec_bytes()) == Some(a@),
                None => spec_parse_address(s.spec_bytes()) is None,
            },
    {
        let bytes: &[u8] = s.as_bytes();
        let n: usize = bytes.len();
        let start: usize = if n >= 2 && *vstd::slice::slice_index_get(bytes, 0) == 0x30u8
            && *vstd::slice::slice_index_get(bytes, 1) == 0x78u8 {
            2
        } else {
            0
        };
        let ghost body = s.spec_bytes().skip(start as int);
        proof {
            if start == 0 {
                assert(body =~= s.spec_bytes());
            }
            assert(spec_parse_address(s.spec_bytes()) == (if body.len() == 40 {
                spec_hex_bytes(body)
            } else {
                None::<Seq<u8>>
            }));
        }
        if n - start != 40 {
            return None;
        }
        let mut out: Vec<u8> = Vec::new();
        let mut i: usize = start;
        proof {
            assert(body.skip(0) =~= body);
            let whole = spec_hex_bytes(body);
            if whole is Some {
                assert(out@ + whole->Some_0 =~= whole->Some_0);
            }
        }
        while i < n
            invariant
                start <= i <= n,
                n == s.spec_bytes().len(),
                body == s.spec_bytes().skip(start as int),
                body.len() == 40,
                spec_parse_address(s.spec_bytes()) == spec_hex_bytes(body),
                (i - start) % 2 == 0,
                out@.len() == (i - start) / 2,
                bytes@ == s.spec_bytes(),
                match spec_hex_bytes(body.skip(i - start)) {
                    Some(rest) => spec_hex_bytes(body) == Some(out@ + rest),
                    None => spec_hex_bytes(body) is None,
                },
            decreases n - i,
        {
            let hi = hex_digit(*vstd::slice::slice_index_get(bytes, i));
            let lo = hex_digit(*vstd::slice::slice_index_get(bytes, i + 1));
            proof {
                let suffix = body.skip(i - start);
                assert(suffix.len() >= 2);
                assert(suffix[0] == s.spec_bytes()[i as int]);
                assert(suffix[1] == s.spec_bytes()[i + 1]);
                assert(suffix.skip(2) =~= body.skip(i + 2 - start));
            }
            let b: u8 = match (hi, lo) {
                (Some(h), Some(l)) => h * 16 + l,
                _ => {
                    proof {
                        assert(spec_hex_bytes(body.skip(i - start)) is None);
                    }
                    return None;
                },
            };
            out.push(b);
            proof {
                let suffix = body.skip(i - start);
                let tail = spec_hex_bytes(suffix.skip(2));
                if tail is Some {
                    let rest = tail->Some_0;
                    assert(spec_hex_bytes(suffix) == Some(seq![b] + rest));
                    assert(out@ + rest =~= out@.drop_last() + (seq![b] + rest));
                }
            }
            i = i + 2;
        }
        proof {
            assert(body.skip(i - start) =~= Seq::<u8>::empty());
            assert(spec_hex_bytes(body) == Some(out@ + Seq::<u8>::empty()));
            assert(out@ + Seq::<u8>::empty() =~= out@);
        }
        let a = Address::from_bytes(out);
        proof {
            assert(spec_parse_address(s.spec_bytes()) == spec_hex_bytes(body));
        }
        a
    }

    /// The address carried in an indexed topic: the word's low 20 bytes.
    pub fn from_topic(topic: &B256) -> (r: Address)
        ensures
            r@ == topic@.subrange(12, 32),
    {
        proof {
            use_type_invariant(topic);
        }
        let mut bytes: Vec<u8> = Vec::new();
        let mut i: usize = 12;
        while i < 32
            invariant
                12 <= i <= 32,
                topic@.len() == 32,
                bytes@ == topic@.subrange(12, i as int),
            decreases 32 - i,
        {
            bytes.push(topic.bytes[i]);
            proof {
                assert(bytes@ =~= topic@.subrange(12, i + 1));
            }
            i = i + 1;
        }
        Address { bytes }
    }
}

impl PartialEq for Address {
    fn eq(&self, other: &Address) -> (r: bool) {
        proof {
            use_type_invariant(self);
            use_type_invariant(other);
        }
        eq_bytes(&self.bytes, &other.bytes)
    }
}

impl Eq for Address {}

impl vstd::std_specs::cmp::PartialEqSpecImpl for Address {
    open spec fn obeys_eq_spec() -> bool {
        true
    }

    open spec fn eq_spec(&self, other: &Address) -> bool {
        self@ == other@
    }
}

/// A 32-byte word: an event-signature hash, a transaction hash, or a topic.
#[derive(Debug, Hash)]
pub struct B256 {
    bytes: Vec<u8>,
}

impl Clone for B256 {
    fn clone(&self) -> (r: B256)
        ensures
            r@ == self@,
    {
        proof {
            use_type_invariant(self);
        }
        B256 { bytes: clone_bytes(&self.bytes) }
    }
}

impl View for B256 {
    type V = Seq<u8>;

    closed spec fn view(&self) -> Seq<u8> {
        self.bytes@
    }
}

impl B256 {
    /// The number of bytes in a word.
    pub open spec fn spec_len() -> nat {
        32
    }

    #[verifier::type_invariant]
    pub closed spec fn wf(self) -> bool {
        self.bytes@.len() == 32
    }

    /// Build a word from exactly 32 bytes.
    pub fn from_bytes(bytes: Vec<u8>) -> (r: Option<B256>)
        ensures
            bytes@.len() == 32 ==> (r matches Some(w) && w@ == bytes@),
            bytes@.len() != 32 ==> r is None,
    {
        if bytes.len() == 32 {
            Some(B256 { bytes })
        } else {
            None
        }
    }

    /// The all-zero word, the fallback for a missing transaction hash.
    pub fn zero() -> (r: B256)
        ensures
            r@ == Seq::<u8>::new(32, |i: int| 0u8),
    {
        let mut bytes: Vec<u8> = Vec::new();
        let mut i: usize = 0;
        while i < 32
            invariant
                i <= 32,
                bytes@ == Seq::<u8>::new(i as nat, |j: int| 0u8),
            decreases 32 - i,
        {
            bytes.push(0u8);
            proof {
                assert(bytes@ =~= Seq::<u8>::new((i + 1) as nat, |j: int| 0u8));
            }
            i = i + 1;
        }
        B256 { bytes }
    }

    /// The bytes of the word, in order.
    pub fn as_bytes(&self) -> (r: &Vec<u8>)
        ensures
            r@ == self@,
    {
        &self.bytes
    }
}

impl PartialEq for B256 {
    fn eq(&self, other: &B256) -> (r: bool) {
        proof {
            use_type_invariant(self);
            use_type_invariant(other);
        }
        eq_bytes(&self.bytes, &other.bytes)
    }
}

impl Eq for B256 {}

impl vstd::std_specs::cmp::PartialEqSpecImpl for B256 {
    open spec fn obeys_eq_spec() -> bool {
        true
    }

    open spec fn eq_spec(&self, other: &B256) -> bool {
        self@ == other@
    }
}

/// Decide the value of one hexadecimal digit character.
fn hex_digit(b: u8) -> (r: Option<u8>)
    ensures
        r == spec_hex_digit(b),
{
    if 0x30 <= b && b <= 0x39 {
        Some(b - 0x30)
    } else if 0x61 <= b && b <= 0x66 {
        Some(b - 0x57)
    } else if 0x41 <= b && b <= 0x46 {
        Some(b - 0x37)
    } else {
        None
    }
}

/// An element-wise copy of a byte vector.
pub fn clone_bytes(a: &Vec<u8>) -> (r: Vec<u8>)
    ensures
        r@ == a@,
{
    let mut r: Vec<u8> = Vec::new();
    let n = a.len();
    let mut i: usize = 0;
    while i < n
        invariant
            i <= n,
            n == a@.len(),
            r@ == a@.subrange(0, i as int),
        decreases n - i,
    {
        r.push(a[i]);
        proof {
            assert(r@ =~= a@.subrange(0, i + 1));
        }
        i = i + 1;
    }
    proof {
        assert(r@ =~= a@);
    }
    r
}

/// Byte-sequence equality, decided by a scan.
pub fn eq_bytes(a: &Vec<u8>, b: &Vec<u8>) -> (r: bool)
    ensures
        r == (a@ == b@),
{
    if a.len() != b.len() {
        assert(a@ != b@) by {
            assert(a@.len() != b@.len());
        }
        return false;
    }
    let n = a.len();
    let mut i: usize = 0;
    while i < n
        invariant
            i <= n,
            n == a@.len(),
            a@.len() == b@.len(),
            forall|j: int| 0 <= j < i ==> a@[j] == b@[j],
        decreases n - i,
    {
        if a[i] != b[i] {
            assert(a@ != b@) by {
                assert(a@[i as int] != b@[i as int]);
            }
            return false;
        }
        i = i + 1;
    }
    proof {
        assert(a@ =~= b@);
    }
    true
}

} // verus!
