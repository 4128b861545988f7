//! Keys, blob addresses and blobs.

use crate::name::XorName;
use vstd::prelude::*;

verus! {

/// Whether two byte arrays of one length hold the same bytes.
pub fn bytes_equal<const N: usize>(a: &[u8; N], b: &[u8; N]) -> (r: bool)
    ensures
        r == (*a == *b),
{
    let mut i: usize = 0;
    while i < N
        invariant
            0 <= i <= N,
            forall|j: int| 0 <= j < i ==> a[j] == b[j],
        decreases N - i,
    {
        if a[i] != b[i] {
            return false;
        }
        i = i + 1;
    }
    assert(*a =~= *b);
    true
}

/// A copy of a byte string.
pub fn copy_bytes(bytes: &Vec<u8>) -> (r: Vec<u8>)
    ensures
        r@ == bytes@,
{
    let mut r: Vec<u8> = Vec::new();
    let mut i: usize = 0;
    while i < bytes.len()
        invariant
            0 <= i <= bytes.len(),
            r@ == bytes@.take(i as int),
        decreases bytes.len() - i,
    {
        r.push(bytes[i]);
        assert(bytes@.take(i + 1) == bytes@.take(i as int).push(bytes@[i as int]));
        i = i + 1;
    }
    assert(bytes@.take(bytes.len() as int) == bytes@);
    r
}

/// A public key, by the bytes of its encoding.
#[derive(Clone, Copy, Debug, Eq, PartialOrd, Ord, Hash)]
pub enum PublicKey {
    /// An Ed25519 key.
    Ed25519([u8; 32]),
    /// A BLS key.
    Bls([u8; 48]),
    /// A share of a BLS key.
    BlsShare([u8; 48]),
}

impl PartialEq for PublicKey {
    fn eq(&self, other: &Self) -> (r: bool) {
        match (self, other) {
            (PublicKey::Ed25519(a), PublicKey::Ed25519(b)) => bytes_equal(a, b),
            (PublicKey::Bls(a), PublicKey::Bls(b)) => bytes_equal(a, b),
            (PublicKey::BlsShare(a), PublicKey::BlsShare(b)) => bytes_equal(a, b),
            _ => false,
        }
    }
}

impl vstd::std_specs::cmp::PartialEqSpecImpl for PublicKey {
    open spec fn obeys_eq_spec() -> bool {
        true
    }

    open spec fn eq_spec(&self, other: &Self) -> bool {
        *self == *other
    }
}

impl PublicKey {
    /// The bytes of the key's encoding.
    pub open spec fn bytes(&self) -> Seq<u8> {
        match self {
            PublicKey::Ed25519(b) => b@,
            PublicKey::Bls(b) => b@,
            PublicKey::BlsShare(b) => b@,
        }
    }

    /// The bytes of the key's encoding.
    pub fn to_bytes(&self) -> (r: Vec<u8>)
        ensures
            r@ == self.bytes(),
    {
        let mut r: Vec<u8> = Vec::new();
        match self {
            PublicKey::Ed25519(b) => {
                let mut i: usize = 0;
                while i < 32
                    invariant
                        0 <= i <= 32,
                        r@ == b@.take(i as int),
                    decreases 32 - i,
                {
                    r.push(b[i]);
                    assert(b@.take(i + 1) == b@.take(i as int).push(b@[i as int]));
                    i = i + 1;
                }
                assert(b@.take(32) == b@);
            },
            PublicKey::Bls(b) | PublicKey::BlsShare(b) => {
                let mut i: usize = 0;
                while i < 48
                    invariant
                        0 <= i <= 48,
                        r@ == b@.take(i as int),
                    decreases 48 - i,
                {
                    r.push(b[i]);
                    assert(b@.take(i + 1) == b@.take(i as int).push(b@[i as int]));
                    i = i + 1;
                }
                assert(b@.take(48) == b@);
            },
        }
        r
    }

    /// The name of the key's holder: the first 32 bytes of the key.
    pub open spec fn name(&self) -> Seq<u8> {
        self.bytes().take(32)
    }

    /// The name of the key's holder, as a name.
    pub open spec fn holder(&self) -> XorName {
        choose|n: XorName| n@ == self.name()
    }

    /// The name of the key's holder.
    pub fn to_name(&self) -> (r: XorName)
        ensures
            r@ == self.name(),
            r == self.holder(),
    {
        let mut out: [u8; 32] = [0u8; 32];
        match self {
            PublicKey::Ed25519(b) => {
                let mut i: usize = 0;
                while i < 32
                    invariant
                        0 <= i <= 32,
                        forall|j: int| 0 <= j < i ==> out[j] == b[j],
                    decreases 32 - i,
                {
                    out[i] = b[i];
                    i = i + 1;
                }
                assert(out@ =~= b@.take(32));
            },
            PublicKey::Bls(b) | PublicKey::BlsShare(b) => {
                let mut i: usize = 0;
                while i < 32
                    invariant
                        0 <= i <= 32,
                        forall|j: int| 0 <= j < i ==> out[j] == b[j],
                    decreases 32 - i,
                {
                    out[i] = b[i];
                    i = i + 1;
                }
                assert(out@ =~= b@.take(32));
            },
        }
        let r = XorName(out);
        proof {
            assert(r@ == self.name());
            let n = self.holder();
            assert(n@ == self.name());
            assert(n.0 =~= r.0);
        }
        r
    }
}

/// Where a blob lives: its name, and whether it is private or public.
#[derive(Clone, Copy, Debug, Eq, PartialOrd, Ord, Hash)]
pub enum BlobAddress {
    /// The address of a private blob.
    Private(XorName),
    /// The address of a public blob.
    Public(XorName),
}

impl PartialEq for BlobAddress {
    fn eq(&self, other: &Self) -> (r: bool) {
        match (self, other) {
            (BlobAddress::Private(a), BlobAddress::Private(b)) => *a == *b,
            (BlobAddress::Public(a), BlobAddress::Public(b)) => *a == *b,
            _ => false,
        }
    }
}

impl vstd::std_specs::cmp::PartialEqSpecImpl for BlobAddress {
    open spec fn obeys_eq_spec() -> bool {
        true
    }

    open spec fn eq_spec(&self, other: &Self) -> bool {
        *self == *other
    }
}

impl BlobAddress {
    /// The name in the address.
    pub open spec fn spec_name(&self) -> XorName {
        match self {
            BlobAddress::Private(name) => *name,
            BlobAddress::Public(name) => *name,
        }
    }

    /// The name in the address.
    #[verifier::when_used_as_spec(spec_name)]
    pub fn name(&self) -> (r: XorName)
        ensures
            r == self.spec_name(),
    {
        match self {
            BlobAddress::Private(name) => *name,
            BlobAddress::Public(name) => *name,
        }
    }

    /// Whether this is the address of a public blob.
    pub fn is_public(&self) -> (r: bool)
        ensures
            r == (self is Public),
    {
        match self {
            BlobAddress::Public(_) => true,
            BlobAddress::Private(_) => false,
        }
    }

    /// Whether this is the address of a private blob.
    pub fn is_private(&self) -> (r: bool)
        ensures
            r == (self is Private),
    {
        !self.is_public()
    }
}

/// The SHA3-256 digest of a byte string.
pub uninterp spec fn content_digest(content: Seq<u8>) -> Seq<u8>;

/// `XorName::from_content` of the xor_name crate, on two parts. It feeds the
/// parts in order to one SHA3-256 hasher, so the name it returns is the
/// digest of the two parts joined.
#[verifier::external_body]
fn name_from_content(first: &Vec<u8>, second: &Vec<u8>) -> (r: XorName)
    ensures
        r@ == content_digest(first@ + second@),
{
    XorName(xor_name::XorName::from_content(&[first.as_slice(), second.as_slice()]).0)
}

/// A blob that anyone may read, and nobody may delete.
#[derive(Debug, PartialEq, Eq)]
pub struct PublicBlob {
    address: BlobAddress,
    value: Vec<u8>,
}

/// A blob that belongs to one key.
#[derive(Debug, PartialEq, Eq)]
pub struct PrivateBlob {
    address: BlobAddress,
    value: Vec<u8>,
    owner: PublicKey,
}

/// An immutable chunk of data.
#[derive(Debug, PartialEq, Eq)]
pub enum Blob {
    /// A private blob.
    Private(PrivateBlob),
    /// A public blob.
    Public(PublicBlob),
}

/// What a blob holds.
pub struct BlobView {
    pub address: BlobAddress,
    pub value: Seq<u8>,
    pub owner: Option<PublicKey>,
}

/// The address that a public blob of the given contents has.
pub open spec fn public_address(address: BlobAddress, value: Seq<u8>) -> bool {
    address is Public && address.spec_name()@ == content_digest(value)
}

/// The address that a private blob of the given contents and owner has.
pub open spec fn private_address(address: BlobAddress, value: Seq<u8>, owner: PublicKey) -> bool {
    address is Private && address.spec_name()@ == content_digest(value + owner.bytes())
}

impl PublicBlob {
    /// The address is derived from the contents.
    #[verifier::type_invariant]
    spec fn address_is_derived(&self) -> bool {
        public_address(self.address, self.value@)
    }

    /// The blob's address.
    pub closed spec fn spec_address(&self) -> BlobAddress {
        self.address
    }

    /// The blob's contents.
    pub closed spec fn spec_value(&self) -> Seq<u8> {
        self.value@
    }

    /// The public blob with the given contents. Its name is the digest of
    /// the contents.
    pub fn new(value: Vec<u8>) -> (r: PublicBlob)
        ensures
            r.spec_value() == value@,
            public_address(r.spec_address(), value@),
    {
        let empty: Vec<u8> = Vec::new();
        let name = name_from_content(&value, &empty);
        assert(value@ + empty@ =~= value@);
        PublicBlob { address: BlobAddress::Public(name), value }
    }

    /// The blob's address, which is derived from its contents.
    pub fn address(&self) -> (r: &BlobAddress)
        ensures
            *r == self.spec_address(),
            public_address(*r, self.spec_value()),
    {
        proof {
            use_type_invariant(self);
        }
        &self.address
    }

    /// The blob's contents.
    pub fn value(&self) -> (r: &Vec<u8>)
        ensures
            r@ == self.spec_value(),
    {
        &self.value
    }

    /// A copy of the blob.
    pub fn duplicate(&self) -> (r: PublicBlob)
        ensures
            r.spec_address() == self.spec_address(),
            r.spec_value() == self.spec_value(),
    {
        proof {
            use_type_invariant(self);
        }
        PublicBlob { address: self.address, value: copy_bytes(&self.value) }
    }
}

impl PrivateBlob {
    /// The address is derived from the contents and the owner.
    #[verifier::type_invariant]
    spec fn address_is_derived(&self) -> bool {
        private_address(self.address, self.value@, self.owner)
    }

    /// The blob's address.
    pub closed spec fn spec_address(&self) -> BlobAddress {
        self.address
    }

    /// The blob's contents.
    pub closed spec fn spec_value(&self) -> Seq<u8> {
        self.value@
    }

    /// The blob's owner.
    pub closed spec fn spec_owner(&self) -> PublicKey {
        self.owner
    }

    /// The private blob with the given contents and owner. Its name is the
    /// digest of the contents followed by the owner's key.
    pub fn new(value: Vec<u8>, owner: PublicKey) -> (r: PrivateBlob)
        ensures
            r.spec_value() == value@,
            r.spec_owner() == owner,
            private_address(r.spec_address(), value@, owner),
    {
        let key = owner.to_bytes();
        let name = name_from_content(&value, &key);
        PrivateBlob { address: BlobAddress::Private(name), value, owner }
    }

    /// The blob's address, which is derived from its contents and owner.
    pub fn address(&self) -> (r: &BlobAddress)
        ensures
            *r == self.spec_address(),
            private_address(*r, self.spec_value(), self.spec_owner()),
    {
        proof {
            use_type_invariant(self);
        }
        &self.address
    }

    /// The blob's contents.
    pub fn value(&self) -> (r: &Vec<u8>)
        ensures
            r@ == self.spec_value(),
    {
        &self.value
    }

    /// The blob's owner.
    pub fn owner(&self) -> (r: &PublicKey)
        ensures
            *r == self.spec_owner(),
    {
        &self.owner
    }

    /// A copy of the blob.
    pub fn duplicate(&self) -> (r: PrivateBlob)
        ensures
            r.spec_address() == self.spec_address(),
            r.spec_value() == self.spec_value(),
            r.spec_owner() == self.spec_owner(),
    {
        proof {
            use_type_invariant(self);
        }
        PrivateBlob { address: self.address, value: copy_bytes(&self.value), owner: self.owner }
    }
}

impl View for Blob {
    type V = BlobView;

    open spec fn view(&self) -> BlobView {
        match self {
            Blob::Private(data) => BlobView {
                address: data.spec_address(),
                value: data.spec_value(),
                owner: Some(data.spec_owner()),
            },
            Blob::Public(data) => BlobView {
                address: data.spec_address(),
                value: data.spec_value(),
                owner: None,
            },
        }
    }
}

/// Whether the address of a blob is the one that its contents and, for a
/// private blob, its owner give it.
pub open spec fn address_derived(blob: BlobView) -> bool {
    match blob.owner {
        Some(owner) => private_address(blob.address, blob.value, owner),
        None => public_address(blob.address, blob.value),
    }
}

/// The address of a blob is a function of its kind, contents and owner: two
/// blobs that agree on these have the same address.
pub proof fn law_address_determined(a: BlobView, b: BlobView)
    requires
        address_derived(a),
        address_derived(b),
        a.value == b.value,
        a.owner == b.owner,
    ensures
        a.address == b.address,
{
    assert(a.address.spec_name().0 =~= b.address.spec_name().0);
}

impl Blob {
    /// The blob's address, which is derived from its contents and, for a
    /// private blob, its owner.
    pub fn address(&self) -> (r: &BlobAddress)
        ensures
            *r == self@.address,
            address_derived(self@),
    {
        match self {
            Blob::Private(data) => data.address(),
            Blob::Public(data) => data.address(),
        }
    }

    /// The name in the blob's address.
    pub fn name(&self) -> (r: XorName)
        ensures
            r == self@.address.spec_name(),
    {
        self.address().name()
    }

    /// The owner of a private blob; a public blob has none.
    pub fn owner(&self) -> (r: Option<&PublicKey>)
        ensures
            r matches Some(k) ==> self@.owner == Some(*k),
            r is None ==> self@.owner is None,
            r is Some <==> self is Private,
    {
        match self {
            Blob::Private(data) => Some(data.owner()),
            Blob::Public(_) => None,
        }
    }

    /// Whether the blob is public.
    pub fn is_public(&self) -> (r: bool)
        ensures
            r == (self is Public),
    {
        match self {
            Blob::Public(_) => true,
            Blob::Private(_) => false,
        }
    }

    /// Whether the blob is private.
    pub fn is_private(&self) -> (r: bool)
        ensures
            r == (self is Private),
    {
        !self.is_public()
    }

    /// The blob's contents.
    pub fn value(&self) -> (r: &Vec<u8>)
        ensures
            r@ == self@.value,
    {
        match self {
            Blob::Private(data) => data.value(),
            Blob::Public(data) => data.value(),
        }
    }

    /// A copy of the blob.
    pub fn duplicate(&self) -> (r: Blob)
        ensures
            r@ == self@,
            (r is Private) == (self is Private),
    {
        match self {
            Blob::Private(data) => Blob::Private(data.duplicate()),
            Blob::Public(data) => Blob::Public(data.duplicate()),
        }
    }
}

} // verus!
