use vstd::prelude::*;
use vstd::slice::slice_to_vec;

verus! {

/// What a purpose key may be used for.
#[derive(Debug, Clone, Copy, PartialEq, Eq, Structural)]
pub enum Purpose {
    /// The key exchange of a secure channel.
    SecureChannel,
    /// The signing of credentials.
    Credentials,
}

/// Why a purpose key was not made.
#[derive(Debug, Clone, Copy, PartialEq, Eq, Structural)]
pub enum CreationError {
    /// The identity's root key could not be had.
    RootKeyUnavailable,
    /// The root key was there, but no signature came of it.
    SignatureUnavailable,
    /// The key offered is the identity's root key itself.
    RootKeyReused,
    /// The key would expire before it begins to be valid.
    EmptyValidity,
}

/// Why a purpose key is not trusted.
#[derive(Debug, Clone, Copy, PartialEq, Eq, Structural)]
pub enum VerificationError {
    /// The key does not bear a valid signature of the identity.
    SignatureInvalid,
    /// The moment of use is outside the key's validity.
    Expired,
    /// The key was issued for another purpose.
    PurposeMismatch,
}

/// What came of asking the keeper of the root key for a signature.
#[derive(Debug)]
pub enum Signing {
    /// The signature.
    Signed(Vec<u8>),
    /// The root key could not be had.
    RootKeyUnavailable,
    /// The root key was there, but signing failed.
    Failed,
}

/// What a signing outcome is, as plain values.
pub enum SigningView {
    Signed(Seq<u8>),
    RootKeyUnavailable,
    Failed,
}

impl View for Signing {
    type V = SigningView;

    open spec fn view(&self) -> SigningView {
        match self {
            Signing::Signed(s) => SigningView::Signed(s@),
            Signing::RootKeyUnavailable => SigningView::RootKeyUnavailable,
            Signing::Failed => SigningView::Failed,
        }
    }
}

/// What an identity is, as plain values.
pub struct IdentityView {
    pub identifier: Seq<u8>,
    pub root_key: Seq<u8>,
}

/// The public face of an identity: its identifier and its long-term root
/// key, the root of trust for all that the identity signs.
#[derive(Debug)]
pub struct Identity {
    identifier: Vec<u8>,
    root_key: Vec<u8>,
}

impl View for Identity {
    type V = IdentityView;

    closed spec fn view(&self) -> IdentityView {
        IdentityView { identifier: self.identifier@, root_key: self.root_key@ }
    }
}

impl Clone for Identity {
    fn clone(&self) -> (copy: Identity)
        ensures
            copy@ == self@,
    {
        Identity {
            identifier: slice_to_vec(self.identifier.as_slice()),
            root_key: slice_to_vec(self.root_key.as_slice()),
        }
    }
}

impl Identity {
    /// The identity with the given identifier and public root key.
    pub fn new(identifier: Vec<u8>, root_key: Vec<u8>) -> (identity: Identity)
        ensures
            identity@ == (IdentityView { identifier: identifier@, root_key: root_key@ }),
    {
        Identity { identifier, root_key }
    }

    /// The identifier.
    pub fn identifier(&self) -> (bytes: &[u8])
        ensures
            bytes@ == self@.identifier,
    {
        self.identifier.as_slice()
    }

    /// The public root key.
    pub fn root_key(&self) -> (bytes: &[u8])
        ensures
            bytes@ == self@.root_key,
    {
        self.root_key.as_slice()
    }
}

/// What a purpose key is, as plain values.
pub struct PurposeKeyView {
    pub subject: Seq<u8>,
    pub purpose: Purpose,
    pub public_key: Seq<u8>,
    pub created_at: u64,
    pub expires_at: u64,
    pub signature: Seq<u8>,
}

impl PurposeKeyView {
    /// Whether the key is valid at the moment `now`: from the moment of its
    /// making up to, and not including, the moment of its expiry.
    pub open spec fn valid_at(self, now: u64) -> bool {
        self.created_at <= now < self.expires_at
    }

    /// What checking the key against an identity gives. The signature is
    /// checked first: it must be valid, and the key must name the identity
    /// as its subject. Then the purpose, then the validity.
    pub open spec fn verify(
        self,
        against: IdentityView,
        purpose: Purpose,
        now: u64,
        signature_valid: bool,
    ) -> Result<(), VerificationError> {
        if !signature_valid || self.subject != against.identifier {
            Err(VerificationError::SignatureInvalid)
        } else if self.purpose != purpose {
            Err(VerificationError::PurposeMismatch)
        } else if !self.valid_at(now) {
            Err(VerificationError::Expired)
        } else {
            Ok(())
        }
    }

    /// The bytes that the identity signs to issue the key: the length of the
    /// subject in one byte and the subject, the tag of the purpose, the two
    /// moments in eight bytes each, most significant byte first, and the
    /// public key.
    pub open spec fn attestation(self) -> Seq<u8> {
        seq![self.subject.len() as u8] + self.subject + seq![purpose_tag(self.purpose)]
            + crate::nonce::wire_form(self.created_at) + crate::nonce::wire_form(self.expires_at)
            + self.public_key
    }
}

/// The byte that stands for a purpose in what is signed.
pub open spec fn purpose_tag(purpose: Purpose) -> u8 {
    match purpose {
        Purpose::SecureChannel => 1,
        Purpose::Credentials => 2,
    }
}

/// What making a purpose key gives.
pub open spec fn create_spec(
    identity: IdentityView,
    purpose: Purpose,
    public_key: Seq<u8>,
    created_at: u64,
    expires_at: u64,
    signing: SigningView,
) -> Result<PurposeKeyView, CreationError> {
    if public_key == identity.root_key {
        Err(CreationError::RootKeyReused)
    } else if created_at >= expires_at {
        Err(CreationError::EmptyValidity)
    } else {
        match signing {
            SigningView::RootKeyUnavailable => Err(CreationError::RootKeyUnavailable),
            SigningView::Failed => Err(CreationError::SignatureUnavailable),
            SigningView::Signed(signature) => Ok(
                PurposeKeyView {
                    subject: identity.identifier,
                    purpose,
                    public_key,
                    created_at,
                    expires_at,
                    signature,
                },
            ),
        }
    }
}

/// A public key bound to an identity, to one purpose and to a span of time
/// by the identity's signature. It is never changed after it is made.
#[derive(Debug)]
pub struct PurposeKey {
    subject: Vec<u8>,
    purpose: Purpose,
    public_key: Vec<u8>,
    created_at: u64,
    expires_at: u64,
    signature: Vec<u8>,
}

impl View for PurposeKey {
    type V = PurposeKeyView;

    closed spec fn view(&self) -> PurposeKeyView {
        PurposeKeyView {
            subject: self.subject@,
            purpose: self.purpose,
            public_key: self.public_key@,
            created_at: self.created_at,
            expires_at: self.expires_at,
            signature: self.signature@,
        }
    }
}

impl Clone for PurposeKey {
    fn clone(&self) -> (copy: PurposeKey)
        ensures
            copy@ == self@,
    {
        PurposeKey {
            subject: slice_to_vec(self.subject.as_slice()),
            purpose: self.purpose,
            public_key: slice_to_vec(self.public_key.as_slice()),
            created_at: self.created_at,
            expires_at: self.expires_at,
            signature: slice_to_vec(self.signature.as_slice()),
        }
    }
}

fn bytes_equal(a: &[u8], b: &[u8]) -> (same: bool)
    ensures
        same == (a@ == b@),
{
    if a.len() != b.len() {
        return false;
    }
    let mut i: usize = 0;
    while i < a.len()
        invariant
            i <= a.len(),
            a.len() == b.len(),
            forall|k: int| 0 <= k < i ==> a@[k] == b@[k],
        decreases a.len() - i,
    {
        if a[i] != b[i] {
            return false;
        }
        i += 1;
    }
    assert(a@ =~= b@);
    true
}

fn purpose_equal(a: Purpose, b: Purpose) -> (same: bool)
    ensures
        same == (a == b),
{
    match (a, b) {
        (Purpose::SecureChannel, Purpose::SecureChannel) => true,
        (Purpose::Credentials, Purpose::Credentials) => true,
        _ => false,
    }
}

impl PurposeKey {
    /// Makes the purpose key that binds `public_key` to `identity` for
    /// `purpose`, valid from `created_at` up to `expires_at`, out of what the
    /// keeper of the identity's root key answered when asked to sign.
    ///
    /// The key must not be the root key itself, and the validity must not be
    /// empty. Fails if the root key could not be had or no signature came.
    pub fn create(
        identity: &Identity,
        purpose: Purpose,
        public_key: Vec<u8>,
        created_at: u64,
        expires_at: u64,
        signing: Signing,
    ) -> (result: Result<PurposeKey, CreationError>)
        ensures
            match result {
                Ok(key) => create_spec(
                    identity@,
                    purpose,
                    public_key@,
                    created_at,
                    expires_at,
                    signing@,
                ) == Ok::<PurposeKeyView, CreationError>(key@),
                Err(e) => create_spec(
                    identity@,
                    purpose,
                    public_key@,
                    created_at,
                    expires_at,
                    signing@,
                ) == Err::<PurposeKeyView, CreationError>(e),
            },
    {
        if bytes_equal(public_key.as_slice(), identity.root_key()) {
            return Err(CreationError::RootKeyReused);
        }
        if created_at >= expires_at {
            return Err(CreationError::EmptyValidity);
        }
        match signing {
            Signing::RootKeyUnavailable => Err(CreationError::RootKeyUnavailable),
            Signing::Failed => Err(CreationError::SignatureUnavailable),
            Signing::Signed(signature) => Ok(
                PurposeKey {
                    subject: slice_to_vec(identity.identifier()),
                    purpose,
                    public_key,
                    created_at,
                    expires_at,
                    signature,
                },
            ),
        }
    }

    /// The identifier of the identity that the key belongs to.
    pub fn subject(&self) -> (bytes: &[u8])
        ensures
            bytes@ == self@.subject,
    {
        self.subject.as_slice()
    }

    /// What the key may be used for.
    pub fn purpose(&self) -> (purpose: Purpose)
        ensures
            purpose == self@.purpose,
    {
        self.purpose
    }

    /// The public key.
    pub fn public_key(&self) -> (bytes: &[u8])
        ensures
            bytes@ == self@.public_key,
    {
        self.public_key.as_slice()
    }

    /// The moment from which the key is valid.
    pub fn created_at(&self) -> (moment: u64)
        ensures
            moment == self@.created_at,
    {
        self.created_at
    }

    /// The moment from which the key is no longer valid.
    pub fn expires_at(&self) -> (moment: u64)
        ensures
            moment == self@.expires_at,
    {
        self.expires_at
    }

    /// The identity's signature.
    pub fn signature(&self) -> (bytes: &[u8])
        ensures
            bytes@ == self@.signature,
    {
        self.signature.as_slice()
    }

    /// The bytes that the signature is over.
    pub fn attestation(&self) -> (bytes: Option<Vec<u8>>)
        ensures
            self@.subject.len() <= 255 ==> bytes is Some && bytes->Some_0@ == self@.attestation(),
            self@.subject.len() > 255 ==> bytes is None,
    {
        if self.subject.len() > 255 {
            return None;
        }
        let mut out: Vec<u8> = Vec::new();
        out.push(self.subject.len() as u8);
        crate::render::put_bytes(&mut out, self.subject.as_slice());
        out.push(
            match self.purpose {
                Purpose::SecureChannel => 1,
                Purpose::Credentials => 2,
            },
        );
        let created = crate::nonce::Nonce::new(self.created_at).to_noise_nonce();
        crate::render::put_bytes(&mut out, created.as_slice());
        let expires = crate::nonce::Nonce::new(self.expires_at).to_noise_nonce();
        crate::render::put_bytes(&mut out, expires.as_slice());
        crate::render::put_bytes(&mut out, self.public_key.as_slice());
        assert(out@ =~= self@.attestation());
        Some(out)
    }

    /// Checks the key before it is trusted: that it bears a valid signature
    /// of the identity `against`, that it was issued for `purpose`, and that
    /// it is valid at the moment `now`. Whether the signature over the key's
    /// attestation is that of the identity's root key is for the caller to
    /// find out and to say in `signature_valid`.
    pub fn verify(&self, against: &Identity, purpose: Purpose, now: u64, signature_valid: bool) -> (result:
        Result<(), VerificationError>)
        ensures
            result == self@.verify(against@, purpose, now, signature_valid),
    {
        if !signature_valid || !bytes_equal(self.subject.as_slice(), against.identifier()) {
            return Err(VerificationError::SignatureInvalid);
        }
        if !purpose_equal(self.purpose, purpose) {
            return Err(VerificationError::PurposeMismatch);
        }
        if now < self.created_at || now >= self.expires_at {
            return Err(VerificationError::Expired);
        }
        Ok(())
    }
}

/// A key that is checked after its time has run out is refused as expired,
/// if nothing else is wrong with it; a key that passes the check is signed by
/// the identity, issued for the purpose and valid at that moment.
pub proof fn lemma_verify(
    key: PurposeKeyView,
    against: IdentityView,
    purpose: Purpose,
    now: u64,
    signature_valid: bool,
)
    ensures
        key.verify(against, purpose, now, signature_valid) is Ok <==> signature_valid && key.subject
            == against.identifier && key.purpose == purpose && key.valid_at(now),
        signature_valid && key.subject == against.identifier && key.purpose == purpose
            && !key.valid_at(now) ==> key.verify(against, purpose, now, signature_valid) == Err::<
            (),
            VerificationError,
        >(VerificationError::Expired),
{
}

/// A purpose key that was made never holds the root key of its identity, and
/// is valid at the moment of its making.
pub proof fn lemma_created_key(
    identity: IdentityView,
    purpose: Purpose,
    public_key: Seq<u8>,
    created_at: u64,
    expires_at: u64,
    signing: SigningView,
)
    requires
        create_spec(identity, purpose, public_key, created_at, expires_at, signing) is Ok,
    ensures
        create_spec(
            identity,
            purpose,
            public_key,
            created_at,
            expires_at,
            signing,
        )->Ok_0.public_key != identity.root_key,
        create_spec(identity, purpose, public_key, created_at, expires_at, signing)->Ok_0.valid_at(
            created_at,
        ),
        create_spec(identity, purpose, public_key, created_at, expires_at, signing)->Ok_0.subject
            == identity.identifier,
{
}

} // verus!
