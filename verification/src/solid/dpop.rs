//! DPoP proofs (RFC 9449): a P-256 key pair that signs, per HTTP request, a
//! JWT naming the method and URI, so that an access token is bound to the key.
use base64::Engine;
use crate::json::{json_str, push_member, Json, JsonView};
use crate::text::push_str;
use crate::types::{fresh_uuid, now_seconds, uuid_string, uuid_text};
use sha2::Digest;
use vstd::prelude::*;
use vstd::utf8::encode_utf8;

verus! {

/// A char of the URL-safe base64 alphabet (`A-Z`, `a-z`, `0-9`, `-`, `_`).
pub open spec fn url_safe_char(c: char) -> bool {
    ||| ('A' <= c && c <= 'Z')
    ||| ('a' <= c && c <= 'z')
    ||| ('0' <= c && c <= '9')
    ||| c == '-'
    ||| c == '_'
}

/// Every char of `s` is URL-safe base64.
pub open spec fn url_safe(s: Seq<char>) -> bool {
    forall|i: int| 0 <= i < s.len() ==> url_safe_char(#[trigger] s[i])
}

/// Length of the unpadded base64 text of `n` bytes.
pub open spec fn base64_len(n: nat) -> nat {
    (4 * n + 2) / 3
}

/// The char of the URL-safe base64 alphabet for the six bits `v` (below 64).
pub open spec fn base64url_char(v: int) -> char {
    if v < 26 {
        ((v + 65) as u8) as char
    } else if v < 52 {
        ((v + 71) as u8) as char
    } else if v < 62 {
        ((v - 4) as u8) as char
    } else if v == 62 {
        '-'
    } else {
        '_'
    }
}

/// The URL-safe base64 text of `bytes` without `=` padding (RFC 4648,
/// section 5): each group of three bytes gives four chars of six bits each,
/// most significant first; a last group of one or two bytes gives two or
/// three chars, its bits padded with zeros.
pub open spec fn base64url(bytes: Seq<u8>) -> Seq<char>
    decreases bytes.len(),
{
    if bytes.len() == 0 {
        seq![]
    } else if bytes.len() == 1 {
        seq![base64url_char((bytes[0] as int) / 4), base64url_char(((bytes[0] as int) % 4) * 16)]
    } else if bytes.len() == 2 {
        seq![
            base64url_char((bytes[0] as int) / 4),
            base64url_char(((bytes[0] as int) % 4) * 16 + (bytes[1] as int) / 16),
            base64url_char(((bytes[1] as int) % 16) * 4),
        ]
    } else {
        seq![
            base64url_char((bytes[0] as int) / 4),
            base64url_char(((bytes[0] as int) % 4) * 16 + (bytes[1] as int) / 16),
            base64url_char(((bytes[1] as int) % 16) * 4 + (bytes[2] as int) / 64),
            base64url_char((bytes[2] as int) % 64),
        ] + base64url(bytes.skip(3))
    }
}

/// Unpadded URL-safe base64 text is made of URL-safe chars and has the
/// unpadded length.
pub proof fn lemma_base64url_shape(bytes: Seq<u8>)
    ensures
        url_safe(base64url(bytes)),
        base64url(bytes).len() == base64_len(bytes.len()),
    decreases bytes.len(),
{
    assert forall|v: int| 0 <= v < 64 implies #[trigger] url_safe_char(base64url_char(v)) by {
        if v < 26 {
            assert(((v + 65) as u8) as char as u32 == v + 65);
        } else if v < 52 {
            assert(((v + 71) as u8) as char as u32 == v + 71);
        } else if v < 62 {
            assert(((v - 4) as u8) as char as u32 == v - 4);
        }
    }
    if bytes.len() >= 3 {
        lemma_base64url_shape(bytes.skip(3));
        let r = base64url(bytes);
        let head = seq![
            base64url_char((bytes[0] as int) / 4),
            base64url_char(((bytes[0] as int) % 4) * 16 + (bytes[1] as int) / 16),
            base64url_char(((bytes[1] as int) % 16) * 4 + (bytes[2] as int) / 64),
            base64url_char((bytes[2] as int) % 64),
        ];
        assert forall|i: int| 0 <= i < r.len() implies url_safe_char(#[trigger] r[i]) by {
            if i >= 4 {
                assert(r[i] == base64url(bytes.skip(3))[i - 4]);
            } else {
                assert(r[i] == head[i]);
            }
        }
    }
}

/// Encodes with `base64::engine::general_purpose::URL_SAFE_NO_PAD`: the
/// URL-safe alphabet of RFC 4648 (`-` and `_` in place of `+` and `/`) with
/// no `=` padding, as the crate documents that engine.
#[verifier::external_body]
fn encode_base64url(bytes: &[u8]) -> (s: String)
    ensures
        s@ == base64url(bytes@),
{
    base64::engine::general_purpose::URL_SAFE_NO_PAD.encode(bytes)
}

/// The SHA-256 digest of `bytes`.
pub uninterp spec fn sha256(bytes: Seq<u8>) -> Seq<u8>;

/// Hashes with `sha2::Sha256::digest`; the digest is 32 bytes long.
#[verifier::external_body]
fn sha256_digest(bytes: &[u8]) -> (d: Vec<u8>)
    ensures
        d@ == sha256(bytes@),
        d@.len() == 32,
{
    sha2::Sha256::digest(bytes).to_vec()
}

/// The x and y coordinates (32 bytes each, big-endian) of the public point
/// of the P-256 secret key held in the PKCS#8 DER `pkcs8`.
pub uninterp spec fn p256_public_point(pkcs8: Seq<u8>) -> (Seq<u8>, Seq<u8>);

/// Whether `sig`, an ES256 signature in URL-safe unpadded base64 (`r || s`),
/// verifies for `message` under the P-256 public point (`x`, `y`).
pub uninterp spec fn es256_verifies(x: Seq<u8>, y: Seq<u8>, message: Seq<u8>, sig: Seq<char>) -> bool;

/// A fresh P-256 key pair from `p256::ecdsa::SigningKey::random` over the OS
/// random source: the secret key in PKCS#8 DER (`to_pkcs8_der`), and the x and
/// y coordinates of the uncompressed public point of that same key, 32 bytes
/// each. Which key is not stated; `None` when the DER encoding fails.
#[verifier::external_body]
fn random_key_pair() -> (r: Option<(Vec<u8>, Vec<u8>, Vec<u8>)>)
    ensures
        r matches Some((d, x, y)) ==> x@.len() == 32 && y@.len() == 32 && p256_public_point(d@) == (
            x@,
            y@,
        ),
{
    let sk = p256::ecdsa::SigningKey::random(&mut rand_core::OsRng);
    let der = p256::pkcs8::EncodePrivateKey::to_pkcs8_der(&sk).ok()?;
    let point = p256::ecdsa::VerifyingKey::from(&sk).to_encoded_point(false);
    Some((der.as_bytes().to_vec(), point.x()?.to_vec(), point.y()?.to_vec()))
}

/// Signs `message` with `jsonwebtoken::crypto::sign` under ES256 with the
/// PKCS#8 key `pkcs8`. ECDSA as `ring` runs it draws a random nonce, so the
/// signature is not a function of its inputs and is not named; it is a
/// signature of `message` under that key's public point, and the crate
/// encodes it with URL-safe unpadded base64. `None` when signing fails.
#[verifier::external_body]
fn sign_es256(message: &[u8], pkcs8: &[u8]) -> (r: Option<String>)
    ensures
        r matches Some(s) ==> url_safe(s@) && es256_verifies(
            p256_public_point(pkcs8@).0,
            p256_public_point(pkcs8@).1,
            message@,
            s@,
        ),
{
    let key = jsonwebtoken::EncodingKey::from_ec_der(pkcs8);
    jsonwebtoken::crypto::sign(message, &key, jsonwebtoken::Algorithm::ES256).ok()
}

/// Why a DPoP operation failed.
#[derive(Debug, Clone, Copy, PartialEq, Eq, Structural)]
pub enum DpopError {
    /// The key pair could not be produced.
    KeyGeneration,
    /// The proof could not be signed.
    Signing,
}

/// The access token hash carried in a proof: base64url of the SHA-256 of the
/// token's UTF-8 bytes.
pub open spec fn ath_of(access_token: Seq<char>) -> Seq<char> {
    base64url(sha256(encode_utf8(access_token)))
}

/// A DPoP key pair with its key ID.
pub struct DPoPManager {
    /// The secret key, PKCS#8 DER.
    signing_key: Vec<u8>,
    /// The x coordinate of the public point.
    public_x: Vec<u8>,
    /// The y coordinate of the public point.
    public_y: Vec<u8>,
    /// Key ID, for rotation tracking.
    kid: String,
}

/// The public key as a JWK, its members in key order.
pub open spec fn jwk_view(x: Seq<u8>, y: Seq<u8>) -> JsonView {
    JsonView::Object(
        seq![
            ("crv"@, JsonView::Str("P-256"@)),
            ("kty"@, JsonView::Str("EC"@)),
            ("x"@, JsonView::Str(base64url(x))),
            ("y"@, JsonView::Str(base64url(y))),
        ],
    )
}

/// The protected header of a proof: its type, the algorithm, the public key
/// and the key ID, in the order the JWT header is written.
pub open spec fn header_view(jwk: JsonView, kid: Seq<char>) -> JsonView {
    JsonView::Object(
        seq![
            ("typ"@, JsonView::Str("dpop+jwt"@)),
            ("alg"@, JsonView::Str("ES256"@)),
            ("jwk"@, jwk),
            ("kid"@, JsonView::Str(kid)),
        ],
    )
}

/// The claims of a proof; `ath` only when an access token is hashed in.
pub open spec fn claims_view(
    jti: Seq<char>,
    htm: Seq<char>,
    htu: Seq<char>,
    iat: i64,
    ath: Option<Seq<char>>,
) -> JsonView {
    let base = seq![
        ("jti"@, JsonView::Str(jti)),
        ("htm"@, JsonView::Str(htm)),
        ("htu"@, JsonView::Str(htu)),
        ("iat"@, JsonView::Int(iat)),
    ];
    match ath {
        Some(a) => JsonView::Object(base.push(("ath"@, JsonView::Str(a)))),
        None => JsonView::Object(base),
    }
}

/// The signed part of a JWT: the base64url texts of header and claims, joined
/// by a dot.
pub open spec fn signing_input(header: JsonView, claims: JsonView) -> Seq<char> {
    base64url(encode_utf8(crate::json::json_text(header))) + "."@ + base64url(
        encode_utf8(crate::json::json_text(claims)),
    )
}

impl DPoPManager {
    /// The public coordinates are those of the signing key, 32 bytes each.
    #[verifier::type_invariant]
    closed spec fn key_matches(&self) -> bool {
        &&& p256_public_point(self.signing_key@) == (self.public_x@, self.public_y@)
        &&& self.public_x@.len() == 32
        &&& self.public_y@.len() == 32
    }

    /// The key ID.
    pub closed spec fn kid_spec(&self) -> Seq<char> {
        self.kid@
    }

    /// The secret key, PKCS#8 DER.
    pub closed spec fn key_spec(&self) -> Seq<u8> {
        self.signing_key@
    }

    /// The x and y coordinates of the public point.
    pub closed spec fn point_spec(&self) -> (Seq<u8>, Seq<u8>) {
        (self.public_x@, self.public_y@)
    }

    /// The public key as a JWK.
    pub open spec fn jwk_spec(&self) -> JsonView {
        jwk_view(self.point_spec().0, self.point_spec().1)
    }

    /// A fresh key pair with a fresh random key ID: the public point is that
    /// of the secret key, and its coordinates are 32 bytes.
    pub fn generate() -> (r: Result<DPoPManager, DpopError>)
        ensures
            r matches Ok(m) ==> {
                &&& exists|id: u128| m.kid_spec() == uuid_text(id)
                &&& p256_public_point(m.key_spec()) == m.point_spec()
                &&& m.point_spec().0.len() == 32
                &&& m.point_spec().1.len() == 32
            },
            r matches Err(e) ==> e == DpopError::KeyGeneration,
    {
        match random_key_pair() {
            Some((signing_key, public_x, public_y)) => {
                let id = fresh_uuid();
                let kid = uuid_string(id);
                Ok(DPoPManager { signing_key, public_x, public_y, kid })
            },
            None => Err(DpopError::KeyGeneration),
        }
    }

    /// The key ID.
    pub fn kid(&self) -> (s: &str)
        ensures
            s@ == self.kid_spec(),
    {
        self.kid.as_str()
    }

    /// The public key as a JSON Web Key: `kty` EC, `crv` P-256, and as `x`
    /// and `y` the 43-char URL-safe base64 of the 32-byte coordinates of the
    /// public point of the manager's secret key.
    pub fn public_jwk(&self) -> (j: Json)
        ensures
            j@ == self.jwk_spec(),
            p256_public_point(self.key_spec()) == self.point_spec(),
            self.point_spec().0.len() == 32,
            self.point_spec().1.len() == 32,
            base64url(self.point_spec().0).len() == 43,
            base64url(self.point_spec().1).len() == 43,
            url_safe(base64url(self.point_spec().0)),
            url_safe(base64url(self.point_spec().1)),
    {
        proof {
            use_type_invariant(self);
            lemma_base64url_shape(self.point_spec().0);
            lemma_base64url_shape(self.point_spec().1);
        }
        let mut m: Vec<(String, Json)> = Vec::new();
        push_member(&mut m, "crv", json_str("P-256"));
        push_member(&mut m, "kty", json_str("EC"));
        let x = encode_base64url(self.public_x.as_slice());
        push_member(&mut m, "x", json_str(x.as_str()));
        let y = encode_base64url(self.public_y.as_slice());
        push_member(&mut m, "y", json_str(y.as_str()));
        let j = Json::Object(m);
        assert(j@ == self.jwk_spec()) by {
            assert(crate::json::member_views(m@) =~= seq![
                ("crv"@, JsonView::Str("P-256"@)),
                ("kty"@, JsonView::Str("EC"@)),
                ("x"@, JsonView::Str(base64url(self.public_x@))),
                ("y"@, JsonView::Str(base64url(self.public_y@))),
            ]);
        }
        j
    }

    /// The access token hash for a proof sent to a resource server.
    pub fn compute_ath(access_token: &str) -> (s: String)
        ensures
            s@ == ath_of(access_token@),
            url_safe(s@),
            s@.len() == 43,
    {
        let digest = sha256_digest(access_token.as_bytes());
        proof {
            lemma_base64url_shape(digest@);
        }
        encode_base64url(digest.as_slice())
    }

    /// The proof for one request, given its ID `jti` and issue time `iat`
    /// (seconds since the Unix epoch): the signing input of header and claims,
    /// a dot, and a URL-safe signature.
    pub fn assemble_proof(
        &self,
        jti: &str,
        iat: i64,
        htm: &str,
        htu: &str,
        ath: Option<&str>,
    ) -> (r: Result<String, DpopError>)
        ensures
            r matches Ok(s) ==> exists|sig: Seq<char>|
                url_safe(sig) && es256_verifies(
                    self.point_spec().0,
                    self.point_spec().1,
                    encode_utf8(
                        signing_input(
                            header_view(self.jwk_spec(), self.kid_spec()),
                            claims_view(
                                jti@,
                                htm@,
                                htu@,
                                iat,
                                match ath {
                                    Some(a) => Some(a@),
                                    None => None,
                                },
                            ),
                        ),
                    ),
                    sig,
                ) && s@ == signing_input(
                    header_view(self.jwk_spec(), self.kid_spec()),
                    claims_view(
                        jti@,
                        htm@,
                        htu@,
                        iat,
                        match ath {
                            Some(a) => Some(a@),
                            None => None,
                        },
                    ),
                ) + "."@ + sig,
            r matches Err(e) ==> e == DpopError::Signing,
    {
        proof {
            use_type_invariant(self);
        }
        let mut h: Vec<(String, Json)> = Vec::new();
        push_member(&mut h, "typ", json_str("dpop+jwt"));
        push_member(&mut h, "alg", json_str("ES256"));
        push_member(&mut h, "jwk", self.public_jwk());
        push_member(&mut h, "kid", json_str(self.kid.as_str()));
        let header = Json::Object(h);
        let mut c: Vec<(String, Json)> = Vec::new();
        push_member(&mut c, "jti", json_str(jti));
        push_member(&mut c, "htm", json_str(htm));
        push_member(&mut c, "htu", json_str(htu));
        push_member(&mut c, "iat", Json::Int(iat));
        let ghost base = seq![
            ("jti"@, JsonView::Str(jti@)),
            ("htm"@, JsonView::Str(htm@)),
            ("htu"@, JsonView::Str(htu@)),
            ("iat"@, JsonView::Int(iat)),
        ];
        assert(crate::json::member_views(c@) =~= base);
        match ath {
            Some(a) => {
                push_member(&mut c, "ath", json_str(a));
                assert(crate::json::member_views(c@) =~= base.push(("ath"@, JsonView::Str(a@))));
            },
            None => {},
        }
        let claims = Json::Object(c);
        let ghost hv = header_view(self.jwk_spec(), self.kid_spec());
        let ghost cv = claims_view(
            jti@,
            htm@,
            htu@,
            iat,
            match ath {
                Some(a) => Some(a@),
                None => None,
            },
        );
        assert(header@ == hv) by {
            assert(crate::json::member_views(h@) =~= seq![
                ("typ"@, JsonView::Str("dpop+jwt"@)),
                ("alg"@, JsonView::Str("ES256"@)),
                ("jwk"@, self.jwk_spec()),
                ("kid"@, JsonView::Str(self.kid@)),
            ]);
        }
        assert(claims@ == cv);
        let header_text = header.to_text();
        let claims_text = claims.to_text();
        let mut input = encode_base64url(header_text.as_str().as_bytes());
        push_str(&mut input, ".");
        let encoded_claims = encode_base64url(claims_text.as_str().as_bytes());
        push_str(&mut input, encoded_claims.as_str());
        match sign_es256(input.as_str().as_bytes(), self.signing_key.as_slice()) {
            Some(sig) => {
                let mut proof = input;
                push_str(&mut proof, ".");
                push_str(&mut proof, sig.as_str());
                Ok(proof)
            },
            None => Err(DpopError::Signing),
        }
    }

    /// The text of an optional access token hash.
    pub open spec fn ath_view(ath: Option<&str>) -> Option<Seq<char>> {
        match ath {
            Some(a) => Some(a@),
            None => None,
        }
    }

    /// The text of a proof: the signing input of this manager's header and
    /// the claims (`jti`, `htm`, `htu`, `iat`, and `ath` when given), a dot,
    /// and the signature `sig`.
    pub open spec fn proof_text(
        &self,
        jti: Seq<char>,
        iat: i64,
        htm: Seq<char>,
        htu: Seq<char>,
        ath: Option<Seq<char>>,
        sig: Seq<char>,
    ) -> Seq<char> {
        signing_input(header_view(self.jwk_spec(), self.kid_spec()), claims_view(jti, htm, htu, iat, ath))
            + "."@ + sig
    }

    /// `sig` is a signature, under this manager's public point, of the UTF-8
    /// bytes of the signing input of its header and these claims.
    pub open spec fn signature_covers(
        &self,
        jti: Seq<char>,
        iat: i64,
        htm: Seq<char>,
        htu: Seq<char>,
        ath: Option<Seq<char>>,
        sig: Seq<char>,
    ) -> bool {
        es256_verifies(
            self.point_spec().0,
            self.point_spec().1,
            encode_utf8(signing_input(header_view(self.jwk_spec(), self.kid_spec()), claims_view(jti, htm, htu, iat, ath))),
            sig,
        )
    }

    /// A DPoP proof JWT for one HTTP request (`htm` the method, `htu` the URI,
    /// `ath` the access token hash for resource-server requests), with a fresh
    /// random UUID as its ID and the current time. Which UUID, time and
    /// signature is not stated; the proof is this manager's header and these
    /// claims, with a URL-safe signature of them under the manager's key.
    pub fn create_proof(&self, htm: &str, htu: &str, ath: Option<&str>) -> (r: Result<
        String,
        DpopError,
    >)
        ensures
            r matches Ok(s) ==> exists|id: u128, iat: i64, sig: Seq<char>|
                url_safe(sig) && self.signature_covers(uuid_text(id), iat, htm@, htu@, Self::ath_view(ath), sig)
                    && #[trigger] self.proof_text(
                    uuid_text(id),
                    iat,
                    htm@,
                    htu@,
                    Self::ath_view(ath),
                    sig,
                ) == s@,
            r matches Err(e) ==> e == DpopError::Signing,
    {
        let id = fresh_uuid();
        let jti = uuid_string(id);
        let iat = now_seconds();
        let r = self.assemble_proof(jti.as_str(), iat, htm, htu, ath);
        proof {
            let av = Self::ath_view(ath);
            if r is Ok {
                let s = r->Ok_0;
                let sig = choose|sig: Seq<char>|
                    url_safe(sig) && es256_verifies(
                        self.point_spec().0,
                        self.point_spec().1,
                        encode_utf8(
                            signing_input(
                                header_view(self.jwk_spec(), self.kid_spec()),
                                claims_view(jti@, htm@, htu@, iat, av),
                            ),
                        ),
                        sig,
                    ) && s@ == signing_input(
                        header_view(self.jwk_spec(), self.kid_spec()),
                        claims_view(jti@, htm@, htu@, iat, av),
                    ) + "."@ + sig;
                assert(url_safe(sig) && self.signature_covers(uuid_text(id), iat, htm@, htu@, av, sig)
                    && self.proof_text(uuid_text(id), iat, htm@, htu@, av, sig) == s@);
            }
        }
        r
    }
}

} // verus!
