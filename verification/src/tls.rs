//! The certificate chain and the private key for HTTPS, as PEM files hold them.

use vstd::prelude::*;

verus! {

/// The model of a list of byte strings.
pub open spec fn blobs(items: Seq<Vec<u8>>) -> Seq<Seq<u8>> {
    items.map_values(|item: Vec<u8>| item@)
}

/// The certificates that `rustls_pemfile::certs` finds in a PEM file, or the text of its first error.
pub uninterp spec fn pem_certs(pem: Seq<u8>) -> Result<Seq<Seq<u8>>, Seq<char>>;

/// `rustls_pemfile::certs`, read to its end or its first error: the certificates in their order, each
/// in DER form, or the text of the error. They depend on the bytes alone.
#[verifier::external_body]
fn read_certs(pem: &[u8]) -> (r: Result<Vec<Vec<u8>>, String>)
    ensures
        match r {
            Ok(chain) => pem_certs(pem@) is Ok && pem_certs(pem@)->Ok_0 == blobs(chain@),
            Err(e) => pem_certs(pem@) is Err && pem_certs(pem@)->Err_0 == e@,
        },
{
    let mut reader = pem;
    let found = rustls_pemfile::certs(&mut reader);
    found.map(|cert| cert.map(|cert| cert.to_vec()).map_err(|e| e.to_string())).collect()
}

/// The private keys that `rustls_pemfile::pkcs8_private_keys` finds in a PEM file, or the text of its
/// first error.
pub uninterp spec fn pem_keys(pem: Seq<u8>) -> Result<Seq<Seq<u8>>, Seq<char>>;

/// `rustls_pemfile::pkcs8_private_keys`, read to its end or its first error: the PKCS #8 keys in their
/// order, each in DER form, or the text of the error. They depend on the bytes alone.
#[verifier::external_body]
fn read_keys(pem: &[u8]) -> (r: Result<Vec<Vec<u8>>, String>)
    ensures
        match r {
            Ok(keys) => pem_keys(pem@) is Ok && pem_keys(pem@)->Ok_0 == blobs(keys@),
            Err(e) => pem_keys(pem@) is Err && pem_keys(pem@)->Err_0 == e@,
        },
{
    let mut reader = pem;
    let found = rustls_pemfile::pkcs8_private_keys(&mut reader);
    found.map(|key| key.map(|key| key.secret_pkcs8_der().to_vec()).map_err(|e| e.to_string())).collect()
}

/// The certificate chain in a PEM file.
pub fn certificate_chain(cert_pem: &[u8]) -> (r: Result<Vec<Vec<u8>>, String>)
    ensures
        match pem_certs(cert_pem@) {
            Ok(chain) => r is Ok && blobs(r->Ok_0@) == chain,
            Err(e) => r is Err && r->Err_0@ == e,
        },
{
    read_certs(cert_pem)
}

/// The key to be used among those of a PEM file: the first.
pub fn first_key(keys: Vec<Vec<u8>>) -> (r: Result<Vec<u8>, String>)
    ensures
        if keys@.len() == 0 {
            r is Err && r->Err_0@ == "No private key found"@
        } else {
            r is Ok && r->Ok_0 == keys@[0]
        },
{
    let mut keys = keys;
    if keys.len() == 0 {
        Err("No private key found".to_owned())
    } else {
        Ok(keys.remove(0))
    }
}

/// The certificate chain and the private key in two PEM files. What is wrong with the certificates is
/// told before what is wrong with the keys.
pub fn tls_material(cert_pem: &[u8], key_pem: &[u8]) -> (r: Result<(Vec<Vec<u8>>, Vec<u8>), String>)
    ensures
        match (pem_certs(cert_pem@), pem_keys(key_pem@)) {
            (Err(e), _) => r is Err && r->Err_0@ == e,
            (Ok(_), Err(e)) => r is Err && r->Err_0@ == e,
            (Ok(chain), Ok(keys)) => if keys.len() == 0 {
                r is Err && r->Err_0@ == "No private key found"@
            } else {
                r is Ok && blobs((r->Ok_0).0@) == chain && (r->Ok_0).1@ == keys[0]
            },
        },
{
    let chain = match certificate_chain(cert_pem) {
        Ok(chain) => chain,
        Err(e) => {
            return Err(e);
        },
    };
    match read_keys(key_pem) {
        Ok(keys) => match first_key(keys) {
            Ok(key) => Ok((chain, key)),
            Err(e) => Err(e),
        },
        Err(e) => Err(e),
    }
}

/// The material for HTTPS is the whole chain of certificates and the first key. The first thing that
/// cannot be read is the error; a file without a key is one too.
pub proof fn lemma_material_call(
    cert_pem: &[u8],
    key_pem: &[u8],
    r: Result<(Vec<Vec<u8>>, Vec<u8>), String>,
)
    requires
        call_ensures(tls_material, (cert_pem, key_pem), r),
    ensures
        ({
            let chain = pem_certs(cert_pem@);
            let keys = pem_keys(key_pem@);
            &&& r is Ok <==> chain is Ok && keys is Ok && keys->Ok_0.len() > 0
            &&& r is Ok ==> blobs((r->Ok_0).0@) == chain->Ok_0 && (r->Ok_0).1@ == keys->Ok_0[0]
            &&& chain is Err ==> r->Err_0@ == chain->Err_0
            &&& chain is Ok && keys is Err ==> r->Err_0@ == keys->Err_0
            &&& chain is Ok && keys is Ok && keys->Ok_0.len() == 0 ==> r->Err_0@ == "No private key found"@
        }),
{
}

} // verus!
