use vstd::prelude::*;
use vstd::string::{StringExecFns, StringSliceAdditionalSpecFns};

verus! {

/// The standard, padded base64 text of `b`.
pub uninterp spec fn base64_of(b: Seq<u8>) -> Seq<char>;

/// Relies on base64's `STANDARD` engine (`Engine::encode`): the padded
/// standard alphabet, four characters for each started group of three bytes.
#[verifier::external_body]
fn encode_base64(b: &Vec<u8>) -> (r: String)
    requires
        b@.len() <= usize::MAX / 2,
    ensures
        r@ == base64_of(b@),
        r@.len() == 4 * ((b@.len() + 2) / 3),
{
    base64::Engine::encode(&base64::engine::general_purpose::STANDARD, b)
}

fn push_str_bytes(out: &mut Vec<u8>, s: &str)
    ensures
        final(out)@ == old(out)@ + s.spec_bytes(),
{
    let b = s.as_bytes();
    let mut i: usize = 0;
    while i < b.len()
        invariant
            b@ == s.spec_bytes(),
            i <= b@.len(),
            out@ == old(out)@ + b@.subrange(0, i as int),
        decreases b@.len() - i,
    {
        out.push(b[i]);
        i = i + 1;
        assert(out@ =~= old(out)@ + b@.subrange(0, i as int));
    }
    assert(b@.subrange(0, i as int) =~= b@);
}

/// The `user:password` credential bytes of HTTP basic authentication.
pub open spec fn basic_credentials(user: Seq<u8>, password: Seq<u8>) -> Seq<u8> {
    user + seq![58u8] + password
}

/// The credential bytes `user:password`.
pub fn basic_credentials_bytes(user: &str, password: &str) -> (r: Vec<u8>)
    ensures
        r@ == basic_credentials(user.spec_bytes(), password.spec_bytes()),
{
    let mut credentials: Vec<u8> = Vec::new();
    push_str_bytes(&mut credentials, user);
    credentials.push(58u8);
    push_str_bytes(&mut credentials, password);
    assert(credentials@ =~= basic_credentials(user.spec_bytes(), password.spec_bytes()));
    credentials
}

/// The `Authorization` header value for already encoded credentials.
pub fn basic_auth_from_encoded(encoded: &str) -> (r: String)
    ensures
        r@ == "Basic "@ + encoded@,
{
    let mut value = String::from_str("Basic ");
    value.append(encoded);
    value
}

/// The value of an `Authorization` header for HTTP basic authentication.
pub fn basic_auth_value(user: &str, password: &str) -> (r: String)
    requires
        user.spec_bytes().len() + password.spec_bytes().len() < usize::MAX / 4,
    ensures
        r@ == "Basic "@ + base64_of(basic_credentials(user.spec_bytes(), password.spec_bytes())),
{
    let credentials = basic_credentials_bytes(user, password);
    let encoded = encode_base64(&credentials);
    basic_auth_from_encoded(encoded.as_str())
}

/// The address that indexes one document into `index` at `base_url`.
pub fn document_url(base_url: &str, index: &str) -> (r: String)
    ensures
        r@ == base_url@ + "/"@ + index@ + "/_doc"@,
{
    let mut url = String::from_str(base_url);
    url.append("/");
    url.append(index);
    url.append("/_doc");
    url
}

} // verus!
