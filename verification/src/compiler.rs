use vstd::prelude::*;
use vstd::string::StringExecFns;
use sha2::Digest;
use crate::text::{decimal, int_to_string};

verus! {

/// The release of the script compiler that the engine works with.
pub const COMPILER_VERSION: i32 = 22;

/// The lower-case hexadecimal SHA-256 digest of `data`, as `sha2` computes it.
pub uninterp spec fn sha256_hex(data: Seq<u8>) -> Seq<char>;

/// Whether `c` is a lower-case hexadecimal digit.
pub open spec fn is_lower_hex(c: char) -> bool {
    ('0' <= c <= '9') || ('a' <= c <= 'f')
}

/// Hashes `data` with `sha2::Sha256` and formats the digest with `{:x}`.
/// Claims that the text is a function of the bytes (`sha256_hex`) and, as `generic-array`'s
/// `LowerHex` writes two digits from `0123456789abcdef` for each of the 32 digest bytes, that
/// it is 64 lower-case hexadecimal digits. Which digest that is, is not stated.
#[verifier::external_body]
fn sha256_lower_hex(data: &[u8]) -> (r: String)
    ensures
        r@ == sha256_hex(data@),
        r@.len() == 64,
        forall|i: int| 0 <= i < 64 ==> is_lower_hex(#[trigger] r@[i]),
{
    let mut hasher = sha2::Sha256::new();
    hasher.update(data);
    format!("{:x}", hasher.finalize())
}

/// The checksum of a compiler jar: its SHA-256 digest in lower-case hexadecimal.
pub fn compiler_checksum(jar: &[u8]) -> (r: String)
    ensures
        r@ == sha256_hex(jar@),
        r@.len() == 64,
        forall|i: int| 0 <= i < 64 ==> is_lower_hex(#[trigger] r@[i]),
{
    sha256_lower_hex(jar)
}

/// The address of a file of the compiler's release.
pub open spec fn release_url(file: Seq<char>) -> Seq<char> {
    "https://github.com/LostCityRS/RuneScriptKt/releases/download/"@ + decimal(
        COMPILER_VERSION as int,
    ) + "/"@ + file
}

fn release_file_url(file: &str) -> (r: String)
    ensures
        r@ == release_url(file@),
{
    let mut url = String::from_str("https://github.com/LostCityRS/RuneScriptKt/releases/download/");
    let v = int_to_string(COMPILER_VERSION as i64);
    url.append(v.as_str());
    url.append("/");
    url.append(file);
    url
}

/// Where the checksum of the compiler's release is published.
pub fn compiler_sha_url() -> (r: String)
    ensures
        r@ == release_url("RuneScriptCompiler.jar.sha256"@),
{
    release_file_url("RuneScriptCompiler.jar.sha256")
}

/// Where the compiler's release jar is published.
pub fn compiler_jar_url() -> (r: String)
    ensures
        r@ == release_url("RuneScriptCompiler.jar"@),
{
    release_file_url("RuneScriptCompiler.jar")
}

/// The first 64 characters of the published checksum text are ASCII, so that its first
/// 64 bytes are exactly those characters.
pub open spec fn checksum_text_ok(expected: Seq<char>) -> bool {
    expected.len() >= 64 && forall|i: int| 0 <= i < 64 ==> (#[trigger] expected[i] as u32) < 128
}

/// Whether a jar whose checksum is `checksum` must be replaced, given the published
/// checksum text: it must unless its checksum is the text's first 64 characters.
pub fn compiler_outdated(checksum: &str, expected: &str) -> (r: bool)
    requires
        checksum_text_ok(expected@),
    ensures
        r == (checksum@ != expected@.take(64)),
{
    let a: Vec<char> = crate::text::chars_of(checksum);
    let b: Vec<char> = crate::text::chars_of(expected);
    if a.len() != 64 {
        return true;
    }
    let mut i: usize = 0;
    while i < 64
        invariant
            i <= 64,
            a@ == checksum@,
            b@ == expected@,
            a@.len() == 64,
            b@.len() >= 64,
            forall|j: int| 0 <= j < i ==> a@[j] == b@[j],
        decreases 64 - i,
    {
        if a[i] != b[i] {
            assert(checksum@[i as int] != expected@.take(64)[i as int]);
            return true;
        }
        i += 1;
    }
    assert(checksum@ =~= expected@.take(64));
    false
}

} // verus!
