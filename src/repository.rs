//! Where a package is downloaded from: platform tokens, and the repository
//! URL template with its placeholders filled in.

use vstd::prelude::*;
use crate::text::{chars_of, string_of, chars_equal, concat_chars, contains_chars, contains_seq};
use crate::vars::{replaced, replace_chars};

verus! {

/// The canonical operating-system token for a raw identifier.
pub open spec fn os_token(raw: Seq<char>) -> Seq<char> {
    if raw == "windows"@ || raw == "win"@ {
        "windows"@
    } else if raw == "linux"@ {
        "linux"@
    } else if raw == "macos"@ || raw == "darwin"@ || raw == "osx"@ {
        "macos"@
    } else {
        raw
    }
}

/// The canonical architecture token for a raw identifier.
pub open spec fn arch_token(raw: Seq<char>) -> Seq<char> {
    if raw == "x64"@ || raw == "amd64"@ || raw == "x86_64"@ {
        "x64"@
    } else if raw == "aarch64"@ || raw == "arm64"@ {
        "aarch64"@
    } else {
        raw
    }
}

fn is_one_of(s: &Vec<char>, a: &str, b: &str, c: &str) -> (r: bool)
    ensures
        r == (s@ == a@ || s@ == b@ || s@ == c@),
{
    chars_equal(s, &chars_of(a)) || chars_equal(s, &chars_of(b)) || chars_equal(s, &chars_of(c))
}

/// Normalizes an operating-system identifier (`darwin` is `macos`, ...).
pub fn normalize_os(raw: &str) -> (r: String)
    ensures
        r@ == os_token(raw@),
{
    let s = chars_of(raw);
    if is_one_of(&s, "windows", "win", "windows") {
        string_of(chars_of("windows").as_slice())
    } else if is_one_of(&s, "linux", "linux", "linux") {
        string_of(chars_of("linux").as_slice())
    } else if is_one_of(&s, "macos", "darwin", "osx") {
        string_of(chars_of("macos").as_slice())
    } else {
        string_of(s.as_slice())
    }
}

/// Normalizes an architecture identifier (`amd64` is `x64`, ...).
pub fn normalize_arch(raw: &str) -> (r: String)
    ensures
        r@ == arch_token(raw@),
{
    let s = chars_of(raw);
    if is_one_of(&s, "x64", "amd64", "x86_64") {
        string_of(chars_of("x64").as_slice())
    } else if is_one_of(&s, "aarch64", "arm64", "arm64") {
        string_of(chars_of("aarch64").as_slice())
    } else {
        string_of(s.as_slice())
    }
}

/// The archive format published for an operating system.
pub open spec fn default_format_of(os: Seq<char>) -> Seq<char> {
    if os == "windows"@ {
        "zip"@
    } else if os == "macos"@ || os == "linux"@ {
        "tar.gz"@
    } else {
        Seq::<char>::empty()
    }
}

/// The archive format published for a canonical operating system token.
pub fn default_format(os: &str) -> (r: String)
    ensures
        r@ == default_format_of(os@),
{
    let s = chars_of(os);
    if chars_equal(&s, &chars_of("windows")) {
        string_of(chars_of("zip").as_slice())
    } else if chars_equal(&s, &chars_of("macos")) || chars_equal(&s, &chars_of("linux")) {
        string_of(chars_of("tar.gz").as_slice())
    } else {
        let none: Vec<char> = Vec::new();
        string_of(none.as_slice())
    }
}

/// The URL of a package: `template` with `%version%`, `%arch%`,
/// `%platform%` and `%format%` filled in, in that order; a Windows
/// `rustup-init` download gets its `.exe` suffix.
pub open spec fn package_url_of(
    template: Seq<char>,
    version: Seq<char>,
    os: Seq<char>,
    arch: Seq<char>,
    format: Seq<char>,
) -> Seq<char> {
    let u = replaced(
        replaced(
            replaced(replaced(template, "%version%"@, version), "%arch%"@, arch),
            "%platform%"@,
            os,
        ),
        "%format%"@,
        format,
    );
    if os == "windows"@ && contains_seq(u, "rustup-init"@) {
        u + ".exe"@
    } else {
        u
    }
}

/// The download URL for `version` from the repository `template`, on the
/// canonical platform `os`/`arch`. A direct URL configured for this
/// platform and version, when given, is used as it is.
pub fn choose_package(
    template: &str,
    version: &str,
    os: &str,
    arch: &str,
    format: &str,
    direct: Option<&str>,
) -> (r: String)
    ensures
        match direct {
            Some(d) => r@ == d@,
            None => r@ == package_url_of(template@, version@, os@, arch@, format@),
        },
{
    if let Some(d) = direct {
        return string_of(chars_of(d).as_slice());
    }
    let u1 = replace_chars(&chars_of(template), &chars_of("%version%"), &chars_of(version));
    let u2 = replace_chars(&u1, &chars_of("%arch%"), &chars_of(arch));
    let u3 = replace_chars(&u2, &chars_of("%platform%"), &chars_of(os));
    let u4 = replace_chars(&u3, &chars_of("%format%"), &chars_of(format));
    if chars_equal(&chars_of(os), &chars_of("windows")) && contains_chars(&u4, &chars_of("rustup-init")) {
        string_of(concat_chars(&u4, &chars_of(".exe")).as_slice())
    } else {
        string_of(u4.as_slice())
    }
}

} // verus!
