//! The computed parts of the one-time installer: the native-messaging
//! manifest text and the paths it is written to.
//!
//! The installer itself only writes files and, on one platform, a
//! registry key; those writes live outside the library.  Everything it
//! writes or writes to is computed here.

use vstd::prelude::*;
use vstd::string::StringExecFns;

verus! {

/// The manifest text up to the executable path.
pub open spec fn manifest_head() -> Seq<char> {
    "{\n  \"name\": \"firenvim\",\n  \"description\": \"Turn Firefox into a Neovim client.\",\n  \"path\": \""@
}

/// The manifest text behind the executable path.
pub open spec fn manifest_tail() -> Seq<char> {
    "\",\n  \"type\": \"stdio\",\n  \"allowed_extensions\": [ \"firenvim@lacamb.re\" ]\n}\n"@
}

/// The manifest text up to the executable path.
pub fn manifest_head_str() -> (r: &'static str)
    ensures
        r@ == manifest_head(),
{
    "{\n  \"name\": \"firenvim\",\n  \"description\": \"Turn Firefox into a Neovim client.\",\n  \"path\": \""
}

/// The manifest text behind the executable path.
pub fn manifest_tail_str() -> (r: &'static str)
    ensures
        r@ == manifest_tail(),
{
    "\",\n  \"type\": \"stdio\",\n  \"allowed_extensions\": [ \"firenvim@lacamb.re\" ]\n}\n"
}

/// The native-messaging manifest: the fixed template with the path of
/// the installed executable substituted into its `path` attribute.
pub fn manifest_content(binary_path: &str) -> (r: String)
    ensures
        r@ == manifest_head() + binary_path@ + manifest_tail(),
{
    let mut content = manifest_head_str().to_owned();
    content.append(binary_path);
    content.append(manifest_tail_str());
    content
}

/// A directory entry path: the directory, one separator, the entry name.
pub fn join_path(dir: &str, separator: &str, name: &str) -> (r: String)
    ensures
        r@ == dir@ + separator@ + name@,
{
    let mut path = dir.to_owned();
    path.append(separator);
    path.append(name);
    path
}

/// Where the manifest lands relative to the home directory on Linux.
pub fn manifest_path_linux(home_dir: &str) -> (r: String)
    ensures
        r@ == home_dir@ + "/.mozilla/native-messaging-hosts/firenvim.json"@,
{
    let mut path = home_dir.to_owned();
    path.append("/.mozilla/native-messaging-hosts/firenvim.json");
    path
}

/// Where the manifest lands relative to the home directory on macOS.
pub fn manifest_path_macos(home_dir: &str) -> (r: String)
    ensures
        r@ == home_dir@
            + "/Library/Application Support/Mozilla/NativeMessagingHosts/firenvim.json"@,
{
    let mut path = home_dir.to_owned();
    path.append("/Library/Application Support/Mozilla/NativeMessagingHosts/firenvim.json");
    path
}

/// Where the manifest lands relative to the per-user data directory on
/// Windows.
pub fn manifest_path_windows(data_dir: &str) -> (r: String)
    ensures
        r@ == data_dir@ + "\\firenvim.json"@,
{
    let mut path = data_dir.to_owned();
    path.append("\\firenvim.json");
    path
}

/// The byte value of a backslash.
pub const BACKSLASH: u8 = 92;

/// A path with every backslash doubled, byte for byte: what the path of
/// the installed executable becomes before it stands inside the JSON
/// manifest on Windows.
pub open spec fn escaped_backslashes(s: Seq<u8>) -> Seq<u8>
    decreases s.len(),
{
    if s.len() == 0 {
        Seq::<u8>::empty()
    } else {
        escaped_backslashes(s.drop_last()) + (if s.last() == BACKSLASH {
            seq![BACKSLASH, BACKSLASH]
        } else {
            seq![s.last()]
        })
    }
}

/// Doubles every backslash of `s`, leaving every other byte as it is.
pub fn escape_backslashes(s: &Vec<u8>) -> (r: Vec<u8>)
    ensures
        r@ == escaped_backslashes(s@),
{
    let mut r: Vec<u8> = Vec::new();
    let mut i: usize = 0;
    proof {
        assert(s@.take(0) =~= Seq::<u8>::empty());
    }
    while i < s.len()
        invariant
            i <= s@.len(),
            r@ == escaped_backslashes(s@.take(i as int)),
        decreases s@.len() - i,
    {
        let b = s[i];
        if b == BACKSLASH {
            r.push(BACKSLASH);
            r.push(BACKSLASH);
        } else {
            r.push(b);
        }
        i = i + 1;
        proof {
            assert(s@.take(i as int).drop_last() =~= s@.take(i - 1));
            assert(s@.take(i as int).last() == s@[i - 1]);
            assert(r@ =~= escaped_backslashes(s@.take(i - 1)) + (if b == BACKSLASH {
                seq![BACKSLASH, BACKSLASH]
            } else {
                seq![b]
            }));
        }
    }
    proof {
        assert(s@.take(s@.len() as int) =~= s@);
    }
    r
}

} // verus!
