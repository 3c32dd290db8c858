//! Names of the CDI specification files that the agent writes, one per
//! device kind, and which of them it cleans up.

use vstd::prelude::*;
use vstd::string::*;
use crate::strings::contains_string;

verus! {

/// The prefix of the CDI files Akri owns.
pub const CDI_FILE_PREFIX: &'static str = "akri.sh-";

/// `s` with every `/` replaced by `-`.
pub open spec fn dashed(s: Seq<char>) -> Seq<char> {
    s.map_values(|c: char| if c == '/' { '-' } else { c })
}

/// The file that holds the CDI specification of a device kind.
pub open spec fn spec_cdi_file_name(kind: Seq<char>) -> Seq<char> {
    dashed(kind) + ".json"@
}

/// `s` with every `/` replaced by `-`.
pub fn dash_slashes(s: &str) -> (r: String)
    ensures
        r@ == dashed(s@),
{
    let n = s.unicode_len();
    let mut r = String::new();
    let mut i: usize = 0;
    while i < n
        invariant
            i <= n,
            n == s@.len(),
            r@ == dashed(s@.take(i as int)),
        decreases n - i,
    {
        let c = s.get_char(i);
        let ghost before = r@;
        let ghost d = if c == '/' { '-' } else { c };
        if c == '/' {
            r.append("-");
            proof {
                reveal_strlit("-");
            }
            assert("-"@ =~= seq!['-']);
        } else {
            let piece = s.substring_char(i, i + 1);
            assert(piece@ =~= seq![c]);
            r.append(piece);
        }
        proof {
            assert(r@ =~= before.push(d));
            assert(s@.take(i + 1) =~= s@.take(i as int).push(c));
            assert(dashed(s@.take(i + 1)) =~= dashed(s@.take(i as int)).push(d));
        }
        i = i + 1;
    }
    assert(s@.take(n as int) =~= s@);
    r
}

/// The CDI file of a device kind: its name with `/` made `-`, then `.json`.
pub fn cdi_file_name(kind: &str) -> (r: String)
    ensures
        r@ == spec_cdi_file_name(kind@),
{
    dash_slashes(kind).concat(".json")
}

/// Splits a fully qualified device name `kind=device` at its first `=`,
/// giving the CDI file of the kind and the device name; `None` without `=`.
pub open spec fn spec_fqdn_to_file(fqdn: Seq<char>) -> Option<(Seq<char>, Seq<char>)> {
    if exists|i: int| 0 <= i < fqdn.len() && fqdn[i] == '=' {
        let i = choose|i: int|
            0 <= i < fqdn.len() && fqdn[i] == '=' && forall|j: int| 0 <= j < i ==> fqdn[j] != '=';
        Some((spec_cdi_file_name(fqdn.take(i)), fqdn.skip(i + 1)))
    } else {
        None
    }
}

pub fn fqdn_to_file(fqdn: &str) -> (r: Option<(String, String)>)
    ensures
        match r {
            Some((file, device)) => spec_fqdn_to_file(fqdn@) == Some((file@, device@)),
            None => spec_fqdn_to_file(fqdn@) is None,
        },
{
    let n = fqdn.unicode_len();
    let mut i: usize = 0;
    while i < n
        invariant
            i <= n,
            n == fqdn@.len(),
            forall|j: int| 0 <= j < i ==> fqdn@[j] != '=',
        decreases n - i,
    {
        if fqdn.get_char(i) == '=' {
            let kind = fqdn.substring_char(0, i);
            let device = fqdn.substring_char(i + 1, n);
            proof {
                let c = choose|c: int|
                    0 <= c < fqdn@.len() && fqdn@[c] == '=' && forall|j: int|
                        0 <= j < c ==> fqdn@[j] != '=';
                assert(fqdn@[i as int] == '=' && forall|j: int| 0 <= j < i ==> fqdn@[j] != '=');
                if c < i {
                    assert(fqdn@[c] != '=');
                } else if c > i {
                    assert(fqdn@[i as int] != '=');
                }
                assert(kind@ =~= fqdn@.take(i as int));
                assert(device@ =~= fqdn@.skip(i + 1));
            }
            return Some((cdi_file_name(kind), String::from_str(device)));
        }
        i = i + 1;
    }
    None
}

pub open spec fn has_prefix(s: Seq<char>, p: Seq<char>) -> bool {
    p.len() <= s.len() && s.take(p.len() as int) == p
}

pub fn starts_with(s: &str, prefix: &str) -> (b: bool)
    ensures
        b == has_prefix(s@, prefix@),
{
    let n = s.unicode_len();
    let m = prefix.unicode_len();
    if m > n {
        return false;
    }
    let mut i: usize = 0;
    while i < m
        invariant
            i <= m <= n,
            n == s@.len(),
            m == prefix@.len(),
            forall|j: int| 0 <= j < i ==> s@[j] == prefix@[j],
        decreases m - i,
    {
        if s.get_char(i) != prefix.get_char(i) {
            assert(s@.take(m as int)[i as int] != prefix@[i as int]);
            return false;
        }
        i = i + 1;
    }
    assert(s@.take(m as int) =~= prefix@);
    true
}

/// A file of the CDI directory is removed when it is one of Akri's and no
/// current device kind uses it.
pub fn should_remove_cdi_file(file_name: &String, to_keep: &Vec<String>) -> (b: bool)
    ensures
        b == (has_prefix(file_name@, CDI_FILE_PREFIX@) && !to_keep.deep_view().contains(file_name@)),
{
    starts_with(file_name.as_str(), CDI_FILE_PREFIX) && !contains_string(to_keep, file_name)
}

/// Manages CDI devices through specification files in a directory.
pub struct FileBasedDeviceManager {
    /// The directory of the CDI specification files.
    pub path: String,
}

impl FileBasedDeviceManager {
    /// The file (within `self.path`) and device name of a fully qualified
    /// device name.
    pub fn file_of(&self, fqdn: &str) -> (r: Option<(String, String)>)
        ensures
            match r {
                Some((file, device)) => spec_fqdn_to_file(fqdn@) == Some((file@, device@)),
                None => spec_fqdn_to_file(fqdn@) is None,
            },
    {
        fqdn_to_file(fqdn)
    }
}

} // verus!
