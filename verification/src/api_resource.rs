//! Watched resource types: the configured descriptor and the full resource
//! identity derived from it (defaults filled in for group, version and
//! plural name).

use vstd::prelude::*;
use vstd::string::{StrSliceExecFns, StringExecFns};

verus! {

/// One configured resource type to watch.
pub struct ConfigResource {
    pub group: Option<String>,
    pub api_version: Option<String>,
    pub kind: String,
    pub plural: Option<String>,
    pub label_selector: Option<String>,
    pub field_selector: Option<String>,
    pub namespace: Option<String>,
}

/// The full identity of a watched resource type: enough to address it
/// through a dynamic cluster client.
#[derive(Debug, Clone, Hash, Eq, PartialEq)]
pub struct ApiResource {
    /// Resource group; empty for the core group.
    pub group: String,
    /// Group version.
    pub version: String,
    /// apiVersion of the resource: the version alone for the core group,
    /// `group/version` otherwise.
    pub api_version: String,
    /// Singular PascalCase name of the resource.
    pub kind: String,
    /// Plural name of the resource.
    pub plural: String,
}

/// ASCII uppercase letters fold to lowercase; all else is unchanged.
pub open spec fn spec_lower_char(c: char) -> char {
    if 65 <= c as u32 <= 90 {
        (((c as u32) + 32) as u8) as char
    } else {
        c
    }
}

/// ASCII-lowercase a whole sequence.
pub open spec fn spec_lower(s: Seq<char>) -> Seq<char> {
    s.map_values(|c: char| spec_lower_char(c))
}

/// Relies on `String`'s `FromIterator` over `char`: collecting characters
/// yields the string of exactly those characters in order.
#[verifier::external_body]
pub(crate) fn chars_to_string(cs: &Vec<char>) -> (r: String)
    ensures
        r@ == cs@,
{
    cs.iter().collect()
}

fn lower_char(c: char) -> (r: char)
    ensures
        r == spec_lower_char(c),
{
    let u = c as u32;
    if 65 <= u && u <= 90 {
        ((u + 32) as u8) as char
    } else {
        c
    }
}

/// ASCII-lowercase a string.
pub fn ascii_lower(s: &str) -> (r: String)
    ensures
        r@ == spec_lower(s@),
{
    let n = s.unicode_len();
    let mut out: Vec<char> = Vec::new();
    let mut i: usize = 0;
    while i < n
        invariant
            i <= n,
            n == s@.len(),
            out@ == spec_lower(s@.take(i as int)),
        decreases n - i,
    {
        let c = s.get_char(i);
        let lc = lower_char(c);
        proof {
            assert(out@.push(lc) =~= spec_lower(s@.take(i as int + 1)));
        }
        out.push(lc);
        i = i + 1;
    }
    proof {
        assert(s@.take(n as int) =~= s@);
    }
    chars_to_string(&out)
}

/// The group a configuration names; empty for the core group.
pub open spec fn spec_group(r: ConfigResource) -> Seq<char> {
    match r.group {
        Some(g) => g@,
        None => Seq::empty(),
    }
}

/// The version a configuration names; `v1` when absent.
pub open spec fn spec_version(r: ConfigResource) -> Seq<char> {
    match r.api_version {
        Some(v) => v@,
        None => "v1"@,
    }
}

/// The apiVersion derived from group and version.
pub open spec fn spec_api_version(r: ConfigResource) -> Seq<char> {
    if spec_group(r).len() == 0 {
        spec_version(r)
    } else {
        spec_group(r) + "/"@ + spec_version(r)
    }
}

/// The plural name: as configured, or the lowercased kind with an `s`.
pub open spec fn spec_plural(r: ConfigResource) -> Seq<char> {
    match r.plural {
        Some(p) => p@,
        None => spec_lower(r.kind@) + "s"@,
    }
}

/// Derive the full resource identity from one configured resource type:
/// empty group and version `v1` by default, apiVersion composed from group
/// and version, and the plural name defaulted to the lowercased kind plus
/// an `s`.
pub fn api_resource_for(resource: &ConfigResource) -> (r: ApiResource)
    ensures
        r.group@ == spec_group(*resource),
        r.version@ == spec_version(*resource),
        r.api_version@ == spec_api_version(*resource),
        r.kind == resource.kind,
        r.plural@ == spec_plural(*resource),
{
    let group = match &resource.group {
        Some(g) => g.clone(),
        None => String::new(),
    };
    let version = match &resource.api_version {
        Some(v) => v.clone(),
        None => String::from_str("v1"),
    };
    let api_version = if group.as_str().is_empty() {
        version.clone()
    } else {
        group.clone().concat("/").concat(version.as_str())
    };
    let kind = resource.kind.clone();
    let plural = match &resource.plural {
        Some(p) => p.clone(),
        None => ascii_lower(resource.kind.as_str()).concat("s"),
    };
    ApiResource { group, version, api_version, kind, plural }
}

} // verus!
