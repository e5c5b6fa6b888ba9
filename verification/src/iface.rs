//! Interface classification: the semantic category of an interface name,
//! decided by its naming-convention prefix. The match is a best-effort
//! heuristic over the name, not a protocol-verified device type.

use vstd::prelude::*;
use vstd::string::*;

verus! {

/// The semantic category of a network interface.
#[derive(Clone, Copy, Debug, PartialEq, Eq, Structural)]
pub enum InterfaceType {
    Wireless,
    Ethernet,
    Loopback,
    Unknown,
}

/// True when `p` is a prefix of `s`.
pub open spec fn is_prefix_of(p: Seq<char>, s: Seq<char>) -> bool {
    p.len() <= s.len() && s.subrange(0, p.len() as int) == p
}

/// What category a name falls under: the wireless prefix first, then the two
/// ethernet conventions, then loopback, else unknown.
pub open spec fn classify(name: Seq<char>) -> InterfaceType {
    if is_prefix_of("wlp"@, name) {
        InterfaceType::Wireless
    } else if is_prefix_of("eth"@, name) || is_prefix_of("enp"@, name) {
        InterfaceType::Ethernet
    } else if is_prefix_of("lo"@, name) {
        InterfaceType::Loopback
    } else {
        InterfaceType::Unknown
    }
}

/// The display position of a category: wireless before ethernet before
/// loopback before unknown.
pub open spec fn rank(t: InterfaceType) -> int {
    match t {
        InterfaceType::Wireless => 0,
        InterfaceType::Ethernet => 1,
        InterfaceType::Loopback => 2,
        InterfaceType::Unknown => 3,
    }
}

/// True when `s` starts with `p`.
fn str_starts_with(s: &str, p: &str) -> (r: bool)
    ensures
        r == is_prefix_of(p@, s@),
{
    let sl = s.unicode_len();
    let pl = p.unicode_len();
    if pl > sl {
        return false;
    }
    let mut i: usize = 0;
    while i < pl
        invariant
            i <= pl,
            pl <= sl,
            pl == p@.len(),
            sl == s@.len(),
            forall|j: int| 0 <= j < i ==> s@[j] == p@[j],
        decreases pl - i,
    {
        if s.get_char(i) != p.get_char(i) {
            proof {
                assert(s@.subrange(0, p@.len() as int)[i as int] == s@[i as int]);
            }
            return false;
        }
        i += 1;
    }
    proof {
        assert(s@.subrange(0, p@.len() as int) =~= p@);
    }
    true
}

/// Classifies an interface name by its prefix. Total: every name gets a
/// category, names matching no known convention get `Unknown`.
pub fn get_interface_type(interface: &str) -> (t: InterfaceType)
    ensures
        t == classify(interface@),
{
    if str_starts_with(interface, "wlp") {
        InterfaceType::Wireless
    } else if str_starts_with(interface, "eth") || str_starts_with(interface, "enp") {
        InterfaceType::Ethernet
    } else if str_starts_with(interface, "lo") {
        InterfaceType::Loopback
    } else {
        InterfaceType::Unknown
    }
}

/// Law: the wireless prefix takes precedence — every name starting with it
/// is classified wireless, whatever other prefixes it also matches.
pub proof fn lemma_classify_wireless_precedence(name: Seq<char>)
    requires
        is_prefix_of("wlp"@, name),
    ensures
        classify(name) == InterfaceType::Wireless,
{
}

impl InterfaceType {
    /// The category's display label.
    pub fn label(&self) -> (r: String)
        ensures
            *self == InterfaceType::Wireless ==> r@ == "Wireless"@,
            *self == InterfaceType::Ethernet ==> r@ == "Ethernet"@,
            *self == InterfaceType::Loopback ==> r@ == "Loopback"@,
            *self == InterfaceType::Unknown ==> r@ == "Unknown"@,
    {
        match self {
            InterfaceType::Wireless => String::from_str("Wireless"),
            InterfaceType::Ethernet => String::from_str("Ethernet"),
            InterfaceType::Loopback => String::from_str("Loopback"),
            InterfaceType::Unknown => String::from_str("Unknown"),
        }
    }
}

/// The wireless interfaces of an already-enumerated list, in order. A pure
/// filter: the OS is not queried again.
pub fn list_wireless(interfaces: &Vec<String>) -> (r: Vec<String>)
    ensures
        r@ == interfaces@.filter(|s: String| classify(s@) == InterfaceType::Wireless),
{
    filter_by_type(interfaces, InterfaceType::Wireless)
}

/// The ethernet interfaces of an already-enumerated list, in order. A pure
/// filter: the OS is not queried again.
pub fn list_ethernet(interfaces: &Vec<String>) -> (r: Vec<String>)
    ensures
        r@ == interfaces@.filter(|s: String| classify(s@) == InterfaceType::Ethernet),
{
    filter_by_type(interfaces, InterfaceType::Ethernet)
}

/// The interfaces of one category, in order.
fn filter_by_type(interfaces: &Vec<String>, t: InterfaceType) -> (r: Vec<String>)
    ensures
        r@ == interfaces@.filter(|s: String| classify(s@) == t),
{
    let ghost pred = |s: String| classify(s@) == t;
    let mut r: Vec<String> = Vec::new();
    let mut i: usize = 0;
    while i < interfaces.len()
        invariant
            i <= interfaces@.len(),
            r@ == interfaces@.take(i as int).filter(pred),
            pred == (|s: String| classify(s@) == t),
        decreases interfaces@.len() - i,
    {
        let name = &interfaces[i];
        proof {
            reveal(Seq::filter);
            let s = interfaces@;
            assert(s.take(i + 1).drop_last() =~= s.take(i as int));
            assert(s.take(i + 1).last() == s[i as int]);
            if pred(s[i as int]) {
                assert(s.take(i + 1).filter(pred) =~= s.take(i as int).filter(pred).push(
                    s[i as int],
                ));
            } else {
                assert(s.take(i + 1).filter(pred) =~= s.take(i as int).filter(pred));
            }
        }
        if get_interface_type(name.as_str()) == t {
            r.push(name.clone());
        }
        i += 1;
    }
    proof {
        assert(interfaces@.take(interfaces@.len() as int) =~= interfaces@);
    }
    r
}

} // verus!
