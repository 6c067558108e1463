//! Choosing a MIDI port by its name.
use vstd::prelude::*;
use crate::text::{contains_seq, str_contains};

verus! {

/// Whether a port called `port_name` is taken for the device `source`:
/// the two names agree on every byte position they both have (so one is
/// a prefix of the other).
pub open spec fn port_accepts(source: Seq<u8>, port_name: Seq<u8>) -> bool {
    forall|i: int| 0 <= i < port_name.len() && i < source.len() ==> source[i] == port_name[i]
}

/// Whether a port called `port_name` is taken for the device `source`.
pub fn port_name_accepted(source: &[u8], port_name: &[u8]) -> (r: bool)
    ensures
        r == port_accepts(source@, port_name@),
{
    let mut i: usize = 0;
    while i < port_name.len()
        invariant
            i <= port_name@.len(),
            forall|j: int| 0 <= j < i && j < source@.len() ==> source@[j] == port_name@[j],
        decreases port_name.len() - i,
    {
        if i < source.len() && source[i] != port_name[i] {
            return false;
        }
        i = i + 1;
    }
    true
}

/// The first port, among those whose name could be read, that is taken
/// for the device `source`.
pub open spec fn first_accepted(source: Seq<u8>, names: Seq<Option<Seq<u8>>>, r: Option<usize>) -> bool {
    match r {
        Some(i) => {
            &&& i < names.len()
            &&& names[i as int] matches Some(n) && port_accepts(source, n)
            &&& forall|j: int|
                0 <= j < i ==> !(#[trigger] names[j] matches Some(n) && port_accepts(source, n))
        },
        None => forall|j: int|
            0 <= j < names.len() ==> !(#[trigger] names[j] matches Some(n) && port_accepts(source, n)),
    }
}

/// The index of the first port taken for the device `source`; a port whose
/// name could not be read (`None`) is passed over.
pub fn find_accepted_port(source: &[u8], names: &Vec<Option<Vec<u8>>>) -> (r: Option<usize>)
    ensures
        first_accepted(source@, names@.map_values(|n: Option<Vec<u8>>| option_bytes(n)), r),
{
    let ghost ns = names@.map_values(|n: Option<Vec<u8>>| option_bytes(n));
    let mut i: usize = 0;
    while i < names.len()
        invariant
            i <= names@.len(),
            ns == names@.map_values(|n: Option<Vec<u8>>| option_bytes(n)),
            forall|j: int| 0 <= j < i ==> !(#[trigger] ns[j] matches Some(n) && port_accepts(source@, n)),
        decreases names.len() - i,
    {
        assert(ns[i as int] == option_bytes(names@[i as int]));
        match &names[i] {
            Some(n) => {
                if port_name_accepted(source, n.as_slice()) {
                    return Some(i);
                }
            },
            None => {},
        }
        i = i + 1;
    }
    None
}

/// The bytes of a port name that could be read.
pub open spec fn option_bytes(n: Option<Vec<u8>>) -> Option<Seq<u8>> {
    match n {
        Some(v) => Some(v@),
        None => None,
    }
}

/// The first port, among those whose name could be read, whose name
/// contains `keyword`.
pub open spec fn first_containing(keyword: Seq<char>, names: Seq<Option<Seq<char>>>, r: Option<usize>) -> bool {
    match r {
        Some(i) => {
            &&& i < names.len()
            &&& names[i as int] matches Some(n) && contains_seq(n, keyword)
            &&& forall|j: int|
                0 <= j < i ==> !(#[trigger] names[j] matches Some(n) && contains_seq(n, keyword))
        },
        None => forall|j: int|
            0 <= j < names.len() ==> !(#[trigger] names[j] matches Some(n) && contains_seq(n, keyword)),
    }
}

/// The index of the first port whose name contains `keyword`; a port whose
/// name could not be read (`None`) is passed over.
pub fn find_port_containing(names: &Vec<Option<String>>, keyword: &str) -> (r: Option<usize>)
    ensures
        first_containing(keyword@, names.deep_view(), r),
{
    let mut i: usize = 0;
    while i < names.len()
        invariant
            i <= names@.len(),
            forall|j: int|
                0 <= j < i ==> !(#[trigger] names.deep_view()[j] matches Some(n) && contains_seq(
                    n,
                    keyword@,
                )),
        decreases names.len() - i,
    {
        assert(names.deep_view()[i as int] == names@[i as int].deep_view());
        match &names[i] {
            Some(n) => {
                if str_contains(n.as_str(), keyword) {
                    return Some(i);
                }
            },
            None => {},
        }
        i = i + 1;
    }
    None
}

} // verus!
