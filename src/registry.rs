//! The registry of pre-opened listening sockets: which are valid together,
//! and which of them a service's workers inherit.
use vstd::prelude::*;

use crate::config::{ServiceConfig, SocketConfig};

verus! {

/// Why a set of socket declarations is refused.
#[derive(Clone, Copy, Debug, PartialEq, Eq, Structural)]
pub enum RegistryError {
    /// The sockets with these two indices share a name.
    DuplicateSocket(usize, usize),
    /// The socket with this index is routed to a service nobody declared.
    UnknownService(usize),
}

/// No two sockets share a name.
pub open spec fn names_unique(sockets: Seq<SocketConfig>) -> bool {
    forall|i: int, j: int|
        0 <= i < j < sockets.len() ==> (#[trigger] sockets[i]).name@ != (#[trigger] sockets[j]).name@
}

/// Some service is named `n`.
pub open spec fn declared(services: Seq<ServiceConfig>, n: Seq<char>) -> bool {
    exists|k: int| 0 <= k < services.len() && (#[trigger] services[k]).name@ == n
}

/// Every service that socket `s` is routed to is declared.
pub open spec fn routes_known(s: SocketConfig, services: Seq<ServiceConfig>) -> bool {
    forall|j: int| 0 <= j < s.service@.len() ==> declared(services, (#[trigger] s.service@[j])@)
}

/// Every socket is routed to declared services only.
pub open spec fn all_routes_known(sockets: Seq<SocketConfig>, services: Seq<ServiceConfig>) -> bool {
    forall|i: int| 0 <= i < sockets.len() ==> routes_known(#[trigger] sockets[i], services)
}

/// Socket `s` is routed to the service named `n`.
pub open spec fn routed_to(s: SocketConfig, n: Seq<char>) -> bool {
    exists|j: int| 0 <= j < s.service@.len() && (#[trigger] s.service@[j])@ == n
}

/// The indices of the sockets routed to the service named `n`, in order.
pub open spec fn sockets_of(sockets: Seq<SocketConfig>, n: Seq<char>) -> Seq<usize>
    decreases sockets.len(),
{
    if sockets.len() == 0 {
        Seq::empty()
    } else {
        sockets_of(sockets.drop_last(), n) + if routed_to(sockets.last(), n) {
            seq![(sockets.len() - 1) as usize]
        } else {
            Seq::<usize>::empty()
        }
    }
}

/// Whether some string of `names` equals `n`.
fn contains_name(names: &Vec<String>, n: &String) -> (r: bool)
    ensures
        r == exists|j: int| 0 <= j < names@.len() && (#[trigger] names@[j])@ == n@,
{
    let mut j: usize = 0;
    while j < names.len()
        invariant
            j <= names@.len(),
            forall|k: int| 0 <= k < j ==> (#[trigger] names@[k])@ != n@,
        decreases names@.len() - j,
    {
        if names[j].eq(n) {
            return true;
        }
        j = j + 1;
    }
    false
}

/// Whether some service is named `n`.
fn is_declared(services: &Vec<ServiceConfig>, n: &String) -> (r: bool)
    ensures
        r == declared(services@, n@),
{
    let mut k: usize = 0;
    while k < services.len()
        invariant
            k <= services@.len(),
            forall|m: int| 0 <= m < k ==> (#[trigger] services@[m]).name@ != n@,
        decreases services@.len() - k,
    {
        if services[k].name.eq(n) {
            return true;
        }
        k = k + 1;
    }
    false
}

/// Checks the socket declarations against each other and the services:
/// names must be unique, and a socket may be routed to declared services
/// only. A duplicate name is reported before an unknown service.
pub fn check_sockets(sockets: &Vec<SocketConfig>, services: &Vec<ServiceConfig>) -> (r: Result<
    (),
    RegistryError,
>)
    ensures
        r is Ok <==> names_unique(sockets@) && all_routes_known(sockets@, services@),
        r matches Err(RegistryError::DuplicateSocket(i, j)) ==> !names_unique(sockets@) && i < j
            < sockets@.len() && sockets@[i as int].name@ == sockets@[j as int].name@,
        r matches Err(RegistryError::UnknownService(i)) ==> names_unique(sockets@) && i
            < sockets@.len() && !routes_known(sockets@[i as int], services@),
{
    let n = sockets.len();
    let mut i: usize = 0;
    while i < n
        invariant
            n == sockets@.len(),
            i <= n,
            forall|a: int, b: int| 0 <= a < b < n && a < i ==> (#[trigger] sockets@[a]).name@
                != (#[trigger] sockets@[b]).name@,
        decreases n - i,
    {
        let mut j: usize = i + 1;
        while j < n
            invariant
                n == sockets@.len(),
                i < n,
                i < j <= n,
                forall|a: int, b: int| 0 <= a < b < n && a < i ==> (#[trigger] sockets@[a]).name@
                    != (#[trigger] sockets@[b]).name@,
                forall|b: int| i < b < j ==> sockets@[i as int].name@ != (#[trigger] sockets@[b]).name@,
            decreases n - j,
        {
            if sockets[i].name.eq(&sockets[j].name) {
                return Err(RegistryError::DuplicateSocket(i, j));
            }
            j = j + 1;
        }
        i = i + 1;
    }
    let mut i: usize = 0;
    while i < n
        invariant
            n == sockets@.len(),
            i <= n,
            names_unique(sockets@),
            forall|a: int| 0 <= a < i ==> routes_known(#[trigger] sockets@[a], services@),
        decreases n - i,
    {
        let s = &sockets[i];
        let mut j: usize = 0;
        while j < s.service.len()
            invariant
                n == sockets@.len(),
                i < n,
                names_unique(sockets@),
                s == sockets@[i as int],
                j <= s.service@.len(),
                forall|b: int| 0 <= b < j ==> declared(services@, (#[trigger] s.service@[b])@),
            decreases s.service@.len() - j,
        {
            if !is_declared(services, &s.service[j]) {
                return Err(RegistryError::UnknownService(i));
            }
            j = j + 1;
        }
        i = i + 1;
    }
    Ok(())
}

/// The indices of the sockets whose listeners the workers of the service
/// named `name` inherit, in declaration order.
pub fn sockets_for(sockets: &Vec<SocketConfig>, name: &String) -> (r: Vec<usize>)
    ensures
        r@ == sockets_of(sockets@, name@),
{
    let mut out: Vec<usize> = Vec::new();
    let mut i: usize = 0;
    while i < sockets.len()
        invariant
            i <= sockets@.len(),
            out@ == sockets_of(sockets@.subrange(0, i as int), name@),
        decreases sockets@.len() - i,
    {
        assert(sockets@.subrange(0, i + 1).drop_last() =~= sockets@.subrange(0, i as int));
        if contains_name(&sockets[i].service, name) {
            out.push(i);
        }
        i = i + 1;
        assert(out@ =~= sockets_of(sockets@.subrange(0, i as int), name@));
    }
    assert(sockets@.subrange(0, i as int) =~= sockets@);
    out
}

} // verus!
