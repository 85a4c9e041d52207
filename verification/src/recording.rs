use vstd::prelude::*;

use crate::net::IpAddress;
use crate::system_dns::{
    clear_call, get_call, list_call, names_result_view, servers_result_view, set_call,
    unit_result_view, PlatformCall, SystemDnsPlatform,
};

verus! {

/// A platform together with the record of every call made to it through this wrapper, in
/// order, with what each call returned.
pub struct RecordingPlatform<P> {
    platform: P,
    calls: Ghost<Seq<PlatformCall>>,
}

impl<P: SystemDnsPlatform> RecordingPlatform<P> {
    /// The calls made so far, oldest first.
    pub closed spec fn calls(&self) -> Seq<PlatformCall> {
        self.calls@
    }

    /// A platform with no calls recorded.
    pub fn new(platform: P) -> (r: Self)
        ensures
            r.calls() == Seq::<PlatformCall>::empty(),
    {
        RecordingPlatform { platform, calls: Ghost(Seq::empty()) }
    }

    /// Lists the network services.
    pub fn list(&mut self) -> (r: Result<Vec<String>, String>)
        ensures
            final(self).calls() == old(self).calls().push(list_call(names_result_view(r))),
    {
        let r = self.platform.list_network_services();
        proof {
            self.calls@ = self.calls@.push(list_call(names_result_view(r)));
        }
        r
    }

    /// Reads the servers of one service.
    pub fn get(&mut self, service: &str) -> (r: Result<Vec<IpAddress>, String>)
        ensures
            final(self).calls() == old(self).calls().push(get_call(service@, servers_result_view(r))),
    {
        let r = self.platform.get_servers(service);
        proof {
            self.calls@ = self.calls@.push(get_call(service@, servers_result_view(r)));
        }
        r
    }

    /// Sets the servers of one service.
    pub fn set(&mut self, service: &str, servers: &Vec<IpAddress>) -> (r: Result<(), String>)
        ensures
            final(self).calls() == old(self).calls().push(
                set_call(service@, servers@, unit_result_view(r)),
            ),
    {
        let r = self.platform.set_servers(service, servers.as_slice());
        proof {
            self.calls@ = self.calls@.push(set_call(service@, servers@, unit_result_view(r)));
        }
        r
    }

    /// Clears the servers of one service.
    pub fn clear(&mut self, service: &str) -> (r: Result<(), String>)
        ensures
            final(self).calls() == old(self).calls().push(clear_call(service@, unit_result_view(r))),
    {
        let r = self.platform.clear_servers(service);
        proof {
            self.calls@ = self.calls@.push(clear_call(service@, unit_result_view(r)));
        }
        r
    }
}

} // verus!
