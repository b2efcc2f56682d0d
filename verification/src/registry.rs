//! The device registry: one manager per camera, holding that camera's
//! session state machine.
//!
//! At runtime each manager lives behind a message queue so that all RPC
//! traffic against one device is serialized; the queue and the task are the
//! runtime's concern. The state the registry owns — which cameras have
//! managers, and what replacing, adding or removing one means — is decided
//! here, exactly: camera ids stay unique, a refresh replaces or removes the
//! old manager and hands it back so its device can be logged out, and a
//! shutdown hands every manager back and leaves the registry empty.

use vstd::prelude::*;

use crate::devinfo::{GetSoftwareVersion, ICamera, InfoContainer};
use crate::session::Client;

verus! {

/// What an external downloader needs to fetch one device file: the URL and
/// the session cookie.
#[derive(Debug)]
pub struct IpcFile {
    pub cookie: String,
    pub url: String,
}

/// The device details as refreshed from the device.
#[derive(Clone, Debug)]
pub struct IpcDetail {
    pub sn: String,
    pub device_class: String,
    pub device_type: String,
    pub hardware_version: String,
    pub market_area: String,
    pub process_info: String,
    pub vendor: String,
}

/// The device's software version as refreshed from the device.
#[derive(Clone, Debug)]
pub struct IpcSoftware(pub GetSoftwareVersion);

/// The device's licenses as refreshed from the device.
#[derive(Clone, Debug)]
pub struct IpcLicenses(pub Vec<InfoContainer>);

/// One camera's manager: the camera id and its session state machine. All
/// session mutation goes through `client`; nothing outside reads or writes
/// the session directly.
#[derive(Debug)]
pub struct IpcManager {
    pub id: i64,
    pub client: Client,
}

impl IpcManager {
    pub fn new(id: i64, client: Client) -> (r: IpcManager)
        ensures
            r.id == id,
            r.client == client,
    {
        IpcManager { id, client }
    }

    /// A fresh manager for a stored camera: a clean, logged-out client.
    pub fn from_camera(value: &ICamera) -> (r: IpcManager)
        ensures
            r.id == value.id,
            r.client.ip == value.ip,
            r.client.username == value.username,
            r.client.password == value.password,
            r.client.state is Logout,
            r.client.wf(),
    {
        IpcManager {
            id: value.id,
            client: Client::new(
                value.ip.clone(),
                value.username.clone(),
                value.password.clone(),
            ),
        }
    }

    /// The URL and session cookie an external downloader needs for a device
    /// file. The session must have been kept alive first; callers go
    /// through the keep-alive gate before asking.
    pub fn file(&self, file_path: &str) -> (r: IpcFile)
        ensures
            r.cookie@ == "WebClientSessionID="@ + self.client.connection.session@
                + "; DWebClientSessionID="@ + self.client.connection.session@
                + "; DhWebClientSessionID="@ + self.client.connection.session@,
            r.url@ == "http://"@ + self.client.ip@ + "/RPC_Loadfile"@ + file_path@,
    {
        IpcFile { cookie: self.client.cookie(), url: self.client.file_url(file_path) }
    }

    /// Closes the manager: the best-effort logout request is handed back
    /// for the caller to send, and the client is blocked so no further use
    /// is possible.
    pub fn close(&mut self) -> (r: Option<crate::rpc::RequestBuilder>)
        ensures
            final(self).id == old(self).id,
            final(self).client.state == crate::session::State::Error(
                crate::rpc::LoginError::Closed,
            ),
            old(self).client.state matches crate::session::State::Login(_) ==> (r matches Some(b)
                && b.req.method@ == "global.logout"@ && b.req.session
                == old(self).client.connection.session),
            !(old(self).client.state matches crate::session::State::Login(_)) ==> r is None,
    {
        let b = self.client.logout_request();
        self.client.close();
        b
    }
}

/// The registry's owned state: the managers, one per camera.
#[derive(Debug)]
pub struct IpcStore {
    pub mans: Vec<IpcManager>,
}

pub open spec fn spec_unique_manager_ids(s: Seq<IpcManager>) -> bool {
    forall|i: int, j: int| 0 <= i < j < s.len() ==> s[i].id != s[j].id
}

impl IpcStore {
    /// No camera ever has two managers.
    pub open spec fn wf(self) -> bool {
        spec_unique_manager_ids(self.mans@)
    }

    /// A registry over the stored cameras, one fresh manager each.
    pub fn new(cameras: Vec<ICamera>) -> (r: IpcStore)
        requires
            forall|i: int, j: int|
                0 <= i < j < cameras@.len() ==> cameras@[i].id != cameras@[j].id,
        ensures
            r.wf(),
            r.mans@.len() == cameras@.len(),
            forall|i: int|
                0 <= i < cameras@.len() ==> (#[trigger] r.mans@[i]).id == cameras@[i].id
                    && r.mans@[i].client.state is Logout,
    {
        let mut mans: Vec<IpcManager> = Vec::new();
        let n = cameras.len();
        for i in 0..n
            invariant
                n == cameras@.len(),
                mans@.len() == i,
                forall|a: int, b: int|
                    0 <= a < b < cameras@.len() ==> cameras@[a].id != cameras@[b].id,
                forall|a: int|
                    0 <= a < i ==> (#[trigger] mans@[a]).id == cameras@[a].id
                        && mans@[a].client.state is Logout,
        {
            mans.push(IpcManager::from_camera(&cameras[i]));
        }
        proof {
            assert forall|a: int, b: int|
                0 <= a < b < mans@.len() implies mans@[a].id != mans@[b].id by {
                assert(cameras@[a].id != cameras@[b].id);
            }
        }
        IpcStore { mans }
    }

    /// The index of a camera's manager, if it has one.
    pub fn find(&self, id: i64) -> (r: Option<usize>)
        ensures
            r matches Some(k) ==> 0 <= k < self.mans@.len() && self.mans@[k as int].id == id,
            r is None ==> forall|i: int| 0 <= i < self.mans@.len() ==> (#[trigger] self.mans@[i]).id
                != id,
    {
        let n = self.mans.len();
        for k in 0..n
            invariant
                n == self.mans@.len(),
                forall|i: int| 0 <= i < k ==> (#[trigger] self.mans@[i]).id != id,
        {
            if self.mans[k].id == id {
                return Some(k);
            }
        }
        None
    }

    /// Applies a camera refresh, given what storage now says about the
    /// camera. An edited camera's old manager is replaced by a fresh one
    /// (so credential changes force a new login), a deleted camera's is
    /// removed, an unknown camera gains one. The displaced manager, if any,
    /// is handed back for the caller to close.
    pub fn refresh(&mut self, id: i64, icam: Option<ICamera>) -> (displaced: Option<IpcManager>)
        requires
            old(self).wf(),
            icam matches Some(c) ==> c.id == id,
        ensures
            final(self).wf(),
            ({
                let had = exists|k: int|
                    0 <= k < old(self).mans@.len() && (#[trigger] old(self).mans@[k]).id == id;
                &&& (icam is Some && had ==> displaced is Some && (forall|k: int|
                    0 <= k < old(self).mans@.len() && (#[trigger] old(self).mans@[k]).id == id
                        ==> final(self).mans@.len() == old(self).mans@.len() && final(self).mans@[k].id == id && final(self).mans@[k].client.state is Logout && (forall|j: int|
                        0 <= j < old(self).mans@.len() && j != k ==> final(self).mans@[j] == old(self).mans@[j])))
                &&& (icam is Some && !had ==> displaced is None && final(self).mans@.len() == old(self).mans@.len() + 1 && final(self).mans@[final(self).mans@.len() - 1].id == id && (
                forall|j: int|
                    0 <= j < old(self).mans@.len() ==> final(self).mans@[j] == old(self).mans@[j]))
                &&& (icam is None && had ==> displaced is Some && (forall|k: int|
                    0 <= k < old(self).mans@.len() && (#[trigger] old(self).mans@[k]).id == id
                        ==> final(self).mans@ == old(self).mans@.remove(k)))
                &&& (icam is None && !had ==> displaced is None && final(self).mans == old(self).mans)
            }),
    {
        let at = self.find(id);
        match (icam, at) {
            (Some(c), Some(k)) => {
                let old_man = self.mans.remove(k);
                self.mans.insert(k, IpcManager::from_camera(&c));
                proof {
                    assert forall|a: int, b: int|
                        0 <= a < b < self.mans@.len() implies self.mans@[a].id != self.mans@[b].id
                        by {
                        assert(self.mans@[a].id == old(self).mans@[a].id);
                        assert(self.mans@[b].id == old(self).mans@[b].id);
                    }
                    assert forall|j: int|
                        0 <= j < old(self).mans@.len() && j != k as int implies self.mans@[j]
                        == old(self).mans@[j] by {
                        if j < k as int {
                            assert(old(self).mans@.remove(k as int)[j] == old(self).mans@[j]);
                        } else {
                            assert(old(self).mans@.remove(k as int)[j - 1] == old(self).mans@[j]);
                        }
                    }
                    assert forall|k2: int|
                        0 <= k2 < old(self).mans@.len() && (#[trigger] old(self).mans@[k2]).id
                            == id implies k2 == k as int by {
                        if k2 != k as int {
                            assert(old(self).mans@[k2].id != old(self).mans@[k as int].id);
                        }
                    }
                }
                Some(old_man)
            },
            (Some(c), None) => {
                self.mans.push(IpcManager::from_camera(&c));
                proof {
                    assert forall|a: int, b: int|
                        0 <= a < b < self.mans@.len() implies self.mans@[a].id != self.mans@[b].id
                        by {
                        if b == self.mans@.len() - 1 {
                            assert(old(self).mans@[a].id != id);
                        } else {
                            assert(self.mans@[a] == old(self).mans@[a]);
                            assert(self.mans@[b] == old(self).mans@[b]);
                        }
                    }
                }
                None
            },
            (None, Some(k)) => {
                let old_man = self.mans.remove(k);
                proof {
                    assert forall|a: int, b: int|
                        0 <= a < b < self.mans@.len() implies self.mans@[a].id != self.mans@[b].id
                        by {
                        let a2: int = if a < k as int {
                            a
                        } else {
                            a + 1
                        };
                        let b2: int = if b < k as int {
                            b
                        } else {
                            b + 1
                        };
                        assert(self.mans@[a] == old(self).mans@[a2]);
                        assert(self.mans@[b] == old(self).mans@[b2]);
                    }
                    assert forall|k2: int|
                        0 <= k2 < old(self).mans@.len() && (#[trigger] old(self).mans@[k2]).id
                            == id implies k2 == k as int by {
                        if k2 != k as int {
                            assert(old(self).mans@[k2].id != old(self).mans@[k as int].id);
                        }
                    }
                }
                Some(old_man)
            },
            (None, None) => None,
        }
    }

    /// Empties the registry and hands every manager back, for the caller to
    /// close each (logging its device out). Idempotent: a second shutdown
    /// hands back nothing.
    pub fn shutdown(&mut self) -> (r: Vec<IpcManager>)
        ensures
            final(self).mans@.len() == 0,
            final(self).wf(),
            r@ == old(self).mans@,
    {
        let mut out: Vec<IpcManager> = Vec::new();
        core::mem::swap(&mut self.mans, &mut out);
        out
    }
}

} // verus!
