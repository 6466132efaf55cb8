//! The inner message envelope carried by `Ipc` segments, and the one reply
//! this core knows: the list of service accounts.

use vstd::prelude::*;
use crate::bytes::{
    push_bytes, push_u16_le, push_u32_le, push_u64_le, u16_le_bytes, u32_le_bytes, u64_le_bytes,
};

verus! {

/// Length of the envelope on the wire.
pub const IPC_HEADER_LEN: usize = 16;

/// Length of a service account's name field.
pub const ACCOUNT_NAME_LEN: usize = 68;

/// Length of one service account on the wire.
pub const ACCOUNT_LEN: usize = 80;

/// Number of account slots in a service account list.
pub const ACCOUNT_SLOTS: usize = 8;

/// Length of a service account list on the wire.
pub const SERVICE_ID_INFO_LEN: usize = 653;

/// The envelope in front of every inner message.
#[derive(Clone, Copy, Debug, PartialEq, Eq, Structural)]
pub struct IPCHeader {
    pub reserved: u16,
    pub ipc_type: u16,
    pub padding: u16,
    pub server_id: u16,
    pub timestamp: u32,
    pub padding1: u32,
}

impl IPCHeader {
    /// The envelope of a message of type `ipc_type` from server `server_id`,
    /// stamped with `timestamp`, the time in seconds since the epoch.
    pub fn new(server_id: u16, ipc_type: u16, timestamp: u32) -> (h: IPCHeader)
        ensures
            h == (IPCHeader {
                reserved: 0,
                ipc_type,
                padding: 0,
                server_id,
                timestamp,
                padding1: 0,
            }),
    {
        IPCHeader { reserved: 0, ipc_type, padding: 0, server_id, timestamp, padding1: 0 }
    }

    /// The 16 bytes of the envelope.
    pub open spec fn spec_bytes(self) -> Seq<u8> {
        u16_le_bytes(self.reserved) + u16_le_bytes(self.ipc_type) + u16_le_bytes(self.padding)
            + u16_le_bytes(self.server_id) + u32_le_bytes(self.timestamp) + u32_le_bytes(
            self.padding1,
        )
    }

    /// Appends the envelope's bytes.
    pub fn write_to(&self, out: &mut Vec<u8>)
        ensures
            final(out)@ == old(out)@ + self.spec_bytes(),
            self.spec_bytes().len() == 16,
    {
        let ghost start = out@;
        push_u16_le(out, self.reserved);
        push_u16_le(out, self.ipc_type);
        push_u16_le(out, self.padding);
        push_u16_le(out, self.server_id);
        push_u32_le(out, self.timestamp);
        push_u32_le(out, self.padding1);
        assert(out@ =~= start + self.spec_bytes());
    }
}

/// The inner message types a client sends to the lobby.
#[derive(Clone, Copy, Debug, PartialEq, Eq, Structural)]
pub enum ClientLobbyIpcType {
    ReqCharList,
    ReqEnterWorld,
    ClientVersionInfo,
    ReqCharDelete,
    ReqCharCreate,
}

impl ClientLobbyIpcType {
    /// The message type that a wire code stands for, if any.
    pub open spec fn spec_try_from_primitive(code: u16) -> Option<ClientLobbyIpcType> {
        if code == 0x0003 {
            Some(ClientLobbyIpcType::ReqCharList)
        } else if code == 0x0004 {
            Some(ClientLobbyIpcType::ReqEnterWorld)
        } else if code == 0x0005 {
            Some(ClientLobbyIpcType::ClientVersionInfo)
        } else if code == 0x000a {
            Some(ClientLobbyIpcType::ReqCharDelete)
        } else if code == 0x000b {
            Some(ClientLobbyIpcType::ReqCharCreate)
        } else {
            None
        }
    }

    /// Reads a wire code; a code outside the known set gives `None`.
    pub fn try_from_primitive(code: u16) -> (r: Option<ClientLobbyIpcType>)
        ensures
            r == Self::spec_try_from_primitive(code),
    {
        if code == 0x0003 {
            Some(ClientLobbyIpcType::ReqCharList)
        } else if code == 0x0004 {
            Some(ClientLobbyIpcType::ReqEnterWorld)
        } else if code == 0x0005 {
            Some(ClientLobbyIpcType::ClientVersionInfo)
        } else if code == 0x000a {
            Some(ClientLobbyIpcType::ReqCharDelete)
        } else if code == 0x000b {
            Some(ClientLobbyIpcType::ReqCharCreate)
        } else {
            None
        }
    }
}

/// One service account of a list.
#[derive(Clone, Copy, Debug, PartialEq, Eq)]
pub struct IPCServiceAccount {
    pub id: u32,
    pub unknown: u32,
    pub index: u32,
    pub name: [u8; 68],
}

impl IPCServiceAccount {
    /// The 80 bytes of the account.
    pub open spec fn spec_bytes(self) -> Seq<u8> {
        u32_le_bytes(self.id) + u32_le_bytes(self.unknown) + u32_le_bytes(self.index)
            + self.name@
    }

    /// Appends the account's bytes.
    pub fn write_to(&self, out: &mut Vec<u8>)
        ensures
            final(out)@ == old(out)@ + self.spec_bytes(),
            self.spec_bytes().len() == 80,
    {
        let ghost start = out@;
        push_u32_le(out, self.id);
        push_u32_le(out, self.unknown);
        push_u32_le(out, self.index);
        push_bytes(out, self.name.as_slice());
        assert(out@ =~= start + self.spec_bytes());
    }
}

impl Default for IPCServiceAccount {
    fn default() -> (a: IPCServiceAccount)
        ensures
            a.id == 0,
            a.unknown == 0,
            a.index == 0,
            a.name@ == Seq::new(68, |k: int| 0u8),
    {
        let a = IPCServiceAccount { id: 0, unknown: 0, index: 0, name: [0u8; 68] };
        assert(a.name@ =~= Seq::new(68, |k: int| 0u8));
        a
    }
}

/// The list of service accounts sent in answer to a client's version info.
#[derive(Clone, Copy, Debug, PartialEq, Eq)]
pub struct IPCServiceIDInfo {
    pub seq: u64,
    pub padding: u8,
    pub service_accounts_len: u8,
    pub u1: u8,
    pub u2: u8,
    pub padding1: u8,
    pub service_accounts: [IPCServiceAccount; 8],
}

/// The bytes of the first `n` accounts of `accounts`, in order.
pub open spec fn spec_accounts_bytes(accounts: Seq<IPCServiceAccount>, n: nat) -> Seq<u8>
    decreases n,
{
    if n == 0 {
        Seq::<u8>::empty()
    } else {
        spec_accounts_bytes(accounts, (n - 1) as nat) + accounts[n - 1].spec_bytes()
    }
}

/// The bytes of any `n` accounts have length `80 * n`.
pub proof fn lemma_accounts_bytes_len(accounts: Seq<IPCServiceAccount>, n: nat)
    requires
        n <= accounts.len(),
    ensures
        spec_accounts_bytes(accounts, n).len() == 80 * n,
    decreases n,
{
    if n > 0 {
        lemma_accounts_bytes_len(accounts, (n - 1) as nat);
    }
}

impl Default for IPCServiceIDInfo {
    fn default() -> (info: IPCServiceIDInfo)
        ensures
            info.seq == 1,
            info.padding == 0,
            info.service_accounts_len == 0,
            info.u1 == 3,
            info.u2 == 0x99,
            info.padding1 == 0,
            forall|k: int|
                0 <= k < 8 ==> {
                    &&& (#[trigger] info.service_accounts@[k]).id == 0
                    &&& info.service_accounts@[k].unknown == 0
                    &&& info.service_accounts@[k].index == 0
                    &&& info.service_accounts@[k].name@ == Seq::new(68, |j: int| 0u8)
                },
    {
        let empty = IPCServiceAccount::default();
        IPCServiceIDInfo {
            seq: 1,
            padding: 0,
            service_accounts_len: 0,
            u1: 3,
            u2: 0x99,
            padding1: 0,
            service_accounts: [empty; 8],
        }
    }
}

impl IPCServiceIDInfo {
    /// The 653 bytes of the list: the fixed fields, then all eight slots.
    pub open spec fn spec_bytes(self) -> Seq<u8> {
        u64_le_bytes(self.seq) + seq![
            self.padding,
            self.service_accounts_len,
            self.u1,
            self.u2,
            self.padding1,
        ] + spec_accounts_bytes(self.service_accounts@, 8)
    }

    /// Puts `acc` into the next free slot, with its index set to the slot's
    /// number.
    pub fn add_service_account(&mut self, acc: IPCServiceAccount)
        requires
            old(self).service_accounts_len < 8,
        ensures
            final(self).service_accounts_len == old(self).service_accounts_len + 1,
            final(self).service_accounts@ == old(self).service_accounts@.update(
                old(self).service_accounts_len as int,
                (IPCServiceAccount {
                    id: acc.id,
                    unknown: acc.unknown,
                    index: old(self).service_accounts_len as u32,
                    name: acc.name,
                }),
            ),
            final(self).seq == old(self).seq,
            final(self).padding == old(self).padding,
            final(self).u1 == old(self).u1,
            final(self).u2 == old(self).u2,
            final(self).padding1 == old(self).padding1,
    {
        let idx = self.service_accounts_len;
        let mut acc = acc;
        acc.index = idx as u32;
        self.service_accounts_len += 1;
        self.service_accounts[idx as usize] = acc;
    }

    /// Appends the list's bytes.
    pub fn write_to(&self, out: &mut Vec<u8>)
        ensures
            final(out)@ == old(out)@ + self.spec_bytes(),
            self.spec_bytes().len() == 653,
    {
        let ghost start = out@;
        push_u64_le(out, self.seq);
        out.push(self.padding);
        out.push(self.service_accounts_len);
        out.push(self.u1);
        out.push(self.u2);
        out.push(self.padding1);
        let ghost fixed = out@;
        let mut i: usize = 0;
        while i < 8
            invariant
                i <= 8,
                out@ == fixed + spec_accounts_bytes(self.service_accounts@, i as nat),
                spec_accounts_bytes(self.service_accounts@, i as nat).len() == 80 * i,
            decreases 8 - i,
        {
            let ghost before = out@;
            self.service_accounts[i].write_to(out);
            i += 1;
            assert(out@ =~= fixed + spec_accounts_bytes(self.service_accounts@, i as nat));
        }
        assert(out@ =~= start + self.spec_bytes());
    }
}

} // verus!
