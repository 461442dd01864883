//! The HELO handshake: the `Hello` builder collects the fields the server
//! wants to know of a client, and makes the HELO message sent when
//! connecting.

use vstd::prelude::*;
use crate::capability::{CapList, Capability, join_caps};
use crate::messages::ClientMessage;

verus! {

/// The fields a `Hello` builder holds.
pub struct HelloView {
    pub device_id: u8,
    pub revision: u8,
    pub mac: [u8; 6],
    pub uuid: [u8; 16],
    pub wlan_channel_list: u16,
    pub bytes_received: u64,
    pub language: [char; 2],
    pub reconnect: bool,
    pub caps: Seq<Capability>,
}

/// Builder for the HELO message of the initial connection.
///
/// The two characters of `language` should be ASCII.
pub struct Hello {
    device_id: u8,
    revision: u8,
    mac: [u8; 6],
    uuid: [u8; 16],
    wlan_channel_list: u16,
    bytes_received: u64,
    language: [char; 2],
    reconnect: bool,
    caps: CapList,
}

impl View for Hello {
    type V = HelloView;

    closed spec fn view(&self) -> HelloView {
        HelloView {
            device_id: self.device_id,
            revision: self.revision,
            mac: self.mac,
            uuid: self.uuid,
            wlan_channel_list: self.wlan_channel_list,
            bytes_received: self.bytes_received,
            language: self.language,
            reconnect: self.reconnect,
            caps: self.caps@,
        }
    }
}

/// The WLAN channel list field of the HELO message: only the reconnect bit
/// (0x0400) is kept when reconnecting.
pub open spec fn helo_wlan_channel_list(v: HelloView) -> u16 {
    if v.reconnect {
        v.wlan_channel_list & 0x0400u16
    } else {
        v.wlan_channel_list
    }
}

impl Hello {
    /// A builder with every field zero, no capability and a language of two
    /// NUL characters.
    pub fn new() -> (r: Self)
        ensures
            r@.device_id == 0,
            r@.revision == 0,
            r@.mac@ == seq![0u8, 0, 0, 0, 0, 0],
            r@.uuid@ == Seq::new(16, |i: int| 0u8),
            r@.wlan_channel_list == 0,
            r@.bytes_received == 0,
            r@.language@ == seq!['\0', '\0'],
            !r@.reconnect,
            r@.caps == Seq::<Capability>::empty(),
    {
        let r = Hello {
            device_id: 0,
            revision: 0,
            mac: [0u8; 6],
            uuid: [0u8; 16],
            wlan_channel_list: 0,
            bytes_received: 0,
            language: ['\0', '\0'],
            reconnect: false,
            caps: CapList::empty(),
        };
        assert(r.mac@ =~= seq![0u8, 0, 0, 0, 0, 0]);
        assert(r.uuid@ =~= Seq::new(16, |i: int| 0u8));
        assert(r.language@ =~= seq!['\0', '\0']);
        r
    }

    /// Set the device id field.
    pub fn device_id(self, device_id: u8) -> (r: Self)
        ensures
            r@ == (HelloView { device_id, ..self@ }),
    {
        Hello { device_id, ..self }
    }

    /// Set the revision field.
    pub fn revision(self, revision: u8) -> (r: Self)
        ensures
            r@ == (HelloView { revision, ..self@ }),
    {
        Hello { revision, ..self }
    }

    /// Set the MAC address to report to the server.
    pub fn mac(self, mac: [u8; 6]) -> (r: Self)
        ensures
            r@ == (HelloView { mac, ..self@ }),
    {
        Hello { mac, ..self }
    }

    /// Set the client's UUID.
    pub fn uuid(self, uuid: [u8; 16]) -> (r: Self)
        ensures
            r@ == (HelloView { uuid, ..self@ }),
    {
        Hello { uuid, ..self }
    }

    /// Set the WLAN channel list.
    pub fn wlan_channel_list(self, wlan_channel_list: u16) -> (r: Self)
        ensures
            r@ == (HelloView { wlan_channel_list, ..self@ }),
    {
        Hello { wlan_channel_list, ..self }
    }

    /// Set the number of bytes already received by the client (for resume).
    pub fn bytes_received(self, bytes_received: u64) -> (r: Self)
        ensures
            r@ == (HelloView { bytes_received, ..self@ }),
    {
        Hello { bytes_received, ..self }
    }

    /// Set the language (two-character code in ASCII) reported to the server.
    pub fn language(self, language: [char; 2]) -> (r: Self)
        ensures
            r@ == (HelloView { language, ..self@ }),
    {
        Hello { language, ..self }
    }

    /// Set whether this connection resumes an earlier one.
    pub fn reconnect(self, reconnect: bool) -> (r: Self)
        ensures
            r@ == (HelloView { reconnect, ..self@ }),
    {
        Hello { reconnect, ..self }
    }

    /// Set the capabilities the client will announce.
    pub fn capabilities(self, capabilities: Vec<Capability>) -> (r: Self)
        ensures
            r@ == (HelloView { caps: capabilities@, ..self@ }),
    {
        Hello { caps: CapList::new(capabilities), ..self }
    }

    /// The HELO message sent when connecting.
    pub fn helo_message(&self) -> (m: ClientMessage)
        ensures
            m matches ClientMessage::Helo {
                device_id,
                revision,
                mac,
                uuid,
                wlan_channel_list,
                bytes_received,
                language,
                capabilities,
            } && device_id == self@.device_id && revision == self@.revision && mac == self@.mac
                && uuid == self@.uuid && wlan_channel_list == helo_wlan_channel_list(self@)
                && bytes_received == self@.bytes_received && language == self@.language
                && capabilities@ == join_caps(self@.caps),
    {
        let wlan_channel_list = if self.reconnect {
            self.wlan_channel_list & 0x0400
        } else {
            self.wlan_channel_list
        };
        ClientMessage::Helo {
            device_id: self.device_id,
            revision: self.revision,
            mac: self.mac,
            uuid: self.uuid,
            wlan_channel_list,
            bytes_received: self.bytes_received,
            language: self.language,
            capabilities: self.caps.to_string(),
        }
    }
}

/// When reconnecting, the HELO's WLAN channel list keeps only the reconnect
/// bit (0x0400) of the one set; otherwise it is the one set.
pub proof fn lemma_helo_channel_list(v: HelloView)
    ensures
        ({
            let w = v.wlan_channel_list;
            let r = helo_wlan_channel_list(v);
            &&& v.reconnect ==> (r & 0xFBFFu16) == 0 && (r & 0x0400u16) == (w & 0x0400u16)
            &&& !v.reconnect ==> r == w
        }),
{
    let w = v.wlan_channel_list;
    assert(((w & 0x0400u16) & 0xFBFFu16) == 0 && ((w & 0x0400u16) & 0x0400u16) == (w & 0x0400u16))
        by (bit_vector);
}

} // verus!
