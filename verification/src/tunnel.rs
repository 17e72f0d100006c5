use vstd::prelude::*;
use crate::text::{parse_usize, parsed_usize};

verus! {

/// What serde_json writes for an object that maps `number_key` to the
/// number `number` and `value_key` to the value parsed from `value_json`:
/// `None` when `value_json` is not JSON.
pub uninterp spec fn json_object_text(
    number_key: Seq<char>,
    number: usize,
    value_key: Seq<char>,
    value_json: Seq<char>,
) -> Option<Seq<char>>;

/// Parses `value_json` with `serde_json::from_str` into a
/// `serde_json::Value`, inserts `number_key` with `number` and then
/// `value_key` with that value into a `serde_json::Map`, and writes the
/// object with `to_string`, as the `json!` macro and `to_string` do. Maps
/// are ordered here (no `preserve_order`), so the text depends on the
/// arguments alone; the contract names it.
#[verifier::external_body]
fn json_object(number_key: &str, number: usize, value_key: &str, value_json: &str) -> (text: Option<
    String,
>)
    ensures
        text is Some <==> json_object_text(number_key@, number, value_key@, value_json@) is Some,
        text matches Some(t) ==> json_object_text(number_key@, number, value_key@, value_json@)
            == Some(t@),
{
    let value: serde_json::Value = serde_json::from_str(value_json).ok()?;
    let mut map = serde_json::Map::new();
    map.insert(number_key.to_string(), serde_json::Value::from(number));
    map.insert(value_key.to_string(), value);
    Some(serde_json::Value::Object(map).to_string())
}

/// The text of a tunnel message: the JSON object with the request id and,
/// as its body, the data parsed as JSON; `None` when the data is not JSON.
pub open spec fn tunnel_body_text(request_id: usize, data: Seq<char>) -> Option<Seq<char>> {
    json_object_text("request_id"@, request_id, "body"@, data)
}

/// Header of a packet sent through the tunnel: the request and packet it
/// belongs to, and its addressing: to all connections or not, to all but
/// one, or to one only.
pub struct TunnelTarget {
    pub request_id: usize,
    pub packet_id: u32,
    pub broadcast: bool,
    pub except_id: Option<usize>,
    pub only_id: Option<usize>,
}

/// A packet for the tunnel: its header and its message text.
pub struct TunnelPacket {
    pub target: TunnelTarget,
    pub message: String,
}

/// What one send does: the packet it puts into the tunnel, if any, and
/// whether it also hands the message to the root sender.
pub struct SendPlan {
    pub tunnel: Option<TunnelPacket>,
    pub to_root: bool,
}

/// The identities of a websocket sender that forwards messages meant for
/// its own connection through a tunnel: its connection id, the id of the
/// connection it propagates for, and the ids stamped on tunnel packets.
pub struct TunnelWebsocketSender {
    pub id: usize,
    pub propagate_id: usize,
    pub request_id: usize,
    pub packet_id: u32,
}

impl TunnelWebsocketSender {
    /// Header of a packet for the propagated connection only.
    pub open spec fn direct_target(self) -> TunnelTarget {
        TunnelTarget {
            request_id: self.request_id,
            packet_id: self.packet_id,
            broadcast: false,
            except_id: None,
            only_id: Some(self.propagate_id),
        }
    }

    /// Header of a packet for every connection.
    pub open spec fn broadcast_target(self) -> TunnelTarget {
        TunnelTarget {
            request_id: self.request_id,
            packet_id: self.packet_id,
            broadcast: true,
            except_id: None,
            only_id: None,
        }
    }

    /// Header of a packet for every connection but the propagated one.
    pub open spec fn all_but_propagated_target(self) -> TunnelTarget {
        TunnelTarget {
            request_id: self.request_id,
            packet_id: self.packet_id,
            broadcast: true,
            except_id: Some(self.propagate_id),
            only_id: None,
        }
    }

    /// Whether `p` is a packet with header `target` whose message wraps
    /// `data` with this sender's request id.
    pub open spec fn is_packet(self, p: TunnelPacket, target: TunnelTarget, data: Seq<char>) -> bool {
        p.target == target && tunnel_body_text(self.request_id, data) == Some(p.message@)
    }

    /// Whether `tunnel` holds a packet with header `target` whose message
    /// wraps `data`.
    pub open spec fn carries(self, tunnel: Option<TunnelPacket>, target: TunnelTarget, data: Seq<
        char,
    >) -> bool {
        match tunnel {
            Some(t) => self.is_packet(t, target, data),
            None => false,
        }
    }

    /// Builds the tunnel packet with header `target` for `data`: `None`
    /// when `data` is not JSON.
    pub fn tunnel_packet(&self, data: &str, target: TunnelTarget) -> (p: Option<TunnelPacket>)
        ensures
            p is Some <==> tunnel_body_text(self.request_id, data@) is Some,
            p matches Some(x) ==> self.is_packet(x, target, data@),
    {
        match json_object("request_id", self.request_id, "body", data) {
            None => None,
            Some(message) => Some(TunnelPacket { target, message }),
        }
    }

    /// Sending `data` to one connection: `None` when the connection id is
    /// not a number, or when the data must go through the tunnel and is not
    /// JSON. The data goes through the tunnel, for the propagated connection
    /// only, when the target is this sender's own connection; to the root
    /// sender otherwise.
    pub fn send(&self, connection_id: &str, data: &str) -> (plan: Option<SendPlan>)
        ensures
            parsed_usize(connection_id@) is None ==> plan is None,
            parsed_usize(connection_id@) matches Some(id) ==> {
                &&& id == self.id ==> (plan is Some <==> tunnel_body_text(self.request_id, data@) is Some)
                &&& id == self.id ==> (plan matches Some(p) ==> (!p.to_root && self.carries(
                    p.tunnel,
                    self.direct_target(),
                    data@,
                )))
                &&& id != self.id ==> (plan matches Some(p) && p.tunnel is None && p.to_root)
            },
    {
        let id = match parse_usize(connection_id) {
            Some(id) => id,
            None => return None,
        };
        if id == self.id {
            let target = TunnelTarget {
                request_id: self.request_id,
                packet_id: self.packet_id,
                broadcast: false,
                except_id: None,
                only_id: Some(self.propagate_id),
            };
            match self.tunnel_packet(data, target) {
                Some(packet) => Some(SendPlan { tunnel: Some(packet), to_root: false }),
                None => None,
            }
        } else {
            Some(SendPlan { tunnel: None, to_root: true })
        }
    }

    /// Sending `data` to everyone: a broadcast through the tunnel, and to the
    /// root sender; `None` when the data is not JSON.
    pub fn send_all(&self, data: &str) -> (plan: Option<SendPlan>)
        ensures
            plan is Some <==> tunnel_body_text(self.request_id, data@) is Some,
            plan matches Some(p) ==> (p.to_root && self.carries(
                p.tunnel,
                self.broadcast_target(),
                data@,
            )),
    {
        let target = TunnelTarget {
            request_id: self.request_id,
            packet_id: self.packet_id,
            broadcast: true,
            except_id: None,
            only_id: None,
        };
        match self.tunnel_packet(data, target) {
            Some(packet) => Some(SendPlan { tunnel: Some(packet), to_root: true }),
            None => None,
        }
    }

    /// Sending `data` to everyone but one connection: a broadcast through
    /// the tunnel that skips the propagated connection, unless that is the
    /// excluded one; and to the root sender in any case. `None` when the
    /// connection id is not a number, or when the tunnel packet is due and
    /// the data is not JSON.
    pub fn send_all_except(&self, connection_id: &str, data: &str) -> (plan: Option<SendPlan>)
        ensures
            parsed_usize(connection_id@) is None ==> plan is None,
            parsed_usize(connection_id@) matches Some(id) ==> {
                &&& id != self.propagate_id ==> (plan is Some <==> tunnel_body_text(self.request_id, data@) is Some)
                &&& id != self.propagate_id ==> (plan matches Some(p) ==> (p.to_root
                    && self.carries(p.tunnel, self.all_but_propagated_target(), data@)))
                &&& id == self.propagate_id ==> (plan matches Some(p) && p.tunnel is None
                    && p.to_root)
            },
    {
        let id = match parse_usize(connection_id) {
            Some(id) => id,
            None => return None,
        };
        if id != self.propagate_id {
            let target = TunnelTarget {
                request_id: self.request_id,
                packet_id: self.packet_id,
                broadcast: true,
                except_id: Some(self.propagate_id),
                only_id: None,
            };
            match self.tunnel_packet(data, target) {
                Some(packet) => Some(SendPlan { tunnel: Some(packet), to_root: true }),
                None => None,
            }
        } else {
            Some(SendPlan { tunnel: None, to_root: true })
        }
    }
}

/// How each send addresses its tunnel packet. A packet for one connection
/// (`send` to this sender's own connection) goes to the propagated
/// connection only and is no broadcast. A packet for everyone (`send_all`)
/// is a broadcast that names no connection. A packet for everyone but one
/// (`send_all_except` with another connection) is a broadcast that skips
/// the propagated connection and is addressed to no single connection. All
/// carry the sender's request and packet ids and wrap the data with its
/// request id.
pub proof fn lemma_tunnel_addressing(
    s: TunnelWebsocketSender,
    p: TunnelPacket,
    target: TunnelTarget,
    data: Seq<char>,
)
    requires
        s.is_packet(p, target, data),
        target == s.direct_target() || target == s.broadcast_target() || target
            == s.all_but_propagated_target(),
    ensures
        p.target.request_id == s.request_id,
        p.target.packet_id == s.packet_id,
        tunnel_body_text(s.request_id, data) == Some(p.message@),
        target == s.direct_target() ==> !p.target.broadcast && p.target.only_id == Some(
            s.propagate_id,
        ) && p.target.except_id is None,
        target == s.broadcast_target() ==> p.target.broadcast && p.target.only_id is None
            && p.target.except_id is None,
        target == s.all_but_propagated_target() ==> p.target.broadcast && p.target.only_id is None
            && p.target.except_id == Some(s.propagate_id),
        s.direct_target() != s.broadcast_target(),
        s.broadcast_target() != s.all_but_propagated_target(),
        s.direct_target() != s.all_but_propagated_target(),
{
}

} // verus!
