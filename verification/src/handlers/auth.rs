//! Authentication: a challenge-response over the client's RSA key, then the
//! node server resolves the user.
//!
//! Request: `[action: u8]`; RequestChallenge (0) has nothing more;
//! ResolveChallenge (1) carries `[key_len: u16][public_key][sig_len: u16]
//! [signature][user_id: u32][server: string]`.
//!
//! The steps that need the outside world (drawing the challenge, checking
//! the signature, asking the node) are the caller's; each step here takes
//! what they gave and decides the next one.
use vstd::prelude::*;

use super::context::AppState;
use super::packet::{out, Delivery, OutView, Outgoing, PacketType};
use crate::client::client::{AuthState, Client};
use crate::client::user::User;
use crate::master::messages::{ResolveUserInfo, ResolveUserResponse};
use crate::wire::{le32, le64, string_field, take_bytes, take_string, take_u16, take_u32, take_u8, PacketReader, PacketWriter};

verus! {

pub const REQUEST_CHALLENGE: u8 = 0;
pub const RESOLVE_CHALLENGE: u8 = 1;
/// Bytes of a challenge.
pub const CHALLENGE_LEN: usize = 16;

/// Result codes of an Authentication packet.
#[derive(Debug, Clone, Copy, PartialEq, Eq, Structural)]
pub enum AuthResult {
    Success,
    Challenge,
    MasterError,
    Blacklisted,
    Invalid,
    Signature,
    Unknown,
}

impl AuthResult {
    pub open spec fn spec_code(self) -> u8 {
        match self {
            AuthResult::Success => 0,
            AuthResult::Challenge => 1,
            AuthResult::MasterError => 2,
            AuthResult::Blacklisted => 3,
            AuthResult::Invalid => 4,
            AuthResult::Signature => 5,
            AuthResult::Unknown => 255,
        }
    }

    pub fn code(self) -> (c: u8)
        ensures
            c == self.spec_code(),
    {
        match self {
            AuthResult::Success => 0,
            AuthResult::Challenge => 1,
            AuthResult::MasterError => 2,
            AuthResult::Blacklisted => 3,
            AuthResult::Invalid => 4,
            AuthResult::Signature => 5,
            AuthResult::Unknown => 255,
        }
    }
}

/// `[result][reason]`.
pub open spec fn auth_reply(result: AuthResult, reason: Seq<char>) -> Seq<u8> {
    seq![result.spec_code()] + string_field(reason)
}

/// A `[len: u16][bytes]` field and the bytes after it.
pub open spec fn take_prefixed(s: Seq<u8>) -> (Seq<u8>, Seq<u8>) {
    let (n, r) = take_u16(s);
    take_bytes(r, n as nat)
}

/// What a ResolveChallenge carries besides the action: key, signature, user id, server.
pub struct ChallengeAnswer {
    /// The challenge the client was given.
    pub challenge: Vec<u8>,
    pub public_key: Vec<u8>,
    pub signature: Vec<u8>,
    pub user_id: u32,
    pub server: String,
}

/// What the first step of an Authentication request decided.
pub enum AuthStep {
    /// No answer: unknown client, not handshaked, or already authenticated.
    Ignore,
    /// Answered now.
    Reply(Outgoing),
    /// A fresh challenge is to be drawn and given with `issue_challenge`.
    NeedChallenge,
    /// The signature over the challenge is to be checked against the key.
    Verify(ChallengeAnswer),
}

/// Whether client `client_id` may authenticate now.
pub open spec fn may_authenticate(state: AppState, client_id: u16) -> bool {
    state.clients@.contains_key(client_id) && state.clients@[client_id].spec_is_handshaked()
        && !state.clients@[client_id].spec_is_authenticated()
}

fn reply(client_id: u16, uid: u16, result: AuthResult, reason: &str) -> (o: Outgoing)
    ensures
        o@ == out(client_id, uid, PacketType::Authentication, auth_reply(result, reason@), Delivery::Reply),
{
    let mut w = PacketWriter::new();
    w.write_u8(result.code());
    w.write_string(reason);
    let ghost v = w@;
    assert(v =~= auth_reply(result, reason@));
    Outgoing::new(client_id, uid, PacketType::Authentication, w.finish(), Delivery::Reply)
}

fn read_prefixed(r: &mut PacketReader) -> (b: Vec<u8>)
    requires
        old(r).wf(),
    ensures
        final(r).wf(),
        (b@, final(r)@) == take_prefixed(old(r)@),
{
    let n = r.read_u16();
    r.read_bytes(n as usize)
}

/// The first step of an Authentication request from client `client_id`.
pub fn begin(state: &AppState, client_id: u16, uid: u16, payload: Vec<u8>) -> (step: AuthStep)
    ensures
        ({
            let (action, r1) = take_u8(payload@);
            let (key, r2) = take_prefixed(r1);
            let (sig, r3) = take_prefixed(r2);
            let (user_id, r4) = take_u32(r3);
            let server = take_string(r4).0;
            let fail = |reason: Seq<char>| out(client_id, uid, PacketType::Authentication, auth_reply(AuthResult::Unknown, reason), Delivery::Reply);
            if !may_authenticate(*state, client_id) {
                step is Ignore
            } else if action == REQUEST_CHALLENGE {
                step is NeedChallenge
            } else if action != RESOLVE_CHALLENGE {
                step matches AuthStep::Reply(o) && o@ == fail("Invalid action."@)
            } else if state.clients@[client_id].challenge@.len() == 0 {
                step matches AuthStep::Reply(o) && o@ == fail("No challenge requested."@)
            } else if key.len() == 0 {
                step matches AuthStep::Reply(o) && o@ == fail("No public key provided."@)
            } else if sig.len() == 0 {
                step matches AuthStep::Reply(o) && o@ == fail("No signature provided."@)
            } else {
                step matches AuthStep::Verify(a) && a.challenge@ == state.clients@[client_id].challenge@
                    && a.public_key@ == key && a.signature@ == sig && a.user_id == user_id
                    && a.server@ == match server {
                        Some(s) => s,
                        None => Seq::<char>::empty(),
                    }
            }
        }),
{
    let c = match state.clients.get(client_id) {
        Some(c) => c,
        None => return AuthStep::Ignore,
    };
    if !c.is_handshaked() || c.is_authenticated() {
        return AuthStep::Ignore;
    }
    let mut r = PacketReader::new(payload);
    let action = r.read_u8();
    if action == REQUEST_CHALLENGE {
        return AuthStep::NeedChallenge;
    }
    if action != RESOLVE_CHALLENGE {
        return AuthStep::Reply(reply(client_id, uid, AuthResult::Unknown, "Invalid action."));
    }
    if c.challenge.len() == 0 {
        return AuthStep::Reply(reply(client_id, uid, AuthResult::Unknown, "No challenge requested."));
    }
    let public_key = read_prefixed(&mut r);
    if public_key.len() == 0 {
        return AuthStep::Reply(reply(client_id, uid, AuthResult::Unknown, "No public key provided."));
    }
    let signature = read_prefixed(&mut r);
    if signature.len() == 0 {
        return AuthStep::Reply(reply(client_id, uid, AuthResult::Unknown, "No signature provided."));
    }
    let user_id = r.read_u32();
    let server = match r.read_string() {
        Some(s) => s,
        None => String::new(),
    };
    AuthStep::Verify(ChallengeAnswer { challenge: c.challenge, public_key, signature, user_id, server })
}

/// `[Challenge][len: u8][challenge]`.
pub open spec fn challenge_payload(challenge: Seq<u8>) -> Seq<u8> {
    seq![AuthResult::Challenge.spec_code(), challenge.len() as u8] + challenge
}

/// Gives client `client_id` the freshly drawn `challenge`: it is stored with
/// the client, which now awaits the signature, and sent back.
pub fn issue_challenge(state: &mut AppState, client_id: u16, uid: u16, challenge: Vec<u8>) -> (o: Outgoing)
    requires
        old(state).wf(),
        challenge@.len() <= 255,
    ensures
        final(state).wf(),
        final(state).instances@ == old(state).instances@,
        final(state).config == old(state).config,
        o@ == out(client_id, uid, PacketType::Authentication, challenge_payload(challenge@), Delivery::Reply),
        final(state).clients@.dom() == old(state).clients@.dom(),
        forall|k: u16| k != client_id && #[trigger] old(state).clients@.contains_key(k)
            ==> final(state).clients@[k] == old(state).clients@[k],
        old(state).clients@.contains_key(client_id) ==> {
            let c = final(state).clients@[client_id];
            let c0 = old(state).clients@[client_id];
            c == Client { challenge: c.challenge, auth_state: AuthState::ChallengeIssued, ..c0 } && c.challenge@ == challenge@
        },
{
    let mut w = PacketWriter::new();
    w.write_u8(AuthResult::Challenge.code());
    w.write_u8(challenge.len() as u8);
    w.write_bytes(challenge.as_slice());
    let ghost v = w@;
    assert(v =~= challenge_payload(challenge@));
    match state.clients.remove(client_id) {
        Some(c) => {
            let mut c = c;
            c.challenge = challenge;
            c.auth_state = AuthState::ChallengeIssued;
            state.clients.add(c);
            assert(state.clients@.dom() =~= old(state).clients@.dom());
        },
        None => {
            assert(state.clients@ =~= old(state).clients@);
        },
    }
    Outgoing::new(client_id, uid, PacketType::Authentication, w.finish(), Delivery::Reply)
}

/// The answer when the signature did not match: `None` lets the
/// authentication go on to the node.
pub fn after_signature(client_id: u16, uid: u16, valid: bool) -> (o: Option<Outgoing>)
    ensures
        match o {
            Some(x) => !valid && x@ == out(client_id, uid, PacketType::Authentication, auth_reply(AuthResult::Signature, "Invalid signature."@), Delivery::Reply),
            None => valid,
        },
{
    if valid {
        None
    } else {
        Some(reply(client_id, uid, AuthResult::Signature, "Invalid signature."))
    }
}

/// `[Success][user_id: u32][address: string][display: string]`.
pub open spec fn success_payload(info: ResolveUserInfo) -> Seq<u8> {
    seq![AuthResult::Success.spec_code()] + le32(info.id) + string_field(info.server@) + string_field(info.display@)
}

/// `[Blacklisted][expire_at: i64][reason: string]`.
pub open spec fn blacklisted_payload(expire_at: i64, reason: Seq<char>) -> Seq<u8> {
    seq![AuthResult::Blacklisted.spec_code()] + le64(expire_at as u64) + string_field(reason)
}

/// The reason given by the node, else `default`.
pub open spec fn reason_or(reason: Option<String>, default: Seq<char>) -> Seq<char> {
    match reason {
        Some(r) => r@,
        None => default,
    }
}

/// The reply to the node's answer (`None` when the node could not be reached).
pub open spec fn spec_finish_reply(resolved: Option<ResolveUserResponse>) -> (AuthResult, Seq<u8>) {
    match resolved {
        None => (AuthResult::MasterError, auth_reply(AuthResult::MasterError, "Failed to contact master server."@)),
        Some(r) => if r.result@ == "success"@ {
            match r.user {
                Some(info) => (AuthResult::Success, success_payload(info)),
                None => (AuthResult::Unknown, auth_reply(AuthResult::Unknown, "No user data in response."@)),
            }
        } else if r.result@ == "blacklisted"@ {
            (AuthResult::Blacklisted, blacklisted_payload(r.expire_at, reason_or(r.reason, "Blacklisted"@)))
        } else {
            (AuthResult::Invalid, auth_reply(AuthResult::Invalid, reason_or(r.reason, "Invalid user."@)))
        },
    }
}

/// Concludes the authentication of client `client_id` with the node's answer
/// (`None` when the node could not be reached): a resolved user authenticates
/// the client; a blacklisted or invalid one clears its user.
pub fn finish(state: &mut AppState, client_id: u16, uid: u16, resolved: Option<ResolveUserResponse>) -> (o: Outgoing)
    requires
        old(state).wf(),
    ensures
        final(state).wf(),
        final(state).instances@ == old(state).instances@,
        final(state).config == old(state).config,
        o@ == out(client_id, uid, PacketType::Authentication, spec_finish_reply(resolved).1, Delivery::Reply),
        final(state).clients@.dom() == old(state).clients@.dom(),
        forall|k: u16| k != client_id && #[trigger] old(state).clients@.contains_key(k)
            ==> final(state).clients@[k] == old(state).clients@[k],
        old(state).clients@.contains_key(client_id) ==> {
            let c = final(state).clients@[client_id];
            let c0 = old(state).clients@[client_id];
            match spec_finish_reply(resolved).0 {
                AuthResult::Success => {
                    let info = resolved->0.user->0;
                    &&& c == Client { user: c.user, auth_state: AuthState::Authenticated, ..c0 }
                    &&& c.user matches Some(u) && u.id == info.id && u.display_name@ == info.display@
                        && u.address@ == info.server@ && u.username@ == Seq::<char>::empty()
                },
                AuthResult::Blacklisted | AuthResult::Invalid => c == Client { user: None, ..c0 },
                _ => c == c0,
            }
        },
{
    let resolved = match resolved {
        None => {
            return reply(client_id, uid, AuthResult::MasterError, "Failed to contact master server.");
        },
        Some(r) => r,
    };
    proof {
        reveal_strlit("success");
        reveal_strlit("blacklisted");
    }
    if crate::text::str_eq(resolved.result.as_str(), "success") {
        match resolved.user {
            Some(info) => {
                let mut w = PacketWriter::new();
                w.write_u8(AuthResult::Success.code());
                w.write_u32(info.id);
                w.write_string(info.server.as_str());
                w.write_string(info.display.as_str());
                let ghost v = w@;
                assert(v =~= success_payload(info));
                let user = User { id: info.id, username: String::new(), display_name: info.display, address: info.server };
                match state.clients.remove(client_id) {
                    Some(c) => {
                        let mut c = c;
                        c.user = Some(user);
                        c.auth_state = AuthState::Authenticated;
                        state.clients.add(c);
                        assert(state.clients@.dom() =~= old(state).clients@.dom());
                    },
                    None => {
                        assert(state.clients@ =~= old(state).clients@);
                    },
                }
                Outgoing::new(client_id, uid, PacketType::Authentication, w.finish(), Delivery::Reply)
            },
            None => reply(client_id, uid, AuthResult::Unknown, "No user data in response."),
        }
    } else {
        match state.clients.remove(client_id) {
            Some(c) => {
                let mut c = c;
                c.user = None;
                state.clients.add(c);
                assert(state.clients@.dom() =~= old(state).clients@.dom());
            },
            None => {
                assert(state.clients@ =~= old(state).clients@);
            },
        }
        if crate::text::str_eq(resolved.result.as_str(), "blacklisted") {
            let reason = match &resolved.reason {
                Some(r) => r.as_str(),
                None => "Blacklisted",
            };
            let mut w = PacketWriter::new();
            w.write_u8(AuthResult::Blacklisted.code());
            w.write_i64(resolved.expire_at);
            w.write_string(reason);
            let ghost v = w@;
            assert(v =~= blacklisted_payload(resolved.expire_at, reason_or(resolved.reason, "Blacklisted"@)));
            Outgoing::new(client_id, uid, PacketType::Authentication, w.finish(), Delivery::Reply)
        } else {
            let reason = match &resolved.reason {
                Some(r) => r.as_str(),
                None => "Invalid user.",
            };
            reply(client_id, uid, AuthResult::Invalid, reason)
        }
    }
}

} // verus!
