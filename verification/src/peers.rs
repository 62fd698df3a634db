//! The node's decisions about peers: which advertisements and invites to accept, which invites to
//! redeem, whom to ask for peers and blobs, and the node's own advertisement and invites.

use crate::envelope::{envelope_check, Envelope, Kind};
use crate::hexcodec::{hex_encode, hex_lower};
use crate::identity::{IdentityError, Pubkey};
use crate::json::{json_get, json_view, lemma_values_view, values_view, Json, JsonValue, ToJson};
use crate::multiaddr::{http_base, http_base_of, http_to_multiaddr, multiaddr_of};
use crate::node::{NodeError, PeerRedeemRequest};
use crate::peer::{PeerAdvertisement, PeerInvite, PeerVisibility};
use crate::text::{concat_str, trim_end, trim_end_char};
use vstd::prelude::*;

verus! {

/// The text of an identity error.
pub open spec fn identity_error_text(e: IdentityError) -> Seq<char> {
    match e {
        IdentityError::BadKey => "invalid ed25519 key"@,
        IdentityError::BadSig => "signature verification failed"@,
        IdentityError::Io(m) => "io: "@ + m@,
    }
}

/// Checks an envelope's signature; a bad one is a conflict.
pub(crate) fn verify_conflict<T: ToJson>(env: &Envelope<T>) -> (r: Result<(), NodeError>)
    ensures
        match envelope_check(env.keel, env.kind, env.body.json(), env.from.0@, env.ts, env.sig.0@) {
            Ok(()) => r is Ok,
            Err(e) => r matches Err(NodeError::Conflict(t)) && t@ == identity_error_text(e),
        },
{
    match env.verify() {
        Ok(()) => Ok(()),
        Err(e) => Err(NodeError::Conflict(e.message())),
    }
}

/// Whether an advertisement's expiry, read as an `i64`, is not after `now`.
pub open spec fn expired(expires_at: u64, now: i64) -> bool {
    (expires_at as i64) <= now
}

/// Checks a peer advertisement before it is stored: a valid signature, the `peer.announce` kind,
/// and an expiry after `now`.
pub fn check_peer_envelope(env: &Envelope<PeerAdvertisement>, now: i64) -> (r: Result<(), NodeError>)
    ensures
        match envelope_check(env.keel, env.kind, env.body.json(), env.from.0@, env.ts, env.sig.0@) {
            Err(e) => r matches Err(NodeError::Conflict(t)) && t@ == identity_error_text(e),
            Ok(()) => if env.kind != Kind::PeerAnnounce {
                r matches Err(NodeError::Msg(t)) && t@ == "expected peer.announce"@
            } else if expired(env.body.expires_at, now) {
                r matches Err(NodeError::Conflict(t)) && t@ == "peer advertisement expired"@
            } else {
                r is Ok
            },
        },
{
    verify_conflict(env)?;
    if env.kind != Kind::PeerAnnounce {
        return Err(NodeError::Msg(String::from_str("expected peer.announce")));
    }
    let exp: i64 = #[verifier::truncate] (env.body.expires_at as i64);
    if exp <= now {
        return Err(NodeError::Conflict(String::from_str("peer advertisement expired")));
    }
    Ok(())
}

/// Checks an advertisement posted to the public peer list: it must be public, then pass
/// `check_peer_envelope`.
pub fn check_public_ad(env: &Envelope<PeerAdvertisement>, now: i64) -> (r: Result<(), NodeError>)
    ensures
        env.body.visibility != PeerVisibility::Public ==> (r matches Err(NodeError::Conflict(t)) && t@
            == "invite-only advertisements must not be posted to the public peer list"@),
        env.body.visibility == PeerVisibility::Public ==> match envelope_check(env.keel, env.kind, env.body.json(), env.from.0@, env.ts, env.sig.0@) {
            Err(e) => r matches Err(NodeError::Conflict(t)) && t@ == identity_error_text(e),
            Ok(()) => if env.kind != Kind::PeerAnnounce {
                r matches Err(NodeError::Msg(t)) && t@ == "expected peer.announce"@
            } else if expired(env.body.expires_at, now) {
                r matches Err(NodeError::Conflict(t)) && t@ == "peer advertisement expired"@
            } else {
                r is Ok
            },
        },
{
    if env.body.visibility != PeerVisibility::Public {
        return Err(
            NodeError::Conflict(String::from_str("invite-only advertisements must not be posted to the public peer list")),
        );
    }
    check_peer_envelope(env, now)
}

/// Checks an invite before it is accepted: a valid signature, the `peer.invite` kind, and an
/// expiry after `now`.
pub fn check_invite(env: &Envelope<PeerInvite>, now: i64) -> (r: Result<(), NodeError>)
    ensures
        match envelope_check(env.keel, env.kind, env.body.json(), env.from.0@, env.ts, env.sig.0@) {
            Err(e) => r matches Err(NodeError::Conflict(t)) && t@ == identity_error_text(e),
            Ok(()) => if env.kind != Kind::PeerInvite {
                r matches Err(NodeError::Msg(t)) && t@ == "expected peer.invite"@
            } else if expired(env.body.expires_at, now) {
                r matches Err(NodeError::Conflict(t)) && t@ == "invite expired"@
            } else {
                r is Ok
            },
        },
{
    verify_conflict(env)?;
    if env.kind != Kind::PeerInvite {
        return Err(NodeError::Msg(String::from_str("expected peer.invite")));
    }
    let exp: i64 = #[verifier::truncate] (env.body.expires_at as i64);
    if exp <= now {
        return Err(NodeError::Conflict(String::from_str("invite expired")));
    }
    Ok(())
}

/// What the issuer's stored record of an invite (once, expires_at, redeemed) says of a
/// redemption at `now`: refused once expired, or when single-use and already redeemed; else
/// admitted, with whether it must now be marked redeemed.
pub open spec fn stored_invite_verdict(stored: (i64, i64, i64), now: i64) -> Result<bool, Seq<char>> {
    let (once, exp, redeemed) = stored;
    if exp <= now {
        Err("invite expired"@)
    } else if once == 1 && redeemed == 1 {
        Err("invite already used"@)
    } else {
        Ok(once == 1)
    }
}

/// The stored record after an admitted redemption: marked redeemed where the verdict says so.
pub open spec fn after_redeem(stored: (i64, i64, i64), mark: bool) -> (i64, i64, i64) {
    if mark {
        (stored.0, stored.1, 1)
    } else {
        stored
    }
}

/// A single-use invite redeems once: after one admitted redemption and its record marked, every
/// later redemption of it is refused ("invite already used" while it has not expired).
pub proof fn law_single_use_invite_redeems_once(stored: (i64, i64, i64), now: i64, later: i64)
    requires
        stored.0 == 1,
        stored_invite_verdict(stored, now) is Ok,
    ensures
        stored_invite_verdict(stored, now) == Ok::<bool, Seq<char>>(true),
        stored_invite_verdict(after_redeem(stored, true), later) is Err,
        later < stored.1 ==> stored_invite_verdict(after_redeem(stored, true), later)
            == Err::<bool, Seq<char>>("invite already used"@),
{
}

/// A reusable invite is not marked by a redemption, and is admitted again at any time before it
/// expires.
pub proof fn law_reusable_invite_redeems_until_expiry(stored: (i64, i64, i64), now: i64, later: i64)
    requires
        stored.0 != 1,
        stored_invite_verdict(stored, now) is Ok,
    ensures
        stored_invite_verdict(stored, now) == Ok::<bool, Seq<char>>(false),
        after_redeem(stored, false) == stored,
        stored_invite_verdict(stored, later) == if later < stored.1 {
            Ok::<bool, Seq<char>>(false)
        } else {
            Err::<bool, Seq<char>>("invite expired"@)
        },
{
}

/// What the issuer of an invite decides when it is redeemed. `row` is the stored invite
/// (once, expires_at, redeemed), if any. `Ok(mark)` admits the redemption, and `mark` says that
/// the invite is single-use and must now be marked redeemed.
pub fn redeem_decision(req: &PeerRedeemRequest, me: &Pubkey, now: i64, row: Option<(i64, i64, i64)>) -> (r: Result<bool, NodeError>)
    ensures
        match envelope_check(req.invite.keel, req.invite.kind, req.invite.body.json(), req.invite.from.0@, req.invite.ts, req.invite.sig.0@) {
            Err(e) => r matches Err(NodeError::Conflict(t)) && t@ == identity_error_text(e),
            Ok(()) => match envelope_check(req.advertisement.keel, req.advertisement.kind, req.advertisement.body.json(), req.advertisement.from.0@, req.advertisement.ts, req.advertisement.sig.0@) {
                Err(e) => r matches Err(NodeError::Conflict(t)) && t@ == identity_error_text(e),
                Ok(()) => if req.invite.from.0@ != me.0@ {
                    r matches Err(NodeError::Conflict(t)) && t@ == "invite was not issued by this node"@
                } else if expired(req.invite.body.expires_at, now) {
                    r matches Err(NodeError::Conflict(t)) && t@ == "invite expired"@
                } else {
                    match row {
                        None => r matches Err(NodeError::NotFound(t)) && t@ == "invite "@ + req.invite.body.invite_id@,
                        Some(stored) => match stored_invite_verdict(stored, now) {
                            Ok(mark) => r == Ok::<bool, NodeError>(mark),
                            Err(m) => r matches Err(NodeError::Conflict(t)) && t@ == m,
                        },
                    }
                },
            },
        },
{
    verify_conflict(&req.invite)?;
    verify_conflict(&req.advertisement)?;
    if !same_key(&req.invite.from, me) {
        return Err(NodeError::Conflict(String::from_str("invite was not issued by this node")));
    }
    let exp: i64 = #[verifier::truncate] (req.invite.body.expires_at as i64);
    if exp <= now {
        return Err(NodeError::Conflict(String::from_str("invite expired")));
    }
    match row {
        None => Err(NodeError::NotFound(concat_str("invite ", req.invite.body.invite_id.as_str()))),
        Some((once, exp, redeemed)) => {
            if exp <= now {
                return Err(NodeError::Conflict(String::from_str("invite expired")));
            }
            if once == 1 && redeemed == 1 {
                return Err(NodeError::Conflict(String::from_str("invite already used")));
            }
            Ok(once == 1)
        },
    }
}

/// Whether two public keys are the same.
pub fn same_key(a: &Pubkey, b: &Pubkey) -> (r: bool)
    ensures
        r == (a.0@ == b.0@),
{
    let mut i: usize = 0;
    while i < 32
        invariant
            i <= 32,
            a.0@.len() == 32,
            b.0@.len() == 32,
            forall|j: int| 0 <= j < i ==> a.0@[j] == b.0@[j],
        decreases 32 - i,
    {
        if a.0[i] != b.0[i] {
            return false;
        }
        i = i + 1;
    }
    assert(a.0@ =~= b.0@);
    true
}

/// `acc` with `x` added at the end unless it is already there.
pub open spec fn add_unique(acc: Seq<Seq<char>>, x: Seq<char>) -> Seq<Seq<char>> {
    if acc.contains(x) {
        acc
    } else {
        acc.push(x)
    }
}

/// `acc` followed by the HTTP bases of `addrs` (those that have one), each only once.
pub open spec fn collect_bases(acc: Seq<Seq<char>>, addrs: Seq<Seq<char>>) -> Seq<Seq<char>>
    decreases addrs.len(),
{
    if addrs.len() == 0 {
        acc
    } else {
        let before = collect_bases(acc, addrs.drop_last());
        match http_base_of(addrs.last()) {
            Some(b) => add_unique(before, b),
            None => before,
        }
    }
}

/// The characters of each string.
pub open spec fn texts(v: Seq<String>) -> Seq<Seq<char>> {
    v.map_values(|s: String| s@)
}

/// Whether `v` holds `x`.
pub fn contains_string(v: &Vec<String>, x: &String) -> (r: bool)
    ensures
        r == texts(v@).contains(x@),
{
    let n = v.len();
    for i in 0..n
        invariant
            n == v@.len(),
            forall|j: int| 0 <= j < i ==> v@[j]@ != x@,
    {
        if v[i] == *x {
            assert(texts(v@)[i as int] == x@);
            return true;
        }
    }
    proof {
        if texts(v@).contains(x@) {
            let j = choose|j: int| 0 <= j < texts(v@).len() && texts(v@)[j] == x@;
            assert(v@[j]@ == x@);
        }
    }
    false
}

/// `start` followed by the HTTP bases of `addrs`, each only once: the peers to ask, in order.
pub fn collect_http_bases(start: Vec<String>, addrs: &Vec<String>) -> (r: Vec<String>)
    ensures
        texts(r@) == collect_bases(texts(start@), texts(addrs@)),
{
    let mut out = start;
    let n = addrs.len();
    assert(texts(addrs@).take(0) =~= Seq::<Seq<char>>::empty());
    assert(collect_bases(texts(start@), texts(addrs@).take(0)) == texts(start@));
    for i in 0..n
        invariant
            n == addrs@.len(),
            texts(out@) == collect_bases(texts(start@), texts(addrs@).take(i as int)),
    {
        let ghost before = texts(out@);
        assert(texts(addrs@).take(i + 1).drop_last() =~= texts(addrs@).take(i as int));
        assert(texts(addrs@).take(i + 1).last() == addrs@[i as int]@);
        match http_base(addrs[i].as_str()) {
            Some(b) => {
                if !contains_string(&out, &b) {
                    out.push(b);
                    assert(texts(out@) =~= before.push(b@));
                }
            },
            None => {},
        }
    }
    assert(texts(addrs@).take(n as int) =~= texts(addrs@));
    out
}

/// Collected bases repeat no base that was not repeated at the start.
pub proof fn law_collected_bases_unique(acc: Seq<Seq<char>>, addrs: Seq<Seq<char>>)
    requires
        acc.no_duplicates(),
    ensures
        collect_bases(acc, addrs).no_duplicates(),
        forall|i: int| 0 <= i < acc.len() ==> collect_bases(acc, addrs).contains(#[trigger] acc[i]),
    decreases addrs.len(),
{
    if addrs.len() > 0 {
        law_collected_bases_unique(acc, addrs.drop_last());
        let before = collect_bases(acc, addrs.drop_last());
        assert forall|i: int| 0 <= i < acc.len() implies collect_bases(acc, addrs).contains(#[trigger] acc[i]) by {
            assert(before.contains(acc[i]));
            let j = choose|j: int| 0 <= j < before.len() && before[j] == acc[i];
            match http_base_of(addrs.last()) {
                Some(b) => {
                    if !before.contains(b) {
                        assert(before.push(b)[j] == acc[i]);
                    }
                },
                None => {},
            }
        }
    }
}

/// Collecting from two lists of addresses one after the other is collecting from both at once.
pub proof fn lemma_collect_bases_concat(acc: Seq<Seq<char>>, a: Seq<Seq<char>>, b: Seq<Seq<char>>)
    ensures
        collect_bases(acc, a + b) == collect_bases(collect_bases(acc, a), b),
    decreases b.len(),
{
    if b.len() == 0 {
        assert(a + b =~= a);
    } else {
        lemma_collect_bases_concat(acc, a, b.drop_last());
        assert((a + b).drop_last() =~= a + b.drop_last());
        assert((a + b).last() == b.last());
    }
}

/// What reading a text as a JSON array of strings gives, where it is one.
pub uninterp spec fn json_string_list(text: Seq<char>) -> Option<Seq<Seq<char>>>;

/// Calls `serde_json::from_str::<Vec<String>>`. Claims that the outcome is `json_string_list` of
/// the text.
#[verifier::external_body]
fn parse_string_list(text: &str) -> (r: Option<Vec<String>>)
    ensures
        match r {
            Some(v) => json_string_list(text@) == Some(texts(v@)),
            None => json_string_list(text@) is None,
        },
{
    serde_json::from_str::<Vec<String>>(text).ok()
}

/// The addresses stored with each peer (a JSON array of strings; nothing where a row holds no
/// such array), all rows after one another.
pub open spec fn stored_addrs(rows: Seq<Seq<char>>) -> Seq<Seq<char>>
    decreases rows.len(),
{
    if rows.len() == 0 {
        Seq::empty()
    } else {
        stored_addrs(rows.drop_last()) + match json_string_list(rows.last()) {
            Some(a) => a,
            None => Seq::empty(),
        }
    }
}

/// The HTTP bases of the known peers, each once, from their stored address lists.
pub fn peer_http_bases(rows: &Vec<String>) -> (r: Vec<String>)
    ensures
        texts(r@) == collect_bases(Seq::empty(), stored_addrs(texts(rows@))),
{
    let mut out: Vec<String> = Vec::new();
    let n = rows.len();
    assert(texts(rows@).take(0) =~= Seq::<Seq<char>>::empty());
    assert(texts(out@) =~= Seq::<Seq<char>>::empty());
    for i in 0..n
        invariant
            n == rows@.len(),
            texts(out@) == collect_bases(Seq::empty(), stored_addrs(texts(rows@).take(i as int))),
    {
        let ghost before = stored_addrs(texts(rows@).take(i as int));
        let addrs = match parse_string_list(rows[i].as_str()) {
            Some(v) => v,
            None => Vec::new(),
        };
        assert(texts(rows@).take(i + 1).drop_last() =~= texts(rows@).take(i as int));
        assert(texts(rows@).take(i + 1).last() == rows@[i as int]@);
        assert(texts(addrs@) == match json_string_list(rows@[i as int]@) {
            Some(a) => a,
            None => Seq::<Seq<char>>::empty(),
        }) by {
            if json_string_list(rows@[i as int]@) is None {
                assert(texts(addrs@) =~= Seq::<Seq<char>>::empty());
            }
        }
        proof {
            lemma_collect_bases_concat(Seq::empty(), before, texts(addrs@));
        }
        out = collect_http_bases(out, &addrs);
    }
    assert(texts(rows@).take(n as int) =~= texts(rows@));
    out
}

/// The strings among some JSON values, in order.
pub open spec fn string_items(items: Seq<JsonValue>) -> Seq<Seq<char>>
    decreases items.len(),
{
    if items.len() == 0 {
        Seq::empty()
    } else {
        string_items(items.drop_last()) + match items.last() {
            JsonValue::Str(s) => seq![s],
            _ => Seq::empty(),
        }
    }
}

/// The addresses a peer envelope document lists: the strings of its `body.multiaddrs`.
pub open spec fn envelope_addrs(env: JsonValue) -> Seq<Seq<char>> {
    match json_get(env, "body"@) {
        Some(b) => match json_get(b, "multiaddrs"@) {
            Some(JsonValue::Arr(items)) => string_items(items),
            _ => Seq::empty(),
        },
        None => Seq::empty(),
    }
}

/// The addresses a peer envelope document lists.
pub fn envelope_multiaddrs(env: &Json) -> (r: Vec<String>)
    ensures
        texts(r@) == envelope_addrs(env@),
{
    let mut out: Vec<String> = Vec::new();
    if let Some(b) = env.get("body") {
        if let Some(Json::Arr(items)) = b.get("multiaddrs") {
            let ghost vs = values_view(items@);
            proof {
                lemma_values_view(items@);
            }
            let n = items.len();
            assert(vs.take(0) =~= Seq::<JsonValue>::empty());
            for i in 0..n
                invariant
                    n == items@.len(),
                    vs == values_view(items@),
                    vs.len() == n,
                    forall|j: int| 0 <= j < n ==> #[trigger] vs[j] == json_view(items@[j]),
                    texts(out@) == string_items(vs.take(i as int)),
            {
                assert(vs.take(i + 1).drop_last() =~= vs.take(i as int));
                assert(vs.take(i + 1).last() == json_view(items@[i as int]));
                match &items[i] {
                    Json::Str(s) => {
                        out.push(s.clone());
                        assert(texts(out@) =~= string_items(vs.take(i as int)) + seq![s@]);
                    },
                    _ => {
                        assert(string_items(vs.take(i + 1)) =~= string_items(vs.take(i as int)));
                    },
                }
            }
            assert(vs.take(n as int) =~= vs);
            return out;
        }
    }
    assert(texts(out@) =~= Seq::<Seq<char>>::empty());
    out
}

/// The addresses of several peer envelope documents, one after another.
pub open spec fn envelopes_addrs(envs: Seq<JsonValue>) -> Seq<Seq<char>>
    decreases envs.len(),
{
    if envs.len() == 0 {
        Seq::empty()
    } else {
        envelopes_addrs(envs.drop_last()) + envelope_addrs(envs.last())
    }
}

/// The nodes to ask for public peers: the bootstrap list, then the HTTP bases of the known public
/// peers' addresses, each once.
pub fn sync_urls(bootstrap: Vec<String>, public_envelopes: &Vec<Json>) -> (r: Vec<String>)
    ensures
        texts(r@) == collect_bases(texts(bootstrap@), envelopes_addrs(values_view(public_envelopes@))),
{
    let ghost start = texts(bootstrap@);
    let ghost vs = values_view(public_envelopes@);
    proof {
        lemma_values_view(public_envelopes@);
    }
    let mut out = bootstrap;
    let n = public_envelopes.len();
    assert(vs.take(0) =~= Seq::<JsonValue>::empty());
    for i in 0..n
        invariant
            n == public_envelopes@.len(),
            vs == values_view(public_envelopes@),
            vs.len() == n,
            forall|j: int| 0 <= j < n ==> #[trigger] vs[j] == json_view(public_envelopes@[j]),
            texts(out@) == collect_bases(start, envelopes_addrs(vs.take(i as int))),
    {
        let addrs = envelope_multiaddrs(&public_envelopes[i]);
        assert(vs.take(i + 1).drop_last() =~= vs.take(i as int));
        assert(vs.take(i + 1).last() == json_view(public_envelopes@[i as int]));
        proof {
            lemma_collect_bases_concat(start, envelopes_addrs(vs.take(i as int)), texts(addrs@));
        }
        out = collect_http_bases(out, &addrs);
    }
    assert(vs.take(n as int) =~= vs);
    out
}

/// Where to redeem an invite: `/v0/peers/redeem` under the HTTP base of each of its addresses
/// that has one, in order.
pub open spec fn redeem_targets(addrs: Seq<Seq<char>>) -> Seq<Seq<char>>
    decreases addrs.len(),
{
    if addrs.len() == 0 {
        Seq::empty()
    } else {
        match http_base_of(addrs.last()) {
            Some(b) => redeem_targets(addrs.drop_last()).push(b + "/v0/peers/redeem"@),
            None => redeem_targets(addrs.drop_last()),
        }
    }
}

/// Where to redeem an invite, in order.
pub fn redeem_urls(invite: &PeerInvite) -> (r: Vec<String>)
    ensures
        texts(r@) == redeem_targets(texts(invite.multiaddrs@)),
{
    let mut out: Vec<String> = Vec::new();
    let n = invite.multiaddrs.len();
    let ghost a = texts(invite.multiaddrs@);
    assert(a.take(0) =~= Seq::<Seq<char>>::empty());
    assert(texts(out@) =~= Seq::<Seq<char>>::empty());
    for i in 0..n
        invariant
            n == invite.multiaddrs@.len(),
            a == texts(invite.multiaddrs@),
            texts(out@) == redeem_targets(a.take(i as int)),
    {
        assert(a.take(i + 1).drop_last() =~= a.take(i as int));
        assert(a.take(i + 1).last() == invite.multiaddrs@[i as int]@);
        let ghost before = texts(out@);
        match http_base(invite.multiaddrs[i].as_str()) {
            Some(b) => {
                let u = concat_str(b.as_str(), "/v0/peers/redeem");
                out.push(u);
                assert(texts(out@) =~= before.push(u@));
            },
            None => {},
        }
    }
    assert(a.take(n as int) =~= a);
    out
}

/// The entries of `v` other than `me`.
pub open spec fn others(v: Seq<Seq<char>>, me: Option<Seq<char>>) -> Seq<Seq<char>>
    decreases v.len(),
{
    if v.len() == 0 {
        v
    } else if me == Some(v.last()) {
        others(v.drop_last(), me)
    } else {
        others(v.drop_last(), me).push(v.last())
    }
}

/// The entries of `v` other than `me`, in order.
pub fn without_self(v: &Vec<String>, me: &Option<String>) -> (r: Vec<String>)
    ensures
        texts(r@) == others(texts(v@), match me {
            Some(s) => Some(s@),
            None => None,
        }),
{
    let ghost m = match me {
        Some(s) => Some(s@),
        None => None::<Seq<char>>,
    };
    let mut out: Vec<String> = Vec::new();
    let n = v.len();
    assert(texts(v@).take(0) =~= Seq::<Seq<char>>::empty());
    for i in 0..n
        invariant
            n == v@.len(),
            m == match me {
                Some(s) => Some(s@),
                None => None,
            },
            texts(out@) == others(texts(v@).take(i as int), m),
    {
        assert(texts(v@).take(i + 1).drop_last() =~= texts(v@).take(i as int));
        assert(texts(v@).take(i + 1).last() == v@[i as int]@);
        let is_me = match me {
            Some(s) => *s == v[i],
            None => false,
        };
        if !is_me {
            let ghost before = texts(out@);
            out.push(v[i].clone());
            assert(texts(out@) =~= before.push(v@[i as int]@));
        }
    }
    assert(texts(v@).take(n as int) =~= texts(v@));
    out
}

/// The HTTP bases of seeder multiaddrs, in order, without those that have none and without `me`.
pub open spec fn seeder_bases(addrs: Seq<Seq<char>>, me: Option<Seq<char>>) -> Seq<Seq<char>>
    decreases addrs.len(),
{
    if addrs.len() == 0 {
        Seq::empty()
    } else {
        let before = seeder_bases(addrs.drop_last(), me);
        match http_base_of(addrs.last()) {
            Some(b) => if me == Some(b) {
                before
            } else {
                before.push(b)
            },
            None => before,
        }
    }
}

/// Where to look for a blob this node lacks: the seeders' HTTP bases, then the known peers'
/// bases, never this node itself.
pub fn blob_fetch_bases(seeder_addrs: &Vec<String>, peer_bases: &Vec<String>, me: &Option<String>) -> (r: Vec<String>)
    ensures
        texts(r@) == seeder_bases(texts(seeder_addrs@), match me {
            Some(s) => Some(s@),
            None => None,
        }) + others(texts(peer_bases@), match me {
            Some(s) => Some(s@),
            None => None,
        }),
{
    let ghost m = match me {
        Some(s) => Some(s@),
        None => None::<Seq<char>>,
    };
    let mut out: Vec<String> = Vec::new();
    let n = seeder_addrs.len();
    assert(texts(seeder_addrs@).take(0) =~= Seq::<Seq<char>>::empty());
    for i in 0..n
        invariant
            n == seeder_addrs@.len(),
            m == match me {
                Some(s) => Some(s@),
                None => None,
            },
            texts(out@) == seeder_bases(texts(seeder_addrs@).take(i as int), m),
    {
        assert(texts(seeder_addrs@).take(i + 1).drop_last() =~= texts(seeder_addrs@).take(i as int));
        assert(texts(seeder_addrs@).take(i + 1).last() == seeder_addrs@[i as int]@);
        match http_base(seeder_addrs[i].as_str()) {
            Some(b) => {
                let is_me = match me {
                    Some(s) => *s == b,
                    None => false,
                };
                if !is_me {
                    let ghost before = texts(out@);
                    out.push(b);
                    assert(texts(out@) =~= before.push(b@));
                }
            },
            None => {},
        }
    }
    assert(texts(seeder_addrs@).take(n as int) =~= texts(seeder_addrs@));
    let rest = without_self(peer_bases, me);
    let ghost a = texts(out@);
    let ghost b = texts(rest@);
    let mut rest = rest;
    out.append(&mut rest);
    assert(texts(out@) =~= a + b);
    out
}

/// The URL of a blob on a peer: `<base>/v0/blobs/<64 hex digits>`.
pub fn blob_url(base: &str, cid: &crate::identity::ContentId) -> (r: String)
    ensures
        r@ == base@ + "/v0/blobs/"@ + hex_lower(cid.0@),
{
    let a = concat_str(base, "/v0/blobs/");
    concat_str(a.as_str(), cid.to_hex().as_str())
}

/// The node's own advertisement at `base`, valid for a day from `now`.
pub fn self_advertisement(base: &str, visibility: PeerVisibility, now: i64) -> (r: PeerAdvertisement)
    requires
        now <= i64::MAX - 86400,
    ensures
        r.schema@ == "keel.peer/0"@,
        r.multiaddrs@.len() == 1,
        r.multiaddrs@[0]@ == multiaddr_of(base@),
        r.visibility == visibility,
        r.expires_at == (now + 86400) as u64,
{
    let mut multiaddrs: Vec<String> = Vec::new();
    multiaddrs.push(http_to_multiaddr(base));
    PeerAdvertisement {
        schema: String::from_str(PeerAdvertisement::v0()),
        multiaddrs,
        visibility,
        expires_at: #[verifier::truncate] ((now + 86400) as u64),
    }
}

/// An invite to this node at `base`, with the given id bytes, valid for a week from `now`.
pub fn invite_body(base: &str, id: &[u8; 16], now: i64, once: bool) -> (r: PeerInvite)
    requires
        now <= i64::MAX - 7 * 86400,
    ensures
        r.schema@ == "keel.invite/0"@,
        r.invite_id@ == hex_lower(id@),
        r.multiaddrs@.len() == 1,
        r.multiaddrs@[0]@ == multiaddr_of(base@),
        r.expires_at == (now + 7 * 86400) as u64,
        r.once == once,
{
    let mut multiaddrs: Vec<String> = Vec::new();
    multiaddrs.push(http_to_multiaddr(base));
    PeerInvite {
        schema: String::from_str(PeerInvite::v0()),
        invite_id: hex_encode(id),
        multiaddrs,
        expires_at: #[verifier::truncate] ((now + 7 * 86400) as u64),
        once,
    }
}

/// The node's peering settings: the address it advertises, its visibility, and the public nodes
/// it pulls peer advertisements from (each once).
pub struct NodeSettings {
    advertise: Option<String>,
    visibility: PeerVisibility,
    bootstrap: Vec<String>,
}

impl NodeSettings {
    /// The advertised address, if any.
    pub closed spec fn advertised(self) -> Option<Seq<char>> {
        match self.advertise {
            Some(a) => Some(a@),
            None => None,
        }
    }

    /// The visibility.
    pub closed spec fn shown_as(self) -> PeerVisibility {
        self.visibility
    }

    /// The bootstrap URLs, in the order they were added.
    pub closed spec fn bootstrap_urls(self) -> Seq<Seq<char>> {
        texts(self.bootstrap@)
    }

    #[verifier::type_invariant]
    spec fn bootstrap_unique(self) -> bool {
        texts(self.bootstrap@).no_duplicates()
    }

    /// No advertised address, invite-only, no bootstrap nodes.
    pub fn new() -> (r: Self)
        ensures
            r.advertised() is None,
            r.shown_as() == PeerVisibility::Invite,
            r.bootstrap_urls() == Seq::<Seq<char>>::empty(),
    {
        let r = NodeSettings { advertise: None, visibility: PeerVisibility::Invite, bootstrap: Vec::new() };
        assert(texts(r.bootstrap@) =~= Seq::<Seq<char>>::empty());
        r
    }

    /// Advertises `base`, without trailing slashes.
    pub fn set_advertise_base(&mut self, base: &str)
        ensures
            final(self).advertised() == Some(trim_end(base@, '/')),
            final(self).shown_as() == old(self).shown_as(),
            final(self).bootstrap_urls() == old(self).bootstrap_urls(),
    {
        proof {
            use_type_invariant(&*self);
        }
        self.advertise = Some(trim_end_char(base, '/'));
    }

    /// The advertised address.
    pub fn advertise_base(&self) -> (r: Option<String>)
        ensures
            match r {
                Some(a) => self.advertised() == Some(a@),
                None => self.advertised() is None,
            },
    {
        match &self.advertise {
            Some(a) => Some(a.clone()),
            None => None,
        }
    }

    /// The visibility.
    pub fn visibility(&self) -> (r: PeerVisibility)
        ensures
            r == self.shown_as(),
    {
        self.visibility
    }

    /// Sets the visibility.
    pub fn set_visibility(&mut self, vis: PeerVisibility)
        ensures
            final(self).shown_as() == vis,
            final(self).advertised() == old(self).advertised(),
            final(self).bootstrap_urls() == old(self).bootstrap_urls(),
    {
        proof {
            use_type_invariant(&*self);
        }
        self.visibility = vis;
    }

    /// The bootstrap URLs, each once.
    pub fn bootstrap(&self) -> (r: &Vec<String>)
        ensures
            texts(r@) == self.bootstrap_urls(),
            self.bootstrap_urls().no_duplicates(),
    {
        proof {
            use_type_invariant(self);
        }
        &self.bootstrap
    }

    /// Adds a bootstrap URL (without trailing slashes) unless it is empty or already there.
    pub fn add_bootstrap(&mut self, url: &str)
        ensures
            final(self).advertised() == old(self).advertised(),
            final(self).shown_as() == old(self).shown_as(),
            final(self).bootstrap_urls() == if trim_end(url@, '/').len() == 0 {
                old(self).bootstrap_urls()
            } else {
                add_unique(old(self).bootstrap_urls(), trim_end(url@, '/'))
            },
    {
        proof {
            use_type_invariant(&*self);
        }
        let u = trim_end_char(url, '/');
        if u.unicode_len() == 0 {
            return;
        }
        if !contains_string(&self.bootstrap, &u) {
            let ghost before = texts(self.bootstrap@);
            proof {
                law_bootstrap_unique(before, u@);
            }
            let mut list: Vec<String> = Vec::new();
            std::mem::swap(&mut list, &mut self.bootstrap);
            list.push(u);
            assert(texts(list@) =~= before.push(trim_end(url@, '/')));
            std::mem::swap(&mut list, &mut self.bootstrap);
        }
    }
}

/// Adding a bootstrap URL never creates a duplicate.
pub proof fn law_bootstrap_unique(list: Seq<Seq<char>>, u: Seq<char>)
    requires
        list.no_duplicates(),
    ensures
        add_unique(list, u).no_duplicates(),
{
}


/// An address list's place in what the stored rows give: the addresses of row `i` appear, in
/// order, inside `stored_addrs`.
proof fn lemma_stored_addrs_hold_row(rows: Seq<Seq<char>>, i: int, a: Seq<Seq<char>>, j: int)
    requires
        0 <= i < rows.len(),
        json_string_list(rows[i]) == Some(a),
        0 <= j < a.len(),
    ensures
        stored_addrs(rows).contains(a[j]),
    decreases rows.len(),
{
    let front = stored_addrs(rows.drop_last());
    if i == rows.len() - 1 {
        assert(stored_addrs(rows)[front.len() + j] == a[j]);
    } else {
        assert(rows.drop_last()[i] == rows[i]);
        lemma_stored_addrs_hold_row(rows.drop_last(), i, a, j);
        let k = choose|k: int| 0 <= k < front.len() && front[k] == a[j];
        assert(stored_addrs(rows)[k] == a[j]);
    }
}

/// Every address with an HTTP base contributes that base.
proof fn lemma_collect_covers(acc: Seq<Seq<char>>, addrs: Seq<Seq<char>>, k: int)
    requires
        0 <= k < addrs.len(),
        http_base_of(addrs[k]) is Some,
    ensures
        collect_bases(acc, addrs).contains(http_base_of(addrs[k])->Some_0),
    decreases addrs.len(),
{
    let b = http_base_of(addrs[k])->Some_0;
    let before = collect_bases(acc, addrs.drop_last());
    if k == addrs.len() - 1 {
        if !before.contains(b) {
            assert(before.push(b)[before.len() as int] == b);
        }
    } else {
        assert(addrs.drop_last()[k] == addrs[k]);
        lemma_collect_covers(acc, addrs.drop_last(), k);
        let j = choose|j: int| 0 <= j < before.len() && before[j] == b;
        match http_base_of(addrs.last()) {
            Some(c) => {
                if !before.contains(c) {
                    assert(before.push(c)[j] == b);
                }
            },
            None => {},
        }
    }
}

/// Every stored peer counts: each HTTP base of each address in any stored row's address list
/// is among the bases collected from the rows (so every known peer is tried for sync and blob
/// fetch), and each is there once.
pub proof fn law_every_stored_peer_reaches_the_bases(rows: Seq<Seq<char>>, i: int, a: Seq<Seq<char>>, j: int)
    requires
        0 <= i < rows.len(),
        json_string_list(rows[i]) == Some(a),
        0 <= j < a.len(),
        http_base_of(a[j]) is Some,
    ensures
        collect_bases(Seq::empty(), stored_addrs(rows)).contains(http_base_of(a[j])->Some_0),
        collect_bases(Seq::empty(), stored_addrs(rows)).no_duplicates(),
{
    lemma_stored_addrs_hold_row(rows, i, a, j);
    let addrs = stored_addrs(rows);
    let k = choose|k: int| 0 <= k < addrs.len() && addrs[k] == a[j];
    lemma_collect_covers(Seq::empty(), addrs, k);
    law_collected_bases_unique(Seq::empty(), addrs);
}

} // verus!
