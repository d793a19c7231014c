//! The canonical byte encoding of events.
//!
//! Events cross the transport as byte payloads.  The encoding is structured
//! and self-describing: one tag byte per nesting level (service, then kind)
//! followed by the payload fields in declaration order, so that decoding
//! reconstructs the exact original variant.  Strings travel as their UTF-8
//! bytes behind a little-endian length prefix, signed integers are shifted
//! into the unsigned range, string lists carry a count prefix.  Encoding
//! followed by decoding gives back the original event exactly
//! ([`lemma_codec_round_trip`]); decoding rejects anything that is not the
//! encoding of an event, including trailing bytes.

use crate::events::auth::AuthEvent;
use crate::events::auth::AuthEventV;
use crate::events::auth::UserCreated;
use crate::events::auth::UserCreatedV;
use crate::events::auth::UserLoggedIn;
use crate::events::auth::UserLoggedInV;
use crate::events::auth::UserLoggedOut;
use crate::events::auth::UserLoggedOutV;
use crate::events::group::GroupCreatedEvent;
use crate::events::group::GroupCreatedEventV;
use crate::events::group::GroupDeletedEvent;
use crate::events::group::GroupDeletedEventV;
use crate::events::group::GroupEvent;
use crate::events::group::GroupEventV;
use crate::events::group::GroupUserAddedEvent;
use crate::events::group::GroupUserAddedEventV;
use crate::events::group::GroupUserRemovedEvent;
use crate::events::group::GroupUserRemovedEventV;
use crate::events::message::MessageEvent;
use crate::events::message::MessageEventV;
use crate::events::message::MessageSent;
use crate::events::message::MessageSentV;
use crate::events::user::FriendRequestAnswered;
use crate::events::user::FriendRequestAnsweredV;
use crate::events::user::FriendRequestCreated;
use crate::events::user::FriendRequestCreatedV;
use crate::events::user::UserEvent;
use crate::events::user::UserEventV;
use crate::events::user::UserUpdated;
use crate::events::user::UserUpdatedV;
use crate::events::Event;
use crate::events::EventV;
use vstd::bytes::lemma_auto_spec_u64_to_from_le_bytes;
use vstd::bytes::spec_u64_from_le_bytes;
use vstd::bytes::spec_u64_to_le_bytes;
use vstd::bytes::u64_from_le_bytes;
use vstd::bytes::u64_to_le_bytes;
use vstd::prelude::*;
use vstd::slice::slice_to_vec;
use vstd::string::StrSliceExecFns;
use vstd::utf8::decode_utf8;
use vstd::utf8::encode_utf8;
use vstd::utf8::encode_utf8_decode_utf8;
use vstd::utf8::encode_utf8_valid_utf8;
use vstd::utf8::valid_utf8;

verus! {

/// The signed 64-bit range shifted into the unsigned range, keeping order.
pub open spec fn bias_i64(x: i64) -> u64 {
    (x + 0x8000_0000_0000_0000) as u64
}

/// Inverse of [`bias_i64`].
pub open spec fn unbias_i64(u: u64) -> i64 {
    (u - 0x8000_0000_0000_0000) as i64
}

/// Encoding of an unsigned 64-bit integer: eight bytes, little endian.
pub open spec fn enc_u64(x: u64) -> Seq<u8> {
    spec_u64_to_le_bytes(x)
}

/// Encoding of a signed 64-bit integer.
pub open spec fn enc_i64(x: i64) -> Seq<u8> {
    enc_u64(bias_i64(x))
}

/// Encoding of a boolean: one byte, one or zero.
pub open spec fn enc_bool(v: bool) -> Seq<u8> {
    seq![if v { 1u8 } else { 0u8 }]
}

/// Encoding of a string: the length of its UTF-8 form, then the UTF-8 bytes.
pub open spec fn enc_str(s: Seq<char>) -> Seq<u8> {
    enc_u64(encode_utf8(s).len() as u64) + encode_utf8(s)
}

/// Encoding of the elements of a string list, back to back.
pub open spec fn enc_str_list(l: Seq<Seq<char>>) -> Seq<u8>
    decreases l.len(),
{
    if l.len() == 0 {
        Seq::empty()
    } else {
        enc_str(l.first()) + enc_str_list(l.drop_first())
    }
}

/// Encoding of a string list: the element count, then the elements.
pub open spec fn enc_str_seq(l: Seq<Seq<char>>) -> Seq<u8> {
    enc_u64(l.len() as u64) + enc_str_list(l)
}

/// A string whose UTF-8 form fits in memory; every string a process actually
/// holds satisfies this.
pub open spec fn wf_str_v(s: Seq<char>) -> bool {
    encode_utf8(s).len() <= usize::MAX
}

/// A string list whose count and strings fit in memory.
pub open spec fn wf_str_list_v(l: Seq<Seq<char>>) -> bool {
    &&& l.len() <= usize::MAX
    &&& forall|i: int| 0 <= i < l.len() ==> wf_str_v(#[trigger] l[i])
}

/// Decodes one byte at position `i` of `b`.
pub open spec fn dec_u8(b: Seq<u8>, i: int) -> Option<(u8, int)> {
    if 0 <= i && i + 1 <= b.len() {
        Some((b[i], i + 1))
    } else {
        None
    }
}

/// Decodes a little-endian unsigned 64-bit integer at position `i` of `b`.
pub open spec fn dec_u64(b: Seq<u8>, i: int) -> Option<(u64, int)> {
    if 0 <= i && i + 8 <= b.len() {
        Some((spec_u64_from_le_bytes(b.subrange(i, i + 8)), i + 8))
    } else {
        None
    }
}

/// Decodes a signed 64-bit integer at position `i` of `b`.
pub open spec fn dec_i64(b: Seq<u8>, i: int) -> Option<(i64, int)> {
    match dec_u64(b, i) {
        Some((u, j)) => Some((unbias_i64(u), j)),
        None => None,
    }
}

/// Decodes a boolean at position `i` of `b`; any byte other than one or zero
/// is rejected.
pub open spec fn dec_bool(b: Seq<u8>, i: int) -> Option<(bool, int)> {
    match dec_u8(b, i) {
        Some((t, j)) => if t == 1 {
            Some((true, j))
        } else if t == 0 {
            Some((false, j))
        } else {
            None
        },
        None => None,
    }
}

/// Decodes a length-prefixed UTF-8 string at position `i` of `b`.
pub open spec fn dec_str(b: Seq<u8>, i: int) -> Option<(Seq<char>, int)> {
    match dec_u64(b, i) {
        Some((n, j)) => if j + n <= b.len() && valid_utf8(b.subrange(j, j + n)) {
            Some((decode_utf8(b.subrange(j, j + n)), j + n))
        } else {
            None
        },
        None => None,
    }
}

/// Decodes `count` consecutive strings starting at position `i` of `b`.
pub open spec fn dec_str_list(b: Seq<u8>, i: int, count: int) -> Option<(Seq<Seq<char>>, int)>
    decreases count,
{
    if count <= 0 {
        Some((Seq::empty(), i))
    } else {
        match dec_str(b, i) {
            Some((s, j)) => match dec_str_list(b, j, count - 1) {
                Some((l, k)) => Some((seq![s] + l, k)),
                None => None,
            },
            None => None,
        }
    }
}

/// Decodes a count-prefixed string list at position `i` of `b`.
pub open spec fn dec_str_seq(b: Seq<u8>, i: int) -> Option<(Seq<Seq<char>>, int)> {
    match dec_u64(b, i) {
        Some((n, j)) => dec_str_list(b, j, n as int),
        None => None,
    }
}

/// Relies on `String::from_utf8`: it succeeds exactly on UTF-8 input, and the
/// returned string's UTF-8 form is the input unchanged.
#[verifier::external_body]
fn string_from_utf8(bytes: Vec<u8>) -> (r: Option<String>)
    ensures
        match r {
            Some(s) => valid_utf8(bytes@) && encode_utf8(s@) == bytes@,
            None => !valid_utf8(bytes@),
        },
{
    String::from_utf8(bytes).ok()
}

/// Shifts a signed 64-bit integer into the unsigned range.
fn bias_to_u64(x: i64) -> (u: u64)
    ensures
        u == bias_i64(x),
{
    let wide: i128 = (x as i128) + 0x8000_0000_0000_0000i128;
    wide as u64
}

/// Inverse of [`bias_to_u64`].
fn unbias_to_i64(u: u64) -> (x: i64)
    ensures
        x == unbias_i64(u),
{
    let wide: i128 = (u as i128) - 0x8000_0000_0000_0000i128;
    wide as i64
}

/// Appends the encoding of one byte.
fn push_u8(out: &mut Vec<u8>, x: u8)
    ensures
        final(out)@ == old(out)@ + seq![x],
{
    out.push(x);
    proof {
        assert(out@ =~= old(out)@ + seq![x]);
    }
}

/// Appends the encoding of an unsigned 64-bit integer.
fn push_u64(out: &mut Vec<u8>, x: u64)
    ensures
        final(out)@ == old(out)@ + enc_u64(x),
{
    let mut b = u64_to_le_bytes(x);
    out.append(&mut b);
}

/// Appends the encoding of a signed 64-bit integer.
fn push_i64(out: &mut Vec<u8>, x: i64)
    ensures
        final(out)@ == old(out)@ + enc_i64(x),
{
    let u = bias_to_u64(x);
    push_u64(out, u);
}

/// Appends the encoding of a boolean.
fn push_bool(out: &mut Vec<u8>, v: bool)
    ensures
        final(out)@ == old(out)@ + enc_bool(v),
{
    push_u8(out, if v { 1 } else { 0 });
}

/// Appends the encoding of a string.
fn push_str(out: &mut Vec<u8>, s: &str)
    requires
        wf_str_v(s@),
    ensures
        final(out)@ == old(out)@ + enc_str(s@),
{
    let n = s.len();
    push_u64(out, n as u64);
    let mut b = s.as_bytes_vec();
    out.append(&mut b);
    proof {
        assert(out@ =~= old(out)@ + enc_str(s@));
    }
}

/// Splitting the last element off a non-empty list splits its encoding.
proof fn lemma_enc_str_list_snoc(l: Seq<Seq<char>>)
    requires
        l.len() > 0,
    ensures
        enc_str_list(l) == enc_str_list(l.drop_last()) + enc_str(l.last()),
    decreases l.len(),
{
    if l.len() == 1 {
        assert(enc_str_list(l.drop_first()) =~= Seq::<u8>::empty());
        assert(enc_str_list(l.drop_last()) =~= Seq::<u8>::empty());
        assert(enc_str_list(l) =~= enc_str_list(l.drop_last()) + enc_str(l.last()));
    } else {
        lemma_enc_str_list_snoc(l.drop_first());
        assert(l.drop_first().drop_last() =~= l.drop_last().drop_first());
        assert(l.drop_first().last() == l.last());
        assert(l.drop_last().len() > 0);
        assert(l.drop_last().first() == l.first());
        assert(enc_str_list(l) == enc_str(l.first()) + enc_str_list(l.drop_first()));
        assert(enc_str_list(l.drop_last()) == enc_str(l.drop_last().first()) + enc_str_list(
            l.drop_last().drop_first(),
        ));
        assert(enc_str_list(l) =~= enc_str_list(l.drop_last()) + enc_str(l.last()));
    }
}

/// Appends the encoding of a string list.
fn push_str_vec(out: &mut Vec<u8>, v: &Vec<String>)
    requires
        wf_str_list_v(v.deep_view()),
    ensures
        final(out)@ == old(out)@ + enc_str_seq(v.deep_view()),
{
    let ghost dv = v.deep_view();
    let n = v.len();
    push_u64(out, n as u64);
    let ghost base = out@;
    let mut i: usize = 0;
    proof {
        assert(enc_str_list(dv.take(0)) =~= Seq::<u8>::empty());
        assert(out@ =~= base + enc_str_list(dv.take(0)));
    }
    while i < n
        invariant
            i <= n,
            n == v@.len(),
            dv == v.deep_view(),
            wf_str_list_v(dv),
            out@ == base + enc_str_list(dv.take(i as int)),
        decreases n - i,
    {
        let ghost pre = out@;
        proof {
            assert(dv[i as int] == v@[i as int]@);
            assert(wf_str_v(dv[i as int]));
        }
        push_str(out, v[i].as_str());
        proof {
            lemma_enc_str_list_snoc(dv.take(i + 1 as int));
            assert(dv.take(i + 1 as int).drop_last() =~= dv.take(i as int));
            assert(dv.take(i + 1 as int).last() == dv[i as int]);
            assert(out@ =~= base + enc_str_list(dv.take(i + 1 as int)));
        }
        i += 1;
    }
    proof {
        assert(dv.take(n as int) =~= dv);
        assert(out@ =~= old(out)@ + enc_str_seq(dv));
    }
}

/// Reads one byte at position `i`.
fn read_u8(b: &[u8], i: usize) -> (r: Option<(u8, usize)>)
    ensures
        match r {
            Some((x, j)) => dec_u8(b@, i as int) == Some((x, j as int)),
            None => dec_u8(b@, i as int) is None,
        },
{
    if i < b.len() {
        Some((b[i], i + 1))
    } else {
        None
    }
}

/// Reads a little-endian unsigned 64-bit integer at position `i`.
fn read_u64(b: &[u8], i: usize) -> (r: Option<(u64, usize)>)
    ensures
        match r {
            Some((x, j)) => dec_u64(b@, i as int) == Some((x, j as int)),
            None => dec_u64(b@, i as int) is None,
        },
{
    if i <= b.len() && b.len() - i >= 8 {
        let s = &b[i..i + 8];
        let x = u64_from_le_bytes(s);
        Some((x, i + 8))
    } else {
        None
    }
}

/// Reads a signed 64-bit integer at position `i`.
fn read_i64(b: &[u8], i: usize) -> (r: Option<(i64, usize)>)
    ensures
        match r {
            Some((x, j)) => dec_i64(b@, i as int) == Some((x, j as int)),
            None => dec_i64(b@, i as int) is None,
        },
{
    match read_u64(b, i) {
        Some((u, j)) => Some((unbias_to_i64(u), j)),
        None => None,
    }
}

/// Reads a boolean at position `i`.
fn read_bool(b: &[u8], i: usize) -> (r: Option<(bool, usize)>)
    ensures
        match r {
            Some((x, j)) => dec_bool(b@, i as int) == Some((x, j as int)),
            None => dec_bool(b@, i as int) is None,
        },
{
    match read_u8(b, i) {
        Some((t, j)) => if t == 1 {
            Some((true, j))
        } else if t == 0 {
            Some((false, j))
        } else {
            None
        },
        None => None,
    }
}

/// Reads a length-prefixed UTF-8 string at position `i`.
fn read_string(b: &[u8], i: usize) -> (r: Option<(String, usize)>)
    ensures
        match r {
            Some((s, j)) => dec_str(b@, i as int) == Some((s@, j as int)),
            None => dec_str(b@, i as int) is None,
        },
{
    match read_u64(b, i) {
        Some((n, j)) => {
            if n <= (b.len() - j) as u64 {
                let m = n as usize;
                let sub = &b[j..j + m];
                let v = slice_to_vec(sub);
                match string_from_utf8(v) {
                    Some(s) => {
                        proof {
                            encode_utf8_decode_utf8(s@);
                        }
                        Some((s, j + m))
                    },
                    None => None,
                }
            } else {
                None
            }
        },
        None => None,
    }
}

/// Reads a count-prefixed string list at position `i`.
fn read_string_vec(b: &[u8], i: usize) -> (r: Option<(Vec<String>, usize)>)
    ensures
        match r {
            Some((v, j)) => dec_str_seq(b@, i as int) == Some((v.deep_view(), j as int)),
            None => dec_str_seq(b@, i as int) is None,
        },
{
    match read_u64(b, i) {
        Some((n, start)) => {
            let mut acc: Vec<String> = Vec::new();
            let mut pos = start;
            let mut k: u64 = 0;
            proof {
                assert(acc.deep_view() =~= Seq::<Seq<char>>::empty());
            }
            while k < n
                invariant
                    0 <= k <= n,
                    dec_u64(b@, i as int) == Some((n, start as int)),
                    pos <= b@.len(),
                    match dec_str_list(b@, pos as int, (n - k) as int) {
                        Some((l, e)) => dec_str_list(b@, start as int, n as int) == Some(
                            (acc.deep_view() + l, e),
                        ),
                        None => dec_str_list(b@, start as int, n as int) is None,
                    },
                decreases n - k,
            {
                let ghost acc0 = acc.deep_view();
                match read_string(b, pos) {
                    Some((s, j)) => {
                        acc.push(s);
                        proof {
                            assert(acc.deep_view() =~= acc0.push(s@));
                            assert forall|l: Seq<Seq<char>>| true implies acc0 + (seq![s@] + l)
                                =~= acc0.push(s@) + l by {}
                        }
                        pos = j;
                    },
                    None => {
                        return None;
                    },
                }
                k += 1;
            }
            proof {
                assert(dec_str_list(b@, pos as int, 0) == Some(
                    (Seq::<Seq<char>>::empty(), pos as int),
                ));
                assert(acc.deep_view() + Seq::<Seq<char>>::empty() =~= acc.deep_view());
            }
            Some((acc, pos))
        },
        None => None,
    }
}

/// Decoding an unsigned 64-bit integer right after its encoding gives it
/// back.
proof fn lemma_dec_u64_at(pre: Seq<u8>, x: u64, suf: Seq<u8>)
    ensures
        dec_u64(pre + enc_u64(x) + suf, pre.len() as int) == Some((x, pre.len() + 8 as int)),
{
    lemma_auto_spec_u64_to_from_le_bytes();
    let b = pre + enc_u64(x) + suf;
    assert(b.subrange(pre.len() as int, pre.len() + 8 as int) =~= enc_u64(x));
}

/// Decoding one byte right after it gives it back.
proof fn lemma_dec_u8_at(pre: Seq<u8>, t: u8, suf: Seq<u8>)
    ensures
        dec_u8(pre + seq![t] + suf, pre.len() as int) == Some((t, pre.len() + 1 as int)),
{
    let b = pre + seq![t] + suf;
    assert(b[pre.len() as int] == t);
}

/// Decoding a signed 64-bit integer right after its encoding gives it back.
proof fn lemma_dec_i64_at(pre: Seq<u8>, x: i64, suf: Seq<u8>)
    ensures
        dec_i64(pre + enc_i64(x) + suf, pre.len() as int) == Some((x, pre.len() + 8 as int)),
{
    lemma_dec_u64_at(pre, bias_i64(x), suf);
    assert(unbias_i64(bias_i64(x)) == x);
}

/// Decoding a boolean right after its encoding gives it back.
proof fn lemma_dec_bool_at(pre: Seq<u8>, v: bool, suf: Seq<u8>)
    ensures
        dec_bool(pre + enc_bool(v) + suf, pre.len() as int) == Some((v, pre.len() + 1 as int)),
{
    lemma_dec_u8_at(pre, if v { 1u8 } else { 0u8 }, suf);
}

/// Decoding a string right after its encoding gives it back.
proof fn lemma_dec_str_at(pre: Seq<u8>, s: Seq<char>, suf: Seq<u8>)
    requires
        wf_str_v(s),
    ensures
        dec_str(pre + enc_str(s) + suf, pre.len() as int) == Some(
            (s, pre.len() + enc_str(s).len() as int),
        ),
{
    lemma_auto_spec_u64_to_from_le_bytes();
    let e = encode_utf8(s);
    let n = e.len() as u64;
    let b = pre + enc_str(s) + suf;
    assert(b =~= pre + enc_u64(n) + (e + suf));
    lemma_dec_u64_at(pre, n, e + suf);
    let j = pre.len() + 8 as int;
    assert(b.subrange(j, j + n) =~= e);
    encode_utf8_valid_utf8(s);
    encode_utf8_decode_utf8(s);
}

/// Decoding `l.len()` strings right after their encodings gives the list
/// back.
proof fn lemma_dec_str_list_at(pre: Seq<u8>, l: Seq<Seq<char>>, suf: Seq<u8>)
    requires
        forall|i: int| 0 <= i < l.len() ==> wf_str_v(#[trigger] l[i]),
    ensures
        dec_str_list(pre + enc_str_list(l) + suf, pre.len() as int, l.len() as int) == Some(
            (l, pre.len() + enc_str_list(l).len() as int),
        ),
    decreases l.len(),
{
    let b = pre + enc_str_list(l) + suf;
    if l.len() == 0 {
        assert(enc_str_list(l) =~= Seq::<u8>::empty());
        assert(l =~= Seq::<Seq<char>>::empty());
    } else {
        let s0 = l.first();
        let rest = l.drop_first();
        assert(enc_str_list(l) == enc_str(s0) + enc_str_list(rest));
        assert(b =~= pre + enc_str(s0) + (enc_str_list(rest) + suf));
        lemma_dec_str_at(pre, s0, enc_str_list(rest) + suf);
        let pre2 = pre + enc_str(s0);
        assert(b =~= pre2 + enc_str_list(rest) + suf);
        assert(forall|i: int| 0 <= i < rest.len() ==> wf_str_v(#[trigger] rest[i]));
        lemma_dec_str_list_at(pre2, rest, suf);
        assert(seq![s0] + rest =~= l);
        assert(pre2.len() + enc_str_list(rest).len() == pre.len() + enc_str_list(l).len());
    }
}

/// A user event whose strings fit in memory.
pub open spec fn wf_user_event_v(e: UserEventV) -> bool {
    match e {
        UserEventV::UserUpdatedEvent(p) => wf_str_v(p.id),
        UserEventV::FriendRequestCreatedEvent(p) => wf_str_v(p.from_username),
        UserEventV::FriendRequestAnsweredEvent(p) => wf_str_v(p.from_username),
    }
}

/// An authentication event whose strings fit in memory.
pub open spec fn wf_auth_event_v(e: AuthEventV) -> bool {
    match e {
        AuthEventV::UserSignedUpEvent(p) => wf_str_v(p.id) && wf_str_v(p.username),
        AuthEventV::UserLoggedInEvent(p) => wf_str_v(p.id) && wf_str_v(p.username),
        AuthEventV::UserLoggedOutEvent(p) => wf_str_v(p.id),
    }
}

/// A message event whose strings fit in memory.
pub open spec fn wf_message_event_v(e: MessageEventV) -> bool {
    match e {
        MessageEventV::MessageSentEvent(p) => wf_str_v(p.channel_id) && wf_str_v(p.sender)
            && wf_str_v(p.message),
    }
}

/// A group event whose strings and member lists fit in memory.
pub open spec fn wf_group_event_v(e: GroupEventV) -> bool {
    match e {
        GroupEventV::GroupCreatedEvent(p) => wf_str_v(p.group_id) && wf_str_v(p.owner_id)
            && wf_str_v(p.channel_id) && wf_str_list_v(p.member_ids),
        GroupEventV::GroupDeletedEvent(p) => wf_str_v(p.group_id) && wf_str_v(p.owner_id)
            && wf_str_list_v(p.member_ids),
        GroupEventV::GroupUserAddedEvent(p) => wf_str_v(p.group_id) && wf_str_v(p.user_id),
        GroupEventV::GroupUserRemovedEvent(p) => wf_str_v(p.group_id) && wf_str_v(p.user_id),
    }
}

/// An event whose strings and lists fit in memory; every event a process
/// actually holds satisfies this.
pub open spec fn wf_event_v(ev: EventV) -> bool {
    match ev {
        EventV::UserEvent(e) => wf_user_event_v(e),
        EventV::AuthEvent(e) => wf_auth_event_v(e),
        EventV::MessageEvent(e) => wf_message_event_v(e),
        EventV::GroupEvent(e) => wf_group_event_v(e),
    }
}

/// Encoding of a user event: a kind tag, then the payload fields in order.
pub open spec fn enc_user_event(e: UserEventV) -> Seq<u8> {
    match e {
        UserEventV::UserUpdatedEvent(p) => seq![1u8] + enc_str(p.id),
        UserEventV::FriendRequestCreatedEvent(p) => seq![2u8] + enc_str(p.from_username),
        UserEventV::FriendRequestAnsweredEvent(p) => seq![3u8] + enc_str(p.from_username)
            + enc_bool(p.accepted),
    }
}

/// Encoding of an authentication event: a kind tag, then the payload fields
/// in order.
pub open spec fn enc_auth_event(e: AuthEventV) -> Seq<u8> {
    match e {
        AuthEventV::UserSignedUpEvent(p) => seq![1u8] + enc_str(p.id) + enc_str(p.username),
        AuthEventV::UserLoggedInEvent(p) => seq![2u8] + enc_str(p.id) + enc_str(p.username)
            + enc_i64(p.login_time),
        AuthEventV::UserLoggedOutEvent(p) => seq![3u8] + enc_str(p.id) + enc_i64(p.logout_time),
    }
}

/// Encoding of a message event: a kind tag, then the payload fields in order.
pub open spec fn enc_message_event(e: MessageEventV) -> Seq<u8> {
    match e {
        MessageEventV::MessageSentEvent(p) => seq![1u8] + enc_str(p.channel_id) + enc_str(p.sender)
            + enc_str(p.message),
    }
}

/// Encoding of a group event: a kind tag, then the payload fields in order.
pub open spec fn enc_group_event(e: GroupEventV) -> Seq<u8> {
    match e {
        GroupEventV::GroupCreatedEvent(p) => seq![1u8] + enc_str(p.group_id) + enc_str(p.owner_id)
            + enc_str(p.channel_id) + enc_str_seq(p.member_ids),
        GroupEventV::GroupDeletedEvent(p) => seq![2u8] + enc_str(p.group_id) + enc_str(p.owner_id)
            + enc_str_seq(p.member_ids),
        GroupEventV::GroupUserAddedEvent(p) => seq![3u8] + enc_str(p.group_id) + enc_str(
            p.user_id,
        ),
        GroupEventV::GroupUserRemovedEvent(p) => seq![4u8] + enc_str(p.group_id) + enc_str(
            p.user_id,
        ),
    }
}

/// Encoding of an event: a service tag, then the domain-level encoding.
pub open spec fn enc_event(ev: EventV) -> Seq<u8> {
    match ev {
        EventV::UserEvent(e) => seq![1u8] + enc_user_event(e),
        EventV::AuthEvent(e) => seq![2u8] + enc_auth_event(e),
        EventV::MessageEvent(e) => seq![3u8] + enc_message_event(e),
        EventV::GroupEvent(e) => seq![4u8] + enc_group_event(e),
    }
}

/// Decodes a user event at position `i` of `b`.
pub open spec fn dec_user_event(b: Seq<u8>, i: int) -> Option<(UserEventV, int)> {
    match dec_u8(b, i) {
        Some((t, j)) => if t == 1 {
            match dec_str(b, j) {
                Some((id, k)) => Some((UserEventV::UserUpdatedEvent(UserUpdatedV { id }), k)),
                None => None,
            }
        } else if t == 2 {
            match dec_str(b, j) {
                Some((from_username, k)) => Some(
                    (UserEventV::FriendRequestCreatedEvent(
                        FriendRequestCreatedV { from_username },
                    ), k),
                ),
                None => None,
            }
        } else if t == 3 {
            match dec_str(b, j) {
                Some((from_username, k)) => match dec_bool(b, k) {
                    Some((accepted, m)) => Some(
                        (UserEventV::FriendRequestAnsweredEvent(
                            FriendRequestAnsweredV { from_username, accepted },
                        ), m),
                    ),
                    None => None,
                },
                None => None,
            }
        } else {
            None
        },
        None => None,
    }
}

/// Decodes an authentication event at position `i` of `b`.
pub open spec fn dec_auth_event(b: Seq<u8>, i: int) -> Option<(AuthEventV, int)> {
    match dec_u8(b, i) {
        Some((t, j)) => if t == 1 {
            match dec_str(b, j) {
                Some((id, k)) => match dec_str(b, k) {
                    Some((username, m)) => Some(
                        (AuthEventV::UserSignedUpEvent(UserCreatedV { id, username }), m),
                    ),
                    None => None,
                },
                None => None,
            }
        } else if t == 2 {
            match dec_str(b, j) {
                Some((id, k)) => match dec_str(b, k) {
                    Some((username, m)) => match dec_i64(b, m) {
                        Some((login_time, p)) => Some(
                            (AuthEventV::UserLoggedInEvent(
                                UserLoggedInV { id, username, login_time },
                            ), p),
                        ),
                        None => None,
                    },
                    None => None,
                },
                None => None,
            }
        } else if t == 3 {
            match dec_str(b, j) {
                Some((id, k)) => match dec_i64(b, k) {
                    Some((logout_time, m)) => Some(
                        (AuthEventV::UserLoggedOutEvent(UserLoggedOutV { id, logout_time }), m),
                    ),
                    None => None,
                },
                None => None,
            }
        } else {
            None
        },
        None => None,
    }
}

/// Decodes a message event at position `i` of `b`.
pub open spec fn dec_message_event(b: Seq<u8>, i: int) -> Option<(MessageEventV, int)> {
    match dec_u8(b, i) {
        Some((t, j)) => if t == 1 {
            match dec_str(b, j) {
                Some((channel_id, k)) => match dec_str(b, k) {
                    Some((sender, m)) => match dec_str(b, m) {
                        Some((message, p)) => Some(
                            (MessageEventV::MessageSentEvent(
                                MessageSentV { channel_id, sender, message },
                            ), p),
                        ),
                        None => None,
                    },
                    None => None,
                },
                None => None,
            }
        } else {
            None
        },
        None => None,
    }
}

/// Decodes a group event at position `i` of `b`.
pub open spec fn dec_group_event(b: Seq<u8>, i: int) -> Option<(GroupEventV, int)> {
    match dec_u8(b, i) {
        Some((t, j)) => if t == 1 {
            match dec_str(b, j) {
                Some((group_id, k)) => match dec_str(b, k) {
                    Some((owner_id, m)) => match dec_str(b, m) {
                        Some((channel_id, p)) => match dec_str_seq(b, p) {
                            Some((member_ids, q)) => Some(
                                (GroupEventV::GroupCreatedEvent(
                                    GroupCreatedEventV {
                                        group_id,
                                        owner_id,
                                        channel_id,
                                        member_ids,
                                    },
                                ), q),
                            ),
                            None => None,
                        },
                        None => None,
                    },
                    None => None,
                },
                None => None,
            }
        } else if t == 2 {
            match dec_str(b, j) {
                Some((group_id, k)) => match dec_str(b, k) {
                    Some((owner_id, m)) => match dec_str_seq(b, m) {
                        Some((member_ids, p)) => Some(
                            (GroupEventV::GroupDeletedEvent(
                                GroupDeletedEventV { group_id, owner_id, member_ids },
                            ), p),
                        ),
                        None => None,
                    },
                    None => None,
                },
                None => None,
            }
        } else if t == 3 {
            match dec_str(b, j) {
                Some((group_id, k)) => match dec_str(b, k) {
                    Some((user_id, m)) => Some(
                        (GroupEventV::GroupUserAddedEvent(
                            GroupUserAddedEventV { group_id, user_id },
                        ), m),
                    ),
                    None => None,
                },
                None => None,
            }
        } else if t == 4 {
            match dec_str(b, j) {
                Some((group_id, k)) => match dec_str(b, k) {
                    Some((user_id, m)) => Some(
                        (GroupEventV::GroupUserRemovedEvent(
                            GroupUserRemovedEventV { group_id, user_id },
                        ), m),
                    ),
                    None => None,
                },
                None => None,
            }
        } else {
            None
        },
        None => None,
    }
}

/// Decodes an event at position `i` of `b`: a service tag, then the
/// domain-level decoding.
pub open spec fn dec_event_at(b: Seq<u8>, i: int) -> Option<(EventV, int)> {
    match dec_u8(b, i) {
        Some((t, j)) => if t == 1 {
            match dec_user_event(b, j) {
                Some((e, k)) => Some((EventV::UserEvent(e), k)),
                None => None,
            }
        } else if t == 2 {
            match dec_auth_event(b, j) {
                Some((e, k)) => Some((EventV::AuthEvent(e), k)),
                None => None,
            }
        } else if t == 3 {
            match dec_message_event(b, j) {
                Some((e, k)) => Some((EventV::MessageEvent(e), k)),
                None => None,
            }
        } else if t == 4 {
            match dec_group_event(b, j) {
                Some((e, k)) => Some((EventV::GroupEvent(e), k)),
                None => None,
            }
        } else {
            None
        },
        None => None,
    }
}

/// Decodes a whole record as an event; trailing bytes are rejected, so `b`
/// decodes if and only if it is exactly the encoding of one event.
pub open spec fn dec_event(b: Seq<u8>) -> Option<EventV> {
    match dec_event_at(b, 0) {
        Some((ev, j)) => if j == b.len() {
            Some(ev)
        } else {
            None
        },
        None => None,
    }
}

/// Decoding a string list right after its encoding gives it back.
proof fn lemma_dec_str_seq_at(pre: Seq<u8>, l: Seq<Seq<char>>, suf: Seq<u8>)
    requires
        wf_str_list_v(l),
    ensures
        dec_str_seq(pre + enc_str_seq(l) + suf, pre.len() as int) == Some(
            (l, pre.len() + enc_str_seq(l).len() as int),
        ),
{
    let n = l.len() as u64;
    let b = pre + enc_str_seq(l) + suf;
    assert(b =~= pre + enc_u64(n) + (enc_str_list(l) + suf));
    lemma_dec_u64_at(pre, n, enc_str_list(l) + suf);
    let pre2 = pre + enc_u64(n);
    assert(b =~= pre2 + enc_str_list(l) + suf);
    lemma_dec_str_list_at(pre2, l, suf);
    lemma_auto_spec_u64_to_from_le_bytes();
    assert(pre2.len() + enc_str_list(l).len() == pre.len() + enc_str_seq(l).len());
}

/// Appends the encoding of a user event.
fn encode_user_event(out: &mut Vec<u8>, e: &UserEvent)
    requires
        wf_user_event_v(e@),
    ensures
        final(out)@ == old(out)@ + enc_user_event(e@),
{
    match e {
        UserEvent::UserUpdatedEvent(p) => {
            push_u8(out, 1);
            push_str(out, p.id.as_str());
            proof {
                assert(out@ =~= old(out)@ + enc_user_event(e@));
            }
        },
        UserEvent::FriendRequestCreatedEvent(p) => {
            push_u8(out, 2);
            push_str(out, p.from_username.as_str());
            proof {
                assert(out@ =~= old(out)@ + enc_user_event(e@));
            }
        },
        UserEvent::FriendRequestAnsweredEvent(p) => {
            push_u8(out, 3);
            push_str(out, p.from_username.as_str());
            push_bool(out, p.accepted);
            proof {
                assert(out@ =~= old(out)@ + enc_user_event(e@));
            }
        },
    }
}

/// Appends the encoding of an authentication event.
fn encode_auth_event(out: &mut Vec<u8>, e: &AuthEvent)
    requires
        wf_auth_event_v(e@),
    ensures
        final(out)@ == old(out)@ + enc_auth_event(e@),
{
    match e {
        AuthEvent::UserSignedUpEvent(p) => {
            push_u8(out, 1);
            push_str(out, p.id.as_str());
            push_str(out, p.username.as_str());
            proof {
                assert(out@ =~= old(out)@ + enc_auth_event(e@));
            }
        },
        AuthEvent::UserLoggedInEvent(p) => {
            push_u8(out, 2);
            push_str(out, p.id.as_str());
            push_str(out, p.username.as_str());
            push_i64(out, p.login_time);
            proof {
                assert(out@ =~= old(out)@ + enc_auth_event(e@));
            }
        },
        AuthEvent::UserLoggedOutEvent(p) => {
            push_u8(out, 3);
            push_str(out, p.id.as_str());
            push_i64(out, p.logout_time);
            proof {
                assert(out@ =~= old(out)@ + enc_auth_event(e@));
            }
        },
    }
}

/// Appends the encoding of a message event.
fn encode_message_event(out: &mut Vec<u8>, e: &MessageEvent)
    requires
        wf_message_event_v(e@),
    ensures
        final(out)@ == old(out)@ + enc_message_event(e@),
{
    match e {
        MessageEvent::MessageSentEvent(p) => {
            push_u8(out, 1);
            push_str(out, p.channel_id.as_str());
            push_str(out, p.sender.as_str());
            push_str(out, p.message.as_str());
            proof {
                assert(out@ =~= old(out)@ + enc_message_event(e@));
            }
        },
    }
}

/// Appends the encoding of a group event.
fn encode_group_event(out: &mut Vec<u8>, e: &GroupEvent)
    requires
        wf_group_event_v(e@),
    ensures
        final(out)@ == old(out)@ + enc_group_event(e@),
{
    match e {
        GroupEvent::GroupCreatedEvent(p) => {
            push_u8(out, 1);
            push_str(out, p.group_id.as_str());
            push_str(out, p.owner_id.as_str());
            push_str(out, p.channel_id.as_str());
            push_str_vec(out, &p.member_ids);
            proof {
                assert(out@ =~= old(out)@ + enc_group_event(e@));
            }
        },
        GroupEvent::GroupDeletedEvent(p) => {
            push_u8(out, 2);
            push_str(out, p.group_id.as_str());
            push_str(out, p.owner_id.as_str());
            push_str_vec(out, &p.member_ids);
            proof {
                assert(out@ =~= old(out)@ + enc_group_event(e@));
            }
        },
        GroupEvent::GroupUserAddedEvent(p) => {
            push_u8(out, 3);
            push_str(out, p.group_id.as_str());
            push_str(out, p.user_id.as_str());
            proof {
                assert(out@ =~= old(out)@ + enc_group_event(e@));
            }
        },
        GroupEvent::GroupUserRemovedEvent(p) => {
            push_u8(out, 4);
            push_str(out, p.group_id.as_str());
            push_str(out, p.user_id.as_str());
            proof {
                assert(out@ =~= old(out)@ + enc_group_event(e@));
            }
        },
    }
}

/// Encodes an event as a transport record payload.  The bound on string and
/// list sizes is a machine limit: every event a process actually holds meets
/// it.
pub fn encode_event(e: &Event) -> (out: Vec<u8>)
    requires
        wf_event_v(e@),
    ensures
        out@ == enc_event(e@),
{
    let mut out: Vec<u8> = Vec::new();
    match e {
        Event::UserEvent(ev) => {
            push_u8(&mut out, 1);
            encode_user_event(&mut out, ev);
            proof {
                assert(out@ =~= enc_event(e@));
            }
        },
        Event::AuthEvent(ev) => {
            push_u8(&mut out, 2);
            encode_auth_event(&mut out, ev);
            proof {
                assert(out@ =~= enc_event(e@));
            }
        },
        Event::MessageEvent(ev) => {
            push_u8(&mut out, 3);
            encode_message_event(&mut out, ev);
            proof {
                assert(out@ =~= enc_event(e@));
            }
        },
        Event::GroupEvent(ev) => {
            push_u8(&mut out, 4);
            encode_group_event(&mut out, ev);
            proof {
                assert(out@ =~= enc_event(e@));
            }
        },
    }
    out
}

/// Reads a user event at position `i`.
fn read_user_event(b: &[u8], i: usize) -> (r: Option<(UserEvent, usize)>)
    ensures
        match r {
            Some((e, j)) => dec_user_event(b@, i as int) == Some((e@, j as int)),
            None => dec_user_event(b@, i as int) is None,
        },
{
    match read_u8(b, i) {
        Some((t, j)) => if t == 1 {
            match read_string(b, j) {
                Some((id, k)) => Some((UserEvent::UserUpdatedEvent(UserUpdated { id }), k)),
                None => None,
            }
        } else if t == 2 {
            match read_string(b, j) {
                Some((from_username, k)) => Some(
                    (UserEvent::FriendRequestCreatedEvent(FriendRequestCreated { from_username }), k),
                ),
                None => None,
            }
        } else if t == 3 {
            match read_string(b, j) {
                Some((from_username, k)) => match read_bool(b, k) {
                    Some((accepted, m)) => Some(
                        (UserEvent::FriendRequestAnsweredEvent(
                            FriendRequestAnswered { from_username, accepted },
                        ), m),
                    ),
                    None => None,
                },
                None => None,
            }
        } else {
            None
        },
        None => None,
    }
}

/// Reads an authentication event at position `i`.
fn read_auth_event(b: &[u8], i: usize) -> (r: Option<(AuthEvent, usize)>)
    ensures
        match r {
            Some((e, j)) => dec_auth_event(b@, i as int) == Some((e@, j as int)),
            None => dec_auth_event(b@, i as int) is None,
        },
{
    match read_u8(b, i) {
        Some((t, j)) => if t == 1 {
            match read_string(b, j) {
                Some((id, k)) => match read_string(b, k) {
                    Some((username, m)) => Some(
                        (AuthEvent::UserSignedUpEvent(UserCreated { id, username }), m),
                    ),
                    None => None,
                },
                None => None,
            }
        } else if t == 2 {
            match read_string(b, j) {
                Some((id, k)) => match read_string(b, k) {
                    Some((username, m)) => match read_i64(b, m) {
                        Some((login_time, p)) => Some(
                            (AuthEvent::UserLoggedInEvent(
                                UserLoggedIn { id, username, login_time },
                            ), p),
                        ),
                        None => None,
                    },
                    None => None,
                },
                None => None,
            }
        } else if t == 3 {
            match read_string(b, j) {
                Some((id, k)) => match read_i64(b, k) {
                    Some((logout_time, m)) => Some(
                        (AuthEvent::UserLoggedOutEvent(UserLoggedOut { id, logout_time }), m),
                    ),
                    None => None,
                },
                None => None,
            }
        } else {
            None
        },
        None => None,
    }
}

/// Reads a message event at position `i`.
fn read_message_event(b: &[u8], i: usize) -> (r: Option<(MessageEvent, usize)>)
    ensures
        match r {
            Some((e, j)) => dec_message_event(b@, i as int) == Some((e@, j as int)),
            None => dec_message_event(b@, i as int) is None,
        },
{
    match read_u8(b, i) {
        Some((t, j)) => if t == 1 {
            match read_string(b, j) {
                Some((channel_id, k)) => match read_string(b, k) {
                    Some((sender, m)) => match read_string(b, m) {
                        Some((message, p)) => Some(
                            (MessageEvent::MessageSentEvent(
                                MessageSent { channel_id, sender, message },
                            ), p),
                        ),
                        None => None,
                    },
                    None => None,
                },
                None => None,
            }
        } else {
            None
        },
        None => None,
    }
}

/// Reads a group event at position `i`.
fn read_group_event(b: &[u8], i: usize) -> (r: Option<(GroupEvent, usize)>)
    ensures
        match r {
            Some((e, j)) => dec_group_event(b@, i as int) == Some((e@, j as int)),
            None => dec_group_event(b@, i as int) is None,
        },
{
    match read_u8(b, i) {
        Some((t, j)) => if t == 1 {
            match read_string(b, j) {
                Some((group_id, k)) => match read_string(b, k) {
                    Some((owner_id, m)) => match read_string(b, m) {
                        Some((channel_id, p)) => match read_string_vec(b, p) {
                            Some((member_ids, q)) => Some(
                                (GroupEvent::GroupCreatedEvent(
                                    GroupCreatedEvent {
                                        group_id,
                                        owner_id,
                                        channel_id,
                                        member_ids,
                                    },
                                ), q),
                            ),
                            None => None,
                        },
                        None => None,
                    },
                    None => None,
                },
                None => None,
            }
        } else if t == 2 {
            match read_string(b, j) {
                Some((group_id, k)) => match read_string(b, k) {
                    Some((owner_id, m)) => match read_string_vec(b, m) {
                        Some((member_ids, p)) => Some(
                            (GroupEvent::GroupDeletedEvent(
                                GroupDeletedEvent { group_id, owner_id, member_ids },
                            ), p),
                        ),
                        None => None,
                    },
                    None => None,
                },
                None => None,
            }
        } else if t == 3 {
            match read_string(b, j) {
                Some((group_id, k)) => match read_string(b, k) {
                    Some((user_id, m)) => Some(
                        (GroupEvent::GroupUserAddedEvent(GroupUserAddedEvent { group_id, user_id }), m),
                    ),
                    None => None,
                },
                None => None,
            }
        } else if t == 4 {
            match read_string(b, j) {
                Some((group_id, k)) => match read_string(b, k) {
                    Some((user_id, m)) => Some(
                        (GroupEvent::GroupUserRemovedEvent(
                            GroupUserRemovedEvent { group_id, user_id },
                        ), m),
                    ),
                    None => None,
                },
                None => None,
            }
        } else {
            None
        },
        None => None,
    }
}

/// Decodes a transport record payload as an event.  Returns the event only
/// when the payload is exactly the encoding of one event; the topic listener
/// skips records this rejects.
pub fn decode_event(bytes: &[u8]) -> (r: Option<Event>)
    ensures
        match r {
            Some(e) => dec_event(bytes@) == Some(e@),
            None => dec_event(bytes@) is None,
        },
{
    let parsed: Option<(Event, usize)> = match read_u8(bytes, 0) {
        Some((t, j)) => if t == 1 {
            match read_user_event(bytes, j) {
                Some((e, k)) => Some((Event::UserEvent(e), k)),
                None => None,
            }
        } else if t == 2 {
            match read_auth_event(bytes, j) {
                Some((e, k)) => Some((Event::AuthEvent(e), k)),
                None => None,
            }
        } else if t == 3 {
            match read_message_event(bytes, j) {
                Some((e, k)) => Some((Event::MessageEvent(e), k)),
                None => None,
            }
        } else if t == 4 {
            match read_group_event(bytes, j) {
                Some((e, k)) => Some((Event::GroupEvent(e), k)),
                None => None,
            }
        } else {
            None
        },
        None => None,
    };
    match parsed {
        Some((e, j)) => if j == bytes.len() {
            Some(e)
        } else {
            None
        },
        None => None,
    }
}

/// Decoding a user event right after its encoding gives it back.
#[verifier::spinoff_prover]
#[verifier::rlimit(60)]
proof fn lemma_dec_user_event_at(pre: Seq<u8>, e: UserEventV, suf: Seq<u8>)
    requires
        wf_user_event_v(e),
    ensures
        dec_user_event(pre + enc_user_event(e) + suf, pre.len() as int) == Some(
            (e, pre.len() + enc_user_event(e).len() as int),
        ),
{
    let b = pre + enc_user_event(e) + suf;
    match e {
        UserEventV::UserUpdatedEvent(p) => {
            assert(b =~= pre + seq![1u8] + (enc_str(p.id) + suf));
            lemma_dec_u8_at(pre, 1u8, enc_str(p.id) + suf);
            let pre2 = pre + seq![1u8];
            assert(b =~= pre2 + enc_str(p.id) + suf);
            lemma_dec_str_at(pre2, p.id, suf);
        },
        UserEventV::FriendRequestCreatedEvent(p) => {
            assert(b =~= pre + seq![2u8] + (enc_str(p.from_username) + suf));
            lemma_dec_u8_at(pre, 2u8, enc_str(p.from_username) + suf);
            let pre2 = pre + seq![2u8];
            assert(b =~= pre2 + enc_str(p.from_username) + suf);
            lemma_dec_str_at(pre2, p.from_username, suf);
        },
        UserEventV::FriendRequestAnsweredEvent(p) => {
            assert(b =~= pre + seq![3u8] + (enc_str(p.from_username) + (enc_bool(p.accepted)
                + suf)));
            lemma_dec_u8_at(pre, 3u8, enc_str(p.from_username) + (enc_bool(p.accepted) + suf));
            let pre2 = pre + seq![3u8];
            assert(b =~= pre2 + enc_str(p.from_username) + (enc_bool(p.accepted) + suf));
            lemma_dec_str_at(pre2, p.from_username, enc_bool(p.accepted) + suf);
            let pre3 = pre2 + enc_str(p.from_username);
            assert(b =~= pre3 + enc_bool(p.accepted) + suf);
            lemma_dec_bool_at(pre3, p.accepted, suf);
        },
    }
}

/// Decoding a sign-up event right after its encoding gives it back.
#[verifier::spinoff_prover]
#[verifier::rlimit(60)]
proof fn lemma_dec_auth_signed_up_at(pre: Seq<u8>, p: UserCreatedV, suf: Seq<u8>)
    requires
        wf_str_v(p.id),
        wf_str_v(p.username),
    ensures
        dec_auth_event(
            pre + enc_auth_event(AuthEventV::UserSignedUpEvent(p)) + suf,
            pre.len() as int,
        ) == Some(
            (AuthEventV::UserSignedUpEvent(p), pre.len() + enc_auth_event(
                AuthEventV::UserSignedUpEvent(p),
            ).len() as int),
        ),
{
    let e = AuthEventV::UserSignedUpEvent(p);
    let b = pre + enc_auth_event(e) + suf;
    assert(b =~= pre + seq![1u8] + (enc_str(p.id) + (enc_str(p.username) + suf)));
    lemma_dec_u8_at(pre, 1u8, enc_str(p.id) + (enc_str(p.username) + suf));
    assert(dec_u8(b, pre.len() as int) == Some((1u8, pre.len() + 1 as int)));
    let pre2 = pre + seq![1u8];
    assert(b =~= pre2 + enc_str(p.id) + (enc_str(p.username) + suf));
    lemma_dec_str_at(pre2, p.id, enc_str(p.username) + suf);
    assert(dec_str(b, pre2.len() as int) == Some((p.id, pre2.len() + enc_str(p.id).len() as int)));
    let pre3 = pre2 + enc_str(p.id);
    assert(b =~= pre3 + enc_str(p.username) + suf);
    lemma_dec_str_at(pre3, p.username, suf);
    assert(dec_str(b, pre3.len() as int) == Some(
        (p.username, pre3.len() + enc_str(p.username).len() as int),
    ));
    assert(UserCreatedV { id: p.id, username: p.username } == p);
}

/// Decoding a log-in event right after its encoding gives it back.
#[verifier::spinoff_prover]
#[verifier::rlimit(60)]
proof fn lemma_dec_auth_logged_in_at(pre: Seq<u8>, p: UserLoggedInV, suf: Seq<u8>)
    requires
        wf_str_v(p.id),
        wf_str_v(p.username),
    ensures
        dec_auth_event(
            pre + enc_auth_event(AuthEventV::UserLoggedInEvent(p)) + suf,
            pre.len() as int,
        ) == Some(
            (AuthEventV::UserLoggedInEvent(p), pre.len() + enc_auth_event(
                AuthEventV::UserLoggedInEvent(p),
            ).len() as int),
        ),
{
    let e = AuthEventV::UserLoggedInEvent(p);
    let b = pre + enc_auth_event(e) + suf;
    lemma_auto_spec_u64_to_from_le_bytes();
    assert(b =~= pre + seq![2u8] + (enc_str(p.id) + (enc_str(p.username) + (enc_i64(p.login_time)
        + suf))));
    lemma_dec_u8_at(pre, 2u8, enc_str(p.id) + (enc_str(p.username) + (enc_i64(p.login_time)
        + suf)));
    assert(dec_u8(b, pre.len() as int) == Some((2u8, pre.len() + 1 as int)));
    let pre2 = pre + seq![2u8];
    assert(b =~= pre2 + enc_str(p.id) + (enc_str(p.username) + (enc_i64(p.login_time) + suf)));
    lemma_dec_str_at(pre2, p.id, enc_str(p.username) + (enc_i64(p.login_time) + suf));
    assert(dec_str(b, pre2.len() as int) == Some((p.id, pre2.len() + enc_str(p.id).len() as int)));
    let pre3 = pre2 + enc_str(p.id);
    assert(b =~= pre3 + enc_str(p.username) + (enc_i64(p.login_time) + suf));
    lemma_dec_str_at(pre3, p.username, enc_i64(p.login_time) + suf);
    assert(dec_str(b, pre3.len() as int) == Some(
        (p.username, pre3.len() + enc_str(p.username).len() as int),
    ));
    let pre4 = pre3 + enc_str(p.username);
    assert(b =~= pre4 + enc_i64(p.login_time) + suf);
    lemma_dec_i64_at(pre4, p.login_time, suf);
    assert(dec_i64(b, pre4.len() as int) == Some((p.login_time, pre4.len() + 8 as int)));
    assert(UserLoggedInV { id: p.id, username: p.username, login_time: p.login_time } == p);
}

/// Decoding a log-out event right after its encoding gives it back.
#[verifier::spinoff_prover]
#[verifier::rlimit(60)]
proof fn lemma_dec_auth_logged_out_at(pre: Seq<u8>, p: UserLoggedOutV, suf: Seq<u8>)
    requires
        wf_str_v(p.id),
    ensures
        dec_auth_event(
            pre + enc_auth_event(AuthEventV::UserLoggedOutEvent(p)) + suf,
            pre.len() as int,
        ) == Some(
            (AuthEventV::UserLoggedOutEvent(p), pre.len() + enc_auth_event(
                AuthEventV::UserLoggedOutEvent(p),
            ).len() as int),
        ),
{
    let e = AuthEventV::UserLoggedOutEvent(p);
    let b = pre + enc_auth_event(e) + suf;
    lemma_auto_spec_u64_to_from_le_bytes();
    assert(b =~= pre + seq![3u8] + (enc_str(p.id) + (enc_i64(p.logout_time) + suf)));
    lemma_dec_u8_at(pre, 3u8, enc_str(p.id) + (enc_i64(p.logout_time) + suf));
    assert(dec_u8(b, pre.len() as int) == Some((3u8, pre.len() + 1 as int)));
    let pre2 = pre + seq![3u8];
    assert(b =~= pre2 + enc_str(p.id) + (enc_i64(p.logout_time) + suf));
    lemma_dec_str_at(pre2, p.id, enc_i64(p.logout_time) + suf);
    assert(dec_str(b, pre2.len() as int) == Some((p.id, pre2.len() + enc_str(p.id).len() as int)));
    let pre3 = pre2 + enc_str(p.id);
    assert(b =~= pre3 + enc_i64(p.logout_time) + suf);
    lemma_dec_i64_at(pre3, p.logout_time, suf);
    assert(dec_i64(b, pre3.len() as int) == Some((p.logout_time, pre3.len() + 8 as int)));
    assert(UserLoggedOutV { id: p.id, logout_time: p.logout_time } == p);
}

/// Decoding an authentication event right after its encoding gives it back.
proof fn lemma_dec_auth_event_at(pre: Seq<u8>, e: AuthEventV, suf: Seq<u8>)
    requires
        wf_auth_event_v(e),
    ensures
        dec_auth_event(pre + enc_auth_event(e) + suf, pre.len() as int) == Some(
            (e, pre.len() + enc_auth_event(e).len() as int),
        ),
{
    match e {
        AuthEventV::UserSignedUpEvent(p) => {
            lemma_dec_auth_signed_up_at(pre, p, suf);
        },
        AuthEventV::UserLoggedInEvent(p) => {
            lemma_dec_auth_logged_in_at(pre, p, suf);
        },
        AuthEventV::UserLoggedOutEvent(p) => {
            lemma_dec_auth_logged_out_at(pre, p, suf);
        },
    }
}

/// Decoding a message event right after its encoding gives it back.
#[verifier::spinoff_prover]
#[verifier::rlimit(60)]
proof fn lemma_dec_message_event_at(pre: Seq<u8>, e: MessageEventV, suf: Seq<u8>)
    requires
        wf_message_event_v(e),
    ensures
        dec_message_event(pre + enc_message_event(e) + suf, pre.len() as int) == Some(
            (e, pre.len() + enc_message_event(e).len() as int),
        ),
{
    let b = pre + enc_message_event(e) + suf;
    match e {
        MessageEventV::MessageSentEvent(p) => {
            assert(b =~= pre + seq![1u8] + (enc_str(p.channel_id) + (enc_str(p.sender) + (enc_str(
                p.message,
            ) + suf))));
            lemma_dec_u8_at(
                pre,
                1u8,
                enc_str(p.channel_id) + (enc_str(p.sender) + (enc_str(p.message) + suf)),
            );
            let pre2 = pre + seq![1u8];
            assert(b =~= pre2 + enc_str(p.channel_id) + (enc_str(p.sender) + (enc_str(p.message)
                + suf)));
            lemma_dec_str_at(pre2, p.channel_id, enc_str(p.sender) + (enc_str(p.message) + suf));
            let pre3 = pre2 + enc_str(p.channel_id);
            assert(b =~= pre3 + enc_str(p.sender) + (enc_str(p.message) + suf));
            lemma_dec_str_at(pre3, p.sender, enc_str(p.message) + suf);
            let pre4 = pre3 + enc_str(p.sender);
            assert(b =~= pre4 + enc_str(p.message) + suf);
            lemma_dec_str_at(pre4, p.message, suf);
        },
    }
}

/// Decoding a group-created event right after its encoding gives it back.
#[verifier::spinoff_prover]
#[verifier::rlimit(80)]
proof fn lemma_dec_group_created_at(pre: Seq<u8>, p: GroupCreatedEventV, suf: Seq<u8>)
    requires
        wf_str_v(p.group_id),
        wf_str_v(p.owner_id),
        wf_str_v(p.channel_id),
        wf_str_list_v(p.member_ids),
    ensures
        dec_group_event(
            pre + enc_group_event(GroupEventV::GroupCreatedEvent(p)) + suf,
            pre.len() as int,
        ) == Some(
            (GroupEventV::GroupCreatedEvent(p), pre.len() + enc_group_event(
                GroupEventV::GroupCreatedEvent(p),
            ).len() as int),
        ),
{
    let e = GroupEventV::GroupCreatedEvent(p);
    let b = pre + enc_group_event(e) + suf;
    assert(b =~= pre + seq![1u8] + (enc_str(p.group_id) + (enc_str(p.owner_id) + (enc_str(
        p.channel_id,
    ) + (enc_str_seq(p.member_ids) + suf)))));
    lemma_dec_u8_at(
        pre,
        1u8,
        enc_str(p.group_id) + (enc_str(p.owner_id) + (enc_str(p.channel_id) + (enc_str_seq(
            p.member_ids,
        ) + suf))),
    );
    assert(dec_u8(b, pre.len() as int) == Some((1u8, pre.len() + 1 as int)));
    let pre2 = pre + seq![1u8];
    assert(b =~= pre2 + enc_str(p.group_id) + (enc_str(p.owner_id) + (enc_str(p.channel_id)
        + (enc_str_seq(p.member_ids) + suf))));
    lemma_dec_str_at(
        pre2,
        p.group_id,
        enc_str(p.owner_id) + (enc_str(p.channel_id) + (enc_str_seq(p.member_ids) + suf)),
    );
    assert(dec_str(b, pre2.len() as int) == Some(
        (p.group_id, pre2.len() + enc_str(p.group_id).len() as int),
    ));
    let pre3 = pre2 + enc_str(p.group_id);
    assert(b =~= pre3 + enc_str(p.owner_id) + (enc_str(p.channel_id) + (enc_str_seq(p.member_ids)
        + suf)));
    lemma_dec_str_at(pre3, p.owner_id, enc_str(p.channel_id) + (enc_str_seq(p.member_ids) + suf));
    assert(dec_str(b, pre3.len() as int) == Some(
        (p.owner_id, pre3.len() + enc_str(p.owner_id).len() as int),
    ));
    let pre4 = pre3 + enc_str(p.owner_id);
    assert(b =~= pre4 + enc_str(p.channel_id) + (enc_str_seq(p.member_ids) + suf));
    lemma_dec_str_at(pre4, p.channel_id, enc_str_seq(p.member_ids) + suf);
    assert(dec_str(b, pre4.len() as int) == Some(
        (p.channel_id, pre4.len() + enc_str(p.channel_id).len() as int),
    ));
    let pre5 = pre4 + enc_str(p.channel_id);
    assert(b =~= pre5 + enc_str_seq(p.member_ids) + suf);
    lemma_dec_str_seq_at(pre5, p.member_ids, suf);
    assert(dec_str_seq(b, pre5.len() as int) == Some(
        (p.member_ids, pre5.len() + enc_str_seq(p.member_ids).len() as int),
    ));
    assert(GroupCreatedEventV {
        group_id: p.group_id,
        owner_id: p.owner_id,
        channel_id: p.channel_id,
        member_ids: p.member_ids,
    } == p);
}

/// Decoding a group-deleted event right after its encoding gives it back.
#[verifier::spinoff_prover]
#[verifier::rlimit(80)]
proof fn lemma_dec_group_deleted_at(pre: Seq<u8>, p: GroupDeletedEventV, suf: Seq<u8>)
    requires
        wf_str_v(p.group_id),
        wf_str_v(p.owner_id),
        wf_str_list_v(p.member_ids),
    ensures
        dec_group_event(
            pre + enc_group_event(GroupEventV::GroupDeletedEvent(p)) + suf,
            pre.len() as int,
        ) == Some(
            (GroupEventV::GroupDeletedEvent(p), pre.len() + enc_group_event(
                GroupEventV::GroupDeletedEvent(p),
            ).len() as int),
        ),
{
    let e = GroupEventV::GroupDeletedEvent(p);
    let b = pre + enc_group_event(e) + suf;
    assert(b =~= pre + seq![2u8] + (enc_str(p.group_id) + (enc_str(p.owner_id) + (enc_str_seq(
        p.member_ids,
    ) + suf))));
    lemma_dec_u8_at(
        pre,
        2u8,
        enc_str(p.group_id) + (enc_str(p.owner_id) + (enc_str_seq(p.member_ids) + suf)),
    );
    assert(dec_u8(b, pre.len() as int) == Some((2u8, pre.len() + 1 as int)));
    let pre2 = pre + seq![2u8];
    assert(b =~= pre2 + enc_str(p.group_id) + (enc_str(p.owner_id) + (enc_str_seq(p.member_ids)
        + suf)));
    lemma_dec_str_at(pre2, p.group_id, enc_str(p.owner_id) + (enc_str_seq(p.member_ids) + suf));
    assert(dec_str(b, pre2.len() as int) == Some(
        (p.group_id, pre2.len() + enc_str(p.group_id).len() as int),
    ));
    let pre3 = pre2 + enc_str(p.group_id);
    assert(b =~= pre3 + enc_str(p.owner_id) + (enc_str_seq(p.member_ids) + suf));
    lemma_dec_str_at(pre3, p.owner_id, enc_str_seq(p.member_ids) + suf);
    assert(dec_str(b, pre3.len() as int) == Some(
        (p.owner_id, pre3.len() + enc_str(p.owner_id).len() as int),
    ));
    let pre4 = pre3 + enc_str(p.owner_id);
    assert(b =~= pre4 + enc_str_seq(p.member_ids) + suf);
    lemma_dec_str_seq_at(pre4, p.member_ids, suf);
    assert(dec_str_seq(b, pre4.len() as int) == Some(
        (p.member_ids, pre4.len() + enc_str_seq(p.member_ids).len() as int),
    ));
    assert(GroupDeletedEventV {
        group_id: p.group_id,
        owner_id: p.owner_id,
        member_ids: p.member_ids,
    } == p);
}

/// Decoding a member-added event right after its encoding gives it back.
#[verifier::spinoff_prover]
#[verifier::rlimit(60)]
proof fn lemma_dec_group_user_added_at(pre: Seq<u8>, p: GroupUserAddedEventV, suf: Seq<u8>)
    requires
        wf_str_v(p.group_id),
        wf_str_v(p.user_id),
    ensures
        dec_group_event(
            pre + enc_group_event(GroupEventV::GroupUserAddedEvent(p)) + suf,
            pre.len() as int,
        ) == Some(
            (GroupEventV::GroupUserAddedEvent(p), pre.len() + enc_group_event(
                GroupEventV::GroupUserAddedEvent(p),
            ).len() as int),
        ),
{
    let e = GroupEventV::GroupUserAddedEvent(p);
    let b = pre + enc_group_event(e) + suf;
    assert(b =~= pre + seq![3u8] + (enc_str(p.group_id) + (enc_str(p.user_id) + suf)));
    lemma_dec_u8_at(pre, 3u8, enc_str(p.group_id) + (enc_str(p.user_id) + suf));
    assert(dec_u8(b, pre.len() as int) == Some((3u8, pre.len() + 1 as int)));
    let pre2 = pre + seq![3u8];
    assert(b =~= pre2 + enc_str(p.group_id) + (enc_str(p.user_id) + suf));
    lemma_dec_str_at(pre2, p.group_id, enc_str(p.user_id) + suf);
    assert(dec_str(b, pre2.len() as int) == Some(
        (p.group_id, pre2.len() + enc_str(p.group_id).len() as int),
    ));
    let pre3 = pre2 + enc_str(p.group_id);
    assert(b =~= pre3 + enc_str(p.user_id) + suf);
    lemma_dec_str_at(pre3, p.user_id, suf);
    assert(dec_str(b, pre3.len() as int) == Some(
        (p.user_id, pre3.len() + enc_str(p.user_id).len() as int),
    ));
    assert(GroupUserAddedEventV { group_id: p.group_id, user_id: p.user_id } == p);
}

/// Decoding a member-removed event right after its encoding gives it back.
#[verifier::spinoff_prover]
#[verifier::rlimit(60)]
proof fn lemma_dec_group_user_removed_at(pre: Seq<u8>, p: GroupUserRemovedEventV, suf: Seq<u8>)
    requires
        wf_str_v(p.group_id),
        wf_str_v(p.user_id),
    ensures
        dec_group_event(
            pre + enc_group_event(GroupEventV::GroupUserRemovedEvent(p)) + suf,
            pre.len() as int,
        ) == Some(
            (GroupEventV::GroupUserRemovedEvent(p), pre.len() + enc_group_event(
                GroupEventV::GroupUserRemovedEvent(p),
            ).len() as int),
        ),
{
    let e = GroupEventV::GroupUserRemovedEvent(p);
    let b = pre + enc_group_event(e) + suf;
    assert(b =~= pre + seq![4u8] + (enc_str(p.group_id) + (enc_str(p.user_id) + suf)));
    lemma_dec_u8_at(pre, 4u8, enc_str(p.group_id) + (enc_str(p.user_id) + suf));
    assert(dec_u8(b, pre.len() as int) == Some((4u8, pre.len() + 1 as int)));
    let pre2 = pre + seq![4u8];
    assert(b =~= pre2 + enc_str(p.group_id) + (enc_str(p.user_id) + suf));
    lemma_dec_str_at(pre2, p.group_id, enc_str(p.user_id) + suf);
    assert(dec_str(b, pre2.len() as int) == Some(
        (p.group_id, pre2.len() + enc_str(p.group_id).len() as int),
    ));
    let pre3 = pre2 + enc_str(p.group_id);
    assert(b =~= pre3 + enc_str(p.user_id) + suf);
    lemma_dec_str_at(pre3, p.user_id, suf);
    assert(dec_str(b, pre3.len() as int) == Some(
        (p.user_id, pre3.len() + enc_str(p.user_id).len() as int),
    ));
    assert(GroupUserRemovedEventV { group_id: p.group_id, user_id: p.user_id } == p);
}

/// Decoding a group event right after its encoding gives it back.
proof fn lemma_dec_group_event_at(pre: Seq<u8>, e: GroupEventV, suf: Seq<u8>)
    requires
        wf_group_event_v(e),
    ensures
        dec_group_event(pre + enc_group_event(e) + suf, pre.len() as int) == Some(
            (e, pre.len() + enc_group_event(e).len() as int),
        ),
{
    match e {
        GroupEventV::GroupCreatedEvent(p) => {
            lemma_dec_group_created_at(pre, p, suf);
        },
        GroupEventV::GroupDeletedEvent(p) => {
            lemma_dec_group_deleted_at(pre, p, suf);
        },
        GroupEventV::GroupUserAddedEvent(p) => {
            lemma_dec_group_user_added_at(pre, p, suf);
        },
        GroupEventV::GroupUserRemovedEvent(p) => {
            lemma_dec_group_user_removed_at(pre, p, suf);
        },
    }
}

/// The canonical encoding round-trips: encoding any event and decoding the
/// record gives back exactly the original event.  The bound on string and
/// list sizes is a machine limit: every event a process actually holds meets
/// it.
pub proof fn lemma_codec_round_trip(ev: EventV)
    requires
        wf_event_v(ev),
    ensures
        dec_event(enc_event(ev)) == Some(ev),
{
    let b = enc_event(ev);
    match ev {
        EventV::UserEvent(e) => {
            assert(b =~= Seq::<u8>::empty() + seq![1u8] + enc_user_event(e));
            lemma_dec_u8_at(Seq::empty(), 1u8, enc_user_event(e));
            assert(b =~= seq![1u8] + enc_user_event(e) + Seq::<u8>::empty());
            lemma_dec_user_event_at(seq![1u8], e, Seq::empty());
        },
        EventV::AuthEvent(e) => {
            assert(b =~= Seq::<u8>::empty() + seq![2u8] + enc_auth_event(e));
            lemma_dec_u8_at(Seq::empty(), 2u8, enc_auth_event(e));
            assert(b =~= seq![2u8] + enc_auth_event(e) + Seq::<u8>::empty());
            lemma_dec_auth_event_at(seq![2u8], e, Seq::empty());
        },
        EventV::MessageEvent(e) => {
            assert(b =~= Seq::<u8>::empty() + seq![3u8] + enc_message_event(e));
            lemma_dec_u8_at(Seq::empty(), 3u8, enc_message_event(e));
            assert(b =~= seq![3u8] + enc_message_event(e) + Seq::<u8>::empty());
            lemma_dec_message_event_at(seq![3u8], e, Seq::empty());
        },
        EventV::GroupEvent(e) => {
            assert(b =~= Seq::<u8>::empty() + seq![4u8] + enc_group_event(e));
            lemma_dec_u8_at(Seq::empty(), 4u8, enc_group_event(e));
            assert(b =~= seq![4u8] + enc_group_event(e) + Seq::<u8>::empty());
            lemma_dec_group_event_at(seq![4u8], e, Seq::empty());
        },
    }
}

/// The encoding is canonical: two events with the same encoding are the same
/// event.
pub proof fn lemma_encoding_injective(a: EventV, b: EventV)
    requires
        wf_event_v(a),
        wf_event_v(b),
        enc_event(a) == enc_event(b),
    ensures
        a == b,
{
    lemma_codec_round_trip(a);
    lemma_codec_round_trip(b);
}

} // verus!
