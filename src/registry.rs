//! The table of known message types, and the big-endian envelope that
//! carries a typed payload with its message id and sequence id.
use vstd::prelude::*;
use std::collections::HashMap;

verus! {

broadcast use vstd::std_specs::hash::group_hash_axioms;

#[verifier::external_type_specification]
#[verifier::external_body]
pub struct ExDecodeError(prost::DecodeError);

/// Relies on `prost::DecodeError::new`: builds a decode error carrying
/// `description` as its root cause.
#[verifier::external_body]
fn decode_error(description: &'static str) -> (r: prost::DecodeError) {
    prost::DecodeError::new(description)
}

/// Errors of the message registry and envelope.
#[derive(Debug)]
pub enum RegistryError {
    MessageNotRegistered(u32),
    MessageAlreadyExists(u32),
    EncodeError(String),
    DecodeError(prost::DecodeError),
}

/// Known message types: id to type name. Ids are listed in registration order.
pub struct MessageRegistry {
    messages: HashMap<u32, String>,
    ids: Vec<u32>,
}

impl View for MessageRegistry {
    type V = Map<u32, String>;

    closed spec fn view(&self) -> Map<u32, String> {
        self.messages@
    }
}

impl MessageRegistry {
    /// The id list holds each registered id once.
    pub closed spec fn wf(&self) -> bool {
        &&& self.ids@.no_duplicates()
        &&& forall|k: u32| self.messages@.contains_key(k) <==> self.ids@.contains(k)
    }

    /// An empty registry.
    pub fn new() -> (r: MessageRegistry)
        ensures
            r.wf(),
            r@ == Map::<u32, String>::empty(),
    {
        MessageRegistry { messages: HashMap::new(), ids: Vec::new() }
    }

    /// Registers `name` for `id`; fails when the id is taken, leaving the
    /// registry as it was.
    pub fn register(&mut self, id: u32, name: String) -> (r: Result<(), RegistryError>)
        requires
            old(self).wf(),
        ensures
            final(self).wf(),
            r is Ok <==> !old(self)@.contains_key(id),
            r is Ok ==> final(self)@ == old(self)@.insert(id, name),
            r is Err ==> final(self)@ == old(self)@ && r->Err_0 == RegistryError::MessageAlreadyExists(id),
    {
        if self.messages.contains_key(&id) {
            return Err(RegistryError::MessageAlreadyExists(id));
        }
        let ghost old_ids = self.ids@;
        self.messages.insert(id, name);
        self.ids.push(id);
        proof {
            assert forall|a: int, b: int| 0 <= a < self.ids@.len() && 0 <= b < self.ids@.len() && a != b implies self.ids@[a] != self.ids@[b] by {
                if a == old_ids.len() {
                    assert(self.ids@[b] == old_ids[b]);
                    assert(old_ids.contains(old_ids[b]));
                } else if b == old_ids.len() {
                    assert(self.ids@[a] == old_ids[a]);
                    assert(old_ids.contains(old_ids[a]));
                }
            }
            assert forall|k: u32| self.messages@.contains_key(k) <==> self.ids@.contains(k) by {
                if old_ids.contains(k) {
                    let w = choose|w: int| 0 <= w < old_ids.len() && old_ids[w] == k;
                    assert(self.ids@[w] == k);
                }
                if self.ids@.contains(k) && k != id {
                    let w = choose|w: int| 0 <= w < self.ids@.len() && self.ids@[w] == k;
                    assert(old_ids[w] == k);
                }
                if k == id {
                    assert(self.ids@[old_ids.len() as int] == k);
                }
            }
        }
        Ok(())
    }

    /// Whether `id` is registered.
    pub fn contains(&self, id: u32) -> (r: bool)
        ensures
            r == self@.contains_key(id),
    {
        self.messages.contains_key(&id)
    }

    /// The type name registered for `id`.
    pub fn get_name(&self, id: u32) -> (r: Option<&String>)
        ensures
            r is Some <==> self@.contains_key(id),
            r is Some ==> *r->Some_0 == self@[id],
    {
        self.messages.get(&id)
    }

    /// Number of registered ids.
    pub fn count(&self) -> (r: usize)
        ensures
            r == self@.len(),
    {
        self.messages.len()
    }

    /// The registered ids, each once, in registration order.
    pub fn list_ids(&self) -> (r: Vec<u32>)
        requires
            self.wf(),
        ensures
            r@.no_duplicates(),
            forall|k: u32| self@.contains_key(k) <==> r@.contains(k),
    {
        self.ids.clone()
    }
}

/// The big-endian bytes of `v`, most significant first, in `n` bytes.
pub open spec fn be_bytes(v: nat, n: nat) -> Seq<u8>
    decreases n,
{
    if n == 0 {
        Seq::empty()
    } else {
        be_bytes(v / 256, (n - 1) as nat).push((v % 256) as u8)
    }
}

/// The value of the big-endian bytes `s`.
pub open spec fn be_value(s: Seq<u8>) -> nat
    decreases s.len(),
{
    if s.len() == 0 {
        0
    } else {
        be_value(s.drop_last()) * 256 + s.last() as nat
    }
}

/// The envelope of a payload: message id (4 bytes), sequence id (8 bytes)
/// and payload length (4 bytes), all big-endian, then the payload.
pub open spec fn envelope(message_id: u32, sequence_id: u64, payload: Seq<u8>) -> Seq<u8> {
    be_bytes(message_id as nat, 4) + be_bytes(sequence_id as nat, 8) + be_bytes(payload.len(), 4)
        + payload
}

fn push_be(dst: &mut Vec<u8>, v: u64, n: usize)
    requires
        n <= 8,
    ensures
        final(dst)@ == old(dst)@ + be_bytes(v as nat, n as nat),
    decreases n,
{
    if n > 0 {
        push_be(dst, v / 256, n - 1);
        dst.push((v % 256) as u8);
        assert(dst@ =~= old(dst)@ + be_bytes(v as nat, n as nat)) by {
            assert((v / 256) as nat == (v as nat) / 256);
        }
    } else {
        assert(dst@ =~= old(dst)@ + be_bytes(v as nat, n as nat));
    }
}

fn read_be(s: &[u8], at: usize, n: usize) -> (r: u64)
    requires
        n <= 8,
        at + n <= s@.len(),
    ensures
        r == be_value(s@.subrange(at as int, at + n)),
    decreases n,
{
    if n == 0 {
        0
    } else {
        let len = s.len();
        let last: usize = at + (n - 1);
        let high = read_be(s, at, n - 1);
        proof {
            lemma_be_value_bound(s@.subrange(at as int, at + n - 1));
            lemma_pow_values();
            assert(s@.subrange(at as int, at + n).drop_last() =~= s@.subrange(at as int, at + n - 1));
            assert(high < 0x100000000000000) by (nonlinear_arith)
                requires
                    high < pow256((n - 1) as nat),
                    n <= 8,
                    pow256((n - 1) as nat) <= pow256(7),
                    pow256(7) == 0x100000000000000,
            {
            }
        }
        high * 256 + s[last] as u64
    }
}

/// `256` to the power `n`.
pub open spec fn pow256(n: nat) -> nat
    decreases n,
{
    if n == 0 {
        1
    } else {
        256 * pow256((n - 1) as nat)
    }
}

proof fn lemma_be_value_bound(s: Seq<u8>)
    ensures
        be_value(s) < pow256(s.len()),
        s.len() <= 7 ==> pow256(s.len()) <= pow256(7),
    decreases s.len(),
{
    if s.len() > 0 {
        lemma_be_value_bound(s.drop_last());
        let h = be_value(s.drop_last());
        let p = pow256((s.len() - 1) as nat);
        assert(h * 256 + (s.last() as nat) < 256 * p) by (nonlinear_arith)
            requires
                h < p,
                s.last() < 256,
        ;
    }
    lemma_pow_mono(s.len(), 7);
    lemma_pow_values();
}

proof fn lemma_pow_values()
    ensures
        pow256(4) == 0x100000000,
        pow256(7) == 0x100000000000000,
{
    assert(pow256(0) == 1);
    assert(pow256(1) == 256);
    assert(pow256(2) == 65536);
    assert(pow256(3) == 16777216);
    assert(pow256(4) == 0x100000000);
    assert(pow256(5) == 0x10000000000);
    assert(pow256(6) == 0x1000000000000);
    assert(pow256(7) == 0x100000000000000);
}

proof fn lemma_pow_mono(a: nat, b: nat)
    ensures
        a <= b ==> pow256(a) <= pow256(b),
    decreases b,
{
    if a < b {
        lemma_pow_mono(a, (b - 1) as nat);
        assert(pow256((b - 1) as nat) >= 1) by {
            lemma_pow_pos((b - 1) as nat);
        }
    }
}

proof fn lemma_pow_pos(a: nat)
    ensures
        pow256(a) >= 1,
    decreases a,
{
    if a > 0 {
        lemma_pow_pos((a - 1) as nat);
    }
}

/// Reading back `n` big-endian bytes of a value below `256^n` gives the value.
pub proof fn lemma_be_round_trip(v: nat, n: nat)
    requires
        v < pow256(n),
    ensures
        be_bytes(v, n).len() == n,
        be_value(be_bytes(v, n)) == v,
    decreases n,
{
    if n > 0 {
        let p = pow256((n - 1) as nat);
        assert(v / 256 < p) by (nonlinear_arith)
            requires
                v < 256 * p,
        ;
        lemma_be_round_trip(v / 256, (n - 1) as nat);
        let s = be_bytes(v, n);
        assert(s.drop_last() =~= be_bytes(v / 256, (n - 1) as nat));
        assert(v == (v / 256) * 256 + v % 256) by (nonlinear_arith);
    }
}

/// Wraps `payload` in the envelope.
pub fn wrap_message(message_id: u32, sequence_id: u64, payload: &[u8]) -> (r: Result<Vec<u8>, RegistryError>)
    requires
        payload@.len() <= u32::MAX,
    ensures
        r is Ok,
        r->Ok_0@ == envelope(message_id, sequence_id, payload@),
{
    let mut buf: Vec<u8> = Vec::new();
    push_be(&mut buf, message_id as u64, 4);
    push_be(&mut buf, sequence_id, 8);
    push_be(&mut buf, payload.len() as u64, 4);
    crate::bytes_le::append_bytes(&mut buf, payload);
    Ok(buf)
}

/// Opens an envelope: the message id, the sequence id and the payload.
/// Fails when fewer than 16 bytes are given, or fewer payload bytes than
/// the envelope declares; bytes after the payload are ignored.
pub fn unwrap_message(data: &[u8]) -> (r: Result<(u32, u64, Vec<u8>), RegistryError>)
    ensures
        r is Ok <==> data@.len() >= 16 && data@.len() >= 16 + be_value(data@.subrange(12, 16)),
        r is Ok ==> {
            let (m, s, p) = r->Ok_0;
            &&& m == be_value(data@.subrange(0, 4))
            &&& s == be_value(data@.subrange(4, 12))
            &&& p@ == data@.subrange(16, 16 + be_value(data@.subrange(12, 16)) as int)
        },
        r is Err ==> r->Err_0 is DecodeError,
{
    if data.len() < 16 {
        return Err(RegistryError::DecodeError(decode_error("消息长度不足")));
    }
    let message_id = read_be(data, 0, 4);
    let sequence_id = read_be(data, 4, 8);
    let payload_len = read_be(data, 12, 4);
    proof {
        lemma_be_value_bound(data@.subrange(0, 4));
        lemma_be_value_bound(data@.subrange(12, 16));
        lemma_pow_values();
    }
    if (data.len() as u64) < 16 + payload_len {
        return Err(RegistryError::DecodeError(decode_error("负载长度不匹配")));
    }
    let end = 16 + payload_len as usize;
    let mut payload: Vec<u8> = Vec::new();
    let mut i: usize = 16;
    while i < end
        invariant
            16 <= i <= end,
            end <= data@.len(),
            payload@ == data@.subrange(16, i as int),
        decreases end - i,
    {
        payload.push(data[i]);
        i = i + 1;
        assert(payload@ =~= data@.subrange(16, i as int));
    }
    Ok((message_id as u32, sequence_id, payload))
}

impl Default for MessageRegistry {
    fn default() -> (r: MessageRegistry)
        ensures
            r.wf(),
            r@ == Map::<u32, String>::empty(),
    {
        MessageRegistry::new()
    }
}

/// Envelope round trip: opening the envelope of a payload gives back its
/// message id, its sequence id and the payload.
pub proof fn lemma_envelope_round_trip(message_id: u32, sequence_id: u64, payload: Seq<u8>)
    requires
        payload.len() <= u32::MAX,
    ensures
        ({
            let d = envelope(message_id, sequence_id, payload);
            &&& d.len() >= 16
            &&& d.len() >= 16 + be_value(d.subrange(12, 16))
            &&& be_value(d.subrange(0, 4)) == message_id
            &&& be_value(d.subrange(4, 12)) == sequence_id
            &&& d.subrange(16, 16 + be_value(d.subrange(12, 16)) as int) == payload
        }),
{
    lemma_pow_values();
    lemma_pow_mono(4, 8);
    assert(pow256(8) == 256 * pow256(7));
    lemma_be_round_trip(message_id as nat, 4);
    lemma_be_round_trip(sequence_id as nat, 8);
    lemma_be_round_trip(payload.len(), 4);
    let a = be_bytes(message_id as nat, 4);
    let b = be_bytes(sequence_id as nat, 8);
    let c = be_bytes(payload.len(), 4);
    let d = envelope(message_id, sequence_id, payload);
    assert(d.subrange(0, 4) =~= a);
    assert(d.subrange(4, 12) =~= b);
    assert(d.subrange(12, 16) =~= c);
    assert(d.subrange(16, 16 + payload.len() as int) =~= payload);
}

} // verus!
