//! Deterministic, size-minimal binary tuple encoding for the consensus-visible
//! records: the inbound [`Message`] and the outbound [`ApplyResult`].
//!
//! Every integer field is written big-endian at a fixed offset and every byte
//! string is length-prefixed, so each value has exactly one encoding and
//! `decode` accepts exactly the encodings.

use vstd::prelude::*;

verus! {

/// Big-endian bytes of a 64-bit integer.
pub open spec fn u64_be(x: u64) -> Seq<u8> {
    seq![
        (x >> 56) as u8,
        (x >> 48) as u8,
        (x >> 40) as u8,
        (x >> 32) as u8,
        (x >> 24) as u8,
        (x >> 16) as u8,
        (x >> 8) as u8,
        x as u8,
    ]
}

/// The 64-bit integer read back from eight big-endian bytes.
pub open spec fn u64_from8(
    b0: u8, b1: u8, b2: u8, b3: u8, b4: u8, b5: u8, b6: u8, b7: u8,
) -> u64 {
    ((b0 as u64) << 56) | ((b1 as u64) << 48) | ((b2 as u64) << 40) | ((b3 as u64) << 32)
        | ((b4 as u64) << 24) | ((b5 as u64) << 16) | ((b6 as u64) << 8) | (b7 as u64)
}

/// Reading back the big-endian bytes of `x` yields `x`.
pub proof fn lemma_u64_round(x: u64)
    ensures
        u64_from8(
            (x >> 56) as u8, (x >> 48) as u8, (x >> 40) as u8, (x >> 32) as u8,
            (x >> 24) as u8, (x >> 16) as u8, (x >> 8) as u8, x as u8,
        ) == x,
{
    assert((((x >> 56) as u8) as u64) << 56 | (((x >> 48) as u8) as u64) << 48
        | (((x >> 40) as u8) as u64) << 40 | (((x >> 32) as u8) as u64) << 32
        | (((x >> 24) as u8) as u64) << 24 | (((x >> 16) as u8) as u64) << 16
        | (((x >> 8) as u8) as u64) << 8 | ((x as u8) as u64) == x) by (bit_vector);
}

/// Splitting a 128-bit value into its high and low halves and recombining
/// them yields the value back.
pub proof fn lemma_u128_split(v: u128)
    ensures
        ((((v >> 64) as u64) as u128) << 64) | ((v as u64) as u128) == v,
{
    assert(((((v >> 64) as u64) as u128) << 64) | ((v as u64) as u128) == v) by (bit_vector);
}

/// If eight big-endian bytes of `x` sit in `s` at offset `off`, reading
/// there yields `x`.
pub proof fn lemma_u64_at(s: Seq<u8>, off: int, x: u64)
    requires
        0 <= off,
        off + 8 <= s.len(),
        s.subrange(off, off + 8) == u64_be(x),
    ensures
        u64_from8(
            s[off], s[off + 1], s[off + 2], s[off + 3],
            s[off + 4], s[off + 5], s[off + 6], s[off + 7],
        ) == x,
{
    lemma_u64_round(x);
    assert forall|k: int| 0 <= k < 8 implies s[off + k] == u64_be(x)[k] by {
        assert(s.subrange(off, off + 8)[k] == s[off + k]);
    }
}

/// Appends the big-endian bytes of `x`.
pub fn push_u64(out: &mut Vec<u8>, x: u64)
    ensures
        final(out)@ == old(out)@ + u64_be(x),
{
    out.push((x >> 56) as u8);
    out.push((x >> 48) as u8);
    out.push((x >> 40) as u8);
    out.push((x >> 32) as u8);
    out.push((x >> 24) as u8);
    out.push((x >> 16) as u8);
    out.push((x >> 8) as u8);
    out.push(x as u8);
    proof {
        assert(out@ =~= old(out)@ + u64_be(x));
    }
}

/// Appends all of `bytes`.
pub fn push_bytes(out: &mut Vec<u8>, bytes: &Vec<u8>)
    ensures
        final(out)@ == old(out)@ + bytes@,
{
    let ghost pre = out@;
    let mut j: usize = 0;
    while j < bytes.len()
        invariant
            j <= bytes@.len(),
            out@ == pre + bytes@.subrange(0, j as int),
        decreases bytes@.len() - j,
    {
        out.push(bytes[j]);
        proof {
            assert(bytes@.subrange(0, j + 1 as int)
                =~= bytes@.subrange(0, j as int).push(bytes@[j as int]));
        }
        j = j + 1;
    }
    proof {
        assert(bytes@.subrange(0, bytes@.len() as int) =~= bytes@);
    }
}

/// Reads the big-endian 64-bit integer at offset `i`.
pub fn read_u64(s: &Vec<u8>, i: usize) -> (r: u64)
    requires
        i + 8 <= s@.len(),
    ensures
        r == u64_from8(
            s@[i as int], s@[i as int + 1], s@[i as int + 2], s@[i as int + 3],
            s@[i as int + 4], s@[i as int + 5], s@[i as int + 6], s@[i as int + 7],
        ),
{
    // The length call puts the vector's usize bound in scope for the index
    // arithmetic below.
    let _n: usize = s.len();
    ((s[i] as u64) << 56) | ((s[i + 1] as u64) << 48) | ((s[i + 2] as u64) << 40)
        | ((s[i + 3] as u64) << 32) | ((s[i + 4] as u64) << 24) | ((s[i + 5] as u64) << 16)
        | ((s[i + 6] as u64) << 8) | (s[i + 7] as u64)
}

/// Copies `s[from..to]` into a fresh vector.
pub fn copy_range(s: &Vec<u8>, from: usize, to: usize) -> (r: Vec<u8>)
    requires
        from <= to,
        to <= s@.len(),
    ensures
        r@ == s@.subrange(from as int, to as int),
{
    let mut out: Vec<u8> = Vec::new();
    let mut j: usize = from;
    while j < to
        invariant
            from <= j <= to,
            to <= s@.len(),
            out@ == s@.subrange(from as int, j as int),
        decreases to - j,
    {
        out.push(s[j]);
        proof {
            assert(s@.subrange(from as int, j + 1 as int)
                =~= s@.subrange(from as int, j as int).push(s@[j as int]));
        }
        j = j + 1;
    }
    out
}

/// One external call attempt: the consensus-visible record the executor
/// accepts.
#[derive(Clone, Debug, PartialEq, Eq)]
pub struct Message {
    /// Protocol version of the message format.
    pub version: u64,
    /// Address of the sending actor.
    pub from: u64,
    /// Address of the receiving actor.
    pub to: u64,
    /// The sender's nonce: must equal the sender's expected next value.
    pub sequence: u64,
    /// Value transferred from sender to receiver.
    pub value: u128,
    /// Method number invoked on the receiver.
    pub method: u64,
    /// Parameter bytes handed to the invocation.
    pub params: Vec<u8>,
    /// Upper bound on gas this message may consume.
    pub gas_limit: u64,
    /// Maximum price per gas unit the sender will pay.
    pub gas_fee_cap: u64,
    /// Price per gas unit offered to the block producer.
    pub gas_premium: u64,
}

/// The mathematical value of a [`Message`].
pub struct SpecMessage {
    pub version: u64,
    pub from: u64,
    pub to: u64,
    pub sequence: u64,
    pub value: u128,
    pub method: u64,
    pub params: Seq<u8>,
    pub gas_limit: u64,
    pub gas_fee_cap: u64,
    pub gas_premium: u64,
}

impl SpecMessage {
    /// A message whose parameter bytes admit a length prefix.
    pub open spec fn wf(self) -> bool {
        self.params.len() <= 0xffff_ffff_ffff_ffffu64
    }
}

impl View for Message {
    type V = SpecMessage;

    open spec fn view(&self) -> SpecMessage {
        SpecMessage {
            version: self.version,
            from: self.from,
            to: self.to,
            sequence: self.sequence,
            value: self.value,
            method: self.method,
            params: self.params@,
            gas_limit: self.gas_limit,
            gas_fee_cap: self.gas_fee_cap,
            gas_premium: self.gas_premium,
        }
    }
}

/// The unique encoding of a message: ten fixed 64-bit fields, the parameter
/// length, then the parameter bytes.
pub open spec fn spec_encode_message(m: SpecMessage) -> Seq<u8> {
    u64_be(m.version) + u64_be(m.from) + u64_be(m.to) + u64_be(m.sequence)
        + u64_be((m.value >> 64) as u64) + u64_be(m.value as u64) + u64_be(m.method)
        + u64_be(m.gas_limit) + u64_be(m.gas_fee_cap) + u64_be(m.gas_premium)
        + u64_be(m.params.len() as u64) + m.params
}

/// The one message a byte string encodes, if any.
pub open spec fn spec_decode_message(s: Seq<u8>) -> Option<SpecMessage> {
    if s.len() < 88 {
        None
    } else {
        let plen = u64_from8(s[80], s[81], s[82], s[83], s[84], s[85], s[86], s[87]);
        if s.len() != 88 + plen {
            None
        } else {
            Some(SpecMessage {
                version: u64_from8(s[0], s[1], s[2], s[3], s[4], s[5], s[6], s[7]),
                from: u64_from8(s[8], s[9], s[10], s[11], s[12], s[13], s[14], s[15]),
                to: u64_from8(s[16], s[17], s[18], s[19], s[20], s[21], s[22], s[23]),
                sequence: u64_from8(s[24], s[25], s[26], s[27], s[28], s[29], s[30], s[31]),
                value: ((u64_from8(s[32], s[33], s[34], s[35], s[36], s[37], s[38], s[39]) as u128)
                    << 64)
                    | (u64_from8(s[40], s[41], s[42], s[43], s[44], s[45], s[46], s[47]) as u128),
                method: u64_from8(s[48], s[49], s[50], s[51], s[52], s[53], s[54], s[55]),
                gas_limit: u64_from8(s[56], s[57], s[58], s[59], s[60], s[61], s[62], s[63]),
                gas_fee_cap: u64_from8(s[64], s[65], s[66], s[67], s[68], s[69], s[70], s[71]),
                gas_premium: u64_from8(s[72], s[73], s[74], s[75], s[76], s[77], s[78], s[79]),
                params: s.subrange(88, s.len() as int),
            })
        }
    }
}

/// Encodes a message into its unique wire form.
pub fn encode_message(m: &Message) -> (r: Vec<u8>)
    ensures
        r@ == spec_encode_message(m@),
{
    let mut out: Vec<u8> = Vec::new();
    push_u64(&mut out, m.version);
    push_u64(&mut out, m.from);
    push_u64(&mut out, m.to);
    push_u64(&mut out, m.sequence);
    push_u64(&mut out, (m.value >> 64) as u64);
    push_u64(&mut out, m.value as u64);
    push_u64(&mut out, m.method);
    push_u64(&mut out, m.gas_limit);
    push_u64(&mut out, m.gas_fee_cap);
    push_u64(&mut out, m.gas_premium);
    push_u64(&mut out, m.params.len() as u64);
    push_bytes(&mut out, &m.params);
    out
}

/// Decodes the message a byte string encodes; yields `None` exactly on byte
/// strings that encode no message.
pub fn decode_message(bytes: &Vec<u8>) -> (r: Option<Message>)
    ensures
        r is Some <==> spec_decode_message(bytes@) is Some,
        r matches Some(m) ==> spec_decode_message(bytes@) == Some(m@),
{
    if bytes.len() < 88 {
        return None;
    }
    let plen = read_u64(bytes, 80);
    if (bytes.len() as u128) != 88 + (plen as u128) {
        return None;
    }
    let hi = read_u64(bytes, 32);
    let lo = read_u64(bytes, 40);
    let m = Message {
        version: read_u64(bytes, 0),
        from: read_u64(bytes, 8),
        to: read_u64(bytes, 16),
        sequence: read_u64(bytes, 24),
        value: ((hi as u128) << 64) | (lo as u128),
        method: read_u64(bytes, 48),
        gas_limit: read_u64(bytes, 56),
        gas_fee_cap: read_u64(bytes, 64),
        gas_premium: read_u64(bytes, 72),
        params: copy_range(bytes, 88, bytes.len()),
    };
    Some(m)
}

/// Decoding inverts encoding: every well-formed message comes back exactly.
#[verifier::rlimit(100)]
pub proof fn lemma_message_round_trip(m: SpecMessage)
    requires
        m.wf(),
    ensures
        spec_decode_message(spec_encode_message(m)) == Some(m),
{
    let s = spec_encode_message(m);
    assert(s.len() == 88 + m.params.len());
    assert(s.subrange(0, 8) =~= u64_be(m.version));
    lemma_u64_at(s, 0, m.version);
    assert(s.subrange(8, 16) =~= u64_be(m.from));
    lemma_u64_at(s, 8, m.from);
    assert(s.subrange(16, 24) =~= u64_be(m.to));
    lemma_u64_at(s, 16, m.to);
    assert(s.subrange(24, 32) =~= u64_be(m.sequence));
    lemma_u64_at(s, 24, m.sequence);
    assert(s.subrange(32, 40) =~= u64_be((m.value >> 64) as u64));
    lemma_u64_at(s, 32, (m.value >> 64) as u64);
    assert(s.subrange(40, 48) =~= u64_be(m.value as u64));
    lemma_u64_at(s, 40, m.value as u64);
    lemma_u128_split(m.value);
    assert(s.subrange(48, 56) =~= u64_be(m.method));
    lemma_u64_at(s, 48, m.method);
    assert(s.subrange(56, 64) =~= u64_be(m.gas_limit));
    lemma_u64_at(s, 56, m.gas_limit);
    assert(s.subrange(64, 72) =~= u64_be(m.gas_fee_cap));
    lemma_u64_at(s, 64, m.gas_fee_cap);
    assert(s.subrange(72, 80) =~= u64_be(m.gas_premium));
    lemma_u64_at(s, 72, m.gas_premium);
    assert(s.subrange(80, 88) =~= u64_be(m.params.len() as u64));
    lemma_u64_at(s, 80, m.params.len() as u64);
    assert(s.subrange(88, s.len() as int) =~= m.params);
    let d = spec_decode_message(s);
    assert(d is Some);
    assert(d->0.params == m.params);
    assert(d->0 == m);
}

/// The receipt produced exactly once per applied message.
#[derive(Clone, Debug, PartialEq, Eq)]
pub struct ApplyResult {
    /// Zero on success; a defined failure category otherwise.
    pub exit_code: u32,
    /// Bytes returned by the root call.
    pub return_data: Vec<u8>,
    /// Gas consumed by the message; never above its gas limit.
    pub gas_used: u64,
    /// Content identifier of the committed state tree.
    pub state_root: Vec<u8>,
}

/// The mathematical value of an [`ApplyResult`].
pub struct SpecApplyResult {
    pub exit_code: u32,
    pub return_data: Seq<u8>,
    pub gas_used: u64,
    pub state_root: Seq<u8>,
}

impl SpecApplyResult {
    /// A receipt whose byte strings admit length prefixes.
    pub open spec fn wf(self) -> bool {
        self.return_data.len() <= 0xffff_ffff_ffff_ffffu64
            && self.state_root.len() <= 0xffff_ffff_ffff_ffffu64
    }
}

impl View for ApplyResult {
    type V = SpecApplyResult;

    open spec fn view(&self) -> SpecApplyResult {
        SpecApplyResult {
            exit_code: self.exit_code,
            return_data: self.return_data@,
            gas_used: self.gas_used,
            state_root: self.state_root@,
        }
    }
}

/// The unique encoding of a receipt: exit code, gas used, the two byte-string
/// lengths, then the byte strings.
pub open spec fn spec_encode_apply_result(a: SpecApplyResult) -> Seq<u8> {
    u64_be(a.exit_code as u64) + u64_be(a.gas_used) + u64_be(a.return_data.len() as u64)
        + u64_be(a.state_root.len() as u64) + a.return_data + a.state_root
}

/// The one receipt a byte string encodes, if any.
pub open spec fn spec_decode_apply_result(s: Seq<u8>) -> Option<SpecApplyResult> {
    if s.len() < 32 {
        None
    } else {
        let exit = u64_from8(s[0], s[1], s[2], s[3], s[4], s[5], s[6], s[7]);
        let rlen = u64_from8(s[16], s[17], s[18], s[19], s[20], s[21], s[22], s[23]);
        let slen = u64_from8(s[24], s[25], s[26], s[27], s[28], s[29], s[30], s[31]);
        if exit > 0xffff_ffffu64 || s.len() != 32 + rlen + slen {
            None
        } else {
            Some(SpecApplyResult {
                exit_code: exit as u32,
                return_data: s.subrange(32, 32 + rlen),
                gas_used: u64_from8(s[8], s[9], s[10], s[11], s[12], s[13], s[14], s[15]),
                state_root: s.subrange(32 + rlen, s.len() as int),
            })
        }
    }
}

/// Encodes a receipt into its unique wire form.
pub fn encode_apply_result(a: &ApplyResult) -> (r: Vec<u8>)
    ensures
        r@ == spec_encode_apply_result(a@),
{
    let mut out: Vec<u8> = Vec::new();
    push_u64(&mut out, a.exit_code as u64);
    push_u64(&mut out, a.gas_used);
    push_u64(&mut out, a.return_data.len() as u64);
    push_u64(&mut out, a.state_root.len() as u64);
    push_bytes(&mut out, &a.return_data);
    push_bytes(&mut out, &a.state_root);
    out
}

/// Decodes the receipt a byte string encodes; yields `None` exactly on byte
/// strings that encode no receipt.
pub fn decode_apply_result(bytes: &Vec<u8>) -> (r: Option<ApplyResult>)
    ensures
        r is Some <==> spec_decode_apply_result(bytes@) is Some,
        r matches Some(a) ==> spec_decode_apply_result(bytes@) == Some(a@),
{
    if bytes.len() < 32 {
        return None;
    }
    let exit = read_u64(bytes, 0);
    let rlen = read_u64(bytes, 16);
    let slen = read_u64(bytes, 24);
    if exit > 0xffff_ffffu64 {
        return None;
    }
    if (bytes.len() as u128) != 32 + (rlen as u128) + (slen as u128) {
        return None;
    }
    let ret_end: usize = 32 + rlen as usize;
    let a = ApplyResult {
        exit_code: exit as u32,
        return_data: copy_range(bytes, 32, ret_end),
        gas_used: read_u64(bytes, 8),
        state_root: copy_range(bytes, ret_end, bytes.len()),
    };
    Some(a)
}

/// Decoding inverts encoding: every well-formed receipt comes back exactly.
pub proof fn lemma_apply_result_round_trip(a: SpecApplyResult)
    requires
        a.wf(),
    ensures
        spec_decode_apply_result(spec_encode_apply_result(a)) == Some(a),
{
    let s = spec_encode_apply_result(a);
    assert(s.len() == 32 + a.return_data.len() + a.state_root.len());
    assert(s.subrange(0, 8) =~= u64_be(a.exit_code as u64));
    lemma_u64_at(s, 0, a.exit_code as u64);
    assert(s.subrange(8, 16) =~= u64_be(a.gas_used));
    lemma_u64_at(s, 8, a.gas_used);
    assert(s.subrange(16, 24) =~= u64_be(a.return_data.len() as u64));
    lemma_u64_at(s, 16, a.return_data.len() as u64);
    assert(s.subrange(24, 32) =~= u64_be(a.state_root.len() as u64));
    lemma_u64_at(s, 24, a.state_root.len() as u64);
    assert(s.subrange(32, 32 + a.return_data.len() as int) =~= a.return_data);
    assert(s.subrange(32 + a.return_data.len() as int, s.len() as int) =~= a.state_root);
    let d = spec_decode_apply_result(s);
    assert(d is Some);
    assert(d->0 == a);
}

} // verus!
