//! Protobuf wire format: the field layer that the resource decoders read.
use vstd::prelude::*;
use vstd::utf8::*;

verus! {

/// Why a protobuf payload could not be read.
#[derive(Clone, Copy, Debug, PartialEq, Eq, Structural)]
pub enum WireError {
    /// A varint ran past its buffer, past ten bytes, or past 64 bits.
    InvalidVarint,
    /// A field key larger than 32 bits.
    InvalidKey,
    /// A wire type above 5.
    InvalidWireType,
    /// Field number zero.
    InvalidTag,
    /// A group (wire types 3 and 4); no message read here uses them.
    UnsupportedGroup,
    /// A fixed-width or length-delimited value ran past its buffer.
    Truncated,
    /// A known field carried another wire type than its declaration.
    UnexpectedWireType,
    /// A string field that is not UTF-8.
    InvalidUtf8,
}

/// The wire types that carry a value.
#[derive(Clone, Copy, Debug, PartialEq, Eq, Structural)]
pub enum WireType {
    Varint,
    Fixed64,
    Len,
    Fixed32,
}

/// One field as the wire gives it: its number, its wire type, the varint value
/// (or the length of a length-delimited payload), and the payload bytes.
pub ghost struct Field {
    pub num: u64,
    pub wire: WireType,
    pub value: u64,
    pub data: Seq<u8>,
}

/// A field located in a buffer; `lo..hi` is its payload (empty unless length-delimited).
#[derive(Clone, Copy, Debug)]
pub struct FieldSpan {
    pub num: u64,
    pub wire: WireType,
    pub value: u64,
    pub lo: usize,
    pub hi: usize,
}

impl FieldSpan {
    pub open spec fn view_in(self, b: Seq<u8>) -> Field {
        Field { num: self.num, wire: self.wire, value: self.value, data: b.subrange(self.lo as int, self.hi as int) }
    }

    pub open spec fn within(self, lo: int, hi: int) -> bool {
        lo <= self.lo <= self.hi <= hi
    }
}

pub open spec fn tail(b: Seq<u8>, n: int) -> Seq<u8> {
    b.subrange(n, b.len() as int)
}

/// Value and length of the LEB128 digits at the front of `b`, reading at most `k` bytes.
pub open spec fn varint_digits(b: Seq<u8>, k: nat) -> Option<(int, int)>
    decreases k,
{
    if k == 0 || b.len() == 0 {
        None
    } else if b[0] < 128 {
        Some((b[0] as int, 1))
    } else {
        match varint_digits(b.drop_first(), (k - 1) as nat) {
            Some((v, n)) => Some(((b[0] - 128) + 128 * v, n + 1)),
            None => None,
        }
    }
}

/// A varint at the front of `b`: at most ten bytes, and a value that fits in 64 bits.
pub open spec fn varint(b: Seq<u8>) -> Option<(u64, int)> {
    match varint_digits(b, 10) {
        Some((v, n)) => if v <= u64::MAX {
            Some((v as u64, n))
        } else {
            None
        },
        None => None,
    }
}

pub proof fn lemma_varint_digits_len(b: Seq<u8>, k: nat)
    ensures
        varint_digits(b, k) matches Some((v, n)) ==> 1 <= n <= b.len() && n <= k && 0 <= v,
    decreases k,
{
    if k > 0 && b.len() > 0 && b[0] >= 128 {
        lemma_varint_digits_len(b.drop_first(), (k - 1) as nat);
    }
}

/// The field at the front of `b`, and how many bytes it takes.
pub open spec fn next_field(b: Seq<u8>) -> Result<(Field, int), WireError> {
    match varint(b) {
        None => Err(WireError::InvalidVarint),
        Some((key, n)) => {
            let wt = key % 8;
            let num = key / 8;
            let rest = tail(b, n);
            if key > u32::MAX {
                Err(WireError::InvalidKey)
            } else if wt > 5 {
                Err(WireError::InvalidWireType)
            } else if num == 0 {
                Err(WireError::InvalidTag)
            } else if wt == 3 || wt == 4 {
                Err(WireError::UnsupportedGroup)
            } else if wt == 0 {
                match varint(rest) {
                    None => Err(WireError::InvalidVarint),
                    Some((v, m)) => Ok((Field { num, wire: WireType::Varint, value: v, data: Seq::empty() }, n + m)),
                }
            } else if wt == 1 || wt == 5 {
                let w: int = if wt == 1 { 8 } else { 4 };
                if rest.len() < w {
                    Err(WireError::Truncated)
                } else {
                    let wire = if wt == 1 { WireType::Fixed64 } else { WireType::Fixed32 };
                    Ok((Field { num, wire, value: 0, data: Seq::empty() }, n + w))
                }
            } else {
                match varint(rest) {
                    None => Err(WireError::InvalidVarint),
                    Some((len, m)) => if len > rest.len() - m {
                        Err(WireError::Truncated)
                    } else {
                        Ok((Field { num, wire: WireType::Len, value: len, data: rest.subrange(m, m + len) }, n + m + len))
                    },
                }
            }
        },
    }
}

/// The fields of a message, in wire order.
pub open spec fn parse_fields(b: Seq<u8>) -> Result<Seq<Field>, WireError>
    decreases b.len(),
{
    if b.len() == 0 {
        Ok(Seq::empty())
    } else {
        match next_field(b) {
            Err(e) => Err(e),
            Ok((f, n)) => if 0 < n <= b.len() {
                match parse_fields(tail(b, n)) {
                    Err(e) => Err(e),
                    Ok(rest) => Ok(seq![f] + rest),
                }
            } else {
                Err(WireError::Truncated)
            },
        }
    }
}

#[verifier::external_type_specification]
#[verifier::external_body]
pub struct ExDecodeError(prost::DecodeError);

/// Relies on prost::encoding::decode_varint: reads one LEB128 integer of at most
/// ten bytes from the front of `b[pos..hi]`, refusing one past 64 bits or past the
/// buffer; on success it hands back how many bytes of the window are left.
#[verifier::external_body]
fn read_varint(b: &[u8], pos: usize, hi: usize) -> (r: Result<(u64, usize), prost::DecodeError>)
    requires
        pos <= hi <= b.len(),
    ensures
        match varint(b@.subrange(pos as int, hi as int)) {
            Some((v, n)) => r matches Ok((rv, left)) && rv == v && left == hi - pos - n,
            None => r is Err,
        },
{
    let mut rest: &[u8] = &b[pos..hi];
    match prost::encoding::decode_varint(&mut rest) {
        Ok(v) => Ok((v, rest.len())),
        Err(e) => Err(e),
    }
}

/// A varint at `pos`, and the position after it.
fn varint_at(b: &[u8], pos: usize, hi: usize) -> (r: Result<(u64, usize), WireError>)
    requires
        pos <= hi <= b.len(),
    ensures
        match varint(b@.subrange(pos as int, hi as int)) {
            Some((v, n)) => r == Ok::<(u64, usize), WireError>((v, (pos + n) as usize)),
            None => r == Err::<(u64, usize), WireError>(WireError::InvalidVarint),
        },
{
    proof {
        lemma_varint_digits_len(b@.subrange(pos as int, hi as int), 10);
    }
    match read_varint(b, pos, hi) {
        Ok((v, left)) => Ok((v, hi - left)),
        Err(_) => Err(WireError::InvalidVarint),
    }
}

/// Reads the field that starts at `pos` in the window `b[..hi]`.
pub fn read_field(b: &[u8], pos: usize, hi: usize) -> (r: Result<(FieldSpan, usize), WireError>)
    requires
        pos <= hi <= b.len(),
    ensures
        match next_field(b@.subrange(pos as int, hi as int)) {
            Ok((f, n)) => r matches Ok((s, next)) && s.view_in(b@) == f && next == pos + n
                && s.within(pos as int, hi as int) && pos < next <= hi,
            Err(e) => r == Err::<(FieldSpan, usize), WireError>(e),
        },
{
    let ghost w = b@.subrange(pos as int, hi as int);
    let (key, p) = match varint_at(b, pos, hi) {
        Ok(x) => x,
        Err(e) => return Err(e),
    };
    proof {
        lemma_varint_digits_len(w, 10);
        assert(tail(w, p - pos) =~= b@.subrange(p as int, hi as int));
    }
    let wt = key % 8;
    let num = key / 8;
    if key > 0xffff_ffffu64 {
        return Err(WireError::InvalidKey);
    }
    if wt > 5 {
        return Err(WireError::InvalidWireType);
    }
    if num == 0 {
        return Err(WireError::InvalidTag);
    }
    if wt == 3 || wt == 4 {
        return Err(WireError::UnsupportedGroup);
    }
    proof {
        lemma_varint_digits_len(b@.subrange(p as int, hi as int), 10);
    }
    if wt == 0 {
        let (v, q) = match varint_at(b, p, hi) {
            Ok(x) => x,
            Err(e) => return Err(e),
        };
        let s = FieldSpan { num, wire: WireType::Varint, value: v, lo: q, hi: q };
        assert(s.view_in(b@).data =~= Seq::<u8>::empty());
        Ok((s, q))
    } else if wt == 1 || wt == 5 {
        let width: usize = if wt == 1 { 8 } else { 4 };
        if hi - p < width {
            return Err(WireError::Truncated);
        }
        let wire = if wt == 1 { WireType::Fixed64 } else { WireType::Fixed32 };
        let s = FieldSpan { num, wire, value: 0, lo: p + width, hi: p + width };
        assert(s.view_in(b@).data =~= Seq::<u8>::empty());
        Ok((s, p + width))
    } else {
        let (len, q) = match varint_at(b, p, hi) {
            Ok(x) => x,
            Err(e) => return Err(e),
        };
        if len > (hi - q) as u64 {
            return Err(WireError::Truncated);
        }
        let end = q + len as usize;
        let s = FieldSpan { num, wire: WireType::Len, value: len, lo: q, hi: end };
        proof {
            let rest = b@.subrange(p as int, hi as int);
            assert(rest.subrange(q - p, q - p + len) =~= b@.subrange(q as int, end as int));
        }
        Ok((s, end))
    }
}

pub open spec fn spans_view(v: Seq<FieldSpan>, b: Seq<u8>) -> Seq<Field> {
    v.map_values(|s: FieldSpan| s.view_in(b))
}

/// Splits the message in `b[lo..hi]` into its fields.
pub fn read_fields(b: &[u8], lo: usize, hi: usize) -> (r: Result<Vec<FieldSpan>, WireError>)
    requires
        lo <= hi <= b.len(),
    ensures
        match parse_fields(b@.subrange(lo as int, hi as int)) {
            Ok(fs) => r matches Ok(v) && spans_view(v@, b@) == fs
                && forall|i: int| 0 <= i < v.len() ==> (#[trigger] v@[i]).within(lo as int, hi as int),
            Err(e) => r == Err::<Vec<FieldSpan>, WireError>(e),
        },
{
    let mut out: Vec<FieldSpan> = Vec::new();
    let mut pos = lo;
    while pos < hi
        invariant
            lo <= pos <= hi <= b.len(),
            forall|i: int| 0 <= i < out.len() ==> (#[trigger] out@[i]).within(lo as int, hi as int),
            match parse_fields(b@.subrange(pos as int, hi as int)) {
                Ok(rest) => parse_fields(b@.subrange(lo as int, hi as int)) == Ok::<Seq<Field>, WireError>(spans_view(out@, b@) + rest),
                Err(e) => parse_fields(b@.subrange(lo as int, hi as int)) == Err::<Seq<Field>, WireError>(e),
            },
        decreases hi - pos,
    {
        let ghost w = b@.subrange(pos as int, hi as int);
        let (s, next) = match read_field(b, pos, hi) {
            Ok(x) => x,
            Err(e) => return Err(e),
        };
        proof {
            assert(tail(w, next - pos) =~= b@.subrange(next as int, hi as int));
            let ghost old_out = out@;
            assert(spans_view(old_out.push(s), b@) =~= spans_view(old_out, b@).push(s.view_in(b@)));
            match parse_fields(b@.subrange(next as int, hi as int)) {
                Ok(rest) => {
                    assert(spans_view(old_out, b@) + (seq![s.view_in(b@)] + rest)
                        =~= spans_view(old_out, b@).push(s.view_in(b@)) + rest);
                },
                Err(_) => {},
            }
        }
        out.push(s);
        pos = next;
    }
    proof {
        assert(b@.subrange(pos as int, hi as int) =~= Seq::<u8>::empty());
        assert(spans_view(out@, b@) + Seq::<Field>::empty() =~= spans_view(out@, b@));
    }
    Ok(out)
}

/// Folds `step` over the fields from the front; the first failing step ends the fold.
pub open spec fn fold_fields<A>(fs: Seq<Field>, acc: A, step: spec_fn(A, Field) -> Result<A, WireError>) -> Result<A, WireError>
    decreases fs.len(),
{
    if fs.len() == 0 {
        Ok(acc)
    } else {
        match step(acc, fs[0]) {
            Err(e) => Err(e),
            Ok(a) => fold_fields(fs.drop_first(), a, step),
        }
    }
}

/// Decodes the message in `b` on top of `acc`, as protobuf merges a message into an
/// earlier value of the same field.
pub open spec fn merge_message<A>(b: Seq<u8>, acc: A, step: spec_fn(A, Field) -> Result<A, WireError>) -> Result<A, WireError> {
    match parse_fields(b) {
        Err(e) => Err(e),
        Ok(fs) => fold_fields(fs, acc, step),
    }
}

pub proof fn lemma_fold_step<A>(fs: Seq<Field>, i: int, acc: A, step: spec_fn(A, Field) -> Result<A, WireError>)
    requires
        0 <= i < fs.len(),
    ensures
        fold_fields(fs.subrange(i, fs.len() as int), acc, step) == match step(acc, fs[i]) {
            Err(e) => Err(e),
            Ok(a) => fold_fields(fs.subrange(i + 1, fs.len() as int), a, step),
        },
{
    assert(fs.subrange(i, fs.len() as int).drop_first() =~= fs.subrange(i + 1, fs.len() as int));
}

pub proof fn lemma_fold_done<A>(fs: Seq<Field>, acc: A, step: spec_fn(A, Field) -> Result<A, WireError>)
    ensures
        fold_fields(fs.subrange(fs.len() as int, fs.len() as int), acc, step) == Ok::<A, WireError>(acc),
{
    assert(fs.subrange(fs.len() as int, fs.len() as int).len() == 0);
}

/// A `string` field: length-delimited UTF-8.
pub open spec fn string_field(f: Field) -> Result<Seq<char>, WireError> {
    if f.wire != WireType::Len {
        Err(WireError::UnexpectedWireType)
    } else if !valid_utf8(f.data) {
        Err(WireError::InvalidUtf8)
    } else {
        Ok(decode_utf8(f.data))
    }
}

/// A `bytes` field, or the payload of an embedded message.
pub open spec fn bytes_field(f: Field) -> Result<Seq<u8>, WireError> {
    if f.wire != WireType::Len {
        Err(WireError::UnexpectedWireType)
    } else {
        Ok(f.data)
    }
}

/// Relies on std::str::from_utf8: it accepts exactly the UTF-8 byte strings, and the
/// text is what they encode.
#[verifier::external_body]
fn utf8_text(b: &[u8], lo: usize, hi: usize) -> (r: Option<String>)
    requires
        lo <= hi <= b.len(),
    ensures
        r is Some == valid_utf8(b@.subrange(lo as int, hi as int)),
        r matches Some(t) ==> t@ == decode_utf8(b@.subrange(lo as int, hi as int)),
{
    match std::str::from_utf8(&b[lo..hi]) {
        Ok(t) => Some(t.to_string()),
        Err(_) => None,
    }
}

/// Reads a `string` field.
pub fn read_string(b: &[u8], s: FieldSpan) -> (r: Result<String, WireError>)
    requires
        s.lo <= s.hi <= b.len(),
    ensures
        match string_field(s.view_in(b@)) {
            Ok(t) => r matches Ok(x) && x@ == t,
            Err(e) => r matches Err(x) && x == e,
        },
{
    if s.wire != WireType::Len {
        return Err(WireError::UnexpectedWireType);
    }
    match utf8_text(b, s.lo, s.hi) {
        Some(t) => Ok(t),
        None => Err(WireError::InvalidUtf8),
    }
}

/// Reads a `bytes` field.
pub fn read_bytes(b: &[u8], s: FieldSpan) -> (r: Result<Vec<u8>, WireError>)
    requires
        s.lo <= s.hi <= b.len(),
    ensures
        match bytes_field(s.view_in(b@)) {
            Ok(t) => r matches Ok(x) && x@ == t,
            Err(e) => r matches Err(x) && x == e,
        },
{
    if s.wire != WireType::Len {
        return Err(WireError::UnexpectedWireType);
    }
    let mut out: Vec<u8> = Vec::new();
    let mut k = s.lo;
    while k < s.hi
        invariant
            s.lo <= k <= s.hi <= b.len(),
            out@ == b@.subrange(s.lo as int, k as int),
        decreases s.hi - k,
    {
        out.push(b[k]);
        k += 1;
        assert(out@ =~= b@.subrange(s.lo as int, k as int));
    }
    Ok(out)
}

/// A `google.protobuf.Any`: a type URL and the packed message.
pub ghost struct AnyView {
    pub type_url: Seq<char>,
    pub value: Seq<u8>,
}

impl AnyView {
    pub open spec fn empty() -> AnyView {
        AnyView { type_url: Seq::empty(), value: Seq::empty() }
    }
}

#[derive(Debug)]
pub struct AnyValue {
    pub type_url: String,
    pub value: Vec<u8>,
}

impl View for AnyValue {
    type V = AnyView;

    open spec fn view(&self) -> AnyView {
        AnyView { type_url: self.type_url@, value: self.value@ }
    }
}

impl AnyValue {
    pub fn new() -> (r: AnyValue)
        ensures
            r@ == AnyView::empty(),
    {
        let r = AnyValue { type_url: String::new(), value: Vec::new() };
        assert(r@.value =~= Seq::<u8>::empty());
        r
    }
}

/// Fields of `Any`: type_url = 1, value = 2.
pub open spec fn any_step() -> spec_fn(AnyView, Field) -> Result<AnyView, WireError> {
    |a: AnyView, f: Field|
        if f.num == 1 {
            match string_field(f) {
                Ok(t) => Ok(AnyView { type_url: t, value: a.value }),
                Err(e) => Err(e),
            }
        } else if f.num == 2 {
            match bytes_field(f) {
                Ok(d) => Ok(AnyView { type_url: a.type_url, value: d }),
                Err(e) => Err(e),
            }
        } else {
            Ok(a)
        }
}

/// An executable result and the result of a spec function agree: the same error, or
/// a value whose view is the same.
pub open spec fn same_result<T: View>(r: Result<T, WireError>, m: Result<T::V, WireError>) -> bool {
    match m {
        Ok(v) => r matches Ok(x) && x@ == v,
        Err(e) => r == Err::<T, WireError>(e),
    }
}

/// Merges the `Any` in `b[lo..hi]` into `acc`.
pub fn merge_any(b: &[u8], lo: usize, hi: usize, init: AnyValue) -> (r: Result<AnyValue, WireError>)
    requires
        lo <= hi <= b.len(),
    ensures
        same_result(r, merge_message(b@.subrange(lo as int, hi as int), init@, any_step())),
{
    let fields = match read_fields(b, lo, hi) {
        Ok(f) => f,
        Err(e) => return Err(e),
    };
    let ghost fs = spans_view(fields@, b@);
    let ghost a0 = init@;
    let mut acc = init;
    let mut i: usize = 0;
    assert(fs.subrange(0, fs.len() as int) =~= fs);
    while i < fields.len()
        invariant
            i <= fields.len(),
            hi <= b.len(),
            fs == spans_view(fields@, b@),
            forall|j: int| 0 <= j < fields.len() ==> (#[trigger] fields@[j]).within(lo as int, hi as int),
            init@ == a0,
            merge_message(b@.subrange(lo as int, hi as int), a0, any_step()) == fold_fields(fs, a0, any_step()),
            fold_fields(fs, a0, any_step()) == fold_fields(fs.subrange(i as int, fs.len() as int), acc@, any_step()),
        decreases fields.len() - i,
    {
        let s = fields[i];
        proof {
            lemma_fold_step(fs, i as int, acc@, any_step());
            assert(fs[i as int] == s.view_in(b@));
        }
        if s.num == 1 {
            match read_string(b, s) {
                Ok(t) => {
                    acc.type_url = t;
                },
                Err(e) => {
                    return Err(e);
                },
            }
        } else if s.num == 2 {
            match read_bytes(b, s) {
                Ok(d) => {
                    acc.value = d;
                },
                Err(e) => return Err(e),
            }
        }
        i += 1;
    }
    proof {
        lemma_fold_done(fs, acc@, any_step());
        assert(fs.subrange(0, fs.len() as int) =~= fs);
    }
    Ok(acc)
}

/// The LEB128 digits of `v`: seven bits per byte, low group first, the high bit set
/// on every byte but the last.
pub open spec fn varint_bytes(v: nat) -> Seq<u8>
    decreases v,
{
    if v < 128 {
        seq![v as u8]
    } else {
        seq![(v % 128 + 128) as u8] + varint_bytes(v / 128)
    }
}

/// A length-delimited field: its key, the payload's length, the payload.
pub open spec fn len_field(num: nat, data: Seq<u8>) -> Seq<u8> {
    varint_bytes(num * 8 + 2) + varint_bytes(data.len()) + data
}

/// A singular `string` field as proto3 writes it: left out when empty.
pub open spec fn text_field(num: nat, t: Seq<char>) -> Seq<u8> {
    if t.len() == 0 {
        Seq::empty()
    } else {
        len_field(num, encode_utf8(t))
    }
}

/// A `repeated string` field: every element, in order.
pub open spec fn texts_field(num: nat, ts: Seq<Seq<char>>) -> Seq<u8>
    decreases ts.len(),
{
    if ts.len() == 0 {
        Seq::empty()
    } else {
        texts_field(num, ts.drop_last()) + len_field(num, encode_utf8(ts.last()))
    }
}

/// Relies on prost::encoding::encode_varint: appends the LEB128 digits of `v`, low
/// group first.
#[verifier::external_body]
fn push_varint(buf: &mut Vec<u8>, v: u64)
    ensures
        final(buf)@ == old(buf)@ + varint_bytes(v as nat),
{
    prost::encoding::encode_varint(v, buf)
}

fn push_all(buf: &mut Vec<u8>, data: &[u8])
    ensures
        final(buf)@ == old(buf)@ + data@,
{
    let ghost start = buf@;
    let mut i: usize = 0;
    while i < data.len()
        invariant
            i <= data.len(),
            buf@ == start + data@.take(i as int),
        decreases data.len() - i,
    {
        buf.push(data[i]);
        i += 1;
        assert(buf@ =~= start + data@.take(i as int));
    }
    assert(data@.take(i as int) =~= data@);
}

/// Appends a length-delimited field.
pub fn push_len_field(buf: &mut Vec<u8>, num: u64, data: &[u8])
    requires
        0 < num < 0x2000_0000,
    ensures
        final(buf)@ == old(buf)@ + len_field(num as nat, data@),
{
    push_varint(buf, num * 8 + 2);
    push_varint(buf, data.len() as u64);
    push_all(buf, data);
    assert(buf@ =~= old(buf)@ + len_field(num as nat, data@));
}

/// Appends a singular `string` field.
pub fn push_text(buf: &mut Vec<u8>, num: u64, t: &String)
    requires
        0 < num < 0x2000_0000,
    ensures
        final(buf)@ == old(buf)@ + text_field(num as nat, t@),
{
    let s = t.as_str();
    if s.is_empty() {
        assert(buf@ =~= old(buf)@ + text_field(num as nat, t@));
        return;
    }
    push_len_field(buf, num, s.as_bytes());
}

/// Appends a `repeated string` field.
pub fn push_texts(buf: &mut Vec<u8>, num: u64, ts: &Vec<String>)
    requires
        0 < num < 0x2000_0000,
    ensures
        final(buf)@ == old(buf)@ + texts_field(num as nat, ts@.map_values(|t: String| t@)),
{
    let ghost start = buf@;
    let ghost all = ts@.map_values(|t: String| t@);
    let mut i: usize = 0;
    assert(all.take(0) =~= Seq::<Seq<char>>::empty());
    assert(start + Seq::<u8>::empty() =~= start);
    while i < ts.len()
        invariant
            i <= ts.len(),
            0 < num < 0x2000_0000,
            all == ts@.map_values(|t: String| t@),
            buf@ == start + texts_field(num as nat, all.take(i as int)),
        decreases ts.len() - i,
    {
        let ghost before = buf@;
        let s = ts[i].as_str();
        push_len_field(buf, num, s.as_bytes());
        proof {
            let t = all.take(i + 1);
            assert(t.drop_last() =~= all.take(i as int));
            assert(t.last() == ts@[i as int]@);
            assert(buf@ =~= start + texts_field(num as nat, t));
        }
        i += 1;
    }
    assert(all.take(i as int) =~= all);
}

} // verus!
