//! Translation of a version-neutral request head into the header set that a
//! multiplexed stream carries.

use vstd::prelude::*;

verus! {

/// One header field: a lower-case name and its raw value bytes.
pub struct Header {
    pub name: String,
    pub value: Vec<u8>,
}

impl View for Header {
    type V = (Seq<char>, Seq<u8>);

    open spec fn view(&self) -> (Seq<char>, Seq<u8>) {
        (self.name@, self.value@)
    }
}

/// What the body tells about its own length.
#[derive(Clone, Copy, Debug, PartialEq, Eq, Structural)]
pub enum BodySize {
    NoBody,
    Empty,
    Sized(u64),
    Stream,
}

/// The generic request head: method, target and headers.
pub struct RequestHead {
    pub method: String,
    pub uri: String,
    pub headers: Vec<Header>,
}

/// The request as it is handed to the multiplexed connection.
pub struct OutgoingRequest {
    pub method: String,
    pub uri: String,
    pub headers: Vec<Header>,
    /// No body phase follows the headers.
    pub eof: bool,
}

pub open spec fn fields(hs: Seq<Header>) -> Seq<(Seq<char>, Seq<u8>)> {
    hs.map_values(|h: Header| h@)
}

pub open spec fn connection_name() -> Seq<char> {
    "connection"@
}

pub open spec fn transfer_encoding_name() -> Seq<char> {
    "transfer-encoding"@
}

pub open spec fn content_length_name() -> Seq<char> {
    "content-length"@
}

/// The decimal ASCII rendering of `n`, without leading zeros.
pub open spec fn decimal(n: nat) -> Seq<u8>
    decreases n,
{
    if n < 10 {
        seq![(48 + n) as u8]
    } else {
        decimal(n / 10).push((48 + n % 10) as u8)
    }
}

/// The number that a string of ASCII digits denotes.
pub open spec fn parse_decimal(s: Seq<u8>) -> nat
    decreases s.len(),
{
    if s.len() == 0 {
        0
    } else {
        parse_decimal(s.drop_last()) * 10 + (s.last() - 48) as nat
    }
}

pub open spec fn is_digits(s: Seq<u8>) -> bool {
    s.len() > 0 && forall|i: int| 0 <= i < s.len() ==> 48 <= #[trigger] s[i] <= 57
}

/// A caller-supplied `Content-Length` is dropped unless the body streams.
pub open spec fn skips_length(size: BodySize) -> bool {
    !(size is Stream)
}

/// The request has no body phase.
pub open spec fn is_eof(size: BodySize) -> bool {
    match size {
        BodySize::NoBody | BodySize::Empty => true,
        BodySize::Sized(n) => n == 0,
        BodySize::Stream => false,
    }
}

pub open spec fn has_name(fs: Seq<(Seq<char>, Seq<u8>)>, n: Seq<char>) -> bool {
    exists|i: int| 0 <= i < fs.len() && (#[trigger] fs[i]).0 == n
}

/// A field survives the merge: it is not a connection-level field, not a
/// length that is skipped, and not shadowed by a field of `shadow`.
pub open spec fn keeps(
    f: (Seq<char>, Seq<u8>),
    shadow: Seq<(Seq<char>, Seq<u8>)>,
    skip_len: bool,
) -> bool {
    &&& f.0 != connection_name()
    &&& f.0 != transfer_encoding_name()
    &&& !(skip_len && f.0 == content_length_name())
    &&& !has_name(shadow, f.0)
}

/// The fields of `fs` that survive, in their order.
pub open spec fn retained(
    fs: Seq<(Seq<char>, Seq<u8>)>,
    shadow: Seq<(Seq<char>, Seq<u8>)>,
    skip_len: bool,
) -> Seq<(Seq<char>, Seq<u8>)>
    decreases fs.len(),
{
    if fs.len() == 0 {
        seq![]
    } else {
        let r = retained(fs.drop_last(), shadow, skip_len);
        if keeps(fs.last(), shadow, skip_len) {
            r.push(fs.last())
        } else {
            r
        }
    }
}

/// The length field that this layer synthesises.
pub open spec fn length_fields(size: BodySize) -> Seq<(Seq<char>, Seq<u8>)> {
    match size {
        BodySize::Empty => seq![(content_length_name(), decimal(0))],
        BodySize::Sized(n) => seq![(content_length_name(), decimal(n as nat))],
        _ => seq![],
    }
}

/// The complete outgoing header set: the synthesised length, then the head's
/// fields not overridden by the overlay, then the overlay's fields.
pub open spec fn outgoing_fields(
    head: Seq<(Seq<char>, Seq<u8>)>,
    overlay: Seq<(Seq<char>, Seq<u8>)>,
    size: BodySize,
) -> Seq<(Seq<char>, Seq<u8>)> {
    length_fields(size) + retained(head, overlay, skips_length(size)) + retained(
        overlay,
        seq![],
        skips_length(size),
    )
}

pub open spec fn overlay_fields(overlay: Option<Vec<Header>>) -> Seq<(Seq<char>, Seq<u8>)> {
    match overlay {
        Some(v) => fields(v@),
        None => seq![],
    }
}

/// Relies on itoa::Buffer::format: the decimal rendering of an integer.
#[verifier::external_body]
fn format_decimal(n: u64) -> (r: Vec<u8>)
    ensures
        r@ == decimal(n as nat),
{
    let mut buf = itoa::Buffer::new();
    buf.format(n).as_bytes().to_vec()
}

fn copy_header(h: &Header) -> (r: Header)
    ensures
        r@ == h@,
{
    Header { name: h.name.clone(), value: h.value.clone() }
}

fn contains_name(fs: &Vec<Header>, name: &String) -> (r: bool)
    ensures
        r == has_name(fields(fs@), name@),
{
    let mut i: usize = 0;
    while i < fs.len()
        invariant
            i <= fs.len(),
            forall|j: int| 0 <= j < i ==> fs@[j].name@ != name@,
        decreases fs.len() - i,
    {
        if fs[i].name == *name {
            assert(fields(fs@)[i as int].0 == name@);
            return true;
        }
        i = i + 1;
    }
    assert forall|j: int| 0 <= j < fields(fs@).len() implies (#[trigger] fields(fs@)[j]).0 != name@ by {
        assert(fields(fs@)[j] == fs@[j]@);
    }
    false
}

/// Appends to `out` the fields of `src` that survive the merge.
fn append_retained(
    out: &mut Vec<Header>,
    src: &Vec<Header>,
    shadow: &Vec<Header>,
    skip_len: bool,
)
    ensures
        fields(final(out)@) == fields(old(out)@) + retained(fields(src@), fields(shadow@), skip_len),
{
    let connection = "connection".to_owned();
    let transfer_encoding = "transfer-encoding".to_owned();
    let content_length = "content-length".to_owned();
    proof {
        reveal_strlit("connection");
        reveal_strlit("transfer-encoding");
        reveal_strlit("content-length");
    }
    let ghost start = fields(out@);
    let mut i: usize = 0;
    while i < src.len()
        invariant
            i <= src.len(),
            connection@ == connection_name(),
            transfer_encoding@ == transfer_encoding_name(),
            content_length@ == content_length_name(),
            fields(out@) == start + retained(fields(src@).take(i as int), fields(shadow@), skip_len),
        decreases src.len() - i,
    {
        let ghost fs = fields(src@);
        assert(fs.take(i + 1).drop_last() =~= fs.take(i as int));
        assert(fs.take(i + 1).last() == src@[i as int]@);
        let h = &src[i];
        let keep = !(h.name == connection) && !(h.name == transfer_encoding) && !(skip_len
            && h.name == content_length) && !contains_name(shadow, &h.name);
        if keep {
            let c = copy_header(h);
            let ghost before = out@;
            out.push(c);
            assert(fields(out@) =~= fields(before).push(c@));
        }
        i = i + 1;
    }
    assert(fields(src@).take(src.len() as int) =~= fields(src@));
}

/// Builds the request that is sent on a new stream: method and target are
/// kept, the header set is `outgoing_fields`, and `eof` says that no body
/// phase follows.
pub fn translate_request(
    head: &RequestHead,
    overlay: &Option<Vec<Header>>,
    size: BodySize,
) -> (r: OutgoingRequest)
    ensures
        r.method@ == head.method@,
        r.uri@ == head.uri@,
        fields(r.headers@) == outgoing_fields(fields(head.headers@), overlay_fields(*overlay), size),
        r.eof == is_eof(size),
{
    let eof = match size {
        BodySize::NoBody | BodySize::Empty => true,
        BodySize::Sized(n) => n == 0,
        BodySize::Stream => false,
    };
    proof {
        reveal_strlit("content-length");
    }
    let skip_len = match size {
        BodySize::Stream => false,
        _ => true,
    };
    let mut headers: Vec<Header> = Vec::new();
    match size {
        BodySize::Empty => {
            let zero = vec![48u8];
            assert(zero@ =~= decimal(0));
            headers.push(Header { name: "content-length".to_owned(), value: zero });
        },
        BodySize::Sized(n) => {
            headers.push(Header { name: "content-length".to_owned(), value: format_decimal(n) });
        },
        _ => {},
    }
    proof {
        assert(fields(headers@) =~= length_fields(size));
    }
    let no_overlay: Vec<Header> = Vec::new();
    match overlay {
        Some(extra) => {
            append_retained(&mut headers, &head.headers, extra, skip_len);
            append_retained(&mut headers, extra, &no_overlay, skip_len);
        },
        None => {
            append_retained(&mut headers, &head.headers, &no_overlay, skip_len);
        },
    }
    proof {
        assert(fields(no_overlay@) =~= seq![]);
        assert(retained(seq![], seq![], skip_len) =~= seq![]);
        assert(fields(headers@) =~= outgoing_fields(
            fields(head.headers@),
            overlay_fields(*overlay),
            size,
        ));
    }
    OutgoingRequest { method: head.method.clone(), uri: head.uri.clone(), headers, eof }
}

/// Every field that survives the merge satisfies `keeps`.
pub proof fn lemma_retained_kept(
    fs: Seq<(Seq<char>, Seq<u8>)>,
    shadow: Seq<(Seq<char>, Seq<u8>)>,
    skip_len: bool,
)
    ensures
        forall|k: int|
            0 <= k < retained(fs, shadow, skip_len).len() ==> keeps(
                #[trigger] retained(fs, shadow, skip_len)[k],
                shadow,
                skip_len,
            ),
    decreases fs.len(),
{
    if fs.len() > 0 {
        lemma_retained_kept(fs.drop_last(), shadow, skip_len);
        let r0 = retained(fs.drop_last(), shadow, skip_len);
        let r = retained(fs, shadow, skip_len);
        assert forall|k: int| 0 <= k < r.len() implies keeps(#[trigger] r[k], shadow, skip_len) by {
            if k < r0.len() {
                assert(r[k] == r0[k]);
            }
        }
    }
}

/// Reading back the decimal rendering of `n` gives `n`.
pub proof fn lemma_decimal_round_trip(n: nat)
    ensures
        parse_decimal(decimal(n)) == n,
        is_digits(decimal(n)),
    decreases n,
{
    if n >= 10 {
        lemma_decimal_round_trip(n / 10);
        let d = decimal(n);
        assert(d.drop_last() =~= decimal(n / 10));
        assert(d.last() == (48 + n % 10) as u8);
        assert((d.last() - 48) as nat == n % 10);
        assert(parse_decimal(d) == parse_decimal(d.drop_last()) * 10 + (d.last() - 48) as nat);
        assert(n == (n / 10) * 10 + n % 10);
        assert forall|i: int| 0 <= i < d.len() implies 48 <= #[trigger] d[i] <= 57 by {
            if i < d.len() - 1 {
                assert(d[i] == decimal(n / 10)[i]);
            }
        }
    } else {
        assert(decimal(n).drop_last() =~= seq![]);
        assert(parse_decimal(decimal(n)) == parse_decimal(decimal(n).drop_last()) * 10 + (
        decimal(n).last() - 48) as nat);
    }
}

/// The header set sent on a stream never holds `Connection` or
/// `Transfer-Encoding`, whatever the head, the overlay and the body size.
pub proof fn lemma_no_connection_fields(
    head: Seq<(Seq<char>, Seq<u8>)>,
    overlay: Seq<(Seq<char>, Seq<u8>)>,
    size: BodySize,
)
    ensures
        !has_name(outgoing_fields(head, overlay, size), connection_name()),
        !has_name(outgoing_fields(head, overlay, size), transfer_encoding_name()),
{
    reveal_strlit("connection");
    reveal_strlit("transfer-encoding");
    reveal_strlit("content-length");
    let skip = skips_length(size);
    lemma_retained_kept(head, overlay, skip);
    lemma_retained_kept(overlay, seq![], skip);
    let out = outgoing_fields(head, overlay, size);
    let l = length_fields(size);
    let a = retained(head, overlay, skip);
    let b = retained(overlay, seq![], skip);
    assert(content_length_name() != connection_name()) by {
        assert(content_length_name().len() != connection_name().len());
    }
    assert(content_length_name() != transfer_encoding_name()) by {
        assert(content_length_name().len() != transfer_encoding_name().len());
    }
    assert forall|i: int| 0 <= i < out.len() implies (#[trigger] out[i]).0 != connection_name()
        && out[i].0 != transfer_encoding_name() by {
        if i < l.len() {
            assert(out[i] == l[i]);
        } else if i < l.len() + a.len() {
            assert(out[i] == a[i - l.len()]);
        } else {
            assert(out[i] == b[i - l.len() - a.len()]);
        }
    }
}

/// `Content-Length` is sent exactly when the body size is known and fixed
/// (`Empty` or `Sized`), and then every such field reads back as that size.
/// A streamed body whose head or overlay already carries a length keeps it,
/// so such inputs are left out.
pub proof fn lemma_content_length(
    head: Seq<(Seq<char>, Seq<u8>)>,
    overlay: Seq<(Seq<char>, Seq<u8>)>,
    size: BodySize,
)
    requires
        size is Stream ==> !has_name(head, content_length_name()) && !has_name(
            overlay,
            content_length_name(),
        ),
    ensures
        has_name(outgoing_fields(head, overlay, size), content_length_name()) <==> (
        size is Empty || size is Sized),
        forall|i: int|
            0 <= i < outgoing_fields(head, overlay, size).len() && (#[trigger] outgoing_fields(
                head,
                overlay,
                size,
            )[i]).0 == content_length_name() ==> parse_decimal(
                outgoing_fields(head, overlay, size)[i].1,
            ) == match size {
                BodySize::Sized(n) => n as nat,
                _ => 0,
            },
{
    let skip = skips_length(size);
    lemma_retained_kept(head, overlay, skip);
    lemma_retained_kept(overlay, seq![], skip);
    lemma_decimal_round_trip(0);
    if let BodySize::Sized(n) = size {
        lemma_decimal_round_trip(n as nat);
    }
    let out = outgoing_fields(head, overlay, size);
    let l = length_fields(size);
    let a = retained(head, overlay, skip);
    let b = retained(overlay, seq![], skip);
    if size is Stream {
        lemma_retained_subset(head, overlay, skip);
        lemma_retained_subset(overlay, seq![], skip);
    }
    assert forall|i: int| 0 <= i < out.len() && (#[trigger] out[i]).0 == content_length_name()
        implies i == 0 && l.len() == 1 by {
        if i < l.len() {
            assert(out[i] == l[i]);
        } else if i < l.len() + a.len() {
            assert(out[i] == a[i - l.len()]);
            if size is Stream {
                assert(has_name(head, content_length_name()));
            }
        } else {
            assert(out[i] == b[i - l.len() - a.len()]);
            if size is Stream {
                assert(has_name(overlay, content_length_name()));
            }
        }
    }
    if size is Empty || size is Sized {
        assert(out[0] == l[0]);
    }
}

/// Every field that survives the merge is a field of the source.
pub proof fn lemma_retained_subset(
    fs: Seq<(Seq<char>, Seq<u8>)>,
    shadow: Seq<(Seq<char>, Seq<u8>)>,
    skip_len: bool,
)
    ensures
        forall|k: int|
            0 <= k < retained(fs, shadow, skip_len).len() ==> fs.contains(
                #[trigger] retained(fs, shadow, skip_len)[k],
            ),
    decreases fs.len(),
{
    if fs.len() > 0 {
        lemma_retained_subset(fs.drop_last(), shadow, skip_len);
        let r = retained(fs, shadow, skip_len);
        assert forall|k: int| 0 <= k < r.len() implies fs.contains(#[trigger] r[k]) by {
            let r0 = retained(fs.drop_last(), shadow, skip_len);
            if k < r0.len() {
                let j = choose|j: int| 0 <= j < fs.drop_last().len() && fs.drop_last()[j] == r0[k];
                assert(fs[j] == r0[k]);
            } else {
                assert(fs[fs.len() - 1] == r[k]);
            }
        }
    }
}

} // verus!
