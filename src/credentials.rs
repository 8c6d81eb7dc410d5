use crate::error::Error;
use crate::text::{chars_of, string_from_chars};
use vstd::prelude::*;
use vstd::utf8::{decode_utf8, encode_utf8, encode_utf8_decode_utf8, encode_utf8_valid_utf8, valid_utf8};

verus! {

/// Relies on std's `String::from_utf8`: it accepts exactly the valid UTF-8
/// byte sequences and gives back the characters they encode.
#[verifier::external_body]
fn utf8_string(b: &[u8]) -> (r: Option<String>)
    ensures
        r is Some <==> valid_utf8(b@),
        r matches Some(s) ==> s@ == decode_utf8(b@),
{
    String::from_utf8(b.to_vec()).ok()
}

/// Unauthenticated identity: TLS material only.
#[derive(Debug, Clone)]
pub struct Nobody {
    pub cert: Vec<u8>,
    pub key: Vec<u8>,
    pub ca: Vec<u8>,
}

/// Device identity bound to a node: TLS material, the node id, and the rune
/// that authorizes its calls.
#[derive(Debug, Clone)]
pub struct Device {
    pub cert: Vec<u8>,
    pub key: Vec<u8>,
    pub ca: Vec<u8>,
    pub node_id: Vec<u8>,
    pub rune: String,
}

/// The mathematical value of a device identity.
pub type DeviceView = (Seq<u8>, Seq<u8>, Seq<u8>, Seq<u8>, Seq<char>);

impl View for Device {
    type V = DeviceView;

    open spec fn view(&self) -> DeviceView {
        (self.cert@, self.key@, self.ca@, self.node_id@, self.rune@)
    }
}

/// An identity: unauthenticated or bound to a device.
#[derive(Debug, Clone)]
pub enum UnifiedCredentials {
    Nobody(Nobody),
    Device(Device),
}

/// The credentials a client holds.
#[derive(Debug, Clone)]
pub struct Credentials {
    pub inner: UnifiedCredentials,
}

/// A length as four big-endian bytes.
pub open spec fn be32(n: nat) -> Seq<u8> {
    seq![(n / 0x1000000 % 256) as u8, (n / 0x10000 % 256) as u8, (n / 0x100 % 256) as u8, (n % 256) as u8]
}

/// The value of four big-endian bytes.
pub open spec fn be32_value(b: Seq<u8>) -> nat {
    (b[0] as nat) * 0x1000000 + (b[1] as nat) * 0x10000 + (b[2] as nat) * 0x100 + (b[3] as nat)
}

/// A field preceded by its length.
pub open spec fn framed(b: Seq<u8>) -> Seq<u8> {
    be32(b.len()) + b
}

/// The byte form of a device identity: cert, key, CA and node id, each
/// framed, then the rune's UTF-8 bytes.
pub open spec fn device_bytes(cert: Seq<u8>, key: Seq<u8>, ca: Seq<u8>, node_id: Seq<u8>, rune: Seq<u8>) -> Seq<u8> {
    framed(cert) + framed(key) + framed(ca) + framed(node_id) + rune
}

/// Whether every framed field of a device fits a four-byte length.
pub open spec fn frames_fit(d: Device) -> bool {
    d.cert@.len() < 0x1_0000_0000 && d.key@.len() < 0x1_0000_0000 && d.ca@.len() < 0x1_0000_0000
        && d.node_id@.len() < 0x1_0000_0000
}

proof fn lemma_be32_round_trip(n: nat)
    requires
        n < 0x1_0000_0000,
    ensures
        be32_value(be32(n)) == n,
{
    let b = be32(n);
    assert(be32_value(b) == n) by (nonlinear_arith)
        requires
            n < 0x1_0000_0000,
            b[0] as nat == n / 0x1000000 % 256,
            b[1] as nat == n / 0x10000 % 256,
            b[2] as nat == n / 0x100 % 256,
            b[3] as nat == n % 256,
    ;
}

fn push_framed(out: &mut Vec<u8>, b: &Vec<u8>)
    requires
        b@.len() < 0x1_0000_0000,
    ensures
        final(out)@ == old(out)@ + framed(b@),
{
    let n = b.len() as u64;
    out.push((n / 0x1000000 % 256) as u8);
    out.push((n / 0x10000 % 256) as u8);
    out.push((n / 0x100 % 256) as u8);
    out.push((n % 256) as u8);
    let mut i: usize = 0;
    let ghost start = out@;
    while i < b.len()
        invariant
            i <= b@.len(),
            out@ == start + b@.subrange(0, i as int),
        decreases b@.len() - i,
    {
        out.push(b[i]);
        assert(b@.subrange(0, i + 1) =~= b@.subrange(0, i as int).push(b@[i as int]));
        i = i + 1;
    }
    assert(b@.subrange(0, b@.len() as int) =~= b@);
    assert(start =~= old(out)@ + be32(b@.len()));
    assert(out@ =~= old(out)@ + framed(b@));
}

/// Reads the framed field at `pos`: its bytes and the position after it.
#[verifier::opaque]
pub open spec fn read_framed(data: Seq<u8>, pos: int) -> Option<(Seq<u8>, int)> {
    if pos + 4 > data.len() {
        None
    } else {
        let n = be32_value(data.subrange(pos, pos + 4));
        if pos + 4 + n > data.len() {
            None
        } else {
            Some((data.subrange(pos + 4, pos + 4 + n), pos + 4 + n))
        }
    }
}

fn take_framed(data: &[u8], pos: usize) -> (r: Option<(Vec<u8>, usize)>)
    requires
        pos <= data@.len(),
    ensures
        r is None <==> read_framed(data@, pos as int) is None,
        r matches Some((b, next)) ==> read_framed(data@, pos as int) == Some((b@, next as int)) && next <= data@.len(),
{
    reveal(read_framed);
    if data.len() - pos < 4 {
        return None;
    }
    let n: u64 = (data[pos] as u64) * 0x1000000 + (data[pos + 1] as u64) * 0x10000
        + (data[pos + 2] as u64) * 0x100 + (data[pos + 3] as u64);
    assert(n == be32_value(data@.subrange(pos as int, pos + 4)));
    if n > (data.len() - pos - 4) as u64 {
        return None;
    }
    let start = pos + 4;
    let end = start + n as usize;
    let mut b: Vec<u8> = Vec::new();
    let mut i: usize = start;
    while i < end
        invariant
            start <= i <= end,
            end <= data@.len(),
            b@ == data@.subrange(start as int, i as int),
        decreases end - i,
    {
        b.push(data[i]);
        assert(data@.subrange(start as int, i + 1) =~= data@.subrange(start as int, i as int).push(data@[i as int]));
        i = i + 1;
    }
    Some((b, end))
}

proof fn lemma_read_framed(prefix: Seq<u8>, b: Seq<u8>, rest: Seq<u8>)
    requires
        b.len() < 0x1_0000_0000,
    ensures
        read_framed(prefix + framed(b) + rest, prefix.len() as int)
            == Some((b, (prefix.len() + 4 + b.len()) as int)),
{
    reveal(read_framed);
    let data = prefix + framed(b) + rest;
    let p = prefix.len() as int;
    assert(data.subrange(p, p + 4) =~= be32(b.len()));
    lemma_be32_round_trip(b.len());
    assert(data.subrange(p + 4, p + 4 + b.len()) =~= b);
}

fn message(s: &str) -> (r: String)
    ensures
        r@ == s@,
{
    string_from_chars(&chars_of(s))
}

fn copy_tail(data: &[u8], start: usize) -> (r: Vec<u8>)
    requires
        start <= data@.len(),
    ensures
        r@ == data@.subrange(start as int, data@.len() as int),
{
    let mut out: Vec<u8> = Vec::new();
    let mut i: usize = start;
    while i < data.len()
        invariant
            start <= i <= data@.len(),
            out@ == data@.subrange(start as int, i as int),
        decreases data@.len() - i,
    {
        out.push(data[i]);
        assert(data@.subrange(start as int, i + 1) =~= data@.subrange(start as int, i as int).push(data@[i as int]));
        i = i + 1;
    }
    out
}

impl Device {
    /// The byte form of this identity (see `device_bytes`).
    pub fn to_bytes(&self) -> (r: Vec<u8>)
        requires
            frames_fit(*self),
        ensures
            r@ == device_bytes(self.cert@, self.key@, self.ca@, self.node_id@, encode_utf8(self.rune@)),
    {
        let mut out: Vec<u8> = Vec::new();
        push_framed(&mut out, &self.cert);
        push_framed(&mut out, &self.key);
        push_framed(&mut out, &self.ca);
        push_framed(&mut out, &self.node_id);
        let rune = self.rune.as_str().as_bytes();
        let ghost head = out@;
        let mut i: usize = 0;
        while i < rune.len()
            invariant
                i <= rune@.len(),
                out@ == head + rune@.subrange(0, i as int),
            decreases rune@.len() - i,
        {
            out.push(rune[i]);
            assert(rune@.subrange(0, i + 1) =~= rune@.subrange(0, i as int).push(rune@[i as int]));
            i = i + 1;
        }
        assert(rune@.subrange(0, rune@.len() as int) =~= rune@);
        assert(out@ =~= device_bytes(self.cert@, self.key@, self.ca@, self.node_id@, rune@));
        out
    }

    /// Reads an identity from its byte form: `Decode` when the framing is
    /// broken or the rune is not UTF-8.
    pub fn from_bytes(data: &[u8]) -> (r: Result<Device, Error>)
        ensures
            r is Err <==> parse_device(data@) is None,
            r is Err ==> r == Err::<Device, Error>(Error::Decode),
            r matches Ok(d) ==> parse_device(data@) == Some(d@),
    {
        proof {
            assert(forall|p: int| #[trigger] read_framed(data@, p) matches Some((b, q)) ==> p <= q <= data@.len()) by {
                reveal(read_framed);
            }
        }
        let (cert, p1) = match take_framed(data, 0) { Some(x) => x, None => { return Err(Error::Decode) } };
        let (key, p2) = match take_framed(data, p1) { Some(x) => x, None => { return Err(Error::Decode) } };
        let (ca, p3) = match take_framed(data, p2) { Some(x) => x, None => { return Err(Error::Decode) } };
        let (node_id, p4) = match take_framed(data, p3) { Some(x) => x, None => { return Err(Error::Decode) } };
        let tail = copy_tail(data, p4);
        let rune = match utf8_string(tail.as_slice()) { Some(s) => s, None => { return Err(Error::Decode) } };
        Ok(Device { cert, key, ca, node_id, rune })
    }
}

/// The identity that a byte form holds, if it is well formed.
pub open spec fn parse_device(data: Seq<u8>) -> Option<DeviceView> {
    match read_framed(data, 0) {
        None => None,
        Some((cert, p1)) => match read_framed(data, p1) {
            None => None,
            Some((key, p2)) => match read_framed(data, p2) {
                None => None,
                Some((ca, p3)) => match read_framed(data, p3) {
                    None => None,
                    Some((node_id, p4)) => {
                        let tail = data.subrange(p4, data.len() as int);
                        if valid_utf8(tail) {
                            Some((cert, key, ca, node_id, decode_utf8(tail)))
                        } else {
                            None
                        }
                    },
                },
            },
        },
    }
}

proof fn lemma_frames(c: Seq<u8>, k: Seq<u8>, a: Seq<u8>, n: Seq<u8>, rune: Seq<u8>)
    requires
        c.len() < 0x1_0000_0000,
        k.len() < 0x1_0000_0000,
        a.len() < 0x1_0000_0000,
        n.len() < 0x1_0000_0000,
    ensures
        ({
            let data = device_bytes(c, k, a, n, rune);
            let p1 = 4 + c.len();
            let p2 = p1 + 4 + k.len();
            let p3 = p2 + 4 + a.len();
            let p4 = p3 + 4 + n.len();
            &&& read_framed(data, 0) == Some((c, p1 as int))
            &&& read_framed(data, p1 as int) == Some((k, p2 as int))
            &&& read_framed(data, p2 as int) == Some((a, p3 as int))
            &&& read_framed(data, p3 as int) == Some((n, p4 as int))
            &&& data.subrange(p4 as int, data.len() as int) == rune
        }),
{
    let data = device_bytes(c, k, a, n, rune);
    let e = Seq::<u8>::empty();
    lemma_read_framed(e, c, framed(k) + framed(a) + framed(n) + rune);
    assert(e + framed(c) + (framed(k) + framed(a) + framed(n) + rune) =~= data);
    lemma_read_framed(framed(c), k, framed(a) + framed(n) + rune);
    assert(framed(c) + framed(k) + (framed(a) + framed(n) + rune) =~= data);
    lemma_read_framed(framed(c) + framed(k), a, framed(n) + rune);
    assert(framed(c) + framed(k) + framed(a) + (framed(n) + rune) =~= data);
    lemma_read_framed(framed(c) + framed(k) + framed(a), n, rune);
    let p4 = (framed(c) + framed(k) + framed(a) + framed(n)).len() as int;
    assert(data.subrange(p4, data.len() as int) =~= rune);
}

/// The byte form of a device identity reads back as the same identity.
pub proof fn lemma_device_bytes_round_trip(d: DeviceView)
    requires
        d.0.len() < 0x1_0000_0000,
        d.1.len() < 0x1_0000_0000,
        d.2.len() < 0x1_0000_0000,
        d.3.len() < 0x1_0000_0000,
    ensures
        parse_device(device_bytes(d.0, d.1, d.2, d.3, encode_utf8(d.4))) == Some(d),
{
    lemma_frames(d.0, d.1, d.2, d.3, encode_utf8(d.4));
    encode_utf8_valid_utf8(d.4);
    encode_utf8_decode_utf8(d.4);
}

} // verus!

verus! {

impl UnifiedCredentials {
    /// `Ok` on an unauthenticated identity, an identity-kind error otherwise.
    pub fn ensure_nobody(&self) -> (r: Result<(), Error>)
        ensures
            r is Ok <==> self is Nobody,
            r matches Err(e) ==> e is IsIdentity,
            r matches Err(Error::IsIdentity(m)) ==> m@ == "credentials are not of type nobody"@,
    {
        match self {
            UnifiedCredentials::Nobody(_) => Ok(()),
            UnifiedCredentials::Device(_) => Err(Error::IsIdentity(message("credentials are not of type nobody"))),
        }
    }

    /// `Ok` on a device identity, an identity-kind error otherwise.
    pub fn ensure_device(&self) -> (r: Result<(), Error>)
        ensures
            r is Ok <==> self is Device,
            r matches Err(e) ==> e is IsIdentity,
            r matches Err(Error::IsIdentity(m)) ==> m@ == "credentials are not of type device"@,
    {
        match self {
            UnifiedCredentials::Device(_) => Ok(()),
            UnifiedCredentials::Nobody(_) => Err(Error::IsIdentity(message("credentials are not of type device"))),
        }
    }

    /// The rune of a device identity; callers check the kind first.
    pub fn rune(&self) -> (r: String)
        requires
            self is Device,
        ensures
            r@ == self->Device_0.rune@,
    {
        match self {
            UnifiedCredentials::Device(d) => d.rune.clone(),
            UnifiedCredentials::Nobody(_) => {
                proof {
                    assert(false);
                }
                String::new()
            },
        }
    }

    /// The node id of a device identity; callers check the kind first.
    pub fn node_id(&self) -> (r: Vec<u8>)
        requires
            self is Device,
        ensures
            r@ == self->Device_0.node_id@,
    {
        match self {
            UnifiedCredentials::Device(d) => copy_tail(d.node_id.as_slice(), 0),
            UnifiedCredentials::Nobody(_) => {
                proof {
                    assert(false);
                }
                Vec::new()
            },
        }
    }
}

/// The answer of an upgrade round trip: the confirmed device credentials, or
/// the failure message that the scheduler or signer gave.
pub type UpgradeOutcome = Result<Device, String>;

impl Credentials {
    /// Fresh unauthenticated credentials without TLS material.
    pub fn new() -> (r: Credentials)
        ensures
            r.inner matches UnifiedCredentials::Nobody(n) && n.cert@.len() == 0 && n.key@.len() == 0 && n.ca@.len() == 0,
    {
        Credentials { inner: UnifiedCredentials::Nobody(Nobody { cert: Vec::new(), key: Vec::new(), ca: Vec::new() }) }
    }

    /// Unauthenticated credentials with the given certificate and key.
    pub fn nobody_with(cert: &[u8], key: &[u8]) -> (r: Credentials)
        ensures
            r.inner matches UnifiedCredentials::Nobody(n) && n.cert@ == cert@ && n.key@ == key@ && n.ca@.len() == 0,
    {
        Credentials { inner: UnifiedCredentials::Nobody(Nobody { cert: copy_tail(cert, 0), key: copy_tail(key, 0), ca: Vec::new() }) }
    }

    /// Device credentials from previously issued parts. The node id is
    /// passed in: this library does not read it out of the certificate.
    pub fn from_parts(cert: &[u8], key: &[u8], rune: &str, node_id: &[u8]) -> (r: Credentials)
        ensures
            r.inner matches UnifiedCredentials::Device(d) && d@ == (cert@, key@, Seq::<u8>::empty(), node_id@, rune@),
    {
        let rune = string_from_chars(&chars_of(rune));
        Credentials {
            inner: UnifiedCredentials::Device(Device { cert: copy_tail(cert, 0), key: copy_tail(key, 0), ca: Vec::new(), node_id: copy_tail(node_id, 0), rune }),
        }
    }

    /// Device credentials from their byte form.
    pub fn from_bytes(data: &[u8]) -> (r: Result<Credentials, Error>)
        ensures
            r is Err <==> parse_device(data@) is None,
            r is Err ==> r == Err::<Credentials, Error>(Error::Decode),
            r matches Ok(c) ==> (c.inner matches UnifiedCredentials::Device(d) && parse_device(data@) == Some(d@)),
    {
        let d = Device::from_bytes(data)?;
        Ok(Credentials { inner: UnifiedCredentials::Device(d) })
    }

    /// The byte form of device credentials; an identity-kind error on
    /// unauthenticated ones.
    pub fn to_bytes(&self) -> (r: Result<Vec<u8>, Error>)
        requires
            self.inner matches UnifiedCredentials::Device(d) ==> frames_fit(d),
        ensures
            r is Ok <==> self.inner is Device,
            r matches Err(e) ==> e is IsIdentity,
            r matches Err(Error::IsIdentity(m)) ==> m@ == "can not convert nobody into bytes"@,
            r matches Ok(b) ==> (self.inner matches UnifiedCredentials::Device(d)
                && b@ == device_bytes(d.cert@, d.key@, d.ca@, d.node_id@, encode_utf8(d.rune@))),
    {
        match &self.inner {
            UnifiedCredentials::Nobody(_) => Err(Error::IsIdentity(message("can not convert nobody into bytes"))),
            UnifiedCredentials::Device(d) => Ok(d.to_bytes()),
        }
    }

    /// `Ok` on device credentials, an identity-kind error otherwise.
    pub fn ensure_device(&self) -> (r: Result<(), Error>)
        ensures
            r is Ok <==> self.inner is Device,
            r matches Err(e) ==> e is IsIdentity,
            r matches Err(Error::IsIdentity(m)) ==> m@ == "credentials are not of type device"@,
    {
        self.inner.ensure_device()
    }

    /// `Ok` on unauthenticated credentials, an identity-kind error otherwise.
    pub fn ensure_nobody(&self) -> (r: Result<(), Error>)
        ensures
            r is Ok <==> self.inner is Nobody,
            r matches Err(e) ==> e is IsIdentity,
            r matches Err(Error::IsIdentity(m)) ==> m@ == "credentials are not of type nobody"@,
    {
        self.inner.ensure_nobody()
    }

    /// The node id of device credentials; an identity-kind error otherwise.
    pub fn node_id(&self) -> (r: Result<Vec<u8>, Error>)
        ensures
            r is Ok <==> self.inner is Device,
            r matches Err(e) ==> e is IsIdentity,
            r matches Ok(n) ==> n@ == self.inner->Device_0.node_id@,
            r matches Err(Error::IsIdentity(m)) ==> m@ == "can not provide node_id from nobody credentials"@,
    {
        match &self.inner {
            UnifiedCredentials::Nobody(_) => Err(Error::IsIdentity(message("can not provide node_id from nobody credentials"))),
            UnifiedCredentials::Device(_) => Ok(self.inner.node_id()),
        }
    }

    /// The rune of device credentials; an identity-kind error otherwise.
    pub fn rune(&self) -> (r: Result<String, Error>)
        ensures
            r is Ok <==> self.inner is Device,
            r matches Err(e) ==> e is IsIdentity,
            r matches Ok(s) ==> s@ == self.inner->Device_0.rune@,
            r matches Err(Error::IsIdentity(m)) ==> m@ == "can not provide rune from nobody credentials"@,
    {
        match &self.inner {
            UnifiedCredentials::Nobody(_) => Err(Error::IsIdentity(message("can not provide rune from nobody credentials"))),
            UnifiedCredentials::Device(_) => Ok(self.inner.rune()),
        }
    }

    /// The same credentials with `ca` as trust anchor; the kind is kept.
    pub fn with_ca(&self, ca: &[u8]) -> (r: Credentials)
        ensures
            match (self.inner, r.inner) {
                (UnifiedCredentials::Nobody(a), UnifiedCredentials::Nobody(b)) => b.cert@ == a.cert@ && b.key@ == a.key@ && b.ca@ == ca@,
                (UnifiedCredentials::Device(a), UnifiedCredentials::Device(b)) => b@ == (a.cert@, a.key@, ca@, a.node_id@, a.rune@),
                _ => false,
            },
    {
        match &self.inner {
            UnifiedCredentials::Nobody(n) => Credentials {
                inner: UnifiedCredentials::Nobody(Nobody { cert: copy_tail(n.cert.as_slice(), 0), key: copy_tail(n.key.as_slice(), 0), ca: copy_tail(ca, 0) }),
            },
            UnifiedCredentials::Device(d) => Credentials {
                inner: UnifiedCredentials::Device(Device {
                    cert: copy_tail(d.cert.as_slice(), 0),
                    key: copy_tail(d.key.as_slice(), 0),
                    ca: copy_tail(ca, 0),
                    node_id: copy_tail(d.node_id.as_slice(), 0),
                    rune: d.rune.clone(),
                }),
            },
        }
    }

    /// The first step of an upgrade: the pending device material to send to
    /// the scheduler. Unauthenticated credentials fail here with an
    /// identity-kind error, before any collaborator is contacted.
    pub fn upgrade_request(&self) -> (r: Result<Device, Error>)
        ensures
            r is Ok <==> self.inner is Device,
            r matches Err(e) ==> e is IsIdentity,
            r matches Ok(d) ==> d@ == self.inner->Device_0@,
            r matches Err(Error::IsIdentity(m)) ==> m@ == "can not upgrade nobody credentials"@,
    {
        match &self.inner {
            UnifiedCredentials::Nobody(_) => Err(Error::IsIdentity(message("can not upgrade nobody credentials"))),
            UnifiedCredentials::Device(d) => Ok(Device {
                cert: copy_tail(d.cert.as_slice(), 0),
                key: copy_tail(d.key.as_slice(), 0),
                ca: copy_tail(d.ca.as_slice(), 0),
                node_id: copy_tail(d.node_id.as_slice(), 0),
                rune: d.rune.clone(),
            }),
        }
    }

    /// Completes an upgrade with the scheduler's answer: the confirmed device
    /// credentials, or the failure passed on verbatim. Unauthenticated
    /// credentials fail with an identity-kind error whatever the answer; on
    /// any error `self` is left as it is.
    pub fn upgrade(&self, outcome: UpgradeOutcome) -> (r: Result<Credentials, Error>)
        ensures
            self.inner is Nobody ==> (r matches Err(Error::IsIdentity(m)) && m@ == "can not upgrade nobody credentials"@),
            self.inner is Device ==> match outcome {
                Ok(d) => r matches Ok(c) && c.inner matches UnifiedCredentials::Device(n) && n@ == d@,
                Err(m) => r matches Err(e) && e == Error::Protocol(m),
            },
    {
        match &self.inner {
            UnifiedCredentials::Nobody(_) => Err(Error::IsIdentity(message("can not upgrade nobody credentials"))),
            UnifiedCredentials::Device(_) => match outcome {
                Ok(d) => Ok(Credentials { inner: UnifiedCredentials::Device(d) }),
                Err(m) => Err(Error::Protocol(m)),
            },
        }
    }
}

} // verus!
