use vstd::prelude::*;

verus! {

/// The largest JWT or raw token a login packet may carry (2MB).
pub const MAX_TOKEN_SIZE: usize = 2000 * 1024;

/// The largest number of bytes of a variable-length unsigned integer.
pub const VAR_UINT_MAX_SIZE: usize = 5;

/// Why a login packet could not be read.
#[derive(Debug, Clone, Copy, PartialEq, Eq, Structural)]
pub enum LoginReadError {
    /// The packet ended before a field was complete; reading can go on once
    /// the input holds `needed` bytes.
    UnexpectedEof { needed: usize },
    /// The connection-request length did not end within five bytes.
    VarUIntTooLarge,
    /// "JWT length exceeds limit"
    JwtTooLong,
    /// "Raw token length exceeds limit"
    RawTokenTooLong,
}

/// The Bedrock login packet: the client's protocol version and its
/// connection request, a JWT chain and a raw token.
pub struct SLogin {
    pub protocol_version: i32,
    pub jwt: Vec<u8>,
    pub raw_token: Vec<u8>,
}

/// What a login packet holds.
pub ghost struct LoginSpec {
    pub protocol_version: i32,
    pub jwt: Seq<u8>,
    pub raw_token: Seq<u8>,
}

impl View for SLogin {
    type V = LoginSpec;

    open spec fn view(&self) -> LoginSpec {
        LoginSpec { protocol_version: self.protocol_version, jwt: self.jwt@, raw_token: self.raw_token@ }
    }
}

/// The big-endian `i32` in the four bytes at `at`.
pub open spec fn be_i32_at(b: Seq<u8>, at: int) -> i32 {
    (b[at] * 0x100_0000 + b[at + 1] * 0x1_0000 + b[at + 2] * 0x100 + b[at + 3]) as u32 as i32
}

/// The little-endian `u32` in the four bytes at `at`.
pub open spec fn le_u32_at(b: Seq<u8>, at: int) -> u32 {
    (b[at] + b[at + 1] * 0x100 + b[at + 2] * 0x1_0000 + b[at + 3] * 0x100_0000) as u32
}

/// Where reading a login packet stopped: the error, and how many bytes had
/// been consumed from the input by then.
pub type LoginStop = (LoginReadError, usize);

/// The input ended: reading can go on once it holds `needed` bytes; all of
/// it was consumed.
pub open spec fn eof_at(b: Seq<u8>, needed: int) -> (LoginReadError, int) {
    (LoginReadError::UnexpectedEof { needed: needed as usize }, b.len() as int)
}

/// The length of the variable-length unsigned integer at `at`, counting from
/// its `i`-th byte: it ends at the first byte below 0x80, within five bytes.
/// Its bytes are read one at a time.
pub open spec fn var_uint_len_from(b: Seq<u8>, at: int, i: nat) -> Result<
    nat,
    (LoginReadError, int),
>
    decreases VAR_UINT_MAX_SIZE - i,
{
    if i >= VAR_UINT_MAX_SIZE {
        Err((LoginReadError::VarUIntTooLarge, at + VAR_UINT_MAX_SIZE))
    } else if at + i >= b.len() {
        Err(eof_at(b, at + i + 1))
    } else if b[at + i] < 0x80 {
        Ok(i + 1)
    } else {
        var_uint_len_from(b, at, i + 1)
    }
}

/// A length-prefixed token at `at`: a little-endian `u32` length of at most
/// [`MAX_TOKEN_SIZE`], then that many bytes; with the position after it. A
/// length above the limit stops reading right after the length.
pub open spec fn token_at(b: Seq<u8>, at: int, too_long: LoginReadError) -> Result<
    (Seq<u8>, int),
    (LoginReadError, int),
> {
    if at + 4 > b.len() {
        Err(eof_at(b, at + 4))
    } else {
        let n = le_u32_at(b, at);
        if n > MAX_TOKEN_SIZE {
            Err((too_long, at + 4))
        } else if at + 4 + n > b.len() {
            Err(eof_at(b, at + 4 + n))
        } else {
            Ok((b.subrange(at + 4, at + 4 + n), at + 4 + n))
        }
    }
}

/// The login packet that `b` starts with: a big-endian `i32` protocol version,
/// a variable-length unsigned integer (the request length, not used), then the
/// JWT and the raw token, each as a [`token_at`]; with the number of bytes it
/// takes. Or where reading stopped.
pub open spec fn spec_read_login(b: Seq<u8>) -> Result<(LoginSpec, int), (LoginReadError, int)> {
    if b.len() < 4 {
        Err(eof_at(b, 4))
    } else {
        match var_uint_len_from(b, 4, 0) {
            Err(e) => Err(e),
            Ok(n) => match token_at(b, 4 + n as int, LoginReadError::JwtTooLong) {
                Err(e) => Err(e),
                Ok((jwt, next)) => match token_at(b, next, LoginReadError::RawTokenTooLong) {
                    Err(e) => Err(e),
                    Ok((raw_token, end)) => Ok(
                        (LoginSpec { protocol_version: be_i32_at(b, 0), jwt, raw_token }, end),
                    ),
                },
            },
        }
    }
}

/// Skips the variable-length unsigned integer at `at`; gives the position
/// after it.
fn skip_var_uint(b: &[u8], at: usize) -> (r: Result<usize, LoginStop>)
    requires
        at <= b@.len() <= isize::MAX,
    ensures
        match r {
            Ok(next) => var_uint_len_from(b@, at as int, 0) == Ok::<nat, (LoginReadError, int)>(
                (next - at) as nat,
            ) && at < next <= b@.len(),
            Err((e, c)) => var_uint_len_from(b@, at as int, 0) == Err::<nat, (LoginReadError, int)>(
                (e, c as int),
            ),
        },
{
    let mut i: usize = 0;
    while i < VAR_UINT_MAX_SIZE
        invariant
            i <= VAR_UINT_MAX_SIZE,
            at <= b@.len() <= isize::MAX,
            var_uint_len_from(b@, at as int, 0) == var_uint_len_from(b@, at as int, i as nat),
        decreases VAR_UINT_MAX_SIZE - i,
    {
        if i >= b.len() - at {
            return Err((LoginReadError::UnexpectedEof { needed: at + i + 1 }, b.len()));
        }
        let byte = b[at + i];
        if byte & 0x80 == 0 {
            assert(byte & 0x80 == 0 ==> byte < 0x80) by (bit_vector);
            return Ok(at + i + 1);
        }
        assert(byte & 0x80 != 0 ==> byte >= 0x80) by (bit_vector);
        i = i + 1;
    }
    Err((LoginReadError::VarUIntTooLarge, at + VAR_UINT_MAX_SIZE))
}

/// The bytes `b[from..to]` as a vector.
fn copy_range(b: &[u8], from: usize, to: usize) -> (v: Vec<u8>)
    requires
        from <= to <= b@.len(),
    ensures
        v@ == b@.subrange(from as int, to as int),
{
    let mut v: Vec<u8> = Vec::new();
    let mut i = from;
    while i < to
        invariant
            from <= i <= to <= b@.len(),
            v@ == b@.subrange(from as int, i as int),
        decreases to - i,
    {
        v.push(b[i]);
        i = i + 1;
    }
    v
}

/// Reads the length-prefixed token at `at`.
fn read_token(b: &[u8], at: usize, too_long: LoginReadError) -> (r: Result<
    (Vec<u8>, usize),
    LoginStop,
>)
    requires
        at <= b@.len() <= isize::MAX,
    ensures
        match r {
            Ok((v, next)) => token_at(b@, at as int, too_long) == Ok::<
                (Seq<u8>, int),
                (LoginReadError, int),
            >((v@, next as int)),
            Err((e, c)) => token_at(b@, at as int, too_long) == Err::<
                (Seq<u8>, int),
                (LoginReadError, int),
            >((e, c as int)),
        },
{
    if b.len() - at < 4 {
        return Err((LoginReadError::UnexpectedEof { needed: at + 4 }, b.len()));
    }
    let len: u32 = b[at] as u32 + b[at + 1] as u32 * 0x100 + b[at + 2] as u32 * 0x1_0000
        + b[at + 3] as u32 * 0x100_0000;
    if len as usize > MAX_TOKEN_SIZE {
        return Err((too_long, at + 4));
    }
    if b.len() - (at + 4) < len as usize {
        return Err((LoginReadError::UnexpectedEof { needed: at + 4 + len as usize }, b.len()));
    }
    let end = at + 4 + len as usize;
    let v = copy_range(b, at + 4, end);
    Ok((v, end))
}

impl SLogin {
    /// Reads a login packet from the start of `b`: gives the packet and the
    /// number of bytes it takes (bytes after the raw token are left alone),
    /// or the error and the number of bytes consumed when reading stopped. A
    /// slice never holds more than `isize::MAX` bytes.
    pub fn read(b: &[u8]) -> (r: Result<(SLogin, usize), LoginStop>)
        requires
            b@.len() <= isize::MAX,
        ensures
            match r {
                Ok((login, end)) => spec_read_login(b@) == Ok::<
                    (LoginSpec, int),
                    (LoginReadError, int),
                >((login@, end as int)),
                Err((e, consumed)) => spec_read_login(b@) == Err::<
                    (LoginSpec, int),
                    (LoginReadError, int),
                >((e, consumed as int)),
            },
    {
        if b.len() < 4 {
            return Err((LoginReadError::UnexpectedEof { needed: 4 }, b.len()));
        }
        let unsigned: u32 = b[0] as u32 * 0x100_0000 + b[1] as u32 * 0x1_0000 + b[2] as u32
            * 0x100 + b[3] as u32;
        let protocol_version = unsigned as i32;
        let after_length = skip_var_uint(b, 4)?;
        let (jwt, after_jwt) = read_token(b, after_length, LoginReadError::JwtTooLong)?;
        let (raw_token, end) = read_token(b, after_jwt, LoginReadError::RawTokenTooLong)?;
        Ok((SLogin { protocol_version, jwt, raw_token }, end))
    }
}

/// The four little-endian bytes of `n`.
pub open spec fn le_u32_bytes(n: u32) -> Seq<u8> {
    seq![(n & 0xff) as u8, ((n >> 8u32) & 0xff) as u8, ((n >> 16u32) & 0xff) as u8, ((n >> 24u32) & 0xff) as u8]
}

/// The four big-endian bytes of `v`.
pub open spec fn be_i32_bytes(v: i32) -> Seq<u8> {
    let n = v as u32;
    seq![((n >> 24u32) & 0xff) as u8, ((n >> 16u32) & 0xff) as u8, ((n >> 8u32) & 0xff) as u8, (n & 0xff) as u8]
}

/// A variable-length unsigned integer: one to five bytes, each but the last
/// with its high bit set.
pub open spec fn is_var_uint(s: Seq<u8>) -> bool {
    &&& 1 <= s.len() <= VAR_UINT_MAX_SIZE
    &&& forall|i: int| 0 <= i < s.len() - 1 ==> s[i] >= 0x80
    &&& s[s.len() - 1] < 0x80
}

/// The bytes of a login packet with these fields and this request length.
pub open spec fn login_bytes(
    protocol_version: i32,
    request_length: Seq<u8>,
    jwt: Seq<u8>,
    raw_token: Seq<u8>,
) -> Seq<u8> {
    be_i32_bytes(protocol_version) + request_length + le_u32_bytes(jwt.len() as u32) + jwt
        + le_u32_bytes(raw_token.len() as u32) + raw_token
}

proof fn lemma_le_u32_round_trip(b: Seq<u8>, at: int, n: u32)
    requires
        0 <= at,
        at + 4 <= b.len(),
        b.subrange(at, at + 4) == le_u32_bytes(n),
    ensures
        le_u32_at(b, at) == n,
{
    assert(b[at] == le_u32_bytes(n)[0]);
    assert(b[at + 1] == le_u32_bytes(n)[1]);
    assert(b[at + 2] == le_u32_bytes(n)[2]);
    assert(b[at + 3] == le_u32_bytes(n)[3]);
    let b0 = (n & 0xff) as u8;
    let b1 = ((n >> 8u32) & 0xff) as u8;
    let b2 = ((n >> 16u32) & 0xff) as u8;
    let b3 = ((n >> 24u32) & 0xff) as u8;
    assert(b0 + b1 * 0x100 + b2 * 0x1_0000 + b3 * 0x100_0000 == n) by (bit_vector)
        requires
            b0 == (n & 0xff) as u8,
            b1 == ((n >> 8u32) & 0xff) as u8,
            b2 == ((n >> 16u32) & 0xff) as u8,
            b3 == ((n >> 24u32) & 0xff) as u8,
    ;
}

proof fn lemma_be_i32_round_trip(b: Seq<u8>, v: i32)
    requires
        4 <= b.len(),
        b.subrange(0, 4) == be_i32_bytes(v),
    ensures
        be_i32_at(b, 0) == v,
{
    let n = v as u32;
    assert(b[0] == be_i32_bytes(v)[0]);
    assert(b[1] == be_i32_bytes(v)[1]);
    assert(b[2] == be_i32_bytes(v)[2]);
    assert(b[3] == be_i32_bytes(v)[3]);
    let b0 = ((n >> 24u32) & 0xff) as u8;
    let b1 = ((n >> 16u32) & 0xff) as u8;
    let b2 = ((n >> 8u32) & 0xff) as u8;
    let b3 = (n & 0xff) as u8;
    assert(b0 * 0x100_0000 + b1 * 0x1_0000 + b2 * 0x100 + b3 == n) by (bit_vector)
        requires
            b0 == ((n >> 24u32) & 0xff) as u8,
            b1 == ((n >> 16u32) & 0xff) as u8,
            b2 == ((n >> 8u32) & 0xff) as u8,
            b3 == (n & 0xff) as u8,
    ;
    assert((v as u32) as i32 == v) by (bit_vector);
}

proof fn lemma_var_uint_len(b: Seq<u8>, at: int, s: Seq<u8>, i: nat)
    requires
        0 <= at,
        is_var_uint(s),
        i < s.len(),
        at + s.len() <= b.len(),
        b.subrange(at, at + s.len()) == s,
    ensures
        var_uint_len_from(b, at, i) == Ok::<nat, (LoginReadError, int)>(s.len()),
    decreases s.len() - i,
{
    assert(b[at + i] == s[i as int]);
    if i + 1 < s.len() {
        lemma_var_uint_len(b, at, s, i + 1);
    }
}

/// Every login packet whose tokens are within [`MAX_TOKEN_SIZE`] is read back
/// with its protocol version, JWT and raw token, taking exactly its own
/// bytes, whatever follows it.
pub proof fn lemma_read_login_accepts(
    protocol_version: i32,
    request_length: Seq<u8>,
    jwt: Seq<u8>,
    raw_token: Seq<u8>,
    rest: Seq<u8>,
)
    requires
        is_var_uint(request_length),
        jwt.len() <= MAX_TOKEN_SIZE,
        raw_token.len() <= MAX_TOKEN_SIZE,
    ensures
        spec_read_login(login_bytes(protocol_version, request_length, jwt, raw_token) + rest)
            == Ok::<(LoginSpec, int), (LoginReadError, int)>(
            (
                LoginSpec { protocol_version, jwt, raw_token },
                login_bytes(protocol_version, request_length, jwt, raw_token).len() as int,
            ),
        ),
{
    let b = login_bytes(protocol_version, request_length, jwt, raw_token) + rest;
    let n: int = request_length.len() as int;
    let p: int = 4 + n;
    let q: int = p + 4 + jwt.len();
    let e: int = q + 4 + raw_token.len();
    assert(b.subrange(0, 4) =~= be_i32_bytes(protocol_version));
    lemma_be_i32_round_trip(b, protocol_version);
    assert(b.subrange(4, 4 + n) =~= request_length);
    lemma_var_uint_len(b, 4, request_length, 0);
    assert(b.subrange(p, p + 4) =~= le_u32_bytes(jwt.len() as u32));
    lemma_le_u32_round_trip(b, p, jwt.len() as u32);
    assert(b.subrange(p + 4, q) =~= jwt);
    assert(b.subrange(q, q + 4) =~= le_u32_bytes(raw_token.len() as u32));
    lemma_le_u32_round_trip(b, q, raw_token.len() as u32);
    assert(b.subrange(q + 4, e) =~= raw_token);
}

/// A JWT length above [`MAX_TOKEN_SIZE`] is refused right after the length
/// field, whatever follows; so is a raw token length above it after a JWT
/// within it.
pub proof fn lemma_read_login_refuses(
    protocol_version: i32,
    request_length: Seq<u8>,
    jwt: Seq<u8>,
    length: u32,
    rest: Seq<u8>,
)
    requires
        is_var_uint(request_length),
        length > MAX_TOKEN_SIZE,
    ensures
        spec_read_login(be_i32_bytes(protocol_version) + request_length + le_u32_bytes(length)
            + rest) == Err::<(LoginSpec, int), (LoginReadError, int)>(
            (LoginReadError::JwtTooLong, 4 + request_length.len() as int + 4),
        ),
        jwt.len() <= MAX_TOKEN_SIZE ==> spec_read_login(
            be_i32_bytes(protocol_version) + request_length + le_u32_bytes(jwt.len() as u32) + jwt
                + le_u32_bytes(length) + rest,
        ) == Err::<(LoginSpec, int), (LoginReadError, int)>(
            (LoginReadError::RawTokenTooLong, 4 + request_length.len() as int + 4 + jwt.len() + 4),
        ),
{
    let n: int = request_length.len() as int;
    let p: int = 4 + n;
    let b = be_i32_bytes(protocol_version) + request_length + le_u32_bytes(length) + rest;
    assert(b.subrange(4, 4 + n) =~= request_length);
    lemma_var_uint_len(b, 4, request_length, 0);
    assert(b.subrange(p, p + 4) =~= le_u32_bytes(length));
    lemma_le_u32_round_trip(b, p, length);
    if jwt.len() <= MAX_TOKEN_SIZE {
        let c = be_i32_bytes(protocol_version) + request_length + le_u32_bytes(jwt.len() as u32)
            + jwt + le_u32_bytes(length) + rest;
        let q: int = p + 4 + jwt.len();
        assert(c.subrange(4, 4 + n) =~= request_length);
        lemma_var_uint_len(c, 4, request_length, 0);
        assert(c.subrange(p, p + 4) =~= le_u32_bytes(jwt.len() as u32));
        lemma_le_u32_round_trip(c, p, jwt.len() as u32);
        assert(c.subrange(q, q + 4) =~= le_u32_bytes(length));
        lemma_le_u32_round_trip(c, q, length);
    }
}

/// The limit on tokens is 2000 KiB, and a request length may take at most
/// five bytes: a request length whose five bytes all carry the continuation
/// bit is refused right after them, whatever follows.
pub proof fn lemma_read_login_limits(protocol_version: i32, request_length: Seq<u8>, rest: Seq<u8>)
    requires
        request_length.len() == 5,
        forall|i: int| 0 <= i < 5 ==> request_length[i] >= 0x80,
    ensures
        MAX_TOKEN_SIZE == 2_048_000,
        spec_read_login(be_i32_bytes(protocol_version) + request_length + rest) == Err::<
            (LoginSpec, int),
            (LoginReadError, int),
        >((LoginReadError::VarUIntTooLarge, 9)),
{
    let b = be_i32_bytes(protocol_version) + request_length + rest;
    assert forall|i: int| 0 <= i < 5 implies #[trigger] b[4 + i] >= 0x80 by {
        assert(b[4 + i] == request_length[i]);
    }
    assert(b.len() >= 9);
    reveal_with_fuel(var_uint_len_from, 6);
}

/// The input ended before the packet did.
pub open spec fn is_eof(r: Result<(LoginSpec, int), (LoginReadError, int)>) -> bool {
    r matches Err((LoginReadError::UnexpectedEof { .. }, _))
}

proof fn lemma_var_uint_prefix(b: Seq<u8>, rest: Seq<u8>, at: int, i: nat)
    requires
        0 <= at <= b.len(),
        !(var_uint_len_from(b, at, i) matches Err((LoginReadError::UnexpectedEof { .. }, _))),
    ensures
        var_uint_len_from(b + rest, at, i) == var_uint_len_from(b, at, i),
    decreases VAR_UINT_MAX_SIZE - i,
{
    if i < VAR_UINT_MAX_SIZE && at + i < b.len() {
        assert((b + rest)[at + i] == b[at + i]);
        if b[at + i] >= 0x80 {
            lemma_var_uint_prefix(b, rest, at, i + 1);
        }
    }
}

proof fn lemma_var_uint_eof(b: Seq<u8>, at: int, i: nat)
    requires
        0 <= at <= b.len() <= isize::MAX,
        var_uint_len_from(b, at, i) matches Err((LoginReadError::UnexpectedEof { .. }, _)),
    ensures
        var_uint_len_from(b, at, i) matches Err((LoginReadError::UnexpectedEof { needed }, c))
            && needed > b.len() && c == b.len(),
    decreases VAR_UINT_MAX_SIZE - i,
{
    if i < VAR_UINT_MAX_SIZE && at + i < b.len() && b[at + i] >= 0x80 {
        lemma_var_uint_eof(b, at, i + 1);
    }
}

proof fn lemma_token_prefix(b: Seq<u8>, rest: Seq<u8>, at: int, too_long: LoginReadError)
    requires
        0 <= at <= b.len() <= isize::MAX,
        !(too_long is UnexpectedEof),
    ensures
        !(token_at(b, at, too_long) matches Err((LoginReadError::UnexpectedEof { .. }, _)))
            ==> token_at(b + rest, at, too_long) == token_at(b, at, too_long),
        token_at(b, at, too_long) matches Err((LoginReadError::UnexpectedEof { needed }, c))
            ==> needed > b.len() && c == b.len(),
{
    if at + 4 <= b.len() {
        assert((b + rest)[at] == b[at]);
        assert((b + rest)[at + 1] == b[at + 1]);
        assert((b + rest)[at + 2] == b[at + 2]);
        assert((b + rest)[at + 3] == b[at + 3]);
        let n = le_u32_at(b, at);
        if n <= MAX_TOKEN_SIZE && at + 4 + n <= b.len() {
            assert((b + rest).subrange(at + 4, at + 4 + n) =~= b.subrange(at + 4, at + 4 + n));
        }
    }
}

/// Reading a login packet from the bytes read so far either ends for lack of
/// input, asking for more bytes than there are and having consumed them all,
/// or gives what reading the whole stream gives: so a reader that feeds
/// exactly the bytes asked for consumes what reading from the stream directly
/// would, and no byte after the packet or after a refused length.
pub proof fn lemma_read_prefix(b: Seq<u8>, rest: Seq<u8>)
    requires
        b.len() <= isize::MAX,
    ensures
        spec_read_login(b) matches Err((LoginReadError::UnexpectedEof { needed }, c)) ==> needed
            > b.len() && c == b.len(),
        !is_eof(spec_read_login(b)) ==> spec_read_login(b + rest) == spec_read_login(b),
{
    if b.len() >= 4 {
        assert((b + rest)[0] == b[0]);
        assert((b + rest)[1] == b[1]);
        assert((b + rest)[2] == b[2]);
        assert((b + rest)[3] == b[3]);
        if var_uint_len_from(b, 4, 0) matches Err((LoginReadError::UnexpectedEof { .. }, _)) {
            lemma_var_uint_eof(b, 4, 0);
        } else {
            lemma_var_uint_prefix(b, rest, 4, 0);
            if let Ok(n) = var_uint_len_from(b, 4, 0) {
                lemma_var_uint_len_bound(b, 4, 0);
                lemma_token_prefix(b, rest, 4 + n as int, LoginReadError::JwtTooLong);
                if let Ok((jwt, next)) = token_at(b, 4 + n as int, LoginReadError::JwtTooLong) {
                    lemma_token_prefix(b, rest, next, LoginReadError::RawTokenTooLong);
                }
            }
        }
    }
}

proof fn lemma_var_uint_len_bound(b: Seq<u8>, at: int, i: nat)
    requires
        0 <= at,
        var_uint_len_from(b, at, i) is Ok,
    ensures
        at + var_uint_len_from(b, at, i)->Ok_0 <= b.len(),
    decreases VAR_UINT_MAX_SIZE - i,
{
    if i < VAR_UINT_MAX_SIZE && at + i < b.len() && b[at + i] >= 0x80 {
        lemma_var_uint_len_bound(b, at, i + 1);
    }
}

} // verus!
