//! PDF Standard Security Handler, revision 2 with V=1 (40-bit RC4).
//!
//! Password padding, the O and U values, the encryption key and the /P permission
//! flags of the PDF specification's algorithms 2, 3 and 4.
use vstd::prelude::*;
use vstd::utf8::encode_utf8;

use crate::file_identifier::FileIdentifierMode;
use crate::hexfmt::{lower_hex, upper_hex, push_lower_hex, push_upper_hex, lemma_lower_hex_len};
use crate::object::Object;
use crate::strbuf::push_char;

verus! {

/// The 32-byte padding string of the standard security handler.
pub const PDF_PASSWORD_PADDING: [u8; 32] = [
    0x28, 0xBF, 0x4E, 0x5E, 0x4E, 0x75, 0x8A, 0x41, 0x64, 0x00, 0x4B, 0x49, 0xC1, 0xF1, 0x52, 0x28,
    0xDE, 0xAE, 0xD2, 0x3B, 0x61, 0x6F, 0x74, 0x6B, 0x45, 0x2F, 0x72, 0x73, 0x65, 0x54, 0x68, 0xE8,
];

/// The padding string as a sequence.
pub open spec fn password_padding() -> Seq<u8> {
    PDF_PASSWORD_PADDING@
}

//------------------------------ MD5 ------------------------------//

/// The MD5 digest of a byte sequence.
pub uninterp spec fn md5_digest(data: Seq<u8>) -> Seq<u8>;

/// `md5::compute`: the 16-byte MD5 digest of `data`.
/// The contract names the digest `md5_digest(data)` and claims nothing more of it.
#[verifier::external_body]
fn md5_compute(data: &[u8]) -> (digest: [u8; 16])
    ensures
        digest@ == md5_digest(data@),
{
    md5::compute(data).0
}

//--------------------------- Permissions ---------------------------//

/// Permission flags for the /P entry.
#[derive(Debug, Clone, Copy)]
pub struct Permissions {
    pub print: bool,
    pub modify: bool,
    pub copy: bool,
    pub annotate: bool,
}

/// The /P value: all bits set but bits 0 and 1, minus the bits of denied permissions
/// (bit 2 print, bit 3 modify, bit 4 copy, bit 5 annotate).
pub open spec fn permission_value(p: Permissions) -> int {
    -4 - (if p.print { 0int } else { 4 }) - (if p.modify { 0int } else { 8 })
        - (if p.copy { 0int } else { 16 }) - (if p.annotate { 0int } else { 32 })
}

impl Permissions {
    /// Permissions that deny everything.
    pub fn new() -> (p: Self)
        ensures
            !p.print && !p.modify && !p.copy && !p.annotate,
    {
        Self { print: false, modify: false, copy: false, annotate: false }
    }

    /// Encode as a signed 32-bit integer for the /P dictionary entry.
    pub fn as_i32(self) -> (flags: i32)
        ensures
            flags == permission_value(self),
            (flags & 4 != 0) == self.print,
            (flags & 8 != 0) == self.modify,
            (flags & 16 != 0) == self.copy,
            (flags & 32 != 0) == self.annotate,
            flags & 3 == 0,
            flags < 0,
    {
        let mut flags: i32 = -4;
        if !self.print {
            flags = flags & !4i32;
        }
        if !self.modify {
            flags = flags & !8i32;
        }
        if !self.copy {
            flags = flags & !16i32;
        }
        if !self.annotate {
            flags = flags & !32i32;
        }
        proof {
            let (p, m, c, a) = (self.print, self.modify, self.copy, self.annotate);
            let f0: i32 = -4i32;
            let f1: i32 = if !p { f0 & !4i32 } else { f0 };
            let f2: i32 = if !m { f1 & !8i32 } else { f1 };
            let f3: i32 = if !c { f2 & !16i32 } else { f2 };
            let f4: i32 = if !a { f3 & !32i32 } else { f3 };
            assert(f4 == flags);
            assert(
                f4 == -4 - (if p { 0i32 } else { 4i32 }) - (if m { 0i32 } else { 8i32 })
                    - (if c { 0i32 } else { 16i32 }) - (if a { 0i32 } else { 32i32 })
                && (f4 & 4 != 0) == p && (f4 & 8 != 0) == m && (f4 & 16 != 0) == c
                && (f4 & 32 != 0) == a && f4 & 3 == 0 && f4 < 0
            ) by (bit_vector)
                requires
                    f0 == -4i32,
                    f1 == (if !p { f0 & !4i32 } else { f0 }),
                    f2 == (if !m { f1 & !8i32 } else { f1 }),
                    f3 == (if !c { f2 & !16i32 } else { f2 }),
                    f4 == (if !a { f3 & !32i32 } else { f3 }),
            ;
        }
        flags
    }
}

//------------------------- EncryptionConfig -------------------------//

pub struct EncryptionConfig {
    pub owner_password: String,
    pub user_password: String,
    pub permissions: Permissions,
}

impl EncryptionConfig {
    /// Empty passwords and no permissions.
    pub fn new() -> (c: Self)
        ensures
            c.owner_password@ == Seq::<char>::empty(),
            c.user_password@ == Seq::<char>::empty(),
            !c.permissions.print && !c.permissions.modify && !c.permissions.copy
                && !c.permissions.annotate,
    {
        Self { owner_password: String::new(), user_password: String::new(), permissions: Permissions::new() }
    }

    pub fn with_owner_password(self, password: &str) -> (c: Self)
        ensures
            c.owner_password@ == password@,
            c.user_password@ == self.user_password@,
            c.permissions == self.permissions,
    {
        Self { owner_password: crate::strbuf::owned(password), user_password: self.user_password, permissions: self.permissions }
    }

    pub fn with_user_password(self, password: &str) -> (c: Self)
        ensures
            c.user_password@ == password@,
            c.owner_password@ == self.owner_password@,
            c.permissions == self.permissions,
    {
        Self { owner_password: self.owner_password, user_password: crate::strbuf::owned(password), permissions: self.permissions }
    }

    pub fn with_permissions(self, permissions: Permissions) -> (c: Self)
        ensures
            c.permissions == permissions,
            c.owner_password@ == self.owner_password@,
            c.user_password@ == self.user_password@,
    {
        Self { owner_password: self.owner_password, user_password: self.user_password, permissions }
    }
}

/// Raw cryptographic outputs.
pub struct EncryptionValues {
    pub o_value: [u8; 32],
    pub u_value: [u8; 32],
    pub permissions: i32,
    pub encryption_key: [u8; 5],
}

//------------------------------ padding ------------------------------//

/// A password cut to 32 bytes, or completed to 32 bytes with the start of the padding string.
pub open spec fn padded_password(password: Seq<u8>) -> Seq<u8> {
    if password.len() >= 32 {
        password.take(32)
    } else {
        password + password_padding().take(32 - password.len())
    }
}

/// Pad or truncate a password to exactly 32 bytes using the PDF padding string.
pub fn pad_password(password: &[u8]) -> (padded: [u8; 32])
    ensures
        padded@ == padded_password(password@),
{
    let mut padded = [0u8; 32];
    let len: usize = if password.len() < 32 { password.len() } else { 32 };
    let mut i: usize = 0;
    while i < len
        invariant
            len <= 32,
            len <= password@.len(),
            i <= len,
            forall|k: int| 0 <= k < i ==> padded@[k] == password@[k],
        decreases len - i,
    {
        padded[i] = password[i];
        i = i + 1;
    }
    while i < 32
        invariant
            len <= 32,
            len <= password@.len(),
            len == password@.len() || len == 32,
            len <= i <= 32,
            forall|k: int| 0 <= k < len ==> padded@[k] == password@[k],
            forall|k: int| len <= k < i ==> padded@[k] == PDF_PASSWORD_PADDING@[k - len],
        decreases 32 - i,
    {
        padded[i] = PDF_PASSWORD_PADDING[i - len];
        i = i + 1;
    }
    assert(padded@ =~= padded_password(password@));
    padded
}

//------------------------------- RC4 -------------------------------//

/// `s` with the entries at `a` and `b` exchanged.
pub open spec fn swapped(s: Seq<u8>, a: int, b: int) -> Seq<u8> {
    s.update(a, s[b]).update(b, s[a])
}

/// The identity permutation of 0..256.
pub open spec fn identity_state() -> Seq<u8> {
    Seq::new(256, |i: int| i as u8)
}

/// RC4 key scheduling after `n` of its 256 steps: the state and the index `j`.
pub open spec fn ksa_upto(key: Seq<u8>, n: nat) -> (Seq<u8>, int)
    decreases n,
{
    if n == 0 {
        (identity_state(), 0)
    } else {
        let (s, j) = ksa_upto(key, (n - 1) as nat);
        let i = n - 1;
        let j2 = (j + s[i] + key[i % (key.len() as int)]) % 256;
        (swapped(s, i, j2), j2)
    }
}

/// RC4 generation after `n` output bytes: the state and the indices `i` and `j`.
pub open spec fn prga_upto(key: Seq<u8>, n: nat) -> (Seq<u8>, int, int)
    decreases n,
{
    if n == 0 {
        (ksa_upto(key, 256).0, 0, 0)
    } else {
        let (s, i, j) = prga_upto(key, (n - 1) as nat);
        let i2 = (i + 1) % 256;
        let j2 = (j + s[i2]) % 256;
        (swapped(s, i2, j2), i2, j2)
    }
}

/// Every byte value stands somewhere in `s`.
pub open spec fn holds_every_byte(s: Seq<u8>) -> bool {
    &&& s.len() == 256
    &&& forall|x: u8| #[trigger] holds_byte(s, x)
}

/// The byte value `x` stands somewhere in `s`.
pub open spec fn holds_byte(s: Seq<u8>, x: u8) -> bool {
    exists|k: int| 0 <= k < s.len() && #[trigger] s[k] == x
}

/// Exchanging two entries keeps every byte value in the state.
proof fn lemma_swapped_holds_every_byte(s: Seq<u8>, a: int, b: int)
    requires
        holds_every_byte(s),
        0 <= a < 256,
        0 <= b < 256,
    ensures
        holds_every_byte(swapped(s, a, b)),
{
    let t = swapped(s, a, b);
    assert forall|x: u8| #[trigger] holds_byte(t, x) by {
        assert(holds_byte(s, x));
        let k = choose|k: int| 0 <= k < s.len() && #[trigger] s[k] == x;
        if k == a {
            assert(t[b] == x);
        } else if k == b {
            assert(t[a] == x);
        } else {
            assert(t[k] == x);
        }
    }
}

/// Key scheduling keeps the state a permutation of the 256 byte values, with `j` in range.
pub proof fn lemma_ksa_permutation(key: Seq<u8>, n: nat)
    requires
        key.len() > 0,
        n <= 256,
    ensures
        holds_every_byte(ksa_upto(key, n).0),
        0 <= ksa_upto(key, n).1 < 256,
    decreases n,
{
    if n == 0 {
        let s = identity_state();
        assert forall|x: u8| #[trigger] holds_byte(s, x) by {
            assert(s[x as int] == x);
        }
    } else {
        lemma_ksa_permutation(key, (n - 1) as nat);
        let (s, j) = ksa_upto(key, (n - 1) as nat);
        let i = n - 1;
        let j2 = (j + s[i] + key[i % (key.len() as int)]) % 256;
        lemma_swapped_holds_every_byte(s, i, j2);
    }
}

/// Generation keeps the state a permutation of the 256 byte values, with `i` and `j` in
/// range, after any number of output bytes.
pub proof fn lemma_prga_permutation(key: Seq<u8>, n: nat)
    requires
        key.len() > 0,
    ensures
        holds_every_byte(prga_upto(key, n).0),
        0 <= prga_upto(key, n).1 < 256,
        0 <= prga_upto(key, n).2 < 256,
    decreases n,
{
    if n == 0 {
        lemma_ksa_permutation(key, 256);
    } else {
        lemma_prga_permutation(key, (n - 1) as nat);
        let (s, i, j) = prga_upto(key, (n - 1) as nat);
        let i2 = (i + 1) % 256;
        let j2 = (j + s[i2]) % 256;
        lemma_swapped_holds_every_byte(s, i2, j2);
    }
}

/// The generation index `i` counts the output bytes modulo 256: after `n` bytes it is
/// `n % 256`, and `j` stays a valid state index.
pub proof fn lemma_prga_index(key: Seq<u8>, n: nat)
    ensures
        prga_upto(key, n).1 == n % 256,
        0 <= prga_upto(key, n).2 < 256,
    decreases n,
{
    if n > 0 {
        lemma_prga_index(key, (n - 1) as nat);
        let m = (n - 1) as nat;
        assert((m % 256 + 1) % 256 == n % 256) by {
            vstd::arithmetic::div_mod::lemma_add_mod_noop(m as int, 1, 256);
        }
    }
}

/// The `k`-th byte of the RC4 key stream.
pub open spec fn keystream_byte(key: Seq<u8>, k: nat) -> u8 {
    let (s, i, j) = prga_upto(key, k + 1);
    s[(s[i] + s[j]) % 256]
}

/// RC4 of `data` under `key`: each byte exclusive-or'ed with the key stream.
pub open spec fn rc4_spec(key: Seq<u8>, data: Seq<u8>) -> Seq<u8> {
    Seq::new(data.len(), |k: int| data[k] ^ keystream_byte(key, k as nat))
}

/// RC4 is its own inverse: encrypting twice under one key gives the data back.
pub proof fn lemma_rc4_involution(key: Seq<u8>, data: Seq<u8>)
    ensures
        rc4_spec(key, rc4_spec(key, data)) == data,
{
    assert forall|k: int| 0 <= k < data.len() implies #[trigger] rc4_spec(key, rc4_spec(key, data))[k] == data[k] by {
        let a = data[k];
        let b = keystream_byte(key, k as nat);
        assert((a ^ b) ^ b == a) by (bit_vector);
    }
    assert(rc4_spec(key, rc4_spec(key, data)) =~= data);
}

/// Simple RC4 encrypt/decrypt (symmetric: the same operation for both).
pub fn rc4(key: &[u8], data: &[u8]) -> (output: Vec<u8>)
    requires
        key@.len() > 0,
    ensures
        output@ == rc4_spec(key@, data@),
{
    let mut s: [u8; 256] = [0u8; 256];
    let mut i: usize = 0;
    while i < 256
        invariant
            i <= 256,
            forall|k: int| 0 <= k < i ==> s@[k] == k as u8,
        decreases 256 - i,
    {
        s[i] = i as u8;
        i = i + 1;
    }
    assert(s@ =~= identity_state());
    let mut j: usize = 0;
    i = 0;
    while i < 256
        invariant
            key@.len() > 0,
            i <= 256,
            j < 256,
            ksa_upto(key@, i as nat) == (s@, j as int),
        decreases 256 - i,
    {
        j = (j + s[i] as usize + key[i % key.len()] as usize) % 256;
        let si = s[i];
        let sj = s[j];
        s[i] = sj;
        s[j] = si;
        i = i + 1;
        assert(s@ =~= swapped(ksa_upto(key@, (i - 1) as nat).0, i - 1, j as int));
    }
    let mut output: Vec<u8> = Vec::new();
    let mut n: usize = 0;
    i = 0;
    j = 0;
    assert(prga_upto(key@, 0) == (s@, 0int, 0int));
    while n < data.len()
        invariant
            n <= data@.len(),
            i < 256,
            j < 256,
            prga_upto(key@, n as nat) == (s@, i as int, j as int),
            output@ == rc4_spec(key@, data@).take(n as int),
        decreases data@.len() - n,
    {
        i = (i + 1) % 256;
        j = (j + s[i] as usize) % 256;
        let si = s[i];
        let sj = s[j];
        s[i] = sj;
        s[j] = si;
        let ghost prev = prga_upto(key@, n as nat);
        assert(s@ =~= swapped(prev.0, i as int, j as int));
        let k = s[(s[i] as usize + s[j] as usize) % 256];
        output.push(data[n] ^ k);
        n = n + 1;
        assert(output@ =~= rc4_spec(key@, data@).take(n as int));
    }
    assert(rc4_spec(key@, data@).take(n as int) =~= rc4_spec(key@, data@));
    output
}

//------------------------- O, key and U values -------------------------//

/// Algorithm 3: the O value from the owner and user passwords.
pub open spec fn o_value_spec(owner_password: Seq<u8>, user_password: Seq<u8>) -> Seq<u8> {
    let owner = if owner_password.len() == 0 { user_password } else { owner_password };
    rc4_spec(md5_digest(padded_password(owner)).take(5), padded_password(user_password))
}

/// The four little-endian bytes of a 32-bit two's-complement value.
pub open spec fn le_bytes_i32(p: i32) -> Seq<u8> {
    let u = p as u32;
    seq![(u & 0xff) as u8, ((u >> 8) & 0xff) as u8, ((u >> 16) & 0xff) as u8, ((u >> 24) & 0xff) as u8]
}

/// Algorithm 2: the first five bytes of the MD5 digest of the padded user password,
/// the O value, the permissions and the file identifier.
pub open spec fn encryption_key_spec(user_password: Seq<u8>, o_value: Seq<u8>, permissions: i32, file_id: Seq<u8>) -> Seq<u8> {
    md5_digest(padded_password(user_password) + o_value + le_bytes_i32(permissions) + file_id).take(5)
}

/// The four bytes `le_bytes_i32` gives for `p`, read back as a little-endian number, are
/// `p` as an unsigned 32-bit value.
pub proof fn lemma_le_bytes_i32_value(p: i32)
    ensures
        le_bytes_i32(p).len() == 4,
        le_bytes_i32(p)[0] + 256 * le_bytes_i32(p)[1] + 65536 * le_bytes_i32(p)[2]
            + 16777216 * le_bytes_i32(p)[3] == p as u32,
{
    let u = p as u32;
    assert((u & 0xff) as u8 + 256 * ((u >> 8) & 0xff) as u8 + 65536 * ((u >> 16) & 0xff) as u8
        + 16777216 * ((u >> 24) & 0xff) as u8 == u) by (bit_vector);
}

/// Algorithm 2 hashes the padded user password, the O value, the permissions and the file
/// identifier, in this order: the key is the first five bytes of the MD5 digest of a
/// `68 + file_id.len()`-byte input made of the 32 padded password bytes, the 32 bytes of
/// `o_value`, the four little-endian bytes of `permissions` and then the file identifier.
pub proof fn lemma_encryption_key_input(user_password: Seq<u8>, o_value: Seq<u8>, permissions: i32, file_id: Seq<u8>)
    requires
        o_value.len() == 32,
    ensures
        exists|input: Seq<u8>| {
            &&& encryption_key_spec(user_password, o_value, permissions, file_id) == md5_digest(input).take(5)
            &&& input.len() == 68 + file_id.len()
            &&& input.take(32) == padded_password(user_password)
            &&& input.subrange(32, 64) == o_value
            &&& input[64] + 256 * input[65] + 65536 * input[66] + 16777216 * input[67] == permissions as u32
            &&& input.skip(68) == file_id
        },
{
    let input = padded_password(user_password) + o_value + le_bytes_i32(permissions) + file_id;
    lemma_padded_password_len(user_password);
    lemma_le_bytes_i32_value(permissions);
    let pad = padded_password(user_password);
    let le = le_bytes_i32(permissions);
    assert(input.take(32) =~= pad);
    assert(input.subrange(32, 64) =~= o_value);
    assert(input.skip(68) =~= file_id);
    assert(input[64] == le[0] && input[65] == le[1] && input[66] == le[2] && input[67] == le[3]);
    assert(encryption_key_spec(user_password, o_value, permissions, file_id) == md5_digest(input).take(5));
}

/// A padded password has 32 bytes: the password's first ones, then the padding string.
pub proof fn lemma_padded_password_len(password: Seq<u8>)
    ensures
        padded_password(password).len() == 32,
        forall|i: int| 0 <= i < 32 && i < password.len() ==> #[trigger] padded_password(password)[i] == password[i],
        forall|i: int| password.len() <= i < 32 ==> #[trigger] padded_password(password)[i] == password_padding()[i - password.len()],
{
}

/// Algorithm 4: the padding string encrypted under the encryption key.
pub open spec fn u_value_spec(key: Seq<u8>) -> Seq<u8> {
    rc4_spec(key, password_padding())
}

/// With no owner password the user password stands in for it: the O value is the one an
/// owner password equal to the user password gives.
pub proof fn lemma_o_value_owner_fallback(user_password: Seq<u8>)
    ensures
        o_value_spec(Seq::empty(), user_password) == o_value_spec(user_password, user_password),
{
}

/// The owner password recovers the user password: decrypting the O value with the key made
/// from the padded owner password gives back the padded user password.
pub proof fn lemma_o_value_recovers_user(owner_password: Seq<u8>, user_password: Seq<u8>)
    requires
        owner_password.len() > 0,
    ensures
        rc4_spec(md5_digest(padded_password(owner_password)).take(5), o_value_spec(owner_password, user_password))
            == padded_password(user_password),
{
    lemma_rc4_involution(md5_digest(padded_password(owner_password)).take(5), padded_password(user_password));
}

/// The U value authenticates the key: decrypting it under the encryption key gives the
/// padding string back.
pub proof fn lemma_u_value_decrypts(key: Seq<u8>)
    ensures
        rc4_spec(key, u_value_spec(key)) == password_padding(),
        u_value_spec(key).len() == 32,
{
    lemma_rc4_involution(key, password_padding());
}

/// The first 32 bytes of `v`.
fn first_32(v: &Vec<u8>) -> (a: [u8; 32])
    requires
        v@.len() >= 32,
    ensures
        a@ == v@.take(32),
{
    let mut a = [0u8; 32];
    let mut i: usize = 0;
    while i < 32
        invariant
            i <= 32,
            v@.len() >= 32,
            forall|k: int| 0 <= k < i ==> a@[k] == v@[k],
        decreases 32 - i,
    {
        a[i] = v[i];
        i = i + 1;
    }
    assert(a@ =~= v@.take(32));
    a
}

/// The first five bytes of a digest.
fn first_5(d: &[u8; 16]) -> (a: [u8; 5])
    ensures
        a@ == d@.take(5),
{
    let a = [d[0], d[1], d[2], d[3], d[4]];
    assert(a@ =~= d@.take(5));
    a
}

/// Algorithm 3: computing the O (owner password) value.
pub fn compute_o_value(owner_password: &[u8], user_password: &[u8]) -> (o_value: [u8; 32])
    ensures
        o_value@ == o_value_spec(owner_password@, user_password@),
{
    let owner_pwd = if owner_password.len() == 0 { user_password } else { owner_password };
    let padded_owner = pad_password(owner_pwd);
    let hash = md5_compute(&padded_owner);
    let rc4_key = first_5(&hash);
    let padded_user = pad_password(user_password);
    let encrypted = rc4(&rc4_key, &padded_user);
    let o_value = first_32(&encrypted);
    assert(o_value@ =~= o_value_spec(owner_password@, user_password@));
    o_value
}

/// The little-endian bytes of `p`.
fn le_bytes(p: i32) -> (b: [u8; 4])
    ensures
        b@ == le_bytes_i32(p),
{
    let u = p as u32;
    let b = [(u & 0xff) as u8, ((u >> 8) & 0xff) as u8, ((u >> 16) & 0xff) as u8, ((u >> 24) & 0xff) as u8];
    assert(b@ =~= le_bytes_i32(p));
    b
}

/// Appends all of `src` to `dst`.
fn extend_bytes(dst: &mut Vec<u8>, src: &[u8])
    ensures
        final(dst)@ == old(dst)@ + src@,
{
    let ghost start = dst@;
    let mut i: usize = 0;
    while i < src.len()
        invariant
            i <= src@.len(),
            dst@ == start + src@.take(i as int),
        decreases src@.len() - i,
    {
        dst.push(src[i]);
        i = i + 1;
        assert(dst@ =~= start + src@.take(i as int));
    }
    assert(src@.take(i as int) =~= src@);
}

/// Algorithm 2: computing an encryption key.
pub fn compute_encryption_key(user_password: &[u8], o_value: &[u8; 32], permissions: i32, file_id: &[u8]) -> (key: [u8; 5])
    ensures
        key@ == encryption_key_spec(user_password@, o_value@, permissions, file_id@),
{
    let padded = pad_password(user_password);
    let mut input: Vec<u8> = Vec::new();
    extend_bytes(&mut input, &padded);
    extend_bytes(&mut input, o_value);
    let p = le_bytes(permissions);
    extend_bytes(&mut input, &p);
    extend_bytes(&mut input, file_id);
    assert(input@ =~= padded_password(user_password@) + o_value@ + le_bytes_i32(permissions) + file_id@);
    let hash = md5_compute(input.as_slice());
    first_5(&hash)
}

/// Algorithm 4: computing the U (user password) value.
pub fn compute_u_value(encryption_key: &[u8; 5]) -> (u_value: [u8; 32])
    ensures
        u_value@ == u_value_spec(encryption_key@),
{
    let padding = PDF_PASSWORD_PADDING;
    let encrypted = rc4(encryption_key, &padding);
    let u = first_32(&encrypted);
    assert(u@ =~= u_value_spec(encryption_key@));
    u
}

/// Compute all encryption values from a configuration and a file identifier.
pub fn compute_encryption_values(config: &EncryptionConfig, file_id_bytes: &[u8]) -> (vals: EncryptionValues)
    ensures
        ({
            let owner = encode_utf8(config.owner_password@);
            let user = encode_utf8(config.user_password@);
            let p = permission_value(config.permissions);
            &&& vals.permissions == p
            &&& vals.o_value@ == o_value_spec(owner, user)
            &&& vals.encryption_key@ == encryption_key_spec(user, o_value_spec(owner, user), vals.permissions, file_id_bytes@)
            &&& vals.u_value@ == u_value_spec(vals.encryption_key@)
        }),
{
    let owner_pwd = config.owner_password.as_str().as_bytes();
    let user_pwd = config.user_password.as_str().as_bytes();
    let p_value = config.permissions.as_i32();
    let o_value = compute_o_value(owner_pwd, user_pwd);
    let encryption_key = compute_encryption_key(user_pwd, &o_value, p_value, file_id_bytes);
    let u_value = compute_u_value(&encryption_key);
    EncryptionValues { o_value, u_value, permissions: p_value, encryption_key }
}

//---------------------------- file identifier ----------------------------//

/// The MD5 digest of no data, in lower-case hex, and the ASCII bytes of that hex text.
pub fn compute_data_hash(_objects: &[Object]) -> (res: (String, Vec<u8>))
    ensures
        res.0@ == lower_hex(md5_digest(Seq::empty())),
        res.1@ == encode_utf8(res.0@),
        res.1@.len() == 32,
{
    let empty: [u8; 0] = [];
    let digest = md5_compute(&empty);
    assert(empty@ =~= Seq::<u8>::empty());
    let mut hex = String::new();
    push_lower_hex(&mut hex, &digest);
    proof { lemma_lower_hex_len(digest@); }
    let bytes = vstd::slice::slice_to_vec(hex.as_str().as_bytes());
    proof {
        crate::hexfmt::lemma_lower_hex_is_ascii(digest@);
        vstd::utf8::is_ascii_chars_encode_utf8(hex@);
    }
    (hex, bytes)
}

/// The identifier bytes: the custom bytes of `Custom`, else the data hash bytes.
pub fn get_id_bytes<'a>(identifier_mode: &'a FileIdentifierMode, data_hash_bytes: &'a [u8]) -> (b: &'a [u8])
    ensures
        b@ == (match identifier_mode {
            FileIdentifierMode::Custom(bytes) => bytes@,
            _ => data_hash_bytes@,
        }),
{
    match identifier_mode {
        FileIdentifierMode::Custom(bytes) => bytes.as_slice(),
        _ => data_hash_bytes,
    }
}

/// Encode a raw byte slice as a PDF hex string, e.g. `<4F3A...>`.
pub fn bytes_to_pdf_hex_string(bytes: &[u8]) -> (hex: String)
    ensures
        hex@ == seq!['<'] + upper_hex(bytes@) + seq!['>'],
{
    let mut hex = String::new();
    push_char(&mut hex, '<');
    push_upper_hex(&mut hex, bytes);
    push_char(&mut hex, '>');
    assert(hex@ =~= seq!['<'] + upper_hex(bytes@) + seq!['>']);
    hex
}

} // verus!
